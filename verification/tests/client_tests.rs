use yandex_tracker_api_rust::task::{CreatedTaskBody, CreatedTaskInfo, UpdatedTask,
    UpdatedTaskInfo};
use yandex_tracker_api_rust::task_api_client::{HandleResponseError, TaskApiClient};

fn client() -> TaskApiClient {
    TaskApiClient::new(String::from("token-1"), String::from("org-1"))
}

const SUCCESS_BODY: &str = r#"
{
    "self": "https://api.tracker.yandex.net/v2/issues/Q-1",
    "id": "id-1",
    "key": "Q-1",
    "version": 1,
    "summary": "Parent",
    "description": null,
    "status": {"id": "1", "key": "open", "display": "Open"},
    "createdBy": {"self": "https://api/users/1", "id": "u1", "display": "User One"},
    "createdAt": "2024-01-01T00:00:00Z",
    "updatedAt": "2024-01-01T00:00:00Z"
}"#;

#[test]
fn test_handle_response_success() {
    let result = TaskApiClient::handle_response(200, SUCCESS_BODY).unwrap();
    assert_eq!(result.key, "Q-1");
    assert_eq!(result.version, 1);
    assert_eq!(result.status.key, "open");
    assert_eq!(result.created_by.display, "User One");

    let created = TaskApiClient::handle_response(201, SUCCESS_BODY).unwrap();
    assert_eq!(created.key, "Q-1");
}

#[test]
fn test_handle_response_rejection() {
    let body = r#"
    {
        "errorMessages": ["Queue not found"],
        "errors": {"priority": "bad"},
        "statusCode": 404
    }"#;
    let result = TaskApiClient::handle_response(404, body);
    match result {
        Err(HandleResponseError::Response(e)) => {
            assert_eq!(e.error_messages, vec![String::from("Queue not found")]);
            assert_eq!(e.status_code, 404);
            assert_eq!(e.errors_model.unwrap().priority.as_deref(), Some("bad"));
        }
        _ => panic!("expected a typed rejection"),
    }
}

#[test]
fn test_handle_response_parse_failures() {
    let garbled = TaskApiClient::handle_response(200, "not json");
    assert!(matches!(garbled, Err(HandleResponseError::Parse(_))));
    // A success status with an error-shaped body is a parse failure too.
    let wrong_shape = TaskApiClient::handle_response(
        200,
        r#"{"errorMessages": [], "statusCode": 500}"#,
    );
    assert!(matches!(wrong_shape, Err(HandleResponseError::Parse(_))));
    // A failure status with an unparsable body is a parse failure.
    let bad_error = TaskApiClient::handle_response(500, "oops");
    assert!(matches!(bad_error, Err(HandleResponseError::Parse(_))));
}

#[test]
fn test_create_request_shape() {
    let body = CreatedTaskBody {
        queue: String::from("Q"),
        summary: String::from("A task"),
        parent: None,
        description: Some(String::from("d")),
        sprint: Vec::new(),
        task_type: None,
        priority: None,
        followers: Vec::new(),
        assignee: None,
        author: None,
        unique: None,
        attachment_ids: Vec::new(),
    };
    let request = client().create_task(body);
    assert_eq!(request.method, "POST");
    assert_eq!(request.url, "https://api.tracker.yandex.net/v2/issues");
    // Absent optional attributes are left out of the body entirely.
    assert_eq!(
        request.body,
        r#"{"queue":"Q","summary":"A task","description":"d","sprint":[],"followers":[],"attachmentIds":[]}"#
    );
}

#[test]
fn test_update_request_shape() {
    let info = UpdatedTaskInfo {
        issue_id: String::from("Q-7"),
        summary: Some(String::from("new")),
        parent: None,
        description: None,
        sprint: None,
        task_type: None,
        priority: None,
        followers: Vec::new(),
        attachment_ids: Vec::new(),
        description_attachment_ids: Vec::new(),
    };
    let issue_id = info.issue_id.clone();
    let body = UpdatedTask::from(info);
    let request = client().update_task(&issue_id, body);
    assert_eq!(request.method, "PATCH");
    assert_eq!(request.url, "https://api.tracker.yandex.net/v2/issues/Q-7");
    // The issue id travels in the URL; the body holds only the patch.
    assert_eq!(
        request.body,
        r#"{"summary":"new","followers":[],"attachmentIds":[],"descriptionAttachmentIds":[]}"#
    );
}

#[test]
fn test_delete_request_shape() {
    let request = client().delete_task(&String::from("Q-9"));
    assert_eq!(request.method, "DELETE");
    assert_eq!(request.url, "https://api.tracker.yandex.net/v2/issues/Q-9");
    assert!(request.body.is_empty());
}

#[test]
fn test_headers() {
    let c = client();
    assert_eq!(c.auth_header_value(), "OAuth token-1");
    assert_eq!(c.org_header_value(), "org-1");
}

#[test]
fn test_body_conversions() {
    let task = CreatedTaskInfo {
        queue: String::from("Q"),
        summary: String::from("S"),
        parent: Some(String::from("P-1")),
        description: None,
        sprint: vec![String::from("s")],
        task_type: None,
        priority: None,
        followers: Vec::new(),
        assignee: None,
        author: None,
        unique: None,
        attachment_ids: Vec::new(),
        subtasks: vec![CreatedTaskInfo {
            queue: String::from("Q"),
            summary: String::from("sub"),
            parent: None,
            description: None,
            sprint: Vec::new(),
            task_type: None,
            priority: None,
            followers: Vec::new(),
            assignee: None,
            author: None,
            unique: None,
            attachment_ids: Vec::new(),
            subtasks: Vec::new(),
        }],
    };
    let body = CreatedTaskBody::from(task);
    assert_eq!(body.queue, "Q");
    assert_eq!(body.summary, "S");
    assert_eq!(body.parent.as_deref(), Some("P-1"));
    assert_eq!(body.sprint, vec![String::from("s")]);
}

#[test]
fn test_set_reparents_and_keeps_the_rest() {
    let task = CreatedTaskInfo {
        queue: String::from("Q"),
        summary: String::from("S"),
        parent: None,
        description: Some(String::from("d")),
        sprint: Vec::new(),
        task_type: None,
        priority: Some(String::from("low")),
        followers: Vec::new(),
        assignee: None,
        author: None,
        unique: None,
        attachment_ids: Vec::new(),
        subtasks: Vec::new(),
    };
    let moved = task.set(String::from("Q-1"), String::from("Q2"));
    assert_eq!(moved.queue, "Q2");
    assert_eq!(moved.parent.as_deref(), Some("Q-1"));
    assert_eq!(moved.summary, "S");
    assert_eq!(moved.description.as_deref(), Some("d"));
    assert_eq!(moved.priority.as_deref(), Some("low"));
}

#[test]
fn test_update_patch_emptiness() {
    let empty = UpdatedTaskInfo {
        issue_id: String::from("Q-1"),
        summary: None,
        parent: None,
        description: None,
        sprint: None,
        task_type: None,
        priority: None,
        followers: Vec::new(),
        attachment_ids: Vec::new(),
        description_attachment_ids: Vec::new(),
    };
    assert!(empty.is_empty());
    let mut one_field = empty.clone();
    one_field.priority = Some(String::from("high"));
    assert!(!one_field.is_empty());
    let mut one_list = empty.clone();
    one_list.followers.push(String::from("f"));
    assert!(!one_list.is_empty());
}

#[test]
fn test_default_templates() {
    let task = CreatedTaskInfo::default();
    assert_eq!(task.queue, "The queue to which the task belongs");
    assert_eq!(task.summary, "A brief summary of the task");
    let update = UpdatedTaskInfo::default();
    assert_eq!(update.issue_id, "The ID of the issue to be updated");
    let batch = yandex_tracker_api_rust::task_batch::TaskBatch::default();
    assert_eq!(batch.created.len(), 1);
    assert_eq!(batch.created[0].subtasks.len(), 1);
    assert_eq!(batch.updated.len(), 1);
    let config = yandex_tracker_api_rust::Config::default();
    assert_eq!(config.redirect_uri, "http://localhost:8000: The redirect URI for the application");
}
