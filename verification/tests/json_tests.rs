use yandex_tracker_api_rust::task::CreatedTaskInfo;
use yandex_tracker_api_rust::task_batch::{TaskBatch, TaskBatchError};
use yandex_tracker_api_rust::token_response::TokenResponse;

#[test]
fn test_created_task_full() {
    let json_data = r#"
    {
        "queue": "main_queue",
        "summary": "Full Task",
        "parent": "parent_task_id",
        "description": "This is a full task",
        "sprint": ["sprint1", "sprint2"],
        "type": "task",
        "priority": "high",
        "followers": ["follower1@example.com", "follower2@example.com"],
        "assignee": "assignee@example.com",
        "author": "author@example.com",
        "unique": "unique_id",
        "attachmentIds": ["attachment1", "attachment2"],
        "subtasks": [{
            "queue": "main_queue",
            "summary": "Full Task",
            "parent": "parent_task_id",
            "description": "This is a full task",
            "sprint": ["sprint1", "sprint2"],
            "type": "task",
            "priority": "high",
            "followers": ["follower1@example.com", "follower2@example.com"],
            "assignee": "assignee@example.com",
            "author": "author@example.com",
            "unique": "unique_id",
            "attachmentIds": ["attachment1", "attachment2"],
            "subtasks": []
    }]
    }"#;

    let task: CreatedTaskInfo = CreatedTaskInfo::create_from_json(json_data).unwrap();
    assert!(task.has_required_fields());
}

#[test]
fn test_created_task_minimal() {
    let json_data = r#"
    {
        "queue": "main_queue",
        "summary": "Minimal Task",
        "subtasks": []
    }"#;

    let task: CreatedTaskInfo = CreatedTaskInfo::create_from_json(json_data).unwrap();
    assert!(task.has_required_fields());
}

#[test]
fn test_created_task_empty_fields() {
    let json_data = r#"
    {
        "queue": "",
        "summary": "",
        "subtasks": []
    }"#;

    let task: CreatedTaskInfo = CreatedTaskInfo::create_from_json(json_data).unwrap();
    assert!(!task.has_required_fields());
}

#[test]
fn test_task_batch_minimal() {
    let json_data = r#"
    {
        "created": [
            {
                "queue": "main_queue",
                "summary": "Minimal Task"
            }
        ],
        "updated": [],
        "deleted": []
    }"#;

    let task_batch: TaskBatch = TaskBatch::create_from_json(json_data).unwrap();
    assert!(task_batch.is_valid());
}

#[test]
fn test_task_batch_empty_fields() {
    let json_data = r#"
    {
        "created": [
            {
                "queue": "",
                "summary": ""
            }
        ],
        "updated": [],
        "deleted": []
    }"#;

    let result = TaskBatch::create_from_json(json_data);
    assert!(matches!(result, Err(TaskBatchError::InvalidTaskError)));
}

#[test]
fn test_invalid_updated_tasks() {
    let json_data = r#"
    {
        "created": [],
        "updated": [
            {
                "issue_id": "TASK-123",
                "mut_task": {
                    "summary": null,
                    "description": null,
                    "sprint": null,
                    "type": null,
                    "priority": null,
                    "followers": [],
                    "attachmentIds": [],
                    "descriptionAttachmentIds": []
                }
            }
        ],
        "deleted": []
    }"#;

    let result = TaskBatch::create_from_json(json_data);
    assert!(matches!(result, Err(TaskBatchError::InvalidTaskError)));
}

#[test]
fn test_batch_round_trip() {
    let parent = CreatedTaskInfo {
        queue: String::from("Q"),
        summary: String::from("Parent \"quoted\" \\ text"),
        parent: None,
        description: Some(String::from("a description")),
        sprint: vec![String::from("s1")],
        task_type: None,
        priority: Some(String::from("high")),
        followers: Vec::new(),
        assignee: None,
        author: None,
        unique: Some(String::from("u-1")),
        attachment_ids: vec![String::from("a1"), String::from("a2")],
        subtasks: vec![CreatedTaskInfo {
            queue: String::from("Q"),
            summary: String::from("Child"),
            parent: None,
            description: None,
            sprint: Vec::new(),
            task_type: None,
            priority: None,
            followers: Vec::new(),
            assignee: None,
            author: None,
            unique: None,
            attachment_ids: Vec::new(),
            subtasks: Vec::new(),
        }],
    };
    let update = yandex_tracker_api_rust::task::UpdatedTaskInfo {
        issue_id: String::from("TASK-9"),
        summary: Some(String::from("new summary")),
        parent: None,
        description: None,
        sprint: None,
        task_type: None,
        priority: None,
        followers: Vec::new(),
        attachment_ids: Vec::new(),
        description_attachment_ids: Vec::new(),
    };
    let batch = TaskBatch {
        created: vec![parent],
        updated: vec![update],
    };
    let text = batch.to_json_string();
    let back = TaskBatch::create_from_json(&text).unwrap();
    assert_eq!(back.created.len(), 1);
    assert_eq!(back.updated.len(), 1);
    assert_eq!(back.created[0].queue, "Q");
    assert_eq!(back.created[0].summary, "Parent \"quoted\" \\ text");
    assert_eq!(back.created[0].description.as_deref(), Some("a description"));
    assert_eq!(back.created[0].sprint, vec![String::from("s1")]);
    assert_eq!(back.created[0].attachment_ids.len(), 2);
    assert_eq!(back.created[0].subtasks.len(), 1);
    assert_eq!(back.created[0].subtasks[0].summary, "Child");
    assert_eq!(back.updated[0].issue_id, "TASK-9");
    assert_eq!(back.updated[0].summary.as_deref(), Some("new summary"));
}

#[test]
fn test_empty_batch_rejected() {
    let result = TaskBatch::create_from_json(r#"{"created": [], "updated": []}"#);
    assert!(matches!(result, Err(TaskBatchError::InvalidTaskError)));
}

#[test]
fn test_garbage_rejected() {
    let result = TaskBatch::create_from_json("not json at all");
    assert!(matches!(result, Err(TaskBatchError::DeserializeError)));
    let result = TaskBatch::create_from_json(r#"{"created": []}"#);
    assert!(matches!(result, Err(TaskBatchError::DeserializeError)));
    let result = TaskBatch::create_from_json(r#"{"created": 3, "updated": []}"#);
    assert!(matches!(result, Err(TaskBatchError::DeserializeError)));
}

#[test]
fn test_empty_batch_canonical_text() {
    let batch = TaskBatch {
        created: Vec::new(),
        updated: Vec::new(),
    };
    assert_eq!(batch.to_json_string(), r#"{"created":[],"updated":[]}"#);
}

#[test]
fn test_created_duplicates_deduplicated_on_load() {
    let json_data = r#"
    {
        "created": [
            {"queue": "Q", "summary": "Same", "priority": "high"},
            {"queue": "Q", "summary": "Same", "priority": "low"}
        ],
        "updated": []
    }"#;
    let batch = TaskBatch::create_from_json(json_data).unwrap();
    assert_eq!(batch.created.len(), 1);
    assert_eq!(batch.created[0].priority.as_deref(), Some("high"));
}

#[test]
fn test_token_round_trip() {
    let token = TokenResponse::new(String::from("secret-token"), 31536000);
    let text = token.to_json_string();
    assert_eq!(text, r#"{"access_token":"secret-token","expires_in":31536000}"#);
    let back = TokenResponse::create_from_json(&text).unwrap();
    assert_eq!(back.access_token, "secret-token");
    assert_eq!(back.expires_in, 31536000);
}

#[test]
fn test_string_escapes_are_resolved() {
    let json_data = r#"{"queue": "Q", "summary": "line\none \"two\" back\\slash\ttab"}"#;
    let task = CreatedTaskInfo::create_from_json(json_data).unwrap();
    assert_eq!(task.summary, "line\none \"two\" back\\slash\ttab");
    // An unknown escape is refused.
    assert!(CreatedTaskInfo::create_from_json(r#"{"queue": "\q"}"#).is_none());
}

#[test]
fn test_number_bounds() {
    let max = TokenResponse::create_from_json(
        r#"{"access_token": "t", "expires_in": 18446744073709551615}"#,
    )
    .unwrap();
    assert_eq!(max.expires_in, u64::MAX);
    // One past the top of the range is refused.
    assert!(TokenResponse::create_from_json(
        r#"{"access_token": "t", "expires_in": 18446744073709551616}"#
    )
    .is_none());
    // So are fractional numbers: these formats carry unsigned integers.
    assert!(TokenResponse::create_from_json(r#"{"access_token": "t", "expires_in": 1.5}"#)
        .is_none());
}

#[test]
fn test_token_parse_ignores_extra_members() {
    let text = r#"{"token_type": "bearer", "access_token": "abc", "expires_in": 60, "scope": ""}"#;
    let token = TokenResponse::create_from_json(text).unwrap();
    assert_eq!(token.access_token, "abc");
    assert_eq!(token.expires_in, 60);
    assert!(TokenResponse::create_from_json(r#"{"access_token": "abc"}"#).is_none());
}
