use yandex_tracker_api_rust::task::CreatedTaskInfo;
use yandex_tracker_api_rust::task_batch::TaskBatch;
use yandex_tracker_api_rust::task_manager::{
    apply_created_success, apply_updated_success, peek_created, peek_updated,
};

fn simple_task(queue: &str, summary: &str, subtasks: Vec<CreatedTaskInfo>) -> CreatedTaskInfo {
    CreatedTaskInfo {
        queue: String::from(queue),
        summary: String::from(summary),
        parent: None,
        description: None,
        sprint: Vec::new(),
        task_type: None,
        priority: None,
        followers: Vec::new(),
        assignee: None,
        author: None,
        unique: None,
        attachment_ids: Vec::new(),
        subtasks,
    }
}

#[test]
fn test_parent_then_child_two_checkpoints() {
    let child = simple_task("Q", "Child", Vec::new());
    let parent = simple_task("Q", "Parent", vec![child]);
    let mut batch = TaskBatch {
        created: vec![parent],
        updated: Vec::new(),
    };

    let mut checkpoints: Vec<String> = Vec::new();

    // First remote success: the parent is created as "Q-1".
    let first = peek_created(&batch).unwrap();
    assert_eq!(first.summary, "Parent");
    apply_created_success(&mut batch, &String::from("Q-1"));
    checkpoints.push(batch.to_json_string());

    // The child is now pending, parented on the fresh key.
    let second = peek_created(&batch).unwrap();
    assert_eq!(second.summary, "Child");
    assert_eq!(second.parent.as_deref(), Some("Q-1"));

    // Second remote success: the child is created as "Q-2".
    apply_created_success(&mut batch, &String::from("Q-2"));
    checkpoints.push(batch.to_json_string());

    assert!(peek_created(&batch).is_none());
    assert!(batch.created.is_empty());
    assert_eq!(checkpoints.len(), 2);

    // The checkpoint written between the two calls reflects the child spec
    // with its parent set to the first fresh key.
    let mid = TaskBatch::create_from_json(&checkpoints[0]).unwrap();
    assert_eq!(mid.created.len(), 1);
    assert_eq!(mid.created[0].summary, "Child");
    assert_eq!(mid.created[0].parent.as_deref(), Some("Q-1"));

    // The final checkpoint holds no outstanding work.
    let last = yandex_tracker_api_rust::codec::jval_to_batch(
        &yandex_tracker_api_rust::json_parse::parse_document_chars(
            &checkpoints[1].chars().collect(),
        )
        .unwrap(),
    )
    .unwrap();
    assert!(last.created.is_empty());
    assert!(last.updated.is_empty());
}

#[test]
fn test_failure_on_second_creation_keeps_checkpoint() {
    let a = simple_task("Q", "First", Vec::new());
    let b = simple_task("Q", "Second", Vec::new());
    let mut batch = TaskBatch {
        created: vec![a, b],
        updated: Vec::new(),
    };
    let start_len = batch.created.len();

    // First creation succeeds and is checkpointed.
    apply_created_success(&mut batch, &String::from("Q-1"));
    let checkpoint = batch.to_json_string();

    // The second creation fails remotely: processing halts, nothing more is
    // written. The on-disk batch reflects one fewer pending creation.
    let on_disk = TaskBatch::create_from_json(&checkpoint).unwrap();
    assert_eq!(on_disk.created.len(), start_len - 1);
    assert_eq!(on_disk.created[0].summary, "Second");
}

#[test]
fn test_updates_drain_in_order() {
    let u1 = yandex_tracker_api_rust::task::UpdatedTaskInfo {
        issue_id: String::from("T-1"),
        summary: Some(String::from("one")),
        parent: None,
        description: None,
        sprint: None,
        task_type: None,
        priority: None,
        followers: Vec::new(),
        attachment_ids: Vec::new(),
        description_attachment_ids: Vec::new(),
    };
    let mut u2 = u1.clone();
    u2.issue_id = String::from("T-2");
    let mut batch = TaskBatch {
        created: Vec::new(),
        updated: vec![u1, u2],
    };
    let first = peek_updated(&batch).unwrap();
    assert_eq!(first.issue_id, "T-1");
    apply_updated_success(&mut batch);
    let second = peek_updated(&batch).unwrap();
    assert_eq!(second.issue_id, "T-2");
    apply_updated_success(&mut batch);
    assert!(peek_updated(&batch).is_none());
}

#[test]
fn test_duplicate_key_insert_is_dropped() {
    // Two creation requests with equal (queue, summary) are the same
    // member, whatever their other fields.
    let mut batch = TaskBatch {
        created: vec![simple_task("Q", "Same", Vec::new())],
        updated: Vec::new(),
    };
    let mut other = simple_task("Q", "Same", Vec::new());
    other.description = Some(String::from("entirely different attributes"));
    other.priority = Some(String::from("high"));
    batch.insert_created(other);
    assert_eq!(batch.created.len(), 1);
    assert!(batch.created[0].description.is_none());

    let different = simple_task("Q", "Different summary", Vec::new());
    batch.insert_created(different);
    assert_eq!(batch.created.len(), 2);
}

#[test]
fn test_key_equality_ignores_other_fields() {
    let plain = simple_task("Q", "Same", Vec::new());
    let mut decorated = simple_task("Q", "Same", Vec::new());
    decorated.assignee = Some(String::from("someone"));
    decorated.followers = vec![String::from("f1")];
    assert!(plain == decorated);
    let renamed = simple_task("Q", "Other", Vec::new());
    assert!(plain != renamed);
}

#[test]
fn test_subtask_reparenting_deduplicates() {
    // A subtask whose key is already pending is not enqueued twice.
    let sub = simple_task("Q", "Shared", Vec::new());
    let parent = simple_task("Q", "Parent", vec![sub]);
    let already = simple_task("Q", "Shared", Vec::new());
    let mut batch = TaskBatch {
        created: vec![parent, already],
        updated: Vec::new(),
    };
    apply_created_success(&mut batch, &String::from("Q-1"));
    assert_eq!(batch.created.len(), 1);
    assert_eq!(batch.created[0].summary, "Shared");
    // The member that was already pending wins: it keeps its own parent.
    assert!(batch.created[0].parent.is_none());
}
