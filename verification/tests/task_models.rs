use desktop_backends::tasks::models::{CreateTaskInput, Task, TaskStatus, UpdateTaskInput};
use desktop_backends::tasks::record::StoredRow;

fn sample() -> Task {
    Task {
        id: "id".to_string(),
        title: "title".to_string(),
        description: Some("text".to_string()),
        status: TaskStatus::InProgress,
        priority: 4,
        due_date: None,
        created_at: "c".to_string(),
        updated_at: "u".to_string(),
        tags: vec!["one".to_string(), "two".to_string()],
    }
}

#[test]
fn status_text_of_each_status() {
    assert_eq!(TaskStatus::Todo.as_str(), "todo");
    assert_eq!(TaskStatus::InProgress.as_str(), "in_progress");
    assert_eq!(TaskStatus::Done.as_str(), "done");
}

#[test]
fn status_from_each_text() {
    assert_eq!(TaskStatus::from_str("todo"), TaskStatus::Todo);
    assert_eq!(TaskStatus::from_str("in_progress"), TaskStatus::InProgress);
    assert_eq!(TaskStatus::from_str("done"), TaskStatus::Done);
}

#[test]
fn status_from_unknown_text_is_todo() {
    assert_eq!(TaskStatus::from_str(""), TaskStatus::Todo);
    assert_eq!(TaskStatus::from_str("Done"), TaskStatus::Todo);
    assert_eq!(TaskStatus::from_str("done "), TaskStatus::Todo);
    assert_eq!(TaskStatus::from_str("in-progress"), TaskStatus::Todo);
    assert_eq!(TaskStatus::from_str("don"), TaskStatus::Todo);
}

#[test]
fn status_round_trips_through_its_text() {
    for status in [TaskStatus::Todo, TaskStatus::InProgress, TaskStatus::Done] {
        assert_eq!(TaskStatus::from_str(status.as_str()), status);
    }
}

#[test]
fn create_without_tags_has_none() {
    let task = Task::create(
        CreateTaskInput {
            title: "t".to_string(),
            description: None,
            priority: 0,
            due_date: None,
            tags: None,
        },
        "i".to_string(),
        "n".to_string(),
    );
    assert!(task.tags.is_empty());
    assert_eq!(task.status, TaskStatus::Todo);
    assert_eq!(task.created_at, "n");
    assert_eq!(task.updated_at, "n");
    assert_eq!(task.id, "i");
}

#[test]
fn merge_of_nothing_changes_only_the_time() {
    let merged = sample().merge(
        UpdateTaskInput {
            title: None,
            description: None,
            status: None,
            priority: None,
            due_date: None,
            tags: None,
        },
        "now".to_string(),
    );
    let before = sample();
    assert_eq!(merged.id, before.id);
    assert_eq!(merged.title, before.title);
    assert_eq!(merged.description, before.description);
    assert_eq!(merged.status, before.status);
    assert_eq!(merged.priority, before.priority);
    assert_eq!(merged.due_date, before.due_date);
    assert_eq!(merged.created_at, before.created_at);
    assert_eq!(merged.tags, before.tags);
    assert_eq!(merged.updated_at, "now");
}

#[test]
fn merge_of_everything_replaces_every_field_but_identity() {
    let merged = sample().merge(
        UpdateTaskInput {
            title: Some("new".to_string()),
            description: Some("other".to_string()),
            status: Some(TaskStatus::Done),
            priority: Some(-9),
            due_date: Some("tomorrow".to_string()),
            tags: Some(vec!["z".to_string()]),
        },
        "now".to_string(),
    );
    assert_eq!(merged.id, "id");
    assert_eq!(merged.created_at, "c");
    assert_eq!(merged.title, "new");
    assert_eq!(merged.description, Some("other".to_string()));
    assert_eq!(merged.status, TaskStatus::Done);
    assert_eq!(merged.priority, -9);
    assert_eq!(merged.due_date, Some("tomorrow".to_string()));
    assert_eq!(merged.tags, vec!["z".to_string()]);
    assert_eq!(merged.updated_at, "now");
}

#[test]
fn row_of_a_task_writes_status_as_text() {
    let row = StoredRow::from_task(&sample(), "[\"one\",\"two\"]".to_string());
    assert_eq!(row.id, "id");
    assert_eq!(row.title, "title");
    assert_eq!(row.description, Some("text".to_string()));
    assert_eq!(row.status, "in_progress");
    assert_eq!(row.priority, 4);
    assert_eq!(row.due_date, None);
    assert_eq!(row.created_at, "c");
    assert_eq!(row.updated_at, "u");
    assert_eq!(row.tags, "[\"one\",\"two\"]");
}

#[test]
fn encode_then_decode_gives_the_task_back() {
    let task = sample();
    let row = StoredRow::encode(&task).unwrap();
    assert_eq!(row.tags, "[\"one\",\"two\"]");
    let back = row.decode().unwrap();
    assert_eq!(back.id, task.id);
    assert_eq!(back.title, task.title);
    assert_eq!(back.description, task.description);
    assert_eq!(back.status, task.status);
    assert_eq!(back.priority, task.priority);
    assert_eq!(back.due_date, task.due_date);
    assert_eq!(back.created_at, task.created_at);
    assert_eq!(back.updated_at, task.updated_at);
    assert_eq!(back.tags, task.tags);
}

#[test]
fn encode_escapes_what_json_escapes() {
    let mut task = sample();
    task.tags = vec!["line\nbreak".to_string(), "back\\slash".to_string(), "ünï".to_string()];
    let row = StoredRow::encode(&task).unwrap();
    assert_eq!(row.tags, "[\"line\\nbreak\",\"back\\\\slash\",\"ünï\"]");
    assert_eq!(row.decode().unwrap().tags, task.tags);
}

#[test]
fn to_task_takes_the_tags_it_is_given() {
    let row = StoredRow::from_task(&sample(), "ignored".to_string());
    let task = row.to_task(vec!["given".to_string()]);
    assert_eq!(task.tags, vec!["given".to_string()]);
    assert_eq!(task.status, TaskStatus::InProgress);
    let copy = row.duplicate();
    assert_eq!(copy.tags, "ignored");
    assert_eq!(copy.id, row.id);
}

#[test]
fn encode_of_a_task_without_tags_writes_an_empty_array() {
    let mut task = sample();
    task.tags = Vec::new();
    let row = StoredRow::encode(&task).unwrap();
    assert_eq!(row.tags, "[]");
    assert!(row.decode().unwrap().tags.is_empty());
}
