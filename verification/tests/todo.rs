use agentic::json::render;
use agentic::todo::{
    count_by_status, item_to_json, list_to_json, status_from_lower, summary, upsert, TodoItem,
    TodoStatus,
};

fn item(id: &str, content: &str, status: TodoStatus) -> TodoItem {
    TodoItem { id: id.into(), content: content.into(), status }
}

fn told(items: &[TodoItem]) -> Vec<String> {
    items
        .iter()
        .map(|i| format!("{}:{}:{}", i.id, i.content, i.status.as_str()))
        .collect()
}

#[test]
fn statuses_are_read_in_any_case() {
    assert_eq!(TodoStatus::from_str("Pending"), Ok(TodoStatus::Pending));
    assert_eq!(TodoStatus::from_str("IN_PROGRESS"), Ok(TodoStatus::InProgress));
    assert_eq!(TodoStatus::from_str("inprogress"), Ok(TodoStatus::InProgress));
    assert_eq!(TodoStatus::from_str("done"), Ok(TodoStatus::Completed));
    assert_eq!(TodoStatus::from_str("completed"), Ok(TodoStatus::Completed));
    assert_eq!(TodoStatus::from_str("BLOCKED"), Ok(TodoStatus::Blocked));
}

#[test]
fn unknown_statuses_are_named_in_lower_case() {
    assert_eq!(
        TodoStatus::from_str("Later"),
        Err("unknown todo status 'later': expected pending, in_progress, completed, or blocked"
            .to_string())
    );
    assert!(status_from_lower("Pending").is_err());
    assert_eq!(status_from_lower("pending"), Ok(TodoStatus::Pending));
}

#[test]
fn statuses_read_back_what_they_are_written_as() {
    for status in [
        TodoStatus::Pending,
        TodoStatus::InProgress,
        TodoStatus::Completed,
        TodoStatus::Blocked,
    ] {
        assert_eq!(TodoStatus::from_str(status.as_str()), Ok(status));
        assert_eq!(TodoStatus::from_str(status.stored_str()), Ok(status));
    }
    assert_eq!(TodoStatus::InProgress.as_str(), "in_progress");
    assert_eq!(TodoStatus::InProgress.stored_str(), "inprogress");
}

#[test]
fn upsert_keeps_order_and_adds_at_the_end() {
    let items = [item("a", "1", TodoStatus::Pending), item("b", "2", TodoStatus::Blocked)];
    let updates = [
        item("c", "3", TodoStatus::Pending),
        item("a", "4", TodoStatus::Completed),
        item("c", "5", TodoStatus::InProgress),
    ];
    let once = upsert(&items, &updates);
    assert_eq!(told(&once), vec!["a:4:completed", "b:2:blocked", "c:5:in_progress"]);
    assert_eq!(told(&upsert(&once, &updates)), told(&once));
    assert_eq!(told(&upsert(&items, &[])), told(&items));
}

#[test]
fn upsert_replaces_the_first_of_several() {
    let items = [item("a", "1", TodoStatus::Pending), item("a", "2", TodoStatus::Pending)];
    let after = upsert(&items, &[item("a", "x", TodoStatus::Blocked)]);
    assert_eq!(told(&after), vec!["a:x:blocked", "a:2:pending"]);
}

#[test]
fn todos_are_summed_up() {
    assert_eq!(summary(&[]), "no todos");
    let items = [
        item("a", "", TodoStatus::Pending),
        item("b", "", TodoStatus::Completed),
        item("c", "", TodoStatus::Completed),
        item("d", "", TodoStatus::InProgress),
        item("e", "", TodoStatus::Blocked),
    ];
    assert_eq!(
        summary(&items),
        "5 total: 1 pending, 1 in progress, 2 completed, 1 blocked"
    );
    assert_eq!(count_by_status(&items), (1, 1, 2, 1));
}

#[test]
fn todos_become_json() {
    assert_eq!(
        render(&item_to_json(&item("a", "b", TodoStatus::Blocked))),
        r#"{"content":"b","id":"a","status":"blocked"}"#
    );
    assert_eq!(render(&list_to_json(&[])), "[]");
}

#[test]
fn rounds_of_updates_come_to_the_same_as_one() {
    let items = [item("a", "1", TodoStatus::Pending)];
    let first = [item("b", "2", TodoStatus::Pending), item("a", "3", TodoStatus::Blocked)];
    let second = [item("b", "4", TodoStatus::Completed), item("c", "5", TodoStatus::Pending)];
    let both: Vec<TodoItem> = first.iter().chain(second.iter()).cloned().collect();
    assert_eq!(told(&upsert(&upsert(&items, &first), &second)), told(&upsert(&items, &both)));
}
