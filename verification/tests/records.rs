use agentic::json::{parse, render};
use agentic::llm::{message_to_json, FunctionCall, Message, ToolCall};
use agentic::records::{
    message_from_json, read_count, read_flag, read_optional, status_from_stored, task_from_json,
    task_from_text, task_text, task_to_json, todo_from_json,
};
use agentic::state::TaskState;
use agentic::todo::{TodoItem, TodoStatus};

fn task(model: Option<&str>) -> TaskState {
    TaskState {
        task_id: "20260810-153022-ab3f".into(),
        task: "do \"it\"\nnow: é\u{1}".into(),
        messages: vec![
            Message::system("s"),
            Message::assistant(
                None,
                Some(vec![ToolCall {
                    id: "c1".into(),
                    call_type: "function".into(),
                    function: FunctionCall {
                        name: "read".into(),
                        arguments: r#"{"path":"/x"}"#.into(),
                    },
                }]),
            ),
            Message::tool_result("c1", r#"{"error":"e"}"#),
            Message::assistant(Some("words".into()), Some(Vec::new())),
        ],
        todos: vec![
            TodoItem { id: "a".into(), content: "b".into(), status: TodoStatus::InProgress },
            TodoItem { id: "".into(), content: "".into(), status: TodoStatus::Blocked },
        ],
        turn_count: u32::MAX,
        max_turns: 0,
        model: model.map(|m| m.to_string()),
        config_path: "config.yaml".into(),
        auto_approve: true,
        created_at: "then".into(),
        updated_at: "now".into(),
    }
}

#[test]
fn a_saved_task_reads_back() {
    for model in [None, Some("m")] {
        let before = task(model);
        let after = task_from_text(&task_text(&before)).unwrap();
        assert_eq!(after.task_id, before.task_id);
        assert_eq!(after.task, before.task);
        assert_eq!(after.turn_count, before.turn_count);
        assert_eq!(after.max_turns, before.max_turns);
        assert_eq!(after.model, before.model);
        assert_eq!(after.config_path, before.config_path);
        assert_eq!(after.auto_approve, before.auto_approve);
        assert_eq!(after.created_at, before.created_at);
        assert_eq!(after.updated_at, before.updated_at);
        assert_eq!(format!("{:?}", after.messages), format!("{:?}", before.messages));
        assert_eq!(format!("{:?}", after.todos), format!("{:?}", before.todos));
    }
}

#[test]
fn a_task_is_saved_with_its_members() {
    let text = task_text(&task(None));
    assert!(text.starts_with("{\n  \"auto_approve\": true,\n"));
    let v = parse(&text).unwrap();
    assert_eq!(
        v.keys(),
        vec![
            "auto_approve", "config_path", "created_at", "max_turns", "messages", "model", "task",
            "task_id", "todos", "turn_count", "updated_at",
        ]
    );
    assert_eq!(render(v.get("model").unwrap()), "null");
    assert_eq!(
        render(&v.get("todos").unwrap().as_array().unwrap()[0]),
        r#"{"content":"b","id":"a","status":"inprogress"}"#
    );
    assert_eq!(render(&task_to_json(&task(None))), render(&v));
}

#[test]
fn what_is_no_task_is_named() {
    let why = |text: &str| task_from_text(text).unwrap_err();
    assert_eq!(why("nope"), "expected ident at line 1 column 2");
    assert_eq!(why("[]"), "missing field `task_id`");
    assert_eq!(why(r#"{"task_id":1}"#), "field `task_id` is not a string");
    assert_eq!(why(r#"{"task_id":"t","task":"x"}"#), "missing field `messages`");
    assert_eq!(
        why(r#"{"task_id":"t","task":"x","messages":[{}]}"#),
        "missing field `role`"
    );
    assert_eq!(
        why(r#"{"task_id":"t","task":"x","messages":[],"todos":[{"id":"a","content":"b","status":"done"}]}"#),
        "unknown variant `done`"
    );
    let mut whole = task_text(&task(None));
    whole = whole.replace("\"max_turns\": 0", "\"max_turns\": -1");
    assert_eq!(why(&whole), "field `max_turns` is not a count");
}

#[test]
fn members_that_are_not_known_are_passed_over() {
    let v = task_to_json(&task(Some("m")));
    let more = parse(&render(&v).replacen('{', "{\"zzz\":[1.5],", 1)).unwrap();
    assert_eq!(task_from_json(&more).unwrap().model, Some("m".to_string()));
}

#[test]
fn counts_are_whole_and_not_too_large() {
    let count = |text: &str| read_count(&parse(&format!("{{\"n\":{}}}", text)).unwrap(), "n");
    assert_eq!(count("0"), Ok(0));
    assert_eq!(count("4294967295"), Ok(u32::MAX));
    for text in ["4294967296", "-1", "1.0", "1e2", "\"1\"", "null"] {
        assert_eq!(count(text), Err("field `n` is not a count".to_string()), "{}", text);
    }
}

#[test]
fn flags_and_optional_texts_are_read() {
    let v = parse(r#"{"f":true,"t":"x","n":null,"i":1}"#).unwrap();
    assert_eq!(read_flag(&v, "f"), Ok(true));
    assert_eq!(read_flag(&v, "t"), Err("field `t` is not a boolean".to_string()));
    assert_eq!(read_flag(&v, "z"), Err("missing field `z`".to_string()));
    assert_eq!(read_optional(&v, "t"), Ok(Some("x".to_string())));
    assert_eq!(read_optional(&v, "n"), Ok(None));
    assert_eq!(read_optional(&v, "z"), Ok(None));
    assert_eq!(read_optional(&v, "i"), Err("field `i` is not a string".to_string()));
}

#[test]
fn messages_and_todos_read_back() {
    for message in task(None).messages {
        let back = message_from_json(&message_to_json(&message)).unwrap();
        assert_eq!(format!("{:?}", back), format!("{:?}", message));
    }
    let null = parse(r#"{"role":"a","content":null,"tool_calls":null,"tool_call_id":null}"#).unwrap();
    let back = message_from_json(&null).unwrap();
    assert_eq!(back.content, None);
    assert!(back.tool_calls.is_none());
    assert!(todo_from_json(&parse("{}").unwrap()).is_err());
}

#[test]
fn stored_statuses_are_exact() {
    assert_eq!(status_from_stored("inprogress"), Ok(TodoStatus::InProgress));
    assert!(status_from_stored("in_progress").is_err());
    assert!(status_from_stored("Pending").is_err());
}
