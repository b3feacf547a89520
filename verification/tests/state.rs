use agentic::llm::Message;
use agentic::order::{comes_before, enter};
use agentic::paths::join_path;
use agentic::records::task_text;
use agentic::state::{
    exit_code_for_status, list_saved_tasks, load_state, state_dir, task_path, LoadError, Stored,
    TaskState,
};

fn words(items: &[&str]) -> Vec<String> {
    items.iter().map(|s| s.to_string()).collect()
}

fn task() -> TaskState {
    TaskState {
        task_id: "t1".into(),
        task: "do it".into(),
        messages: vec![Message::user("hi")],
        todos: Vec::new(),
        turn_count: 2,
        max_turns: 9,
        model: Some("m".into()),
        config_path: "c".into(),
        auto_approve: true,
        created_at: "then".into(),
        updated_at: "now".into(),
    }
}

#[test]
fn load_missing_returns_not_found_with_fix() {
    let err = load_state("nonexistent-task-12345", "/state", Stored::Missing).unwrap_err();
    let msg = err.human_message();
    assert!(msg.contains("no saved task"));
    assert!(msg.contains("nonexistent-task-12345"));
}

#[test]
fn exit_codes_match_contract() {
    assert_eq!(exit_code_for_status("completed"), 0);
    assert_eq!(exit_code_for_status("blocked"), 2);
    assert_eq!(exit_code_for_status("interrupted"), 130);
    assert_eq!(exit_code_for_status("error"), 1);
}

#[test]
fn other_statuses_exit_with_one() {
    assert_eq!(exit_code_for_status(""), 1);
    assert_eq!(exit_code_for_status("Completed"), 1);
    assert_eq!(exit_code_for_status("running"), 1);
}

#[test]
fn errors_of_loading_are_exact() {
    let error = |stored: Stored| load_state("x", "/s", stored).unwrap_err().human_message();
    assert_eq!(
        error(Stored::Missing),
        "no saved task with id \"x\". looked at /s/x.json. saved tasks live in /s"
    );
    assert_eq!(
        error(Stored::Text("{".into())),
        "task \"x\" at /s/x.json is unreadable: EOF while parsing an object at line 1 column 1. delete it and start a new task"
    );
    assert_eq!(
        error(Stored::Text("{}".into())),
        "task \"x\" at /s/x.json is unreadable: missing field `task_id`. delete it and start a new task"
    );
    assert_eq!(error(Stored::ReadFailed("io".into())), "could not read task state: io");
    assert!(matches!(
        load_state("x", "/s", Stored::ReadFailed("io".into())),
        Err(LoadError::Io(_))
    ));
}

#[test]
fn a_task_that_was_read_is_given_back() {
    let loaded = load_state("t1", "/s", Stored::Text(task_text(&task().clone()))).unwrap();
    assert_eq!(loaded.task_id, "t1");
    assert_eq!(loaded.turn_count, 2);
    assert_eq!(loaded.messages.len(), 1);
    assert_eq!(loaded.model, Some("m".to_string()));
    assert!(loaded.auto_approve);
}

#[test]
fn the_directory_of_tasks_follows_the_settings() {
    assert_eq!(state_dir(Some("/own"), Some("/xdg"), Some("/home/me")), "/own");
    assert_eq!(state_dir(None, Some("/xdg"), Some("/home/me")), "/xdg/agentic");
    assert_eq!(state_dir(None, None, Some("/home/me")), "/home/me/.local/share/agentic");
    assert_eq!(state_dir(None, None, None), "./.local/share/agentic");
    assert_eq!(state_dir(None, Some(""), None), "agentic");
}

#[test]
fn tasks_lie_in_files_by_their_ids() {
    assert_eq!(task_path("/s", "20260810-153022-ab3f"), "/s/20260810-153022-ab3f.json");
    assert_eq!(task_path("/s/", "a"), "/s/a.json");
    assert_eq!(task_path("/s", "/tmp/a"), "/tmp/a.json");
}

#[test]
fn paths_are_joined_as_the_system_does() {
    for (base, path) in [("/a", "b"), ("/a/", "b"), ("", "b"), ("/a", "/b"), ("a", ""), ("", "")] {
        let known = std::path::PathBuf::from(base).join(path);
        assert_eq!(join_path(base, path), known.to_str().unwrap(), "{:?} {:?}", base, path);
    }
}

#[test]
fn saved_tasks_are_listed_in_order() {
    assert_eq!(
        list_saved_tasks(words(&["b.json", "a.json", "Z.json", "é.json", "a.json"])),
        words(&["Z", "a", "b", "é"])
    );
    assert!(list_saved_tasks(Vec::new()).is_empty());
}

#[test]
fn only_files_of_tasks_are_listed() {
    assert_eq!(
        list_saved_tasks(words(&[
            "t1.json", "t1.json.tmp", "notes.txt", "json", "x.JSON", "t.a.json", ".json", "t2json",
        ])),
        words(&["", "t.a", "t1"])
    );
}

#[test]
fn texts_are_ordered_by_their_characters() {
    assert!(comes_before("", "a"));
    assert!(comes_before("a", "ab"));
    assert!(!comes_before("ab", "a"));
    assert!(!comes_before("a", "a"));
    assert!(comes_before("Z", "a"));
}

#[test]
fn a_text_is_entered_once() {
    let mut items = words(&["a", "c"]);
    enter(&mut items, "b");
    enter(&mut items, "b");
    enter(&mut items, "d");
    assert_eq!(items, words(&["a", "b", "c", "d"]));
}

#[test]
fn tasks_have_places_of_their_own() {
    assert_ne!(task_path("/s", "a"), task_path("/s", "b"));
    assert_ne!(task_path("/s", "a"), task_path("/s", "a.json"));
    assert!(task_path("/s", "a").starts_with("/s"));
}
