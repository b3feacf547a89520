use agentic::chat::Outcome;
use agentic::cli::{
    fail, finish_outcome, print_tasks, print_tools, resume_line, task_lines, Cli, Command,
    SavedTask,
};
use agentic::json::{parse, render};
use agentic::schemas::{tool_lines, tool_schemas};
use agentic::state::TaskState;
use agentic::todo::{TodoItem, TodoStatus};

fn run(task: &str, max_turns: u32) -> Command {
    Command::Run {
        task: task.into(),
        max_turns,
        json: true,
        yes: true,
        llm_config: "c.yaml".into(),
        model: Some("m".into()),
        llm_binary: Some("bin".into()),
    }
}

fn resume(max_turns: Option<u32>, yes: bool, model: Option<&str>) -> Command {
    Command::Resume {
        task_id: "t".into(),
        json: false,
        yes,
        llm_config: "new.yaml".into(),
        model: model.map(|m| m.to_string()),
        llm_binary: None,
        max_turns,
    }
}

fn chat(task: &str, max_turns: u32, json: bool) -> Command {
    Command::Chat {
        task: task.into(),
        max_turns,
        json,
        yes: true,
        llm_config: "c.yaml".into(),
        model: None,
        llm_binary: None,
    }
}

fn saved() -> TaskState {
    TaskState {
        task_id: "t".into(),
        task: "saved task".into(),
        messages: Vec::new(),
        todos: Vec::new(),
        turn_count: 3,
        max_turns: 20,
        model: Some("old".into()),
        config_path: "old.yaml".into(),
        auto_approve: true,
        created_at: "a".into(),
        updated_at: "b".into(),
    }
}

fn outcome(status: &str) -> Outcome {
    Outcome {
        status: status.into(),
        turns: 2,
        todos: vec![TodoItem { id: "s1".into(), content: "look".into(), status: TodoStatus::InProgress }],
        final_answer: "the answer".into(),
        task_id: "t".into(),
    }
}

#[test]
fn a_run_is_refused_for_the_first_fault() {
    assert_eq!(
        run(" \n\t", 0).refused(false, None).unwrap(),
        "task cannot be empty. pass --task \"what you want done\""
    );
    assert_eq!(run("x", 0).refused(false, None).unwrap(), "max-turns must be at least 1");
    assert_eq!(
        run("x", 1).refused(false, None).unwrap(),
        "llm config not found at c.yaml. copy it from llm-adapter's config.yaml.template and fill in your keys"
    );
    assert_eq!(run("x", 1).refused(true, None), None);
}

#[test]
fn a_resume_names_the_settings_it_was_saved_with() {
    assert_eq!(
        resume(None, false, None).refused(false, Some(&saved())).unwrap(),
        "llm config not found at new.yaml. the original run used: old.yaml"
    );
    assert_eq!(resume(None, false, None).refused(true, Some(&saved())), None);
}

#[test]
fn a_resume_with_no_turns_is_refused() {
    assert_eq!(
        resume(Some(0), false, None).refused(true, Some(&saved())).unwrap(),
        "max-turns must be at least 1"
    );
    assert_eq!(resume(Some(1), false, None).refused(true, Some(&saved())), None);
}

#[test]
fn a_chat_is_refused_as_a_run_is() {
    for (task, max_turns, there) in
        [(" ", 0, false), ("x", 0, false), ("x", 1, false), ("x", 1, true)]
    {
        let refused = chat(task, max_turns, false).refused(there, None);
        assert_eq!(refused, run(task, max_turns).refused(there, None));
    }
    assert!(chat("", 1, false).refused(true, None).is_some());
}

#[test]
fn listings_are_never_refused() {
    assert_eq!(Command::Tools { json: true }.refused(false, None), None);
    assert_eq!(Command::Tasks { json: false }.refused(false, None), None);
}

#[test]
fn a_run_has_the_terms_it_was_given() {
    let config = run("x", 7).config("/w", None).unwrap();
    assert_eq!(config.task, "x");
    assert_eq!(config.max_turns, 7);
    assert!(config.json_output);
    assert!(config.auto_approve);
    assert_eq!(config.workdir, "/w");
    assert_eq!(config.model, Some("m".to_string()));
    assert_eq!(config.config_path, "c.yaml");
    assert_eq!(config.binary_flag, Some("bin".to_string()));
    assert_eq!(config.state_dir, None);
}

#[test]
fn a_resume_keeps_the_terms_unless_told_otherwise() {
    let config = resume(None, false, None).config("/w", Some(&saved())).unwrap();
    assert_eq!(config.task, "saved task");
    assert_eq!(config.max_turns, 20);
    assert!(config.auto_approve);
    assert_eq!(config.model, Some("old".to_string()));
    assert_eq!(config.config_path, "new.yaml");
    let config = resume(Some(4), true, Some("new")).config("/w", Some(&saved())).unwrap();
    assert_eq!(config.max_turns, 4);
    assert_eq!(config.model, Some("new".to_string()));
    assert!(resume(None, false, None).config("/w", None).is_none());
}

#[test]
fn every_command_can_be_asked_for_json() {
    for json in [false, true] {
        let cli = Cli { command: chat("x", 3, json) };
        let config = cli.command.config("/w", None).unwrap();
        assert_eq!(config.json_output, json);
        assert!(config.auto_approve);
        assert_eq!(cli.command.wants_json(), json);
        assert_eq!(Command::Tools { json }.wants_json(), json);
        assert_eq!(Command::Tasks { json }.wants_json(), json);
    }
    assert!(run("x", 1).wants_json());
    assert!(!resume(None, false, None).wants_json());
    assert!(Command::Tools { json: true }.config("/w", None).is_none());
}

#[test]
fn tools_are_printed_as_lines_or_as_one_envelope() {
    let plain = print_tools(tool_schemas(), false);
    assert_eq!(plain.out, tool_lines(&tool_schemas()));
    assert_eq!((plain.err.len(), plain.code), (0, 0));
    let json = print_tools(tool_schemas(), true);
    assert_eq!((json.out.len(), json.err.len(), json.code), (1, 0, 0));
    let envelope = parse(&json.out[0]).unwrap();
    let tools = envelope.get("tools").unwrap().as_array().unwrap();
    assert_eq!(tools.len(), 7);
    assert_eq!(render(&tools[6]), render(&tool_schemas()[6]));
}

#[test]
fn tasks_are_printed_as_lines_or_as_one_envelope() {
    let tasks = vec![
        SavedTask { id: "t".into(), state: Some(saved()) },
        SavedTask { id: "u".into(), state: None },
    ];
    assert_eq!(print_tasks(&tasks, false).out, task_lines(&tasks));
    let json = print_tasks(&tasks, true);
    assert_eq!((json.out.len(), json.err.len(), json.code), (1, 0, 0));
    assert_eq!(
        render(&parse(&json.out[0]).unwrap()),
        r#"{"tasks":[{"id":"t","max_turns":20,"task":"saved task","turn_count":3},{"id":"u","unreadable":true}]}"#
    );
    assert_eq!(render(&parse(&print_tasks(&Vec::new(), true).out[0]).unwrap()), r#"{"tasks":[]}"#);
}

#[test]
fn errors_go_to_one_of_the_outputs() {
    let plain = fail("broken", false);
    assert!(plain.out.is_empty());
    assert_eq!(plain.err, vec!["broken"]);
    assert_eq!(plain.code, 1);
    let json = fail("broken", true);
    assert!(json.err.is_empty());
    assert_eq!(json.out, vec!["{\n  \"error\": \"broken\",\n  \"status\": \"error\"\n}"]);
    assert_eq!(json.code, 1);
}

#[test]
fn an_outcome_is_printed_with_its_todos() {
    let printed = finish_outcome(&outcome("completed"), false, false);
    assert_eq!(printed.out, vec!["the answer"]);
    assert_eq!(
        printed.err,
        vec![
            "",
            "todos: 1 total: 0 pending, 1 in progress, 0 completed, 0 blocked",
            "  [in_progress] s1 — look",
        ]
    );
    assert_eq!(printed.code, 0);
}

#[test]
fn an_interrupted_outcome_is_repeated() {
    let mut out = outcome("interrupted");
    out.todos = Vec::new();
    let printed = finish_outcome(&out, false, true);
    assert_eq!(printed.err, vec!["", "interrupted. the answer"]);
    assert_eq!(printed.code, 130);
}

#[test]
fn the_exit_code_follows_the_status_and_the_interrupt() {
    assert_eq!(finish_outcome(&outcome("blocked"), true, false).code, 2);
    assert_eq!(finish_outcome(&outcome("error"), true, false).code, 1);
    assert_eq!(finish_outcome(&outcome("completed"), true, true).code, 130);
}

#[test]
fn an_outcome_as_json_is_one_envelope() {
    let printed = finish_outcome(&outcome("completed"), true, false);
    assert!(printed.err.is_empty());
    assert_eq!(printed.out.len(), 1);
    let envelope = parse(&printed.out[0]).unwrap();
    assert_eq!(envelope.str_at("status"), Some("completed"));
    assert_eq!(envelope.str_at("task_id"), Some("t"));
    assert!(printed.out[0].starts_with("{\n  \"final_answer\": \"the answer\",\n"));
}

#[test]
fn saved_tasks_are_listed() {
    assert_eq!(task_lines(&Vec::new()), vec!["no saved tasks"]);
    let tasks = vec![
        SavedTask { id: "t".into(), state: Some(saved()) },
        SavedTask { id: "u".into(), state: None },
    ];
    assert_eq!(task_lines(&tasks), vec!["t  turn 3/20  saved task", "u  (unreadable)"]);
}

#[test]
fn a_resume_says_where_it_goes_on() {
    assert_eq!(resume_line("t", 3, 20), "[resume] task t at turn 3/20");
}

#[test]
fn a_command_names_the_model_of_its_client() {
    assert_eq!(run("t", 1).client_model(), Some("m".to_string()));
    assert_eq!(chat("t", 1, false).client_model(), None);
    assert_eq!(Command::Tools { json: false }.client_model(), None);
    assert_eq!(Command::Tasks { json: true }.client_model(), None);
    let resume = Command::Resume {
        task_id: "id".into(),
        json: false,
        yes: false,
        llm_config: "c.yaml".into(),
        model: Some("other".into()),
        llm_binary: None,
        max_turns: None,
    };
    assert_eq!(resume.client_model(), Some("other".to_string()));
}
