use agentic::chat::{
    finish_verdict, log_turn, outcome_to_json, save_dir, save_failed, system_prompt, truncate_log,
    Config, LoopEvent, LoopStep, Outcome, Phase, Session,
};
use agentic::inline::Capture;
use agentic::json::{parse, render, Json};
use agentic::llm::{FunctionCall, LlmError, LlmResponse, Message, MockLlmClient, ToolCall};
use agentic::reports::{read_report, ReadOutcome};
use agentic::state::TaskState;
use agentic::text::trim;
use agentic::todo::{TodoItem, TodoStatus};
use agentic::tools::{tool_schemas, ToolAction};

fn base_config() -> Config {
    Config {
        task: "test task".into(),
        max_turns: 5,
        json_output: false,
        auto_approve: false,
        workdir: "/work".into(),
        model: None,
        config_path: "config.yaml".into(),
        binary_flag: None,
        state_dir: Some("/state".into()),
    }
}

fn call(id: &str, name: &str, arguments: &str) -> ToolCall {
    ToolCall {
        id: id.into(),
        call_type: "function".into(),
        function: FunctionCall { name: name.into(), arguments: arguments.into() },
    }
}

fn says(text: Option<&str>, calls: Option<Vec<ToolCall>>) -> Result<LlmResponse, LlmError> {
    Ok(LlmResponse {
        message: Message::assistant(text.map(|t| t.to_string()), calls),
        finish_reason: "tool_calls".into(),
    })
}

fn perform(action: &ToolAction) -> Json {
    match action {
        ToolAction::Read { path } => read_report(path, ReadOutcome::NotFound),
        other => panic!("unexpected action: {:?}", other),
    }
}

struct Run {
    outcome: Outcome,
    saves: Vec<TaskState>,
    events: Vec<LoopEvent>,
    session: Session,
}

fn run_task(
    client: &mut MockLlmClient,
    config: &Config,
    existing: Option<TaskState>,
    interrupt_at: Option<u32>,
) -> Run {
    let tools = tool_schemas();
    let mut session = Session::open(config, existing);
    let mut saves = Vec::new();
    let mut events = Vec::new();
    let mut told = session.start_turn(config, interrupt_at == Some(session.turn()));
    loop {
        events.append(&mut told.events);
        match told.step {
            LoopStep::Ask => {
                assert_eq!(session.phase(), Phase::Asked);
                let reply = client.complete(session.messages(), &tools);
                told = session.take_reply(reply);
            }
            LoopStep::Act(action) => {
                assert_eq!(session.phase(), Phase::Acting);
                let result = perform(&action);
                told = session.take_result(&result);
            }
            LoopStep::Next => {
                assert_eq!(session.phase(), Phase::Calling);
                told = session.take_calls(config);
            }
            LoopStep::Save => {
                assert_eq!(session.phase(), Phase::Ready);
                saves.push(session.snapshot_now(config));
                told = session.start_turn(config, interrupt_at == Some(session.turn()));
            }
            LoopStep::Finish(outcome) => {
                saves.push(session.snapshot_now(config));
                return Run { outcome, saves, events, session };
            }
            LoopStep::Stop(outcome) => return Run { outcome, saves, events, session },
            LoopStep::Abort => panic!("the reply could not be cut"),
        }
    }
}

fn run_plain(replies: Vec<Result<LlmResponse, LlmError>>, config: &Config) -> Run {
    run_task(&mut MockLlmClient::new(replies), config, None, None)
}

#[test]
fn finish_tool_completes_task() {
    let run = run_plain(
        vec![says(Some("done"), Some(vec![call("c1", "finish", r#"{"result":"task complete"}"#)]))],
        &base_config(),
    );
    assert_eq!(run.outcome.status, "completed");
    assert_eq!(run.outcome.final_answer, "task complete");
    assert_eq!(run.outcome.turns, 1);
}

#[test]
fn finish_blocked_returns_blocked_status() {
    let run = run_plain(
        vec![says(
            Some("stuck"),
            Some(vec![call("c1", "finish", r#"{"result":"cannot find file","blocked":true}"#)]),
        )],
        &base_config(),
    );
    assert_eq!(run.outcome.status, "blocked");
    assert_eq!(run.outcome.final_answer, "cannot find file");
}

#[test]
fn no_tool_calls_completes_with_text() {
    let run = run_plain(vec![says(Some("here is the answer"), None)], &base_config());
    assert_eq!(run.outcome.status, "completed");
    assert_eq!(run.outcome.final_answer, "here is the answer");
}

#[test]
fn max_turns_reached_returns_blocked() {
    let paths = ["/tmp/a", "/tmp/b", "/tmp/c"];
    let replies = paths
        .iter()
        .map(|p| says(None, Some(vec![call("c", "read", &format!(r#"{{"path":"{}"}}"#, p))])))
        .collect();
    let mut cfg = base_config();
    cfg.max_turns = 3;
    let run = run_plain(replies, &cfg);
    assert_eq!(run.outcome.status, "blocked");
    assert!(run.outcome.final_answer.contains("max turns"), "got: {}", run.outcome.final_answer);
}

#[test]
fn stuck_detection_blocks_on_repeat() {
    let same = || {
        says(None, Some(vec![call("c", "read", r#"{"path":"/nonexistent/same/path"}"#)]))
    };
    let run = run_plain(vec![same(), same(), same()], &base_config());
    assert_eq!(run.outcome.status, "blocked");
    assert!(run.outcome.final_answer.contains("stuck"));
}

#[test]
fn llm_error_returns_error_status() {
    let run = run_plain(vec![Err(LlmError::NoChoices)], &base_config());
    assert_eq!(run.outcome.status, "error");
}

#[test]
fn empty_task_is_rejected_at_cli_level() {
    let task = "";
    assert!(task.trim().is_empty());
    assert!(trim(task).is_empty());
}

#[test]
fn a_task_begins_with_prompt_and_task() {
    let config = base_config();
    let session = Session::begin(&config, None, "id", "now");
    assert_eq!(session.messages().len(), 2);
    assert_eq!(session.messages()[0].role, "system");
    assert_eq!(session.messages()[0].content, Some(system_prompt("/work")));
    assert_eq!(session.messages()[1].role, "user");
    assert_eq!(session.messages()[1].content, Some("Task: test task".to_string()));
    assert_eq!(session.turn(), 0);
    assert_eq!(session.task_id(), "id");
    assert!(session.todos().is_empty());
}

#[test]
fn approval_is_told_to_the_model() {
    let mut config = base_config();
    config.auto_approve = true;
    let session = Session::begin(&config, None, "id", "now");
    assert_eq!(session.messages().len(), 3);
    assert_eq!(
        session.messages()[2].content,
        Some("destructive commands are allowed: the user passed --yes".to_string())
    );
}

#[test]
fn prompt_names_the_working_directory_and_the_tools() {
    let prompt = system_prompt("/home/me");
    assert!(prompt.starts_with("you are a task agent. you complete tasks by calling tools.\n"));
    assert!(prompt.ends_with("\nworking directory: /home/me"));
    assert!(prompt.contains("items = [{id, content, status}]"));
    for name in ["read(", "write(", "grep(", "search(", "exec(", "todo_update(", "finish("] {
        assert!(prompt.contains(name), "{}", name);
    }
}

#[test]
fn a_new_task_has_a_new_id() {
    let config = base_config();
    let a = Session::open(&config, None);
    let b = Session::open(&config, None);
    assert_ne!(a.task_id(), b.task_id());
    let parts: Vec<&str> = a.task_id().split('-').collect();
    assert_eq!(parts.len(), 3);
    assert_eq!(parts[0].len(), 8);
    assert_eq!(parts[1].len(), 6);
    assert_eq!(parts[2].len(), 8);
    let state = a.snapshot_now(&config);
    for time in [&state.created_at, &state.updated_at] {
        assert!(time.len() >= 25 && time.contains('T'), "{}", time);
        assert!(time.chars().all(|c| c.is_ascii_digit() || "-+:.T".contains(c)), "{}", time);
    }
}

#[test]
fn max_turns_message_is_exact_and_the_last_turn_is_saved() {
    let mut cfg = base_config();
    cfg.max_turns = 1;
    let run = run_plain(
        vec![says(None, Some(vec![call("c", "read", r#"{"path":"/a"}"#)]))],
        &cfg,
    );
    let id = run.outcome.task_id.clone();
    assert_eq!(
        run.outcome.final_answer,
        format!("reached max turns (1). task saved as {}. resume with: agentic resume {}", id, id)
    );
    assert_eq!(run.outcome.turns, 1);
    assert_eq!(run.saves.len(), 1);
    assert_eq!(run.saves[0].turn_count, 1);
    assert_eq!(run.saves[0].messages.len(), run.session.messages().len());
}

#[test]
fn stuck_message_is_exact_and_the_call_is_answered() {
    let same = || says(None, Some(vec![call("c", "read", r#"{"path":"/p"}"#)]));
    let run = run_plain(vec![same(), same(), same()], &base_config());
    let id = run.outcome.task_id.clone();
    let message = format!(
        "stuck: the agent called read with the same arguments 3 times in a row. task saved as {}",
        id
    );
    assert_eq!(run.outcome.final_answer, message);
    assert_eq!(run.outcome.turns, 3);
    let last = run.session.messages().last().unwrap();
    assert_eq!(last.role, "tool");
    assert_eq!(last.tool_call_id, Some("c".to_string()));
    let note = parse(last.content.as_ref().unwrap()).unwrap();
    assert_eq!(note.bool_at("stuck"), Some(true));
    assert_eq!(note.str_at("error"), Some(message.as_str()));
    assert_eq!(run.saves.len(), 3);
}

#[test]
fn repeats_are_counted_within_and_across_turns() {
    let two = || {
        says(
            None,
            Some(vec![
                call("a", "read", r#"{"path":"/p"}"#),
                call("b", "read", r#"{"path":"/p"}"#),
            ]),
        )
    };
    let run = run_plain(vec![two(), two()], &base_config());
    assert_eq!(run.outcome.status, "blocked");
    assert_eq!(run.outcome.turns, 2);
}

#[test]
fn another_call_between_breaks_the_count() {
    let p = || says(None, Some(vec![call("a", "read", r#"{"path":"/p"}"#)]));
    let q = || says(None, Some(vec![call("b", "read", r#"{"path":"/q"}"#)]));
    let mut cfg = base_config();
    cfg.max_turns = 10;
    let run = run_plain(vec![p(), p(), q(), p(), p(), says(Some("ok"), None)], &cfg);
    assert_eq!(run.outcome.status, "completed");
    assert_eq!(run.outcome.turns, 6);
}

#[test]
fn interrupt_saves_and_ends() {
    let mut client = MockLlmClient::new(vec![says(
        None,
        Some(vec![call("c", "read", r#"{"path":"/a"}"#)]),
    )]);
    let run = run_task(&mut client, &base_config(), None, Some(1));
    let id = run.outcome.task_id.clone();
    assert_eq!(run.outcome.status, "interrupted");
    assert_eq!(
        run.outcome.final_answer,
        format!("interrupted at turn 1. task saved as {}. resume with: agentic resume {}", id, id)
    );
    assert_eq!(run.saves.len(), 2);
    assert_eq!(client.call_count, 1);
}

#[test]
fn resume_goes_on_from_the_saved_turn() {
    let mut cfg = base_config();
    cfg.max_turns = 1;
    let first = run_plain(
        vec![says(
            None,
            Some(vec![
                call("t", "todo_update", r#"{"items":[{"id":"s","content":"x","status":"done"}]}"#),
                call("c", "read", r#"{"path":"/a"}"#),
            ]),
        )],
        &cfg,
    );
    let saved = first.saves.last().unwrap().clone();
    assert_eq!(saved.task, "test task");
    assert_eq!(saved.max_turns, 1);
    assert_eq!(saved.config_path, "config.yaml");
    cfg.max_turns = 3;
    let messages = saved.messages.len();
    let mut client = MockLlmClient::new(vec![says(Some("all done"), None)]);
    let second = run_task(&mut client, &cfg, Some(saved), None);
    assert_eq!(second.outcome.status, "completed");
    assert_eq!(second.outcome.turns, 2);
    assert_eq!(second.outcome.task_id, first.outcome.task_id);
    assert_eq!(second.outcome.todos.len(), 1);
    assert_eq!(second.outcome.todos[0].status, TodoStatus::Completed);
    assert_eq!(client.calls[0].len(), messages);
    assert_eq!(second.saves[0].created_at, first.saves[0].created_at);
}

#[test]
fn resume_with_no_turns_left_stops_at_once() {
    let mut cfg = base_config();
    cfg.max_turns = 1;
    let first = run_plain(
        vec![says(None, Some(vec![call("c", "read", r#"{"path":"/a"}"#)]))],
        &cfg,
    );
    let saved = first.saves.last().unwrap().clone();
    let mut client = MockLlmClient::new(vec![]);
    let second = run_task(&mut client, &cfg, Some(saved), None);
    assert_eq!(second.outcome.status, "blocked");
    assert_eq!(client.call_count, 0);
    assert!(second.saves.is_empty());
}

#[test]
fn every_call_of_a_turn_is_answered_in_order() {
    let run = run_plain(
        vec![
            says(
                Some("three things"),
                Some(vec![
                    call("a", "read", r#"{"path":"/a"}"#),
                    call("b", "nonsense", "{}"),
                    call("c", "exec", r#"{"command":"rm","args":["-rf","/"]}"#),
                ]),
            ),
            says(Some("bye"), None),
        ],
        &base_config(),
    );
    let messages = run.session.messages();
    assert_eq!(messages.len(), 7);
    let ids: Vec<&str> =
        messages[3..6].iter().map(|m| m.tool_call_id.as_ref().unwrap().as_str()).collect();
    assert_eq!(ids, vec!["a", "b", "c"]);
    assert!(messages[5].content.as_ref().unwrap().contains("\"blocked\":true"));
    assert_eq!(run.outcome.final_answer, "bye");
}

#[test]
fn finish_is_answered_and_ends_the_turn_at_once() {
    let run = run_plain(
        vec![says(
            None,
            Some(vec![call("f", "finish", "not json"), call("r", "read", r#"{"path":"/a"}"#)]),
        )],
        &base_config(),
    );
    assert_eq!(run.outcome.status, "completed");
    assert_eq!(run.outcome.final_answer, "");
    let last = run.session.messages().last().unwrap();
    assert_eq!(last.tool_call_id, Some("f".to_string()));
    assert_eq!(last.content, Some(r#"{"ok":true,"status":"completed"}"#.to_string()));
}

#[test]
fn error_is_told_and_saved() {
    let run = run_plain(vec![Err(LlmError::BadJson("x".into()))], &base_config());
    assert_eq!(run.outcome.turns, 1);
    assert_eq!(run.outcome.final_answer, LlmError::BadJson("x".into()).human_message());
    assert_eq!(run.saves.len(), 1);
    assert_eq!(run.saves[0].turn_count, 1);
}

#[test]
fn a_reply_without_words_completes_with_nothing() {
    let run = run_plain(vec![says(None, Some(vec![]))], &base_config());
    assert_eq!(run.outcome.status, "completed");
    assert_eq!(run.outcome.final_answer, "");
}

#[test]
fn a_written_call_is_taken_out_of_the_text() {
    let run = run_plain(
        vec![says(Some("All good.\n\nfinish(result=\"done\")"), None)],
        &base_config(),
    );
    assert_eq!(run.outcome.final_answer, "All good.");
    let run = run_plain(vec![says(Some("finish(result=\"done\")"), None)], &base_config());
    assert_eq!(run.outcome.final_answer, "done");
}

#[test]
fn events_tell_the_turn_in_order() {
    let run = run_plain(
        vec![
            says(
                Some("hm"),
                Some(vec![
                    call("a", "read", r#"{"path":"/a"}"#),
                    call("t", "todo_update", r#"{"items":[{"id":"s","content":"x","status":"pending"}]}"#),
                ]),
            ),
            says(Some(""), Some(vec![call("f", "finish", r#"{"result":"r"}"#)])),
        ],
        &base_config(),
    );
    let lines: Vec<String> =
        run.events.iter().filter_map(|e| log_turn(&base_config(), 7, e)).collect();
    assert_eq!(
        lines,
        vec![
            "[turn 7] calling llm",
            "[turn 7] llm said: hm",
            "[turn 7] tool: read({\"path\":\"/a\"})",
            "[turn 7] result: read {\"error\":\"no such file: /a\",\"fix\":\"check the path is right. if it should exist, create it first with write\"}",
            "[turn 7] tool: todo_update({\"items\":[{\"id\":\"s\",\"content\":\"x\",\"status\":\"pending\"}]})",
            "[turn 7] result: todo_update {\"after_count\":1,\"before_count\":0,\"ok\":true,\"todos\":[{\"content\":\"x\",\"id\":\"s\",\"status\":\"pending\"}]}",
            "[turn 7] todos: 1 total: 1 pending, 0 in progress, 0 completed, 0 blocked",
            "[turn 7] calling llm",
            "[turn 7] tool: finish({\"result\":\"r\"})",
        ]
    );
    let finished = run
        .events
        .iter()
        .filter(|e| matches!(e, LoopEvent::ToolFinished { .. }))
        .count();
    assert_eq!(finished, 2);
}

#[test]
fn nothing_is_logged_with_json_output() {
    let mut config = base_config();
    config.json_output = true;
    assert_eq!(log_turn(&config, 1, &LoopEvent::TurnStart { turn: 1, max: 2 }), None);
}

#[test]
fn long_results_are_clipped_in_the_log() {
    let line = |result: String| {
        log_turn(&base_config(), 3, &LoopEvent::ToolFinished { name: "n".into(), result }).unwrap()
    };
    assert_eq!(line("r".into()), "[turn 3] result: n r");
    assert_eq!(line("a".repeat(201)), format!("[turn 3] result: n {}...", "a".repeat(200)));
    assert_eq!(
        line(format!("{}é", "a".repeat(199))),
        format!("[turn 3] result: n {}...", "a".repeat(199))
    );
}

#[test]
fn long_words_are_cut_in_the_log() {
    let text = "a".repeat(201);
    assert_eq!(truncate_log(&text, 200), format!("{}...", "a".repeat(200)));
    assert_eq!(truncate_log("short", 200), "short");
}

#[test]
fn words_that_cannot_be_cut_end_the_session() {
    let config = base_config();
    let mut session = Session::begin(&config, None, "id", "now");
    session.start_turn(&config, false);
    let text = format!("{}é", "a".repeat(199));
    let told = session.take_reply(says(Some(&text), None));
    assert!(matches!(told.step, LoopStep::Abort));
    assert_eq!(session.phase(), Phase::Over);
}

#[test]
fn a_reply_is_taken_with_what_was_found_in_it() {
    let config = base_config();
    let mut session = Session::begin(&config, None, "id", "now");
    session.start_turn(&config, false);
    let told = session.take_reply_with(
        Message::assistant(Some("words".into()), None),
        Capture::Found("found".into()),
    );
    match told.step {
        LoopStep::Finish(out) => {
            assert_eq!(out.final_answer, "found");
            assert_eq!(out.task_id, "id");
        }
        other => panic!("got: {:?}", other),
    }
    let mut session = Session::begin(&config, None, "id", "now");
    session.start_turn(&config, false);
    let told = session.take_reply_with(Message::assistant(None, None), Capture::Inside);
    assert!(matches!(told.step, LoopStep::Abort));
}

#[test]
fn without_approval_no_destructive_command_is_run() {
    let rm = || says(None, Some(vec![call("x", "exec", r#"{"command":"rm","args":["/a"]}"#)]));
    let mut config = base_config();
    let mut session = Session::begin(&config, None, "id", "now");
    session.start_turn(&config, false);
    assert!(matches!(session.take_reply(rm()).step, LoopStep::Next));
    assert!(matches!(session.take_calls(&config).step, LoopStep::Save));
    config.auto_approve = true;
    let mut session = Session::begin(&config, None, "id", "now");
    session.start_turn(&config, false);
    session.take_reply(rm());
    match session.take_calls(&config).step {
        LoopStep::Act(ToolAction::Exec { command, args, workdir }) => {
            assert_eq!(workdir, "/work");
            assert_eq!(command, "rm");
            assert_eq!(args, vec!["/a"]);
        }
        other => panic!("got: {:?}", other),
    }
}

#[test]
fn a_call_is_taken_with_given_arguments() {
    let config = base_config();
    let mut session = Session::begin(&config, None, "id", "now");
    session.start_turn(&config, false);
    let calls = vec![
        call("a", "read", "{}"),
        call("b", "read", r#"{"path":"x"}"#),
        call("c", "finish", "{}"),
    ];
    assert!(matches!(session.take_reply(says(None, Some(calls))).step, LoopStep::Next));

    // A call that needs no action is answered at once.
    let told = session.take_call(&config, &parse("{}").unwrap());
    assert!(matches!(told.step, LoopStep::Next));
    assert_eq!(session.phase(), Phase::Calling);
    let said = session.messages().last().unwrap();
    assert_eq!(said.tool_call_id.as_deref(), Some("a"));
    assert!(said.content.as_deref().unwrap().contains("missing required argument"));

    // The arguments that are given count, and the action's result answers the call.
    let told = session.take_call(&config, &parse(r#"{"path":"y"}"#).unwrap());
    match told.step {
        LoopStep::Act(ToolAction::Read { path }) => assert_eq!(path, "y"),
        other => panic!("got: {:?}", other),
    }
    assert_eq!(session.phase(), Phase::Acting);
    let told = session.take_result(&parse(r#"{"content":"z"}"#).unwrap());
    assert!(matches!(told.step, LoopStep::Next));
    let said = session.messages().last().unwrap();
    assert_eq!(said.tool_call_id.as_deref(), Some("b"));
    assert_eq!(said.content.as_deref(), Some(r#"{"content":"z"}"#));

    let told = session.take_call(&config, &parse(r#"{"result":"r","blocked":true}"#).unwrap());
    match told.step {
        LoopStep::Finish(out) => {
            assert_eq!(out.final_answer, "r");
            assert_eq!(out.status, "blocked");
        }
        other => panic!("got: {:?}", other),
    }
    assert_eq!(session.phase(), Phase::Over);
}

#[test]
fn a_turn_is_saved_once_its_calls_are_taken() {
    let config = base_config();
    let mut session = Session::begin(&config, None, "id", "now");
    session.start_turn(&config, false);
    session.take_reply(says(None, Some(vec![call("a", "read", r#"{"path":"x"}"#)])));
    assert!(matches!(session.take_calls(&config).step, LoopStep::Act(_)));
    session.take_result(&parse("{}").unwrap());
    assert!(matches!(session.take_calls(&config).step, LoopStep::Save));
    assert_eq!(session.phase(), Phase::Ready);
}

#[test]
fn verdicts_are_read_from_the_arguments() {
    let verdict = |text: &str| finish_verdict(&parse(text).unwrap());
    assert_eq!(verdict(r#"{"result":"r","blocked":true}"#), ("r".to_string(), true));
    assert_eq!(verdict(r#"{"result":7,"blocked":"yes"}"#), (String::new(), false));
    assert_eq!(verdict("[]"), (String::new(), false));
}

#[test]
fn snapshot_keeps_what_is_known() {
    let mut config = base_config();
    config.model = Some("m".into());
    config.auto_approve = true;
    let session = Session::begin(&config, None, "id", "born");
    let state = session.snapshot(&config, "later");
    assert_eq!(state.task_id, "id");
    assert_eq!(state.created_at, "born");
    assert_eq!(state.updated_at, "later");
    assert_eq!(state.model, Some("m".to_string()));
    assert!(state.auto_approve);
    assert_eq!(state.messages.len(), 3);
    assert_eq!(state.turn_count, 0);
}

#[test]
fn outcome_becomes_an_envelope() {
    let out = Outcome {
        status: "completed".into(),
        turns: 4,
        todos: vec![TodoItem {
            id: "s1".into(),
            content: "grep TODO".into(),
            status: TodoStatus::InProgress,
        }],
        final_answer: "found".into(),
        task_id: "t".into(),
    };
    assert_eq!(
        render(&outcome_to_json(&out)),
        r#"{"final_answer":"found","status":"completed","task_id":"t","todos":[{"content":"grep TODO","id":"s1","status":"inprogress"}],"turns":4}"#
    );
}

#[test]
fn saving_goes_where_the_terms_say() {
    let mut config = base_config();
    assert_eq!(save_dir(&config, "/usual"), "/state");
    config.state_dir = None;
    assert_eq!(save_dir(&config, "/usual"), "/usual");
    assert_eq!(save_failed("disk full"), "could not save task state: disk full");
}

#[test]
fn copied_terms_say_the_same() {
    let config = base_config();
    let copy = config.clone();
    assert_eq!(copy.task, config.task);
    assert_eq!(copy.max_turns, config.max_turns);
    assert_eq!(copy.workdir, config.workdir);
    assert_eq!(copy.state_dir, config.state_dir);
}
