use agentic::json::{parse, render, Json};
use agentic::reports::{
    exec_report, read_report, write_next, ExecOutcome, ReadOutcome, WriteNext, WriteProgress,
};
use agentic::schemas::tool_lines;
use agentic::todo::{TodoItem, TodoStatus};
use agentic::tools::{
    guard, kind_name, run_tool, tool_exec, tool_grep, tool_read, tool_schemas, tool_search,
    tool_todo_update, tool_write, want_arr, want_str, ToolAction, ToolContext, ToolStep,
};

fn ctx() -> ToolContext {
    ToolContext { auto_approve: false, workdir: "/work".into() }
}

fn json(text: &str) -> Json {
    parse(text).unwrap()
}

fn answer(step: ToolStep) -> Json {
    match step {
        ToolStep::Answer(j) => j,
        ToolStep::Act(action) => panic!("expected an answer, got: {:?}", action),
    }
}

fn action(step: ToolStep) -> ToolAction {
    match step {
        ToolStep::Act(action) => action,
        ToolStep::Answer(j) => panic!("expected an action, got: {}", render(&j)),
    }
}

fn words(items: &[&str]) -> Vec<String> {
    items.iter().map(|s| s.to_string()).collect()
}

#[test]
fn read_missing_file_returns_error_with_fix() {
    match action(tool_read(&json(r#"{"path": "/nonexistent/path/xyz"}"#))) {
        ToolAction::Read { path } => {
            assert_eq!(path, "/nonexistent/path/xyz");
            let result = read_report(&path, ReadOutcome::NotFound);
            assert!(result.str_at("error").unwrap().contains("no such file"));
            assert!(result.get("fix").is_some());
        }
        other => panic!("got: {:?}", other),
    }
}

#[test]
fn read_returns_content_for_real_file() {
    match action(tool_read(&json(r#"{"path": "test.txt"}"#))) {
        ToolAction::Read { path } => {
            assert_eq!(path, "test.txt");
            let bytes = "hello world".as_bytes().to_vec();
            let result = read_report(&path, ReadOutcome::Bytes(bytes));
            assert_eq!(result.str_at("content"), Some("hello world"));
            assert_eq!(render(result.get("bytes").unwrap()), "11");
        }
        other => panic!("got: {:?}", other),
    }
}

#[test]
fn read_missing_path_arg_returns_error() {
    let result = answer(tool_read(&json("{}")));
    assert!(result.str_at("error").unwrap().contains("missing required argument"));
}

#[test]
fn read_non_string_path_returns_error() {
    let result = answer(tool_read(&json(r#"{"path": 42}"#)));
    assert!(result.str_at("error").unwrap().contains("must be a string"));
}

#[test]
fn read_directory_returns_listing() {
    match action(tool_read(&json(r#"{"path": "dir"}"#))) {
        ToolAction::Read { path } => {
            assert_eq!(path, "dir");
            let names = words(&["a.txt", "b.txt"]);
            let result = read_report(&path, ReadOutcome::Listing(names));
            assert_eq!(result.bool_at("is_directory"), Some(true));
            assert!(result.get("entries").unwrap().as_array().unwrap().len() >= 2);
        }
        other => panic!("got: {:?}", other),
    }
}

#[test]
fn write_creates_file() {
    match action(tool_write(&json(r#"{"path": "out.txt", "content": "data"}"#))) {
        ToolAction::Write { path, content } => {
            assert_eq!(content, "data");
            let start = WriteProgress::Start { parent: Some("".into()), parent_exists: false };
            assert!(matches!(write_next(&path, &content, start), WriteNext::WriteTemp));
            assert!(matches!(
                write_next(&path, &content, WriteProgress::TempWritten),
                WriteNext::Rename
            ));
            match write_next(&path, &content, WriteProgress::Renamed) {
                WriteNext::Answer(result) => {
                    assert_eq!(result.bool_at("ok"), Some(true));
                    assert_eq!(render(&result), r#"{"bytes":4,"ok":true,"path":"out.txt"}"#);
                }
                other => panic!("got: {:?}", other),
            }
        }
        other => panic!("got: {:?}", other),
    }
}

#[test]
fn write_missing_parent_returns_error_with_fix() {
    match action(tool_write(&json(r#"{"path": "/tmp/no-such-dir-xyz/file.txt", "content": "x"}"#))) {
        ToolAction::Write { path, content } => {
            let start = WriteProgress::Start {
                parent: Some("/tmp/no-such-dir-xyz".into()),
                parent_exists: false,
            };
            match write_next(&path, &content, start) {
                WriteNext::Answer(result) => {
                    assert!(result.str_at("error").unwrap().contains("parent directory"));
                    assert_eq!(
                        result.str_at("fix"),
                        Some("create the directory first, or write to a path that exists. try: exec mkdir -p /tmp/no-such-dir-xyz")
                    );
                }
                other => panic!("got: {:?}", other),
            }
        }
        other => panic!("got: {:?}", other),
    }
}

#[test]
fn write_missing_content_arg_returns_error() {
    let result = answer(tool_write(&json(r#"{"path": "/tmp/x"}"#)));
    assert!(result.str_at("error").unwrap().contains("missing required argument: 'content'"));
}

#[test]
fn exec_runs_ls() {
    match action(tool_exec(&json(r#"{"command": "ls", "args": ["/tmp/d"]}"#), &ctx())) {
        ToolAction::Exec { command, args, .. } => {
            let done = ExecOutcome::Done {
                code: Some(0),
                stdout: "visible.txt\n".as_bytes().to_vec(),
                stderr: Vec::new(),
            };
            let result = exec_report(&command, &args, done).unwrap();
            assert!(result.str_at("stdout").unwrap().contains("visible.txt"));
            assert_eq!(render(result.get("exit").unwrap()), "0");
        }
        other => panic!("got: {:?}", other),
    }
}

#[test]
fn exec_rm_blocked_without_auto_approve() {
    let result = answer(tool_exec(&json(r#"{"command": "rm", "args": ["/tmp/x"]}"#), &ctx()));
    assert_eq!(result.bool_at("blocked"), Some(true));
    assert!(result.str_at("error").unwrap().contains("--yes"));
}

#[test]
fn exec_rm_runs_with_auto_approve() {
    let mut c = ctx();
    c.auto_approve = true;
    match action(tool_exec(&json(r#"{"command": "rm", "args": ["doomed.txt"]}"#), &c)) {
        ToolAction::Exec { command, args, .. } => {
            assert_eq!(command, "rm");
            assert_eq!(args, words(&["doomed.txt"]));
            let done =
                ExecOutcome::Done { code: Some(0), stdout: Vec::new(), stderr: Vec::new() };
            let result = exec_report(&command, &args, done).unwrap();
            assert_eq!(render(result.get("exit").unwrap()), "0");
        }
        other => panic!("got: {:?}", other),
    }
}

#[test]
fn exec_command_not_found_returns_error() {
    match action(tool_exec(&json(r#"{"command": "nonexistent-bin-xyz", "args": []}"#), &ctx())) {
        ToolAction::Exec { command, args, .. } => {
            let result = exec_report(&command, &args, ExecOutcome::NotFound).unwrap();
            assert!(result.str_at("error").unwrap().contains("command not found"));
        }
        other => panic!("got: {:?}", other),
    }
}

#[test]
fn exec_missing_command_arg_returns_error() {
    let result = answer(tool_exec(&json("{}"), &ctx()));
    assert!(result.str_at("error").unwrap().contains("missing required argument"));
}

#[test]
fn exec_non_string_arg_returns_error() {
    let result = answer(tool_exec(&json(r#"{"command": "echo", "args": [["nested"]]}"#), &ctx()));
    assert!(result.str_at("error").unwrap().contains("must be a string"));
}

#[test]
fn unknown_tool_returns_available_list() {
    let mut todos = Vec::new();
    let result = answer(run_tool("frobnicate", &json("{}"), &ctx(), &mut todos));
    assert!(result.str_at("error").unwrap().contains("unknown tool"));
    assert!(result.get("available").unwrap().as_array().is_some());
}

#[test]
fn todo_update_adds_items() {
    let mut todos = Vec::new();
    let result = tool_todo_update(
        &json(r#"{"items": [{"id": "s1", "content": "step one", "status": "pending"}]}"#),
        &mut todos,
    );
    assert_eq!(result.bool_at("ok"), Some(true));
    assert_eq!(todos.len(), 1);
    assert_eq!(todos[0].id, "s1");
}

#[test]
fn todo_update_upserts_by_id() {
    let mut todos =
        vec![TodoItem { id: "s1".into(), content: "old".into(), status: TodoStatus::Pending }];
    tool_todo_update(
        &json(r#"{"items": [{"id": "s1", "content": "new", "status": "completed"}]}"#),
        &mut todos,
    );
    assert_eq!(todos.len(), 1);
    assert_eq!(todos[0].content, "new");
    assert_eq!(todos[0].status, TodoStatus::Completed);
}

#[test]
fn todo_update_bad_status_returns_error() {
    let mut todos = Vec::new();
    let result = tool_todo_update(
        &json(r#"{"items": [{"id": "s1", "content": "x", "status": "finished"}]}"#),
        &mut todos,
    );
    assert!(result.str_at("error").unwrap().contains("unknown todo status"));
}

#[test]
fn tool_schemas_cover_all_tools() {
    let schemas = tool_schemas();
    let names: Vec<&str> =
        schemas.iter().map(|s| s.get("function").unwrap().str_at("name").unwrap()).collect();
    for expected in ["read", "write", "grep", "search", "exec", "todo_update", "finish"] {
        assert!(names.contains(&expected), "missing schema for {}", expected);
    }
}

#[test]
fn unknown_tool_names_all_tools() {
    let mut todos = Vec::new();
    assert_eq!(
        render(&answer(run_tool("finish", &json("{}"), &ctx(), &mut todos))),
        r#"{"available":["read","write","grep","search","exec","todo_update","finish"],"error":"unknown tool: finish","fix":"call one of the available tools"}"#
    );
}

#[test]
fn refusals_name_the_next_step() {
    let mut todos = Vec::new();
    for (name, args) in [
        ("read", "{}"),
        ("write", r#"{"path":"x","content":[]}"#),
        ("grep", r#"{"pattern":null}"#),
        ("search", "[]"),
        ("exec", r#"{"command":"ls","args":"-la"}"#),
        ("exec", r#"{"command":"ls","args":[null]}"#),
        ("exec", r#"{"command":"rm"}"#),
        ("todo_update", r#"{"items":{}}"#),
        ("todo_update", r#"{"items":[1]}"#),
        ("todo_update", r#"{"items":[{"id":"a"}]}"#),
        ("todo_update", r#"{"items":[{"id":"a","content":"b","status":"odd"}]}"#),
        ("nonsense", "{}"),
    ] {
        let result = answer(run_tool(name, &json(args), &ctx(), &mut todos));
        assert!(result.str_at("error").is_some(), "{} {}", name, args);
        assert!(result.str_at("fix").is_some(), "{} {}", name, args);
    }
    assert!(todos.is_empty());
}

#[test]
fn wrong_arguments_are_named_exactly() {
    match want_str(&json(r#"{"k":true}"#), "k") {
        Err(e) => assert_eq!(
            render(&e),
            r#"{"error":"'k' must be a string, got bool","fix":"pass \"k\": \"value\" in the arguments object"}"#
        ),
        Ok(s) => panic!("got: {}", s),
    }
    match want_arr(&json("{}"), "items") {
        Err(e) => assert_eq!(
            render(&e),
            r#"{"error":"missing required argument: 'items'","fix":"add \"items\" to the arguments"}"#
        ),
        Ok(_) => panic!("got a list"),
    }
    match want_arr(&json(r#"{"items":1}"#), "items") {
        Err(e) => assert_eq!(
            render(&e),
            r#"{"error":"'items' must be an array","fix":"pass \"items\": [...]"}"#
        ),
        Ok(_) => panic!("got a list"),
    }
    assert_eq!(want_arr(&json(r#"{"items":[1,2]}"#), "items").unwrap().len(), 2);
}

#[test]
fn kinds_have_names() {
    let kinds: Vec<&str> = ["null", "true", "1.5", "\"s\"", "[]", "{}"]
        .iter()
        .map(|t| kind_name(&json(t)))
        .collect();
    assert_eq!(kinds, vec!["null", "bool", "number", "string", "array", "object"]);
}

#[test]
fn grep_looks_in_the_current_directory_by_default() {
    match action(tool_grep(&json(r#"{"pattern":"x"}"#))) {
        ToolAction::Grep { pattern, path } => {
            assert_eq!(pattern, "x");
            assert_eq!(path, ".");
        }
        other => panic!("got: {:?}", other),
    }
    match action(tool_grep(&json(r#"{"pattern":"x","path":"src"}"#))) {
        ToolAction::Grep { path, .. } => assert_eq!(path, "src"),
        other => panic!("got: {:?}", other),
    }
}

#[test]
fn search_takes_its_query() {
    match action(tool_search(&json(r#"{"query":"rust"}"#))) {
        ToolAction::Search { query } => assert_eq!(query, "rust"),
        other => panic!("got: {:?}", other),
    }
}

#[test]
fn command_arguments_may_be_numbers_and_flags() {
    match action(tool_exec(
        &json(r#"{"command":"echo","args":["a|b", 3, 2.50, true, ">x"]}"#),
        &ctx(),
    )) {
        ToolAction::Exec { args, .. } => {
            assert_eq!(args, words(&["a|b", "3", "2.5", "true", ">x"]))
        }
        other => panic!("got: {:?}", other),
    }
    match action(tool_exec(&json(r#"{"command":"ls"}"#), &ctx())) {
        ToolAction::Exec { args, .. } => assert!(args.is_empty()),
        other => panic!("got: {:?}", other),
    }
}

#[test]
fn the_first_wrong_argument_is_named() {
    let result = answer(tool_exec(
        &json(r#"{"command":"echo","args":["ok", {"a":1}, null]}"#),
        &ctx(),
    ));
    assert_eq!(
        result.str_at("error"),
        Some("each arg must be a string, number, or bool. got: {\"a\":1}")
    );
}

#[test]
fn a_held_back_command_is_told_in_full() {
    let result = answer(guard("rm".to_string(), words(&["-rf", "/x"]), &ctx()));
    assert_eq!(
        render(&result),
        r#"{"args":["-rf","/x"],"blocked":true,"command":"rm","error":"the command \"rm -rf /x\" is destructive. rerun with --yes to allow it, or do it yourself","fix":"the user must allow destructive commands. tell the user to rerun with --yes, or do the operation yourself outside the agent"}"#
    );
    let mut approved = ctx();
    approved.auto_approve = true;
    assert!(matches!(guard("rm".to_string(), Vec::new(), &approved), ToolStep::Act(_)));
    match action(guard("ls".to_string(), Vec::new(), &ctx())) {
        ToolAction::Exec { workdir, .. } => assert_eq!(workdir, "/work"),
        other => panic!("got: {:?}", other),
    }
}

#[test]
fn a_refused_update_changes_nothing() {
    let mut todos =
        vec![TodoItem { id: "a".into(), content: "x".into(), status: TodoStatus::Blocked }];
    let result = tool_todo_update(
        &json(
            r#"{"items":[{"id":"b","content":"y","status":"done"},{"id":"c","content":"z","status":"Odd"}]}"#,
        ),
        &mut todos,
    );
    assert_eq!(
        render(&result),
        r#"{"error":"items[1]: unknown todo status 'odd': expected pending, in_progress, completed, or blocked","fix":"status must be pending, in_progress, completed, or blocked"}"#
    );
    assert_eq!(todos.len(), 1);
    assert_eq!(todos[0].id, "a");
}

#[test]
fn an_update_counts_before_and_after() {
    let mut todos = Vec::new();
    let mut update = |text: &str| render(&tool_todo_update(&json(text), &mut todos));
    assert_eq!(
        update(r#"{"items":[{"id":"a","content":"x","status":"IN_PROGRESS"}]}"#),
        r#"{"after_count":1,"before_count":0,"ok":true,"todos":[{"content":"x","id":"a","status":"inprogress"}]}"#
    );
    assert_eq!(
        update(r#"{"items":[{"id":"b","content":"y","status":"done"},{"id":"a","content":"z","status":"blocked"}]}"#),
        r#"{"after_count":2,"before_count":1,"ok":true,"todos":[{"content":"z","id":"a","status":"blocked"},{"content":"y","id":"b","status":"completed"}]}"#
    );
}

#[test]
fn items_are_held_against_what_they_need() {
    let mut todos = Vec::new();
    let mut error = |text: &str| {
        tool_todo_update(&json(text), &mut todos).str_at("error").unwrap().to_string()
    };
    assert_eq!(error(r#"{"items":["x"]}"#), "items[0] is not an object");
    assert_eq!(error(r#"{"items":[{}]}"#), "items[0] missing 'id'");
    assert_eq!(error(r#"{"items":[{"id":"a"}]}"#), "items[0] missing 'content'");
    assert_eq!(error(r#"{"items":[{"id":"a","content":"b"}]}"#), "items[0] missing 'status'");
}

#[test]
fn tools_are_offered_in_the_known_shape() {
    let schemas = tool_schemas();
    assert_eq!(schemas.len(), 7);
    assert_eq!(
        render(&schemas[0]),
        r#"{"function":{"description":"Read a text file from disk. Returns the file contents. Fails on binary files, missing files, or directories.","name":"read","parameters":{"properties":{"path":{"description":"absolute or relative path to the file","type":"string"}},"required":["path"],"type":"object"}},"type":"function"}"#
    );
    let exec = schemas[4].get("function").unwrap().get("parameters").unwrap();
    assert_eq!(
        render(exec),
        r#"{"properties":{"args":{"description":"arguments to pass","items":{"type":"string"},"type":"array"},"command":{"description":"the program to run, like 'ls' or 'cargo'","type":"string"}},"required":["command"],"type":"object"}"#
    );
    let todo = schemas[5].get("function").unwrap().get("parameters").unwrap();
    assert_eq!(
        render(todo),
        r#"{"properties":{"items":{"items":{"properties":{"content":{"description":"what needs to be done","type":"string"},"id":{"description":"stable identifier like 'step1'","type":"string"},"status":{"enum":["pending","in_progress","completed","blocked"],"type":"string"}},"required":["id","content","status"],"type":"object"},"type":"array"}},"required":["items"],"type":"object"}"#
    );
}

#[test]
fn tools_are_listed_with_their_properties_in_order() {
    let lines = tool_lines(&tool_schemas());
    assert_eq!(lines[0], "read");
    assert_eq!(lines[2], "    * path: absolute or relative path to the file");
    assert_eq!(lines[3], "");
    assert_eq!(lines[4], "write");
    assert_eq!(lines[6], "    * content: the full text content to write");
    assert_eq!(lines[7], "    * path: file path to write");
    assert!(lines.contains(
        &"      path: file or directory to search in (default: current directory)".to_string()
    ));
    assert!(lines.contains(&"    * items: ".to_string()));
    assert_eq!(lines.last().unwrap(), "");
}

#[test]
fn odd_schemas_are_listed_all_the_same() {
    let lines = tool_lines(&vec![json("{}"), json(r#"{"function":{"name":"n"}}"#)]);
    assert_eq!(lines, words(&["?", "  ", "", "n", "  ", ""]));
}

#[test]
fn other_tools_leave_the_todos() {
    let mut todos =
        vec![TodoItem { id: "a".into(), content: "x".into(), status: TodoStatus::Pending }];
    for name in ["read", "write", "grep", "search", "exec", "finish", "other"] {
        run_tool(name, &json(r#"{"items":[],"path":"p"}"#), &ctx(), &mut todos);
        assert_eq!(todos.len(), 1);
        assert_eq!(todos[0].content, "x");
    }
}

#[test]
fn required_arguments_are_required() {
    for schema in tool_schemas() {
        let function = schema.get("function").unwrap();
        let name = function.str_at("name").unwrap();
        if name == "finish" {
            continue;
        }
        let required = function.get("parameters").unwrap().get("required").unwrap();
        assert!(!required.as_array().unwrap().is_empty());
        let mut todos = Vec::new();
        let result = answer(run_tool(name, &json("{}"), &ctx(), &mut todos));
        assert!(result.str_at("error").unwrap().starts_with("missing required argument"));
    }
}
