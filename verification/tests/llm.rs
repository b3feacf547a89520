use agentic::json::{parse, render, Json};
use agentic::llm::{
    arguments_from, check_exit, clone_error, conclude, copy_messages, keep_waiting, message_to_json,
    passed_on, pick_reply, read_reply, request_text, request_with, resolve_binary, search_places,
    timeout_secs_from, FunctionCall, LlmError, LlmResponse, Look, Lookup, Message, MockLlmClient,
    RealLlmClient, ToolCall, Wait,
};

fn call(id: &str, name: &str, arguments: &str) -> ToolCall {
    ToolCall {
        id: id.into(),
        call_type: "function".into(),
        function: FunctionCall { name: name.into(), arguments: arguments.into() },
    }
}

fn nowhere() -> Lookup {
    Lookup {
        flag: None,
        flag_found: false,
        setting: None,
        setting_found: false,
        on_path: false,
    }
}

#[test]
fn message_system_serializes_openai() {
    let m = Message::system("you are helpful");
    let v = parse(&render(&message_to_json(&m))).unwrap();
    assert_eq!(v.str_at("role"), Some("system"));
    assert_eq!(v.str_at("content"), Some("you are helpful"));
}

#[test]
fn tool_result_has_tool_call_id() {
    let m = Message::tool_result("call_1", "42");
    let v = parse(&render(&message_to_json(&m))).unwrap();
    assert_eq!(v.str_at("role"), Some("tool"));
    assert_eq!(v.str_at("tool_call_id"), Some("call_1"));
    assert_eq!(v.str_at("content"), Some("42"));
}

#[test]
fn tool_call_arguments_parsed_as_json() {
    let tc = ToolCall {
        id: "x".into(),
        call_type: "function".into(),
        function: FunctionCall { name: "read".into(), arguments: r#"{"path":"/tmp/x"}"#.into() },
    };
    let args = tc.arguments_value();
    assert_eq!(args.str_at("path"), Some("/tmp/x"));
}

#[test]
fn tool_call_bad_arguments_returns_empty_object() {
    let tc = ToolCall {
        id: "x".into(),
        call_type: "function".into(),
        function: FunctionCall { name: "read".into(), arguments: "not json".into() },
    };
    let args = tc.arguments_value();
    assert!(args.is_object());
}

#[test]
fn binary_not_found_message_names_fix() {
    let err = LlmError::BinaryNotFound { searched: vec!["PATH:llm-adapter".into()] };
    let msg = err.human_message();
    assert!(msg.contains("llm-adapter not found"));
    assert!(msg.contains("sheol pull"));
}

#[test]
fn timeout_message_names_next_step() {
    let msg = LlmError::Timeout { secs: 30 }.human_message();
    assert!(msg.contains("did not answer within 30s"));
    assert!(msg.contains("AGENTIC_LLM_TIMEOUT_SECS"));
    assert!(msg.contains("agentic resume"));
}

#[test]
fn real_client_sends_tools_and_tool_messages_to_adapter() {
    let messages = vec![
        Message::user("read /tmp/x"),
        Message::assistant(None, Some(vec![call("call_1", "read", "{\"path\":\"/tmp/x\"}")])),
        Message::tool_result("call_1", "{\"content\": \"hi\"}"),
    ];
    let tools = vec![parse(r#"{"type": "function", "function": {"name": "read"}}"#).unwrap()];
    let sent = parse(&request_text(&messages, &tools, Some("glm-5.2"))).unwrap();
    assert_eq!(sent.str_at("model"), Some("glm-5.2"));
    let tool = &sent.get("tools").unwrap().as_array().unwrap()[0];
    assert_eq!(tool.get("function").unwrap().str_at("name"), Some("read"));
    assert_eq!(sent.str_at("tool_choice"), Some("auto"));
    let told = sent.get("messages").unwrap().as_array().unwrap();
    let calls = told[1].get("tool_calls").unwrap().as_array().unwrap();
    assert_eq!(calls[0].str_at("id"), Some("call_1"));
    assert_eq!(told[2].str_at("role"), Some("tool"));
    assert_eq!(told[2].str_at("tool_call_id"), Some("call_1"));

    let reply = read_reply(
        r#"{"choices":[{"index":0,"message":{"role":"assistant","content":null,"tool_calls":[{"id":"call_1","type":"function","function":{"name":"read","arguments":"{\"path\":\"/tmp/x\"}"}}]},"finish_reason":"tool_calls"}]}"#,
    ).unwrap();
    assert_eq!(reply.finish_reason, "tool_calls");
    assert_eq!(reply.message.tool_calls.as_ref().unwrap()[0].id, "call_1");
    assert_eq!(reply.message.content, None);
}

#[test]
fn real_client_times_out_hanging_adapter() {
    match keep_waiting(Look::Running { expired: true }, 1) {
        Wait::Kill(LlmError::Timeout { secs }) => assert_eq!(secs, 1),
        other => panic!("expected Timeout, got: {:?}", other),
    }
}

#[test]
fn real_client_adapter_nonzero_exit_is_honest_error() {
    match check_exit(false, Some(2), "error: gateway down\n") {
        Err(LlmError::NonZeroExit { code, stderr }) => {
            assert_eq!(code, 2);
            assert!(stderr.contains("gateway down"));
        }
        other => panic!("expected NonZeroExit, got: {:?}", other),
    }
}

#[test]
fn waiting_goes_on_until_the_adapter_exits() {
    assert!(matches!(keep_waiting(Look::Exited, 5), Wait::Read));
    assert!(matches!(
        keep_waiting(Look::Running { expired: false }, 5),
        Wait::Sleep { millis: 50 }
    ));
    match keep_waiting(Look::Failed("gone".into()), 5) {
        Wait::Fail(LlmError::Spawn(reason)) => assert_eq!(reason, "gone"),
        other => panic!("got: {:?}", other),
    }
}

#[test]
fn an_exit_without_a_code_counts_as_minus_one() {
    assert!(check_exit(true, Some(0), "noise").is_ok());
    match check_exit(false, None, "") {
        Err(LlmError::NonZeroExit { code, .. }) => assert_eq!(code, -1),
        other => panic!("got: {:?}", other),
    }
}

#[test]
fn complaints_of_a_successful_adapter_are_passed_on_trimmed() {
    assert_eq!(passed_on(true, "  careful \n"), Some("careful".to_string()));
    assert_eq!(passed_on(true, " \n\t"), None);
    assert_eq!(passed_on(false, "  careful \n"), None);
}

#[test]
fn what_comes_of_an_adapter_depends_on_its_exit() {
    let out =
        r#"{"choices":[{"message":{"role":"assistant","content":"hi"},"finish_reason":"stop"}]}"#;
    match conclude(true, Some(0), out, "noise") {
        Ok(reply) => {
            assert_eq!(reply.message.content.as_deref(), Some("hi"));
            assert_eq!(reply.finish_reason, "stop");
        }
        other => panic!("got: {:?}", other),
    }
    match conclude(false, Some(3), out, "noise") {
        Err(LlmError::NonZeroExit { code, stderr }) => {
            assert_eq!(code, 3);
            assert_eq!(stderr, "noise");
        }
        other => panic!("got: {:?}", other),
    }
    assert!(matches!(
        conclude(false, None, out, ""),
        Err(LlmError::NonZeroExit { code: -1, .. })
    ));
    assert!(matches!(conclude(true, Some(0), "no json", ""), Err(LlmError::BadJson(_))));
    assert!(matches!(conclude(true, Some(0), "{}", ""), Err(LlmError::NoChoices)));
}

#[test]
fn request_without_model_and_tools_is_short() {
    let messages = vec![Message::user("hi")];
    assert_eq!(
        request_text(&messages, &[], None),
        r#"{"messages":[{"content":"hi","role":"user"}],"temperature":0.7}"#
    );
}

#[test]
fn request_holds_what_it_is_given() {
    let messages = vec![Message::assistant(None, None)];
    let request = request_with(&messages, &[], Some("m"), Json::Null);
    assert_eq!(
        render(&request),
        r#"{"messages":[{"role":"assistant"}],"model":"m","temperature":null}"#
    );
}

#[test]
fn arguments_that_are_empty_or_no_json_are_none() {
    assert_eq!(render(&call("x", "read", "").arguments_value()), "{}");
    assert_eq!(render(&arguments_from(Err("bad".to_string()))), "{}");
    assert_eq!(render(&call("x", "read", "[1,2]").arguments_value()), "[1,2]");
}

#[test]
fn reply_without_choices_is_an_error() {
    for text in [
        "{}",
        r#"{"choices":[]}"#,
        r#"{"choices":7}"#,
        r#"{"choices":[{"text":"x"}]}"#,
        "[]",
    ] {
        assert!(matches!(read_reply(text), Err(LlmError::NoChoices)), "{}", text);
    }
}

#[test]
fn reply_that_is_no_json_is_named() {
    match read_reply("<html>") {
        Err(LlmError::BadJson(reason)) => {
            assert_eq!(reason, "expected value at line 1 column 1");
            assert_eq!(
                LlmError::BadJson(reason).human_message(),
                "llm-adapter returned something that is not valid openai json: expected value at line 1 column 1. this usually means the provider returned an error page or the config is wrong"
            );
        }
        other => panic!("got: {:?}", other),
    }
}

#[test]
fn a_message_that_cannot_be_read_is_named() {
    for (message, why) in [
        ("{}", "missing field `role`"),
        (r#"{"role":7}"#, "field `role` is not a string"),
        (r#"{"role":"a","content":[]}"#, "field `content` is not a string"),
        (r#"{"role":"a","tool_calls":{}}"#, "field `tool_calls` is not an array"),
        (r#"{"role":"a","tool_calls":[{"id":"x","type":"t"}]}"#, "missing field `function`"),
    ] {
        match read_reply(&format!(r#"{{"choices":[{{"message":{}}}]}}"#, message)) {
            Err(LlmError::BadJson(reason)) => assert_eq!(reason, why),
            other => panic!("got: {:?}", other),
        }
    }
}

#[test]
fn reply_stops_by_default() {
    let reply = pick_reply(&parse(r#"{"choices":[{"message":{"role":"a"}},{"message":1}]}"#).unwrap())
        .unwrap();
    assert_eq!(reply.finish_reason, "stop");
    assert_eq!(reply.message.role, "a");
}

#[test]
fn errors_are_put_into_words() {
    assert_eq!(
        LlmError::Spawn("x".into()).human_message(),
        "could not start llm-adapter: x"
    );
    assert_eq!(
        LlmError::StdinWrite("x".into()).human_message(),
        "could not send request to llm-adapter: x"
    );
    assert_eq!(
        LlmError::StdoutRead("x".into()).human_message(),
        "could not read answer from llm-adapter: x"
    );
    assert_eq!(
        LlmError::NonZeroExit { code: -7, stderr: " boom\n".into() }.human_message(),
        "llm-adapter exited with code -7. stderr: boom"
    );
    assert_eq!(
        LlmError::NoChoices.human_message(),
        "llm-adapter returned no choices. the model may have refused or the request was rejected"
    );
    assert_eq!(
        LlmError::BinaryNotFound { searched: vec!["a".into(), "b".into()] }.human_message(),
        "llm-adapter not found. tried: a, b. install with: sheol pull edersonff/llm-adapter, then build and put the binary on your PATH, or set --llm-binary <path> or LLM_ADAPTER_BINARY=<path>"
    );
}

#[test]
fn adapter_is_taken_from_flag_then_setting_then_path() {
    let mut lookup = nowhere();
    lookup.flag = Some("/a".into());
    lookup.setting = Some("/b".into());
    lookup.flag_found = true;
    lookup.setting_found = true;
    lookup.on_path = true;
    assert_eq!(resolve_binary(&lookup).unwrap(), "/a");
    lookup.flag_found = false;
    assert_eq!(resolve_binary(&lookup).unwrap(), "/b");
    lookup.setting_found = false;
    assert_eq!(resolve_binary(&lookup).unwrap(), "llm-adapter");
    lookup.on_path = false;
    match resolve_binary(&lookup) {
        Err(LlmError::BinaryNotFound { searched }) => assert_eq!(
            searched,
            vec!["flag --llm-binary=/a", "env LLM_ADAPTER_BINARY=/b", "PATH:llm-adapter"]
        ),
        other => panic!("got: {:?}", other),
    }
}

#[test]
fn client_holds_what_it_was_resolved_with() {
    let mut lookup = nowhere();
    assert!(RealLlmClient::resolve(&lookup, None, "c", None).is_err());
    lookup.on_path = true;
    let client = RealLlmClient::resolve(&lookup, Some("12"), "c.yaml", Some("m")).unwrap();
    assert_eq!(client.binary, "llm-adapter");
    assert_eq!(client.config_path, "c.yaml");
    assert_eq!(client.model, Some("m".to_string()));
    assert_eq!(client.timeout_secs, 12);
}

#[test]
fn timeout_falls_back_to_five_minutes() {
    assert_eq!(timeout_secs_from(None), 300);
    assert_eq!(timeout_secs_from(Some("0")), 300);
    assert_eq!(timeout_secs_from(Some("-4")), 300);
    assert_eq!(timeout_secs_from(Some("soon")), 300);
    assert_eq!(timeout_secs_from(Some("18446744073709551616")), 300);
    assert_eq!(timeout_secs_from(Some("1")), 1);
    assert_eq!(timeout_secs_from(Some("+45")), 45);
    assert_eq!(timeout_secs_from(Some("18446744073709551615")), u64::MAX);
}

#[test]
fn search_path_is_taken_apart_at_colons() {
    assert_eq!(search_places("/a:/b/", "x"), vec!["/a/x", "/b/x"]);
    assert_eq!(search_places("/a", "/bin/x"), vec!["/bin/x"]);
    assert_eq!(search_places("", "x"), vec!["x"]);
}

#[test]
fn scripted_client_replays_and_remembers() {
    let mut client = MockLlmClient::new(vec![
        Ok(LlmResponse {
            message: Message::assistant(Some("one".into()), None),
            finish_reason: "stop".into(),
        }),
        Err(LlmError::BadJson("odd".into())),
        Err(LlmError::Timeout { secs: 3 }),
    ]);
    let asked = vec![Message::user("hi")];
    let first = client.complete(&asked, &[]).unwrap();
    assert_eq!(first.message.content, Some("one".to_string()));
    assert!(matches!(client.complete(&asked, &[]), Err(LlmError::BadJson(_))));
    assert!(matches!(client.complete(&asked, &[]), Err(LlmError::NoChoices)));
    assert!(matches!(client.complete(&asked, &[]), Err(LlmError::NoChoices)));
    assert_eq!(client.call_count, 4);
    assert_eq!(client.calls.len(), 4);
    assert_eq!(client.calls[3][0].content, Some("hi".to_string()));
}

#[test]
fn errors_are_copied_for_a_scripted_client() {
    match clone_error(&LlmError::BinaryNotFound { searched: vec!["a".into()] }) {
        LlmError::BinaryNotFound { searched } => assert_eq!(searched, vec!["a"]),
        other => panic!("got: {:?}", other),
    }
    assert!(matches!(clone_error(&LlmError::NoChoices), LlmError::NoChoices));
}

#[test]
fn copied_messages_say_the_same() {
    let messages = vec![
        Message::system("s"),
        Message::assistant(Some("a".into()), Some(vec![call("i", "n", "{}")])),
        Message::tool_result("i", "r"),
    ];
    let copy = copy_messages(&messages);
    for (a, b) in messages.iter().zip(copy.iter()) {
        assert_eq!(render(&message_to_json(a)), render(&message_to_json(b)));
    }
    assert_eq!(
        render(&message_to_json(&copy[1])),
        r#"{"content":"a","role":"assistant","tool_calls":[{"function":{"arguments":"{}","name":"n"},"id":"i","type":"function"}]}"#
    );
}
