use agentic::chat::{LoopEvent, Outcome};
use agentic::json::parse;
use agentic::tui::{
    chat_event, format_event, full_text, truncate, ChatEvent, Key, Reaction, Screen, Tone,
};

fn line(event: &ChatEvent) -> Vec<(String, Tone, bool)> {
    format_event(event).into_iter().map(|s| (s.text, s.tone, s.bold)).collect()
}

fn screen(events: usize) -> Screen {
    let mut screen = Screen::new();
    for i in 0..events {
        screen.receive(ChatEvent::Assistant { text: format!("event {}", i) });
    }
    screen
}

#[test]
fn truncate_short_returns_as_is() {
    assert_eq!(truncate("hello", 10), "hello");
}

#[test]
fn truncate_long_cuts_with_ellipsis() {
    assert_eq!(truncate("hello world foo", 5), "hello...");
}

#[test]
fn full_text_assistant_returns_content() {
    let ev = ChatEvent::Assistant { text: "hello world".into() };
    assert_eq!(full_text(&ev), "hello world");
}

#[test]
fn full_text_tool_call_includes_name_and_args() {
    let ev = ChatEvent::ToolCall { name: "read".into(), args: r#"{"path":"x"}"#.into() };
    let text = full_text(&ev);
    assert!(text.contains("read"));
    assert!(text.contains("x"));
}

#[test]
fn full_text_tool_result_includes_name() {
    let ev = ChatEvent::ToolResult { name: "grep".into(), result: "3 matches".into() };
    let text = full_text(&ev);
    assert!(text.contains("grep"));
    assert!(text.contains("3 matches"));
}

#[test]
fn every_event_has_a_full_text() {
    let full = |event: ChatEvent| full_text(&event.clone());
    assert_eq!(full(ChatEvent::Turn { number: 2, max: 9 }), "Turn 2/9");
    assert_eq!(
        full(ChatEvent::ToolCall { name: "n".into(), args: "a".into() }),
        "tool: n\nargs: a"
    );
    assert_eq!(
        full(ChatEvent::ToolResult { name: "n".into(), result: "r".into() }),
        "result from n:\nr"
    );
    assert_eq!(full(ChatEvent::Todo { summary: "s".into() }), "todo: s");
    assert_eq!(full(ChatEvent::Status { status: "s".into() }), "status: s");
    assert_eq!(full(ChatEvent::Error { message: "m".into() }), "error: m");
}

#[test]
fn every_event_has_a_line() {
    assert_eq!(
        line(&ChatEvent::Turn { number: 2, max: 9 }),
        vec![("--- turn 2/9 ---".to_string(), Tone::Cyan, true)]
    );
    assert_eq!(
        line(&ChatEvent::Assistant { text: "a\nb".into() }),
        vec![
            ("assistant: ".to_string(), Tone::Green, false),
            ("a b".to_string(), Tone::Plain, false),
        ]
    );
    assert_eq!(
        line(&ChatEvent::ToolCall { name: "n".into(), args: "x".repeat(101) }),
        vec![
            ("tool: ".to_string(), Tone::Yellow, false),
            ("n".to_string(), Tone::Yellow, true),
            (format!(" {}...", "x".repeat(100)), Tone::Plain, false),
        ]
    );
    assert_eq!(
        line(&ChatEvent::ToolResult { name: "n".into(), result: "r".into() }),
        vec![
            ("result: ".to_string(), Tone::Blue, false),
            ("n ".to_string(), Tone::Blue, false),
            ("r".to_string(), Tone::Plain, false),
        ]
    );
    assert_eq!(
        line(&ChatEvent::Todo { summary: "s".into() }),
        vec![
            ("todo: ".to_string(), Tone::Magenta, false),
            ("s".to_string(), Tone::Plain, false),
        ]
    );
    assert_eq!(
        line(&ChatEvent::Status { status: "completed".into() }),
        vec![("status: completed".to_string(), Tone::Green, true)]
    );
    assert_eq!(
        line(&ChatEvent::Status { status: "blocked".into() }),
        vec![("status: blocked".to_string(), Tone::Red, true)]
    );
    assert_eq!(
        line(&ChatEvent::Error { message: "m".into() }),
        vec![("error: m".to_string(), Tone::Red, true)]
    );
}

#[test]
fn events_of_the_task_are_shown() {
    let shown = |event: LoopEvent| full_text(&chat_event(&event));
    assert_eq!(shown(LoopEvent::TurnStart { turn: 1, max: 2 }), "Turn 1/2");
    assert_eq!(shown(LoopEvent::AssistantResponse { text: "t".into() }), "t");
    assert_eq!(
        shown(LoopEvent::ToolCalled { name: "n".into(), args: "a".into() }),
        "tool: n\nargs: a"
    );
    assert_eq!(
        shown(LoopEvent::ToolFinished { name: "n".into(), result: "r".repeat(201) }),
        format!("result from n:\n{}...", "r".repeat(200))
    );
    assert_eq!(shown(LoopEvent::TodoChanged { summary: "s".into() }), "todo: s");
}

#[test]
fn the_status_line_follows_the_events() {
    let mut screen = Screen::new();
    assert_eq!(screen.status_text(), " turn 0 | running |  ");
    screen.receive(ChatEvent::Turn { number: 1, max: 5 });
    screen.receive(ChatEvent::Todo { summary: "t".repeat(41) });
    screen.receive(ChatEvent::Turn { number: 2, max: 5 });
    screen.receive(ChatEvent::Assistant { text: "x".into() });
    assert_eq!(
        screen.status_text(),
        format!(" turn 2 | running | {}... ", "t".repeat(40))
    );
    screen.receive(ChatEvent::Status { status: "completed".into() });
    screen.receive(ChatEvent::Todo { summary: "all done".into() });
    assert_eq!(screen.status_text(), " turn 2 | completed | all done ");
    assert_eq!(screen.todo_shown(), "all done");
    screen.receive(ChatEvent::Error { message: "e".repeat(61) });
    assert_eq!(screen.status_text(), format!(" error: {}... ", "e".repeat(60)));
    assert_eq!(screen.events.len(), 7);
}

#[test]
fn keys_move_the_selection() {
    let mut screen = screen(3);
    assert_eq!(screen.press(Key::Char('j'), Some(0)), Reaction::Select(1));
    assert_eq!(screen.press(Key::Down, Some(2)), Reaction::Stay);
    assert_eq!(screen.press(Key::Char('k'), Some(2)), Reaction::Select(1));
    assert_eq!(screen.press(Key::Up, Some(0)), Reaction::Stay);
    assert_eq!(screen.press(Key::Char('G'), Some(0)), Reaction::Select(2));
    assert_eq!(screen.press(Key::Char('g'), Some(2)), Reaction::Select(0));
    assert_eq!(screen.press(Key::Char('j'), None), Reaction::Stay);
    assert_eq!(screen.press(Key::Char('j'), Some(usize::MAX)), Reaction::Stay);
    assert_eq!(screen.press(Key::Char('x'), Some(0)), Reaction::Stay);
    assert_eq!(Screen::new().press(Key::Char('G'), Some(0)), Reaction::Stay);
}

#[test]
fn a_running_task_is_broken_off_by_leaving() {
    for key in ['q', 'c'] {
        let mut screen = screen(1);
        assert!(screen.hint().contains("j/k: scroll"));
        assert_eq!(screen.press(Key::Char(key), Some(0)), Reaction::Interrupt);
        assert!(screen.settled());
        assert_eq!(screen.close(), (None, 130));
    }
}

#[test]
fn the_end_is_printed() {
    let outcome = |status: &str| Outcome {
        status: status.into(),
        turns: 1,
        todos: Vec::new(),
        final_answer: "resume with: agentic resume t".into(),
        task_id: "t".into(),
    };
    let mut screen = screen(1);
    screen.press(Key::Char('c'), Some(0));
    let printed = screen.print_ending(Some(&outcome("interrupted")), false);
    assert!(printed.out.is_empty());
    assert_eq!(printed.err, vec!["resume with: agentic resume t"]);
    assert_eq!(printed.code, 130);
    let printed = screen.print_ending(Some(&outcome("interrupted")), true);
    assert!(printed.err.is_empty());
    assert_eq!(parse(&printed.out[0]).unwrap().str_at("status"), Some("interrupted"));
    assert_eq!(printed.code, 130);

    let mut done = Screen::new();
    done.receive(ChatEvent::Status { status: "completed".into() });
    let printed = done.print_ending(Some(&outcome("completed")), false);
    assert_eq!((printed.out.len(), printed.err.len(), printed.code), (0, 0, 0));

    let mut failed = Screen::new();
    failed.receive(ChatEvent::Error { message: "broken".into() });
    assert_eq!(failed.print_ending(None, false).err, vec!["error: broken"]);
    let printed = failed.print_ending(None, true);
    assert_eq!(parse(&printed.out[0]).unwrap().str_at("error"), Some("broken"));
    assert_eq!(printed.code, 1);
    let printed = Screen::new().print_ending(None, true);
    assert_eq!(
        parse(&printed.out[0]).unwrap().str_at("error"),
        Some("the task did not come to an end")
    );
}

#[test]
fn a_settled_screen_is_only_left() {
    for status in ["completed", "blocked", "interrupted"] {
        let mut screen = screen(2);
        screen.receive(ChatEvent::Status { status: status.into() });
        assert!(screen.settled());
        assert_eq!(screen.press(Key::Char('q'), Some(0)), Reaction::Quit);
        assert_eq!(screen.press(Key::Char('c'), Some(0)), Reaction::Stay);
        assert_eq!(screen.press(Key::Enter, Some(0)), Reaction::Stay);
        assert_eq!(screen.detail, None);
        assert_eq!(screen.hint(), " q: quit | Enter: detail ");
    }
    let mut screen = screen(0);
    screen.receive(ChatEvent::Status { status: "error".into() });
    assert!(!screen.settled());
    screen.receive(ChatEvent::Error { message: "e".into() });
    assert!(screen.settled());
}

#[test]
fn a_task_that_failed_keeps_its_code_when_the_screen_is_left() {
    for key in [Key::Char('q'), Key::Char('c')] {
        let mut screen = screen(1);
        screen.receive(ChatEvent::Status { status: "error".into() });
        assert_eq!(screen.press(key, Some(0)), Reaction::Interrupt);
        assert_eq!(screen.status, "error");
        assert_eq!(screen.close(), (None, 1));
    }
    for (status, code) in [("completed", 0), ("blocked", 2), ("interrupted", 130)] {
        let mut screen = screen(1);
        screen.receive(ChatEvent::Status { status: status.into() });
        assert_eq!(screen.press(Key::Char('q'), Some(0)), Reaction::Quit);
        assert_eq!(screen.close(), (None, code));
    }
}

#[test]
fn a_running_task_is_broken_off_when_the_screen_is_left() {
    for key in [Key::Char('q'), Key::Char('c')] {
        let mut screen = screen(1);
        assert_eq!(screen.press(key, Some(0)), Reaction::Interrupt);
        assert_eq!(screen.close(), (None, 130));
    }
}

#[test]
fn details_are_opened_and_closed() {
    let mut screen = screen(2);
    screen.press(Key::Enter, Some(5));
    assert_eq!(screen.detail, None);
    screen.press(Key::Enter, Some(1));
    assert_eq!(screen.detail, Some("event 1".to_string()));
    screen.press_in_detail(Key::Char('x'));
    assert!(screen.detail.is_some());
    screen.press_in_detail(Key::Esc);
    assert_eq!(screen.detail, None);
    screen.press(Key::Enter, Some(0));
    screen.press_in_detail(Key::Enter);
    assert_eq!(screen.detail, None);
}

#[test]
fn the_screen_is_closed_with_a_code() {
    let mut screen = Screen::new();
    assert_eq!(screen.close(), (None, 1));
    screen.receive(ChatEvent::Status { status: "blocked".into() });
    assert_eq!(screen.close(), (None, 2));
    screen.receive(ChatEvent::Error { message: "m".into() });
    assert_eq!(screen.close(), (Some("error: m".to_string()), 1));
}
