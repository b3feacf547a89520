//! What holds of the terminal: it shows what happens, its keys move about in it, and it is left with
//! the outcome of the task.

use vstd::prelude::*;
use vstd::string::*;

use crate::chat::{outcome_json, EventView, OutcomeView};
use crate::cli::failure_json;
use crate::json::pretty;
use crate::text::{byte_len, contains_seq, cuts_clean, decimal, shortened};
use crate::text_laws::{
    ends_with, law_cut_texts_keep_their_beginning, lemma_stands_between, lemma_stands_last,
    lemma_stays_before, lemma_three_stand, lemma_two_stand,
};
use crate::tui::{
    ending_printed, event_line, farewell, full, is_settled, last_todo, last_turn, pressed, received,
    shown_event, status_line, ChatView, Key, Reaction, ScreenView, Tone,
};

verus! {

/// What happens is shown as it is: the turn by its number, the words of the model and its calls in
/// full, results in full where they are short and else their beginning.
pub proof fn law_what_happens_is_shown(event: EventView)
    ensures
        match event {
            EventView::TurnStart { turn, max } => shown_event(event) == (ChatView::Turn {
                number: turn,
                max,
            }),
            EventView::AssistantResponse { text } => shown_event(event) == (ChatView::Assistant {
                text,
            }),
            EventView::ToolCalled { name, args } => shown_event(event) == (ChatView::ToolCall {
                name,
                args,
            }),
            EventView::TodoChanged { summary } => shown_event(event) == (ChatView::Todo { summary }),
            EventView::ToolFinished { name, result } => shown_event(
                event,
            ) matches ChatView::ToolResult { name: shown, result: part } && shown == name && (
            byte_len(result) <= 200 ==> part == result) && (byte_len(result) > 200 && cuts_clean(
                result,
                200,
            ) ==> ends_with(part, "..."@) && part.take(part.len() - 3).len() <= result.len()
                && part.take(part.len() - 3) == result.take(part.take(part.len() - 3).len() as int)
                && byte_len(part.take(part.len() - 3)) == 200),
        },
{
    if let EventView::ToolFinished { result, .. } = event {
        if cuts_clean(result, 200) {
            law_cut_texts_keep_their_beginning(result, 200);
        }
    }
}

/// An event in full holds all that it says.
pub proof fn law_an_event_in_full_holds_all(event: ChatView)
    ensures
        match event {
            ChatView::Turn { number, max } => contains_seq(full(event), decimal(number as nat))
                && ends_with(full(event), decimal(max as nat)),
            ChatView::Assistant { text } => full(event) == text,
            ChatView::ToolCall { name, args } => contains_seq(full(event), name) && ends_with(
                full(event),
                args,
            ),
            ChatView::ToolResult { name, result } => contains_seq(full(event), name) && ends_with(
                full(event),
                result,
            ),
            ChatView::Todo { summary } => ends_with(full(event), summary),
            ChatView::Status { status } => ends_with(full(event), status),
            ChatView::Error { message } => ends_with(full(event), message),
        },
{
    match event {
        ChatView::Turn { number, max } => {
            let n = decimal(number as nat);
            let m = decimal(max as nat);
            lemma_two_stand("Turn "@, n, "/"@, m);
        },
        ChatView::Assistant { .. } => {},
        ChatView::ToolCall { name, args } => {
            lemma_two_stand("tool: "@, name, "\nargs: "@, args);
        },
        ChatView::ToolResult { name, result } => {
            lemma_two_stand("result from "@, name, ":\n"@, result);
        },
        ChatView::Todo { summary } => {
            lemma_stands_last("todo: "@, summary);
        },
        ChatView::Status { status } => {
            lemma_stands_last("status: "@, status);
        },
        ChatView::Error { message } => {
            lemma_stands_last("error: "@, message);
        },
    }
}

/// The line for a turn holds its number and how many there are.
pub proof fn law_the_line_of_a_turn(number: u32, max: u32)
    ensures
        event_line(ChatView::Turn { number, max }).len() == 1,
        contains_seq(
            event_line(ChatView::Turn { number, max })[0].text,
            decimal(number as nat),
        ),
        contains_seq(event_line(ChatView::Turn { number, max })[0].text, decimal(max as nat)),
{
    let n = decimal(number as nat);
    let m = decimal(max as nat);
    let line = "--- turn "@ + n + "/"@ + m + " ---"@;
    assert(event_line(ChatView::Turn { number, max })[0].text == line);
    lemma_two_stand("--- turn "@, n, "/"@, m);
    lemma_stays_before("--- turn "@ + n + "/"@ + m, " ---"@, n);
    lemma_stays_before("--- turn "@ + n + "/"@ + m, " ---"@, m);
}

/// The line for the model's words holds all of them, with a space for each line break.
pub proof fn law_the_line_of_words(text: Seq<char>, i: int)
    requires
        0 <= i < text.len(),
    ensures
        event_line(ChatView::Assistant { text }).len() == 2,
        event_line(ChatView::Assistant { text })[1].text.len() == text.len(),
        event_line(ChatView::Assistant { text })[1].text[i] == if text[i] == '\n' {
            ' '
        } else {
            text[i]
        },
{
}

/// The line for a call holds its tool, and its arguments where they are short.
pub proof fn law_the_line_of_a_call(name: Seq<char>, args: Seq<char>)
    ensures
        event_line(ChatView::ToolCall { name, args }).len() == 3,
        event_line(ChatView::ToolCall { name, args })[1].text == name,
        ends_with(event_line(ChatView::ToolCall { name, args })[2].text, shortened(args, 100)),
        byte_len(args) <= 100 ==> ends_with(
            event_line(ChatView::ToolCall { name, args })[2].text,
            args,
        ),
{
    let line = event_line(ChatView::ToolCall { name, args });
    assert(line.len() == 3);
    assert(line[1].text == name);
    assert(line[2].text == " "@ + shortened(args, 100));
    lemma_stands_last(" "@, shortened(args, 100));
    if byte_len(args) <= 100 {
        assert(shortened(args, 100) == args);
    }
}

/// The line for a result holds its tool, and the result where it is short.
pub proof fn law_the_line_of_a_result(name: Seq<char>, result: Seq<char>)
    ensures
        event_line(ChatView::ToolResult { name, result }).len() == 3,
        contains_seq(event_line(ChatView::ToolResult { name, result })[1].text, name),
        event_line(ChatView::ToolResult { name, result })[2].text == shortened(result, 200),
        byte_len(result) <= 200 ==> event_line(ChatView::ToolResult { name, result })[2].text
            == result,
{
    let none = Seq::<char>::empty();
    lemma_stands_between(none, name, " "@);
    assert(none + name + " "@ =~= name + " "@);
}

/// The line for the state of the todo list, for a status and for an error holds it in full.
pub proof fn law_the_line_of_a_state(words: Seq<char>)
    ensures
        event_line(ChatView::Todo { summary: words }).len() == 2,
        event_line(ChatView::Todo { summary: words })[1].text == words,
        event_line(ChatView::Status { status: words }).len() == 1,
        ends_with(event_line(ChatView::Status { status: words })[0].text, words),
        event_line(ChatView::Error { message: words }).len() == 1,
        ends_with(event_line(ChatView::Error { message: words })[0].text, words),
{
    lemma_stands_last("status: "@, words);
    lemma_stands_last("error: "@, words);
}

/// A status that comes in is the status from then on, and an error the error; nothing else changes
/// either, and no event changes what is shown in full.
pub proof fn law_the_screen_follows_the_task(screen: ScreenView, event: ChatView)
    ensures
        event matches ChatView::Status { status } ==> received(screen, event).status == status,
        !(event is Status) ==> received(screen, event).status == screen.status,
        event matches ChatView::Error { message } ==> received(screen, event).error == Some(message),
        !(event is Error) ==> received(screen, event).error == screen.error,
        received(screen, event).detail == screen.detail,
        received(screen, event).events.len() == screen.events.len() + 1,
        received(screen, event).events.last() == event,
        event matches ChatView::Turn { number, .. } ==> last_turn(received(screen, event).events)
            == number,
        !(event is Turn) ==> last_turn(received(screen, event).events) == last_turn(screen.events),
        event matches ChatView::Todo { summary } ==> last_todo(received(screen, event).events)
            == summary,
        !(event is Todo) ==> last_todo(received(screen, event).events) == last_todo(screen.events),
{
    assert(received(screen, event).events.drop_last() =~= screen.events);
}

/// The status line tells the error where there is one, and else the turn, the status and the state
/// of the todo list, in full where they are short.
pub proof fn law_the_status_line_tells_the_state(screen: ScreenView)
    ensures
        screen.error matches Some(message) ==> contains_seq(
            status_line(screen),
            shortened(message, 60),
        ) && (byte_len(message) <= 60 ==> contains_seq(status_line(screen), message)),
        screen.error is None ==> contains_seq(
            status_line(screen),
            decimal(last_turn(screen.events) as nat),
        ) && contains_seq(status_line(screen), screen.status) && contains_seq(
            status_line(screen),
            shortened(last_todo(screen.events), 40),
        ) && (byte_len(last_todo(screen.events)) <= 40 ==> contains_seq(
            status_line(screen),
            last_todo(screen.events),
        )),
{
    match screen.error {
        Some(message) => {
            lemma_stands_between(" error: "@, shortened(message, 60), " "@);
        },
        None => {
            let turn = decimal(last_turn(screen.events) as nat);
            let todo = shortened(last_todo(screen.events), 40);
            let most = " turn "@ + turn + " | "@ + screen.status + " | "@ + todo;
            lemma_three_stand(" turn "@, turn, " | "@, screen.status, " | "@, todo);
            lemma_stays_before(most, " "@, turn);
            lemma_stays_before(most, " "@, screen.status);
            lemma_stays_before(most, " "@, todo);
        },
    }
}

/// While the task runs, the keys move the selection: down and up by one event, and back again; to
/// the first and to the last. Moving changes nothing of the screen.
pub proof fn law_keys_move_the_selection(screen: ScreenView, i: usize)
    requires
        !is_settled(screen),
        i < screen.events.len() <= usize::MAX,
    ensures
        i + 1 < screen.events.len() ==> pressed(screen, Key::Char('j'), Some(i)) == (
            screen,
            Reaction::Select((i + 1) as usize),
        ) && pressed(screen, Key::Char('k'), Some((i + 1) as usize)) == (
            screen,
            Reaction::Select(i),
        ),
        i + 1 == screen.events.len() ==> pressed(screen, Key::Char('j'), Some(i)) == (
            screen,
            Reaction::Stay,
        ),
        pressed(screen, Key::Char('k'), Some(0)) == (screen, Reaction::Stay),
        pressed(screen, Key::Down, Some(i)) == pressed(screen, Key::Char('j'), Some(i)),
        pressed(screen, Key::Up, Some(i)) == pressed(screen, Key::Char('k'), Some(i)),
        pressed(screen, Key::Char('g'), Some(i)) == (screen, Reaction::Select(0)),
        pressed(screen, Key::Char('G'), Some(i)) == (
            screen,
            Reaction::Select((screen.events.len() - 1) as usize),
        ),
{
}

/// While the task runs, Enter shows the selected event in full, and changes nothing else.
pub proof fn law_enter_shows_the_selected_event(screen: ScreenView, i: usize)
    requires
        !is_settled(screen),
        i < screen.events.len(),
    ensures
        pressed(screen, Key::Enter, Some(i)).0.detail == Some(full(screen.events[i as int])),
        pressed(screen, Key::Enter, Some(i)).0.events == screen.events,
        pressed(screen, Key::Enter, Some(i)).0.status == screen.status,
        pressed(screen, Key::Enter, Some(i)).0.error == screen.error,
        pressed(screen, Key::Enter, Some(i)).1 == Reaction::Stay,
{
}

/// Only the keys that are meant to leave the screen do: no other breaks the task off or quits.
pub proof fn law_no_other_key_leaves(screen: ScreenView, key: Key, selected: Option<usize>)
    requires
        key != Key::Char('q'),
        key != Key::Char('c'),
    ensures
        pressed(screen, key, selected).1 != Reaction::Quit,
        pressed(screen, key, selected).1 != Reaction::Interrupt,
        pressed(screen, key, selected).0.events == screen.events,
        pressed(screen, key, selected).0.status == screen.status,
        pressed(screen, key, selected).0.error == screen.error,
{
}

/// What is left once the screen is closed is the outcome of the task: its error in words and the
/// code 1, how to resume it where it was broken off, and with JSON just one envelope.
pub proof fn law_the_end_is_told(screen: ScreenView, outcome: Option<OutcomeView>, json: bool)
    ensures
        ending_printed(screen, outcome, json).code == farewell(screen).1,
        screen.error is Some ==> ending_printed(screen, outcome, json).code == 1,
        !json ==> ending_printed(screen, outcome, json).out.len() == 0,
        !json ==> (screen.error matches Some(message) ==> ending_printed(
            screen,
            outcome,
            json,
        ).err.len() == 1 && ends_with(ending_printed(screen, outcome, json).err[0], message)),
        !json && screen.error is None ==> (outcome matches Some(out) ==> (out.status
            == "interrupted"@ ==> ending_printed(screen, outcome, json).err == seq![
            out.final_answer,
        ])),
        json ==> ending_printed(screen, outcome, json).err.len() == 0,
        json ==> (outcome matches Some(out) ==> ending_printed(screen, outcome, json).out == seq![
            pretty(outcome_json(out)),
        ]),
        json && outcome is None ==> (screen.error matches Some(message) ==> ending_printed(
            screen,
            outcome,
            json,
        ).out == seq![pretty(failure_json(message))]),
{
    if let Some(message) = screen.error {
        lemma_stands_last("error: "@, message);
    }
}

/// A task that was completed is shown in green, one that ended any other way in red.
pub proof fn law_the_colour_of_a_status(status: Seq<char>, message: Seq<char>)
    ensures
        event_line(ChatView::Status { status })[0].tone == Tone::Green <==> status == "completed"@,
        status != "completed"@ ==> event_line(ChatView::Status { status })[0].tone == Tone::Red,
        event_line(ChatView::Error { message })[0].tone == Tone::Red,
{
}

}
