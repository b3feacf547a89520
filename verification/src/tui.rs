//! What the terminal shows while a task runs, and what its keys do.

use vstd::prelude::*;
use vstd::string::*;

use crate::chat::{outcome_json, outcome_to_json, EventView, LoopEvent, Outcome, OutcomeView};
use crate::cli::{failure_json, failure_to_json, Printed, PrintedView};
use crate::json::{pretty, reads_back, render_pretty};
use crate::llm::opt_view;
use crate::state::{exit_code, exit_code_for_status};
use crate::text::{
    cuts_clean, decimal, law_cut_text_can_be_cut_again, push_decimal, replace_char, replaced,
    same_text, shorten, shortened, views,
};
use crate::tools::{glue, glue3};

verus! {

/// How many bytes of the arguments of a call are shown in its line.
pub const ARGS_SHOWN: usize = 100;

/// How many bytes of the result of a call are shown in its line.
pub const RESULT_SHOWN: usize = 200;

/// How many bytes of an error are shown in the status line.
pub const ERROR_SHOWN: usize = 60;

/// How many bytes of the state of the todo list are shown in the status line.
pub const TODO_SHOWN: usize = 40;

/// What there is to show.
#[derive(Debug)]
pub enum ChatEvent {
    Turn { number: u32, max: u32 },
    Assistant { text: String },
    ToolCall { name: String, args: String },
    ToolResult { name: String, result: String },
    Todo { summary: String },
    Status { status: String },
    Error { message: String },
}

/// What an event says.
pub enum ChatView {
    Turn { number: u32, max: u32 },
    Assistant { text: Seq<char> },
    ToolCall { name: Seq<char>, args: Seq<char> },
    ToolResult { name: Seq<char>, result: Seq<char> },
    Todo { summary: Seq<char> },
    Status { status: Seq<char> },
    Error { message: Seq<char> },
}

impl View for ChatEvent {
    type V = ChatView;

    open spec fn view(&self) -> ChatView {
        match self {
            ChatEvent::Turn { number, max } => ChatView::Turn { number: *number, max: *max },
            ChatEvent::Assistant { text } => ChatView::Assistant { text: text@ },
            ChatEvent::ToolCall { name, args } => ChatView::ToolCall { name: name@, args: args@ },
            ChatEvent::ToolResult { name, result } => ChatView::ToolResult {
                name: name@,
                result: result@,
            },
            ChatEvent::Todo { summary } => ChatView::Todo { summary: summary@ },
            ChatEvent::Status { status } => ChatView::Status { status: status@ },
            ChatEvent::Error { message } => ChatView::Error { message: message@ },
        }
    }
}

impl Clone for ChatEvent {
    fn clone(&self) -> (r: ChatEvent)
        ensures
            r@ == self@,
    {
        match self {
            ChatEvent::Turn { number, max } => ChatEvent::Turn { number: *number, max: *max },
            ChatEvent::Assistant { text } => ChatEvent::Assistant { text: text.clone() },
            ChatEvent::ToolCall { name, args } => ChatEvent::ToolCall {
                name: name.clone(),
                args: args.clone(),
            },
            ChatEvent::ToolResult { name, result } => ChatEvent::ToolResult {
                name: name.clone(),
                result: result.clone(),
            },
            ChatEvent::Todo { summary } => ChatEvent::Todo { summary: summary.clone() },
            ChatEvent::Status { status } => ChatEvent::Status { status: status.clone() },
            ChatEvent::Error { message } => ChatEvent::Error { message: message.clone() },
        }
    }
}

/// A text that is cut after so many bytes, with dots in place of the rest.
pub fn truncate(s: &str, max: usize) -> (r: String)
    requires
        cuts_clean(s@, max as nat),
    ensures
        r@ == shortened(s@, max as nat),
{
    shorten(s, max)
}

/// What is shown of an event of the task.
pub open spec fn shown_event(event: EventView) -> ChatView {
    match event {
        EventView::TurnStart { turn, max } => ChatView::Turn { number: turn, max },
        EventView::AssistantResponse { text } => ChatView::Assistant { text },
        EventView::ToolCalled { name, args } => ChatView::ToolCall { name, args },
        EventView::ToolFinished { name, result } => ChatView::ToolResult {
            name,
            result: shortened(result, RESULT_SHOWN as nat),
        },
        EventView::TodoChanged { summary } => ChatView::Todo { summary },
    }
}

/// What is shown of an event of the task.
pub fn chat_event(event: &LoopEvent) -> (r: ChatEvent)
    requires
        event@ matches EventView::ToolFinished { result, .. } ==> cuts_clean(
            result,
            RESULT_SHOWN as nat,
        ),
    ensures
        r@ == shown_event(event@),
{
    match event {
        LoopEvent::TurnStart { turn, max } => ChatEvent::Turn { number: *turn, max: *max },
        LoopEvent::AssistantResponse { text } => ChatEvent::Assistant { text: text.clone() },
        LoopEvent::ToolCalled { name, args } => ChatEvent::ToolCall {
            name: name.clone(),
            args: args.clone(),
        },
        LoopEvent::ToolFinished { name, result } => ChatEvent::ToolResult {
            name: name.clone(),
            result: truncate(result.as_str(), RESULT_SHOWN),
        },
        LoopEvent::TodoChanged { summary } => ChatEvent::Todo { summary: summary.clone() },
    }
}

/// An event in full.
pub open spec fn full(event: ChatView) -> Seq<char> {
    match event {
        ChatView::Turn { number, max } => "Turn "@ + decimal(number as nat) + "/"@ + decimal(
            max as nat,
        ),
        ChatView::Assistant { text } => text,
        ChatView::ToolCall { name, args } => "tool: "@ + name + "\nargs: "@ + args,
        ChatView::ToolResult { name, result } => "result from "@ + name + ":\n"@ + result,
        ChatView::Todo { summary } => "todo: "@ + summary,
        ChatView::Status { status } => "status: "@ + status,
        ChatView::Error { message } => "error: "@ + message,
    }
}

/// An event in full.
pub fn full_text(event: &ChatEvent) -> (r: String)
    ensures
        r@ == full(event@),
{
    match event {
        ChatEvent::Turn { number, max } => {
            let mut out = "Turn ".to_string();
            push_decimal(&mut out, *number as u64);
            out.append("/");
            push_decimal(&mut out, *max as u64);
            out
        },
        ChatEvent::Assistant { text } => text.clone(),
        ChatEvent::ToolCall { name, args } => {
            let mut out = glue3("tool: ", name.as_str(), "\nargs: ");
            out.append(args.as_str());
            out
        },
        ChatEvent::ToolResult { name, result } => {
            let mut out = glue3("result from ", name.as_str(), ":\n");
            out.append(result.as_str());
            out
        },
        ChatEvent::Todo { summary } => glue("todo: ", summary.as_str()),
        ChatEvent::Status { status } => glue("status: ", status.as_str()),
        ChatEvent::Error { message } => glue("error: ", message.as_str()),
    }
}

/// A colour for a text.
#[derive(Debug, Clone, Copy, PartialEq, Eq, Structural)]
pub enum Tone {
    Plain,
    Cyan,
    Green,
    Yellow,
    Blue,
    Magenta,
    Red,
}

/// A text with its colour.
#[derive(Debug)]
pub struct Styled {
    pub text: String,
    pub tone: Tone,
    pub bold: bool,
}

/// What a text with its colour says.
pub struct StyledView {
    pub text: Seq<char>,
    pub tone: Tone,
    pub bold: bool,
}

impl View for Styled {
    type V = StyledView;

    open spec fn view(&self) -> StyledView {
        StyledView { text: self.text@, tone: self.tone, bold: self.bold }
    }
}

/// What the texts of a line say.
pub open spec fn line_view(line: Seq<Styled>) -> Seq<StyledView> {
    Seq::new(line.len(), |i: int| line[i]@)
}

/// A text in a colour.
pub open spec fn toned(text: Seq<char>, tone: Tone) -> StyledView {
    StyledView { text, tone, bold: false }
}

/// A text in a colour, in bold.
pub open spec fn strong(text: Seq<char>, tone: Tone) -> StyledView {
    StyledView { text, tone, bold: true }
}

/// Whether an event can be cut for its line.
pub open spec fn showable(event: ChatView) -> bool {
    match event {
        ChatView::ToolCall { args, .. } => cuts_clean(args, ARGS_SHOWN as nat),
        ChatView::ToolResult { result, .. } => cuts_clean(result, RESULT_SHOWN as nat),
        _ => true,
    }
}

/// The line for an event.
pub open spec fn event_line(event: ChatView) -> Seq<StyledView> {
    match event {
        ChatView::Turn { number, max } => seq![
            strong(
                "--- turn "@ + decimal(number as nat) + "/"@ + decimal(max as nat) + " ---"@,
                Tone::Cyan,
            ),
        ],
        ChatView::Assistant { text } => seq![
            toned("assistant: "@, Tone::Green),
            toned(replaced(text, '\n', ' '), Tone::Plain),
        ],
        ChatView::ToolCall { name, args } => seq![
            toned("tool: "@, Tone::Yellow),
            strong(name, Tone::Yellow),
            toned(" "@ + shortened(args, ARGS_SHOWN as nat), Tone::Plain),
        ],
        ChatView::ToolResult { name, result } => seq![
            toned("result: "@, Tone::Blue),
            toned(name + " "@, Tone::Blue),
            toned(shortened(result, RESULT_SHOWN as nat), Tone::Plain),
        ],
        ChatView::Todo { summary } => seq![
            toned("todo: "@, Tone::Magenta),
            toned(summary, Tone::Plain),
        ],
        ChatView::Status { status } => seq![
            strong(
                "status: "@ + status,
                if status == "completed"@ {
                    Tone::Green
                } else {
                    Tone::Red
                },
            ),
        ],
        ChatView::Error { message } => seq![strong("error: "@ + message, Tone::Red)],
    }
}

/// The line for an event.
pub fn format_event(event: &ChatEvent) -> (r: Vec<Styled>)
    requires
        showable(event@),
    ensures
        line_view(r@) == event_line(event@),
{
    let mut line: Vec<Styled> = Vec::new();
    match event {
        ChatEvent::Turn { number, max } => {
            let mut text = "--- turn ".to_string();
            push_decimal(&mut text, *number as u64);
            text.append("/");
            push_decimal(&mut text, *max as u64);
            text.append(" ---");
            line.push(Styled { text, tone: Tone::Cyan, bold: true });
        },
        ChatEvent::Assistant { text } => {
            line.push(
                Styled { text: "assistant: ".to_string(), tone: Tone::Green, bold: false },
            );
            line.push(
                Styled {
                    text: replace_char(text.as_str(), '\n', ' '),
                    tone: Tone::Plain,
                    bold: false,
                },
            );
        },
        ChatEvent::ToolCall { name, args } => {
            line.push(Styled { text: "tool: ".to_string(), tone: Tone::Yellow, bold: false });
            line.push(Styled { text: name.clone(), tone: Tone::Yellow, bold: true });
            line.push(
                Styled {
                    text: glue(" ", truncate(args.as_str(), ARGS_SHOWN).as_str()),
                    tone: Tone::Plain,
                    bold: false,
                },
            );
        },
        ChatEvent::ToolResult { name, result } => {
            line.push(Styled { text: "result: ".to_string(), tone: Tone::Blue, bold: false });
            line.push(
                Styled { text: glue(name.as_str(), " "), tone: Tone::Blue, bold: false },
            );
            line.push(
                Styled {
                    text: truncate(result.as_str(), RESULT_SHOWN),
                    tone: Tone::Plain,
                    bold: false,
                },
            );
        },
        ChatEvent::Todo { summary } => {
            line.push(Styled { text: "todo: ".to_string(), tone: Tone::Magenta, bold: false });
            line.push(Styled { text: summary.clone(), tone: Tone::Plain, bold: false });
        },
        ChatEvent::Status { status } => {
            let tone = if same_text(status.as_str(), "completed") {
                Tone::Green
            } else {
                Tone::Red
            };
            line.push(Styled { text: glue("status: ", status.as_str()), tone, bold: true });
        },
        ChatEvent::Error { message } => {
            line.push(
                Styled { text: glue("error: ", message.as_str()), tone: Tone::Red, bold: true },
            );
        },
    }
    assert(line_view(line@) =~= event_line(event@));
    line
}

/// A key that was pressed.
#[derive(Debug, Clone, Copy, PartialEq, Eq, Structural)]
pub enum Key {
    Char(char),
    Up,
    Down,
    Enter,
    Esc,
    Other,
}

/// What a key does beyond the screen.
#[derive(Debug, Clone, Copy, PartialEq, Eq, Structural)]
pub enum Reaction {
    /// Nothing.
    Stay,
    /// Another event is selected.
    Select(usize),
    /// The screen is left.
    Quit,
    /// The screen is left, and the task is to break off.
    Interrupt,
}

/// What the terminal shows.
#[derive(Debug)]
pub struct Screen {
    pub events: Vec<ChatEvent>,
    pub status: String,
    pub error: Option<String>,
    pub detail: Option<String>,
}

/// What a screen says.
#[verifier::ext_equal]
pub struct ScreenView {
    pub events: Seq<ChatView>,
    pub status: Seq<char>,
    pub error: Option<Seq<char>>,
    pub detail: Option<Seq<char>>,
}

/// What the events of a list say.
pub open spec fn chat_views(events: Seq<ChatEvent>) -> Seq<ChatView> {
    Seq::new(events.len(), |i: int| events[i]@)
}

impl View for Screen {
    type V = ScreenView;

    open spec fn view(&self) -> ScreenView {
        ScreenView {
            events: chat_views(self.events@),
            status: self.status@,
            error: opt_view(self.error),
            detail: opt_view(self.detail),
        }
    }
}

/// The screen once an event came in: it is listed, and a status or an error is remembered.
pub open spec fn received(screen: ScreenView, event: ChatView) -> ScreenView {
    ScreenView {
        events: screen.events.push(event),
        status: match event {
            ChatView::Status { status } => status,
            _ => screen.status,
        },
        error: match event {
            ChatView::Error { message } => Some(message),
            _ => screen.error,
        },
        detail: screen.detail,
    }
}

/// Whether the task is over as far as the screen knows.
pub open spec fn is_settled(screen: ScreenView) -> bool {
    screen.error is Some || screen.status == "completed"@ || screen.status == "blocked"@
        || screen.status == "interrupted"@
}

/// The number of the last turn that was listed.
pub open spec fn last_turn(events: Seq<ChatView>) -> u32
    decreases events.len(),
{
    if events.len() == 0 {
        0
    } else {
        match events.last() {
            ChatView::Turn { number, .. } => number,
            _ => last_turn(events.drop_last()),
        }
    }
}

/// The last state of the todo list that was listed.
pub open spec fn last_todo(events: Seq<ChatView>) -> Seq<char>
    decreases events.len(),
{
    if events.len() == 0 {
        ""@
    } else {
        match events.last() {
            ChatView::Todo { summary } => summary,
            _ => last_todo(events.drop_last()),
        }
    }
}

/// Whether what the status line shows can be cut.
pub open spec fn status_showable(screen: ScreenView) -> bool {
    match screen.error {
        Some(message) => cuts_clean(message, ERROR_SHOWN as nat),
        None => cuts_clean(last_todo(screen.events), TODO_SHOWN as nat),
    }
}

/// The status line: the error, or the turn, the status and the state of the todo list.
pub open spec fn status_line(screen: ScreenView) -> Seq<char> {
    match screen.error {
        Some(message) => " error: "@ + shortened(message, ERROR_SHOWN as nat) + " "@,
        None => " turn "@ + decimal(last_turn(screen.events) as nat) + " | "@ + screen.status
            + " | "@ + shortened(last_todo(screen.events), TODO_SHOWN as nat) + " "@,
    }
}

/// What a key does: what the screen says then, and what the key does beyond it.
pub open spec fn pressed(screen: ScreenView, key: Key, selected: Option<usize>) -> (
    ScreenView,
    Reaction,
) {
    let count = screen.events.len();
    if is_settled(screen) {
        (
            screen,
            if key == Key::Char('q') {
                Reaction::Quit
            } else {
                Reaction::Stay
            },
        )
    } else {
        match key {
            Key::Char('q') | Key::Char('c') => (
                ScreenView {
                    status: if screen.status == "running"@ {
                        "interrupted"@
                    } else {
                        screen.status
                    },
                    ..screen
                },
                Reaction::Interrupt,
            ),
            Key::Char('j') | Key::Down => (
                screen,
                match selected {
                    Some(i) => if i + 1 < count {
                        Reaction::Select((i + 1) as usize)
                    } else {
                        Reaction::Stay
                    },
                    None => Reaction::Stay,
                },
            ),
            Key::Char('k') | Key::Up => (
                screen,
                match selected {
                    Some(i) => if i > 0 {
                        Reaction::Select((i - 1) as usize)
                    } else {
                        Reaction::Stay
                    },
                    None => Reaction::Stay,
                },
            ),
            Key::Char('G') => (
                screen,
                if count > 0 {
                    Reaction::Select((count - 1) as usize)
                } else {
                    Reaction::Stay
                },
            ),
            Key::Char('g') => (screen, Reaction::Select(0)),
            Key::Enter => (
                match selected {
                    Some(i) => if i < count {
                        ScreenView { detail: Some(full(screen.events[i as int])), ..screen }
                    } else {
                        screen
                    },
                    None => screen,
                },
                Reaction::Stay,
            ),
            _ => (screen, Reaction::Stay),
        }
    }
}

/// What is left to say when the screen is closed: the error, and the exit code.
pub open spec fn farewell(screen: ScreenView) -> (Option<Seq<char>>, i32) {
    match screen.error {
        Some(message) => (Some("error: "@ + message), 1),
        None => (None, exit_code(screen.status)),
    }
}

/// What is printed once the screen is closed, given how the task ended if it did: with JSON one
/// envelope, else the error or, where the task was broken off, how to resume it.
pub open spec fn ending_printed(
    screen: ScreenView,
    outcome: Option<OutcomeView>,
    json: bool,
) -> PrintedView {
    let (message, code) = farewell(screen);
    if json {
        let envelope = match outcome {
            Some(out) => outcome_json(out),
            None => failure_json(
                match screen.error {
                    Some(error) => error,
                    None => "the task did not come to an end"@,
                },
            ),
        };
        PrintedView { out: seq![pretty(envelope)], err: Seq::empty(), code }
    } else {
        let err = match message {
            Some(line) => seq![line],
            None => match outcome {
                Some(out) => if out.status == "interrupted"@ {
                    seq![out.final_answer]
                } else {
                    Seq::empty()
                },
                None => Seq::empty(),
            },
        };
        PrintedView { out: Seq::empty(), err, code }
    }
}

impl Screen {
    /// An empty screen for a task that runs.
    pub fn new() -> (r: Screen)
        ensures
            r@ == (ScreenView {
                events: Seq::empty(),
                status: "running"@,
                error: None,
                detail: None,
            }),
    {
        let events: Vec<ChatEvent> = Vec::new();
        assert(chat_views(events@) =~= Seq::empty());
        Screen { events, status: "running".to_string(), error: None, detail: None }
    }

    /// Takes in an event.
    pub fn receive(&mut self, event: ChatEvent)
        ensures
            final(self)@ == received(old(self)@, event@),
    {
        let ghost before = chat_views(self.events@);
        let ghost said = event@;
        match &event {
            ChatEvent::Status { status } => {
                self.status = status.clone();
            },
            ChatEvent::Error { message } => {
                self.error = Some(message.clone());
            },
            _ => {},
        }
        self.events.push(event);
        assert(chat_views(self.events@) =~= before.push(said));
    }

    /// Whether the task is over as far as the screen knows.
    pub fn settled(&self) -> (r: bool)
        ensures
            r == is_settled(self@),
    {
        let failed = match &self.error {
            Some(_) => true,
            None => false,
        };
        failed || same_text(self.status.as_str(), "completed") || same_text(
            self.status.as_str(),
            "blocked",
        ) || same_text(self.status.as_str(), "interrupted")
    }

    /// The number of the last turn that was listed.
    fn turn_shown(&self) -> (r: u32)
        ensures
            r == last_turn(self@.events),
    {
        let ghost all = self@.events;
        let mut n: usize = self.events.len();
        assert(all.take(n as int) =~= all);
        while n > 0
            invariant
                all == chat_views(self.events@),
                n <= all.len(),
                last_turn(all) == last_turn(all.take(n as int)),
            decreases n,
        {
            assert(all.take(n as int).drop_last() =~= all.take(n - 1));
            assert(all.take(n as int).last() == self.events@[n - 1]@);
            if let ChatEvent::Turn { number, .. } = &self.events[n - 1] {
                return *number;
            }
            n -= 1;
        }
        0
    }

    /// The last state of the todo list that was listed.
    pub fn todo_shown(&self) -> (r: String)
        ensures
            r@ == last_todo(self@.events),
    {
        let ghost all = self@.events;
        let mut n: usize = self.events.len();
        assert(all.take(n as int) =~= all);
        while n > 0
            invariant
                all == chat_views(self.events@),
                n <= all.len(),
                last_todo(all) == last_todo(all.take(n as int)),
            decreases n,
        {
            assert(all.take(n as int).drop_last() =~= all.take(n - 1));
            assert(all.take(n as int).last() == self.events@[n - 1]@);
            if let ChatEvent::Todo { summary } = &self.events[n - 1] {
                return summary.clone();
            }
            n -= 1;
        }
        "".to_string()
    }

    /// The status line.
    pub fn status_text(&self) -> (r: String)
        requires
            status_showable(self@),
        ensures
            r@ == status_line(self@),
    {
        match &self.error {
            Some(message) => glue3(
                " error: ",
                truncate(message.as_str(), ERROR_SHOWN).as_str(),
                " ",
            ),
            None => {
                let mut out = " turn ".to_string();
                push_decimal(&mut out, self.turn_shown() as u64);
                out.append(" | ");
                out.append(self.status.as_str());
                out.append(" | ");
                let todo = self.todo_shown();
                out.append(truncate(todo.as_str(), TODO_SHOWN).as_str());
                out.append(" ");
                out
            },
        }
    }

    /// The line that says which keys there are.
    pub fn hint(&self) -> (r: &'static str)
        ensures
            r@ == (if self@.status == "running"@ {
                " q: quit | j/k: scroll | Enter: detail "@
            } else {
                " q: quit | Enter: detail "@
            }),
    {
        if same_text(self.status.as_str(), "running") {
            " q: quit | j/k: scroll | Enter: detail "
        } else {
            " q: quit | Enter: detail "
        }
    }

    /// Takes a key, given the event that is selected.
    pub fn press(&mut self, key: Key, selected: Option<usize>) -> (r: Reaction)
        ensures
            (final(self)@, r) == pressed(old(self)@, key, selected),
    {
        let count: usize = self.events.len();
        if self.settled() {
            return if key == Key::Char('q') {
                Reaction::Quit
            } else {
                Reaction::Stay
            };
        }
        match key {
            Key::Char('q') | Key::Char('c') => {
                if same_text(self.status.as_str(), "running") {
                    self.status = "interrupted".to_string();
                }
                Reaction::Interrupt
            },
            Key::Char('j') | Key::Down => match selected {
                Some(i) => if i < count && i + 1 < count {
                    Reaction::Select(i + 1)
                } else {
                    Reaction::Stay
                },
                None => Reaction::Stay,
            },
            Key::Char('k') | Key::Up => match selected {
                Some(i) => if i > 0 {
                    Reaction::Select(i - 1)
                } else {
                    Reaction::Stay
                },
                None => Reaction::Stay,
            },
            Key::Char('G') => if count > 0 {
                Reaction::Select(count - 1)
            } else {
                Reaction::Stay
            },
            Key::Char('g') => Reaction::Select(0),
            Key::Enter => {
                if let Some(i) = selected {
                    if i < count {
                        self.detail = Some(full_text(&self.events[i]));
                    }
                }
                Reaction::Stay
            },
            _ => Reaction::Stay,
        }
    }

    /// Takes a key while an event is shown in full: two keys close it.
    pub fn press_in_detail(&mut self, key: Key)
        ensures
            final(self)@ == (if key == Key::Esc || key == Key::Enter {
                ScreenView { detail: None, ..old(self)@ }
            } else {
                old(self)@
            }),
    {
        if key == Key::Esc || key == Key::Enter {
            self.detail = None;
        }
    }

    /// What is left to say when the screen is closed, and the exit code.
    pub fn close(&self) -> (r: (Option<String>, i32))
        ensures
            (opt_view(r.0), r.1) == farewell(self@),
    {
        match &self.error {
            Some(message) => (Some(glue("error: ", message.as_str())), 1),
            None => (None, exit_code_for_status(self.status.as_str())),
        }
    }

    /// What is printed once the screen is closed.
    pub fn print_ending(&self, outcome: Option<&Outcome>, json: bool) -> (r: Printed)
        ensures
            r@ == ending_printed(
                self@,
                match outcome {
                    Some(out) => Some(out@),
                    None => None,
                },
                json,
            ),
            json ==> r@.out.len() == 1 && (outcome matches Some(out) ==> reads_back(
                r@.out[0],
                outcome_json(out@),
            )),
    {
        let (message, code) = self.close();
        let mut out: Vec<String> = Vec::new();
        let mut err: Vec<String> = Vec::new();
        assert(views(out@) =~= Seq::empty());
        assert(views(err@) =~= Seq::empty());
        if json {
            let envelope = match outcome {
                Some(ended) => outcome_to_json(ended),
                None => {
                    let error = match &self.error {
                        Some(error) => error.as_str(),
                        None => "the task did not come to an end",
                    };
                    failure_to_json(error)
                },
            };
            out.push(render_pretty(&envelope));
            assert(views(out@) =~= seq![pretty(envelope@)]);
            return Printed { out, err, code };
        }
        match message {
            Some(line) => {
                let ghost said = line@;
                err.push(line);
                assert(views(err@) =~= seq![said]);
            },
            None => {
                if let Some(ended) = outcome {
                    if same_text(ended.status.as_str(), "interrupted") {
                        err.push(ended.final_answer.clone());
                        assert(views(err@) =~= seq![ended.final_answer@]);
                    }
                }
            },
        }
        Printed { out, err, code }
    }
}

/// A key moves the selection by one event at most, or to either end, and never off the list.
pub proof fn law_selection_stays_on_the_list(
    screen: ScreenView,
    key: Key,
    selected: usize,
    to: usize,
)
    requires
        selected < screen.events.len() <= usize::MAX,
        pressed(screen, key, Some(selected)).1 == Reaction::Select(to),
    ensures
        to < screen.events.len(),
        to == selected + 1 || to == selected - 1 || to == 0 || to == screen.events.len() - 1,
{
}

/// Once the task is over, no key but `q` does anything, and that one breaks nothing off.
pub proof fn law_settled_screen_only_quits(screen: ScreenView, key: Key, selected: Option<usize>)
    requires
        is_settled(screen),
    ensures
        pressed(screen, key, selected).0 == screen,
        pressed(screen, key, selected).1 == Reaction::Quit <==> key == Key::Char('q'),
        pressed(screen, key, selected).1 == Reaction::Quit || pressed(screen, key, selected).1
            == Reaction::Stay,
{
}

/// A screen that is left while the task runs breaks the task off, and is closed as interrupted.
pub proof fn law_breaking_off_exits_as_interrupted(
    screen: ScreenView,
    key: Key,
    selected: Option<usize>,
)
    requires
        screen.error is None,
        screen.status == "running"@,
        key == Key::Char('q') || key == Key::Char('c'),
    ensures
        pressed(screen, key, selected).1 == Reaction::Interrupt,
        farewell(pressed(screen, key, selected).0) == (None::<Seq<char>>, 130i32),
{
    crate::state::law_exit_codes_tell_apart("interrupted"@);
    reveal_strlit("running");
    reveal_strlit("completed");
    reveal_strlit("blocked");
    reveal_strlit("interrupted");
    assert("running"@.len() == 7 && "completed"@.len() == 9 && "blocked"@.len() == 7
        && "interrupted"@.len() == 11);
    assert("running"@[0] == 'r' && "blocked"@[0] == 'b');
}

/// A task that has ended keeps its exit code, whatever key the screen is left by: one that ended
/// with an error, for one, exits with 1.
pub proof fn law_ended_task_keeps_its_exit_code(
    screen: ScreenView,
    key: Key,
    selected: Option<usize>,
)
    requires
        screen.error is None,
        screen.status != "running"@,
    ensures
        farewell(pressed(screen, key, selected).0) == (
            None::<Seq<char>>,
            exit_code(screen.status),
        ),
        screen.status == "error"@ ==> farewell(pressed(screen, key, selected).0).1 == 1,
{
    crate::state::law_exit_codes_tell_apart(screen.status);
    reveal_strlit("error");
    reveal_strlit("completed");
    reveal_strlit("blocked");
    reveal_strlit("interrupted");
    assert("error"@.len() == 5 && "completed"@.len() == 9 && "blocked"@.len() == 7
        && "interrupted"@.len() == 11);
}

/// A screen remembers every event, in order, and an error that came in stays until another one
/// takes its place.
pub proof fn law_nothing_shown_is_lost(screen: ScreenView, event: ChatView)
    ensures
        received(screen, event).events.take(screen.events.len() as int) == screen.events,
        received(screen, event).events.last() == event,
        screen.error is Some ==> received(screen, event).error is Some,
{
    assert(received(screen, event).events.take(screen.events.len() as int) =~= screen.events);
}

/// What is shown of a result of the task fits its line.
pub proof fn law_results_can_be_shown(name: Seq<char>, result: Seq<char>)
    requires
        cuts_clean(result, RESULT_SHOWN as nat),
    ensures
        showable(shown_event(EventView::ToolFinished { name, result })),
{
    law_cut_text_can_be_cut_again(result, RESULT_SHOWN as nat);
}

}
