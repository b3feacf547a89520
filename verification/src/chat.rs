//! The conversation that carries a task to its end.
//!
//! A [`Session`] is what the agent knows of the task. It is moved on by what happens in the world:
//! a turn that may begin, a reply of the model, the result of an action. Each time it says what to
//! do next, and what there is to tell on the way.

use vstd::prelude::*;
use vstd::string::*;

use crate::ids::{is_new_id, is_time, local_time, new_task_id};
use crate::inline::{extract_inline_finish, inline_finish, Capture, CaptureView};
use crate::json::{compact, reads_back, render, Json, JsonView};
use crate::llm::{
    arguments_of, assistant_message, call_views, copy_calls, copy_messages, copy_opt, error_message,
    message_views, opt_view, system_message, tool_message, user_message, CallView, LlmError,
    LlmResponse, Message, MessageView, ToolCall,
};
use crate::state::{TaskState, TaskView};
use crate::text::{
    can_cut, clip, clipped, cuts_clean, decimal, lowercase, push_decimal, same_text, shorten,
    shortened,
};
use crate::todo::{
    copy_todos, list_to_json, summary, summary_of, todo_views, todos_json, TodoItem, TodoView,
};
use crate::tools::{call_step, run_tool, ActionView, StepView, ToolAction, ToolContext, ToolStep};

verus! {

/// How often in a row the same call may be made before the task counts as stuck.
pub const STUCK_REPEAT_LIMIT: u32 = 3;

/// How many bytes of the model's words are logged.
pub const LOG_TEXT_LIMIT: usize = 200;

/// What there is to tell while a task runs.
#[derive(Debug)]
pub enum LoopEvent {
    TurnStart { turn: u32, max: u32 },
    AssistantResponse { text: String },
    ToolCalled { name: String, args: String },
    ToolFinished { name: String, result: String },
    TodoChanged { summary: String },
}

/// What an event says.
pub enum EventView {
    TurnStart { turn: u32, max: u32 },
    AssistantResponse { text: Seq<char> },
    ToolCalled { name: Seq<char>, args: Seq<char> },
    ToolFinished { name: Seq<char>, result: Seq<char> },
    TodoChanged { summary: Seq<char> },
}

impl View for LoopEvent {
    type V = EventView;

    open spec fn view(&self) -> EventView {
        match self {
            LoopEvent::TurnStart { turn, max } => EventView::TurnStart { turn: *turn, max: *max },
            LoopEvent::AssistantResponse { text } => EventView::AssistantResponse { text: text@ },
            LoopEvent::ToolCalled { name, args } => EventView::ToolCalled {
                name: name@,
                args: args@,
            },
            LoopEvent::ToolFinished { name, result } => EventView::ToolFinished {
                name: name@,
                result: result@,
            },
            LoopEvent::TodoChanged { summary } => EventView::TodoChanged { summary: summary@ },
        }
    }
}

/// What the events of a list say.
pub open spec fn event_views(events: Seq<LoopEvent>) -> Seq<EventView> {
    Seq::new(events.len(), |i: int| events[i]@)
}

/// Under what terms a task runs.
#[derive(Debug)]
pub struct Config {
    pub task: String,
    pub max_turns: u32,
    pub json_output: bool,
    pub auto_approve: bool,
    pub workdir: String,
    pub model: Option<String>,
    pub config_path: String,
    pub binary_flag: Option<String>,
    pub state_dir: Option<String>,
}

/// What the terms say.
pub struct ConfigView {
    pub task: Seq<char>,
    pub max_turns: u32,
    pub json_output: bool,
    pub auto_approve: bool,
    pub workdir: Seq<char>,
    pub model: Option<Seq<char>>,
    pub config_path: Seq<char>,
    pub binary_flag: Option<Seq<char>>,
    pub state_dir: Option<Seq<char>>,
}

impl View for Config {
    type V = ConfigView;

    open spec fn view(&self) -> ConfigView {
        ConfigView {
            task: self.task@,
            max_turns: self.max_turns,
            json_output: self.json_output,
            auto_approve: self.auto_approve,
            workdir: self.workdir@,
            model: opt_view(self.model),
            config_path: self.config_path@,
            binary_flag: opt_view(self.binary_flag),
            state_dir: opt_view(self.state_dir),
        }
    }
}

impl Clone for Config {
    fn clone(&self) -> (r: Config)
        ensures
            r@ == self@,
    {
        Config {
            task: self.task.clone(),
            max_turns: self.max_turns,
            json_output: self.json_output,
            auto_approve: self.auto_approve,
            workdir: self.workdir.clone(),
            model: copy_opt(&self.model),
            config_path: self.config_path.clone(),
            binary_flag: copy_opt(&self.binary_flag),
            state_dir: copy_opt(&self.state_dir),
        }
    }
}

/// How a task ended.
#[derive(Debug)]
pub struct Outcome {
    pub status: String,
    pub turns: u32,
    pub todos: Vec<TodoItem>,
    pub final_answer: String,
    pub task_id: String,
}

/// What an outcome says.
pub struct OutcomeView {
    pub status: Seq<char>,
    pub turns: u32,
    pub todos: Seq<TodoView>,
    pub final_answer: Seq<char>,
    pub task_id: Seq<char>,
}

impl View for Outcome {
    type V = OutcomeView;

    open spec fn view(&self) -> OutcomeView {
        OutcomeView {
            status: self.status@,
            turns: self.turns,
            todos: todo_views(self.todos@),
            final_answer: self.final_answer@,
            task_id: self.task_id@,
        }
    }
}

/// An outcome as JSON.
pub open spec fn outcome_json(out: OutcomeView) -> JsonView {
    JsonView::empty().with("task_id"@, JsonView::Text(out.task_id)).with(
        "status"@,
        JsonView::Text(out.status),
    ).with("turns"@, JsonView::Number(decimal(out.turns as nat))).with(
        "todos"@,
        todos_json(out.todos),
    ).with("final_answer"@, JsonView::Text(out.final_answer))
}

/// An outcome as JSON.
pub fn outcome_to_json(out: &Outcome) -> (r: Json)
    ensures
        r@ == outcome_json(out@),
{
    Json::object().with("task_id", Json::text(out.task_id.as_str())).with(
        "status",
        Json::text(out.status.as_str()),
    ).with("turns", Json::count(out.turns as usize)).with(
        "todos",
        list_to_json(out.todos.as_slice()),
    ).with("final_answer", Json::text(out.final_answer.as_str()))
}

/// What the model is told of its task and its tools, up to the working directory.
pub const PROMPT: &'static str = r#"you are a task agent. you complete tasks by calling tools.

tools (call these as function/tool calls, NEVER write them as text):
- read(path): read a file's text contents
- write(path, content): write text to a file (overwrites)
- grep(pattern, path?): search file contents with regex, path defaults to current directory
- search(query): search the web with ddgr
- exec(command, args): run a command (no shell features; destructive commands blocked without --yes)
- todo_update(items): set your todo list. items = [{id, content, status}]. status = pending|in_progress|completed|blocked
- finish(result, blocked?): signal done. MUST be called as a tool call, not written as text.

rules:
- read a file before writing it, so you know what you are changing
- use todo_update for tasks with more than one step
- call finish as a tool call when done or blocked. if blocked, set blocked=true and explain why in result
- if a tool returns an error, read the "fix" field and try a different approach
- do not repeat the same tool call that already failed
- be concise. call tools to act, do not narrate what you will do
- NEVER write tool names like finish() or read() as text. always use the tool call mechanism.

working directory: "#;

/// What the model is told of its task and its tools.
pub open spec fn prompt(workdir: Seq<char>) -> Seq<char> {
    PROMPT@ + workdir
}

/// What the model is told of its task and its tools.
pub fn system_prompt(workdir: &str) -> (r: String)
    ensures
        r@ == prompt(workdir@),
{
    let mut out = PROMPT.to_string();
    out.append(workdir);
    out
}

/// The messages with which a new task begins.
pub open spec fn opening(config: ConfigView) -> Seq<MessageView> {
    let first = seq![
        system_message(prompt(config.workdir)),
        user_message("Task: "@ + config.task),
    ];
    if config.auto_approve {
        first.push(system_message("destructive commands are allowed: the user passed --yes"@))
    } else {
        first
    }
}

/// What a session waits for.
#[derive(Debug, Clone, Copy, PartialEq, Eq, Structural)]
pub enum Phase {
    /// A turn that may begin.
    Ready,
    /// The reply of the model.
    Asked,
    /// The next call of the model to be taken.
    Calling,
    /// The result of an action.
    Acting,
    /// Nothing more.
    Over,
}

/// What a session says.
#[verifier::ext_equal]
pub struct SessionView {
    pub task_id: Seq<char>,
    pub created_at: Seq<char>,
    pub messages: Seq<MessageView>,
    pub todos: Seq<TodoView>,
    pub turn: u32,
    /// The last call, by its tool and arguments, and how often it was made in a row.
    pub last: Option<Seq<char>>,
    pub repeats: u32,
    /// The calls of the turn, and the next of them.
    pub calls: Seq<CallView>,
    pub next: nat,
    pub phase: Phase,
}

impl SessionView {
    /// Whether what a session says fits together.
    pub open spec fn sound(self) -> bool {
        &&& self.next <= self.calls.len()
        &&& self.phase is Acting ==> self.next < self.calls.len()
        &&& !(self.phase is Over) ==> self.repeats < STUCK_REPEAT_LIMIT
        &&& self.last is None <==> self.repeats == 0
    }

    /// The call that is being taken.
    pub open spec fn call(self) -> CallView {
        self.calls[self.next as int]
    }
}

/// What to do next about a task.
#[derive(Debug)]
pub enum LoopStep {
    /// Send the messages to the model.
    Ask,
    /// Act on the world.
    Act(ToolAction),
    /// Take the next calls of the model.
    Next,
    /// Save the task, and see whether another turn may begin.
    Save,
    /// Save the task, and end.
    Finish(Outcome),
    /// End; the task is saved as it stands.
    Stop(Outcome),
    /// Give up: a text would have to be cut inside a character.
    Abort,
}

/// What a next step says.
pub enum LoopStepView {
    Ask,
    Act(ActionView),
    Next,
    Save,
    Finish(OutcomeView),
    Stop(OutcomeView),
    Abort,
}

impl View for LoopStep {
    type V = LoopStepView;

    open spec fn view(&self) -> LoopStepView {
        match self {
            LoopStep::Ask => LoopStepView::Ask,
            LoopStep::Act(action) => LoopStepView::Act(action@),
            LoopStep::Next => LoopStepView::Next,
            LoopStep::Save => LoopStepView::Save,
            LoopStep::Finish(out) => LoopStepView::Finish(out@),
            LoopStep::Stop(out) => LoopStepView::Stop(out@),
            LoopStep::Abort => LoopStepView::Abort,
        }
    }
}

/// How a session moves on: what it says then, what to do next, and what there is to tell.
pub struct Move {
    pub session: SessionView,
    pub step: LoopStepView,
    pub events: Seq<EventView>,
}

/// The session with which a task begins, or goes on where it was saved.
pub open spec fn begun(
    config: ConfigView,
    existing: Option<TaskView>,
    id: Seq<char>,
    now: Seq<char>,
) -> SessionView {
    let (task_id, created_at, messages, todos, turn) = match existing {
        Some(task) => (task.task_id, task.created_at, task.messages, task.todos, task.turn_count),
        None => (id, now, opening(config), Seq::empty(), 0u32),
    };
    SessionView {
        task_id,
        created_at,
        messages,
        todos,
        turn,
        last: None,
        repeats: 0,
        calls: Seq::empty(),
        next: 0,
        phase: Phase::Ready,
    }
}

/// What is kept of a task.
pub open spec fn kept(s: SessionView, config: ConfigView, now: Seq<char>) -> TaskView {
    TaskView {
        task_id: s.task_id,
        task: config.task,
        messages: s.messages,
        todos: s.todos,
        turn_count: s.turn,
        max_turns: config.max_turns,
        model: config.model,
        config_path: config.config_path,
        auto_approve: config.auto_approve,
        created_at: s.created_at,
        updated_at: now,
    }
}

/// A task that ended.
pub open spec fn ended(s: SessionView, status: Seq<char>, answer: Seq<char>) -> OutcomeView {
    OutcomeView {
        status,
        turns: s.turn,
        todos: s.todos,
        final_answer: answer,
        task_id: s.task_id,
    }
}

/// The session with one more message.
pub open spec fn with_message(s: SessionView, m: MessageView) -> SessionView {
    SessionView { messages: s.messages.push(m), ..s }
}

/// The session at its end.
pub open spec fn over(s: SessionView) -> SessionView {
    SessionView { phase: Phase::Over, ..s }
}

/// What is said where no turn is left.
pub open spec fn turns_spent(max: u32, id: Seq<char>) -> Seq<char> {
    "reached max turns ("@ + decimal(max as nat) + "). task saved as "@ + id
        + ". resume with: agentic resume "@ + id
}

/// What is said where the user broke in.
pub open spec fn broken_off(turn: u32, id: Seq<char>) -> Seq<char> {
    "interrupted at turn "@ + decimal(turn as nat) + ". task saved as "@ + id
        + ". resume with: agentic resume "@ + id
}

/// How a turn begins: not at all where none is left or the user broke in.
pub open spec fn turn_begun(s: SessionView, config: ConfigView, interrupted: bool) -> Move {
    if s.turn >= config.max_turns {
        Move {
            session: over(s),
            step: LoopStepView::Stop(
                ended(s, "blocked"@, turns_spent(config.max_turns, s.task_id)),
            ),
            events: Seq::empty(),
        }
    } else if interrupted {
        Move {
            session: over(s),
            step: LoopStepView::Finish(ended(s, "interrupted"@, broken_off(s.turn, s.task_id))),
            events: Seq::empty(),
        }
    } else {
        let turn = (s.turn + 1) as u32;
        Move {
            session: SessionView { turn, phase: Phase::Asked, ..s },
            step: LoopStepView::Ask,
            events: seq![EventView::TurnStart { turn, max: config.max_turns }],
        }
    }
}

/// What a call of `finish` says of the task: the result, and whether it is blocked.
pub open spec fn verdict(args: JsonView) -> (Seq<char>, bool) {
    (
        match args.text_at("result"@) {
            Some(text) => text,
            None => Seq::empty(),
        },
        args.flag_at("blocked"@) == Some(true),
    )
}

/// The status of a task that was finished by a call.
pub open spec fn verdict_status(args: JsonView) -> Seq<char> {
    if verdict(args).1 {
        "blocked"@
    } else {
        "completed"@
    }
}

/// The answer to a call of `finish`.
pub open spec fn finish_note(status: Seq<char>) -> JsonView {
    JsonView::empty().with("ok"@, JsonView::Bool(true)).with("status"@, JsonView::Text(status))
}

/// What is said of a task that is stuck.
pub open spec fn stuck_message(name: Seq<char>, repeats: u32, id: Seq<char>) -> Seq<char> {
    "stuck: the agent called "@ + name + " with the same arguments "@ + decimal(repeats as nat)
        + " times in a row. task saved as "@ + id
}

/// The answer to the call at which a task is stuck.
pub open spec fn stuck_note(message: Seq<char>) -> JsonView {
    JsonView::empty().with("error"@, JsonView::Text(message)).with("stuck"@, JsonView::Bool(true))
}

/// A call by its tool and arguments.
pub open spec fn signature(call: CallView) -> Seq<char> {
    call.name + ":"@ + call.arguments
}

/// How often a call was made in a row, with this time.
pub open spec fn repeats_with(s: SessionView, call: CallView) -> u32 {
    if s.last == Some(signature(call)) {
        (s.repeats + 1) as u32
    } else {
        1
    }
}

/// What there is to tell once a call has its answer.
pub open spec fn answer_events(name: Seq<char>, result: Seq<char>, todos: Seq<TodoView>) -> Seq<
    EventView,
> {
    let finished = seq![EventView::ToolFinished { name, result }];
    if todos.len() > 0 {
        finished.push(EventView::TodoChanged { summary: summary_of(todos) })
    } else {
        finished
    }
}

/// Whether a message answers the call of an id with a result, such that the result can be read
/// from it again.
pub open spec fn tells(m: MessageView, id: Seq<char>, result: JsonView) -> bool {
    &&& m.role == "tool"@
    &&& m.tool_call_id == Some(id)
    &&& m.content matches Some(text) && reads_back(text, result)
}

/// Whether a message answers a call with the text of a value, such that the value can be read from
/// it again.
pub open spec fn tells_all(m: MessageView) -> bool {
    &&& m.role == "tool"@
    &&& exists|v: JsonView|
        m.content == Some(#[trigger] compact(v)) && reads_back(compact(v), v)
}

/// The session once the call that is being taken has its answer.
pub open spec fn answered(s: SessionView, result: JsonView) -> SessionView {
    SessionView {
        messages: s.messages.push(tool_message(s.call().id, compact(result))),
        next: s.next + 1,
        phase: Phase::Calling,
        ..s
    }
}

/// How the next call is taken, given its arguments.
pub open spec fn call_taken(s: SessionView, config: ConfigView, args: JsonView) -> Move {
    let call = s.call();
    let called = seq![EventView::ToolCalled { name: call.name, args: call.arguments }];
    if call.name == "finish"@ {
        Move {
            session: over(
                with_message(
                    s,
                    tool_message(call.id, compact(finish_note(verdict_status(args)))),
                ),
            ),
            step: LoopStepView::Finish(ended(s, verdict_status(args), verdict(args).0)),
            events: called,
        }
    } else {
        let repeats = repeats_with(s, call);
        let counted = SessionView { last: Some(signature(call)), repeats, ..s };
        if repeats >= STUCK_REPEAT_LIMIT {
            let message = stuck_message(call.name, repeats, s.task_id);
            Move {
                session: over(
                    with_message(counted, tool_message(call.id, compact(stuck_note(message)))),
                ),
                step: LoopStepView::Finish(ended(s, "blocked"@, message)),
                events: called,
            }
        } else {
            let (step, todos) = call_step(
                call.name,
                args,
                config.auto_approve,
                config.workdir,
                s.todos,
            );
            let updated = SessionView { todos, ..counted };
            match step {
                StepView::Act(action) => Move {
                    session: SessionView { phase: Phase::Acting, ..updated },
                    step: LoopStepView::Act(action),
                    events: called,
                },
                StepView::Answer(result) => Move {
                    session: answered(updated, result),
                    step: LoopStepView::Next,
                    events: called + answer_events(call.name, compact(result), todos),
                },
            }
        }
    }
}

/// How the calls of a turn are taken, from the next one on: up to one that acts on the world or
/// ends the task, or to the end of the turn.
pub open spec fn calls_taken(s: SessionView, config: ConfigView) -> Move
    decreases s.calls.len() - s.next,
{
    if s.next >= s.calls.len() {
        Move {
            session: SessionView { phase: Phase::Ready, ..s },
            step: LoopStepView::Save,
            events: Seq::empty(),
        }
    } else {
        let one = call_taken(s, config, arguments_of(s.call().arguments));
        if one.session.phase is Calling {
            let rest = calls_taken(one.session, config);
            Move { session: rest.session, step: rest.step, events: one.events + rest.events }
        } else {
            one
        }
    }
}

/// The answer of a reply without calls, given the closing call that is written in its text.
pub open spec fn text_answer(content: Option<Seq<char>>, found: CaptureView) -> CaptureView {
    match found {
        CaptureView::Missing => CaptureView::Found(
            match content {
                Some(text) => text,
                None => Seq::empty(),
            },
        ),
        other => other,
    }
}

/// The calls of a reply; a reply without a list of calls has none.
pub open spec fn reply_calls(m: MessageView) -> Seq<CallView> {
    match m.tool_calls {
        Some(calls) => calls,
        None => Seq::empty(),
    }
}

/// How a reply is taken, given the closing call that is written in its text.
pub open spec fn reply_taken(
    s: SessionView,
    reply: MessageView,
    found: CaptureView,
) -> Move {
    let heard = with_message(s, assistant_message(reply.content, reply.tool_calls));
    let said = match reply.content {
        Some(text) => if text.len() > 0 {
            seq![EventView::AssistantResponse { text }]
        } else {
            Seq::empty()
        },
        None => Seq::empty(),
    };
    if reply.content matches Some(text) && !cuts_clean(text, LOG_TEXT_LIMIT as nat) {
        Move { session: over(heard), step: LoopStepView::Abort, events: Seq::empty() }
    } else if reply_calls(reply).len() == 0 {
        Move {
            session: over(heard),
            step: match text_answer(reply.content, found) {
                CaptureView::Found(answer) => LoopStepView::Finish(
                    ended(heard, "completed"@, answer),
                ),
                _ => LoopStepView::Abort,
            },
            events: said,
        }
    } else {
        Move {
            session: SessionView {
                calls: reply_calls(reply),
                next: 0,
                phase: Phase::Calling,
                ..heard
            },
            step: LoopStepView::Next,
            events: said,
        }
    }
}

/// How it ends where the model could not be asked.
pub open spec fn reply_failed(s: SessionView, e: LlmError) -> Move {
    Move {
        session: over(s),
        step: LoopStepView::Finish(ended(s, "error"@, error_message(e))),
        events: Seq::empty(),
    }
}

/// The closing call that is written in the text of a reply.
pub open spec fn written_call(reply: MessageView) -> CaptureView {
    match reply.content {
        Some(text) => if reply_calls(reply).len() == 0 {
            inline_finish(text, lowercase(text))
        } else {
            CaptureView::Missing
        },
        None => CaptureView::Missing,
    }
}

/// How the result of an action is taken.
pub open spec fn result_taken(s: SessionView, result: JsonView) -> Move {
    Move {
        session: answered(s, result),
        step: LoopStepView::Next,
        events: answer_events(s.call().name, compact(result), s.todos),
    }
}

/// What to do next, and what there is to tell.
#[derive(Debug)]
pub struct Told {
    pub step: LoopStep,
    pub events: Vec<LoopEvent>,
}

/// A task on its way.
#[derive(Debug)]
pub struct Session {
    task_id: String,
    created_at: String,
    messages: Vec<Message>,
    todos: Vec<TodoItem>,
    turn: u32,
    last: Option<String>,
    repeats: u32,
    calls: Vec<ToolCall>,
    next: usize,
    phase: Phase,
}

impl View for Session {
    type V = SessionView;

    closed spec fn view(&self) -> SessionView {
        SessionView {
            task_id: self.task_id@,
            created_at: self.created_at@,
            messages: message_views(self.messages@),
            todos: todo_views(self.todos@),
            turn: self.turn,
            last: opt_view(self.last),
            repeats: self.repeats,
            calls: call_views(self.calls@),
            next: self.next as nat,
            phase: self.phase,
        }
    }
}

/// What a call of `finish` says of the task: the result, and whether it is blocked.
pub fn finish_verdict(args: &Json) -> (r: (String, bool))
    ensures
        (r.0@, r.1) == verdict(args@),
{
    let result = match args.str_at("result") {
        Some(text) => text.to_string(),
        None => String::new(),
    };
    let blocked = match args.bool_at("blocked") {
        Some(b) => b,
        None => false,
    };
    (result, blocked)
}

/// What is said where no turn is left.
fn say_turns_spent(max: u32, id: &str) -> (r: String)
    ensures
        r@ == turns_spent(max, id@),
{
    let mut out = "reached max turns (".to_string();
    push_decimal(&mut out, max as u64);
    out.append("). task saved as ");
    out.append(id);
    out.append(". resume with: agentic resume ");
    out.append(id);
    out
}

/// What is said where the user broke in.
fn say_broken_off(turn: u32, id: &str) -> (r: String)
    ensures
        r@ == broken_off(turn, id@),
{
    let mut out = "interrupted at turn ".to_string();
    push_decimal(&mut out, turn as u64);
    out.append(". task saved as ");
    out.append(id);
    out.append(". resume with: agentic resume ");
    out.append(id);
    out
}

/// What is said of a task that is stuck.
fn say_stuck(name: &str, repeats: u32, id: &str) -> (r: String)
    ensures
        r@ == stuck_message(name@, repeats, id@),
{
    let mut out = "stuck: the agent called ".to_string();
    out.append(name);
    out.append(" with the same arguments ");
    push_decimal(&mut out, repeats as u64);
    out.append(" times in a row. task saved as ");
    out.append(id);
    out
}

impl Session {
    /// Begins a task, or goes on with one that was saved.
    pub fn begin(config: &Config, existing: Option<TaskState>, id: &str, now: &str) -> (r: Session)
        ensures
            r@ == begun(
                config@,
                match existing {
                    Some(task) => Some(task@),
                    None => None,
                },
                id@,
                now@,
            ),
            r@.sound(),
    {
        let calls: Vec<ToolCall> = Vec::new();
        assert(call_views(calls@) =~= Seq::empty());
        match existing {
            Some(task) => Session {
                task_id: task.task_id,
                created_at: task.created_at,
                messages: task.messages,
                todos: task.todos,
                turn: task.turn_count,
                last: None,
                repeats: 0,
                calls,
                next: 0,
                phase: Phase::Ready,
            },
            None => {
                let mut task = "Task: ".to_string();
                task.append(config.task.as_str());
                let mut messages: Vec<Message> = Vec::new();
                messages.push(Message::system(system_prompt(config.workdir.as_str()).as_str()));
                messages.push(Message::user(task.as_str()));
                if config.auto_approve {
                    messages.push(
                        Message::system("destructive commands are allowed: the user passed --yes"),
                    );
                }
                assert(message_views(messages@) =~= opening(config@));
                let todos: Vec<TodoItem> = Vec::new();
                assert(todo_views(todos@) =~= Seq::empty());
                Session {
                    task_id: id.to_string(),
                    created_at: now.to_string(),
                    messages,
                    todos,
                    turn: 0,
                    last: None,
                    repeats: 0,
                    calls,
                    next: 0,
                    phase: Phase::Ready,
                }
            },
        }
    }

    /// Begins a task under a new id, or goes on with one that was saved.
    pub fn open(config: &Config, existing: Option<TaskState>) -> (r: Session)
        ensures
            match existing {
                Some(task) => r@ == begun(config@, Some(task@), Seq::empty(), Seq::empty()),
                None => is_new_id(r@.task_id) && is_time(r@.created_at) && r@ == begun(
                    config@,
                    None,
                    r@.task_id,
                    r@.created_at,
                ),
            },
            r@.sound(),
    {
        match existing {
            Some(task) => Session::begin(config, Some(task), "", ""),
            None => {
                let id = new_task_id();
                let now = local_time();
                Session::begin(config, None, id.as_str(), now.as_str())
            },
        }
    }

    /// The messages so far.
    pub fn messages(&self) -> (r: &Vec<Message>)
        ensures
            message_views(r@) == self@.messages,
    {
        &self.messages
    }

    /// The todo list.
    pub fn todos(&self) -> (r: &Vec<TodoItem>)
        ensures
            todo_views(r@) == self@.todos,
    {
        &self.todos
    }

    /// The number of the turn.
    pub fn turn(&self) -> (r: u32)
        ensures
            r == self@.turn,
    {
        self.turn
    }

    /// The id of the task.
    pub fn task_id(&self) -> (r: &str)
        ensures
            r@ == self@.task_id,
    {
        self.task_id.as_str()
    }

    /// What the session waits for.
    pub fn phase(&self) -> (r: Phase)
        ensures
            r == self@.phase,
    {
        self.phase
    }

    /// What is kept of the task at a time.
    pub fn snapshot(&self, config: &Config, now: &str) -> (r: TaskState)
        ensures
            r@ == kept(self@, config@, now@),
    {
        TaskState {
            task_id: self.task_id.clone(),
            task: config.task.clone(),
            messages: copy_messages(self.messages.as_slice()),
            todos: copy_todos(self.todos.as_slice()),
            turn_count: self.turn,
            max_turns: config.max_turns,
            model: copy_opt(&config.model),
            config_path: config.config_path.clone(),
            auto_approve: config.auto_approve,
            created_at: self.created_at.clone(),
            updated_at: now.to_string(),
        }
    }

    /// What is kept of the task now.
    pub fn snapshot_now(&self, config: &Config) -> (r: TaskState)
        ensures
            r@ == kept(self@, config@, r@.updated_at),
            is_time(r@.updated_at),
    {
        let now = local_time();
        self.snapshot(config, now.as_str())
    }

    /// A task that ended.
    fn end(&self, status: &str, answer: String) -> (r: Outcome)
        ensures
            r@ == ended(self@, status@, answer@),
    {
        Outcome {
            status: status.to_string(),
            turns: self.turn,
            todos: copy_todos(self.todos.as_slice()),
            final_answer: answer,
            task_id: self.task_id.clone(),
        }
    }

    /// Adds a message.
    fn push(&mut self, m: Message)
        ensures
            final(self)@ == with_message(old(self)@, m@),
    {
        let ghost before = message_views(self.messages@);
        let ghost said = m@;
        self.messages.push(m);
        assert(message_views(self.messages@) =~= before.push(said));
    }

    /// Begins a turn, unless none is left or the user broke in.
    pub fn start_turn(&mut self, config: &Config, interrupted: bool) -> (r: Told)
        requires
            old(self)@.sound(),
            old(self)@.phase is Ready,
        ensures
            final(self)@ == turn_begun(old(self)@, config@, interrupted).session,
            r.step@ == turn_begun(old(self)@, config@, interrupted).step,
            event_views(r.events@) == turn_begun(old(self)@, config@, interrupted).events,
            final(self)@.sound(),
    {
        let mut events: Vec<LoopEvent> = Vec::new();
        if self.turn >= config.max_turns {
            let message = say_turns_spent(config.max_turns, self.task_id.as_str());
            let out = self.end("blocked", message);
            self.phase = Phase::Over;
            assert(event_views(events@) =~= Seq::empty());
            return Told { step: LoopStep::Stop(out), events };
        }
        if interrupted {
            let message = say_broken_off(self.turn, self.task_id.as_str());
            let out = self.end("interrupted", message);
            self.phase = Phase::Over;
            assert(event_views(events@) =~= Seq::empty());
            return Told { step: LoopStep::Finish(out), events };
        }
        self.turn = self.turn + 1;
        self.phase = Phase::Asked;
        events.push(LoopEvent::TurnStart { turn: self.turn, max: config.max_turns });
        assert(event_views(events@) =~= seq![
            EventView::TurnStart { turn: self.turn, max: config.max_turns },
        ]);
        Told { step: LoopStep::Ask, events }
    }

    /// Gives the call that is being taken its answer.
    fn answer(&mut self, result: &Json, events: &mut Vec<LoopEvent>)
        requires
            old(self)@.sound(),
            old(self)@.next < old(self)@.calls.len(),
            old(self)@.repeats < STUCK_REPEAT_LIMIT,
        ensures
            final(self)@ == answered(old(self)@, result@),
            tells(final(self)@.messages.last(), old(self)@.call().id, result@),
            tells_all(final(self)@.messages.last()),
            event_views(final(events)@) == event_views(old(events)@) + answer_events(
                old(self)@.call().name,
                compact(result@),
                old(self)@.todos,
            ),
            final(self)@.sound(),
    {
        let ghost before = event_views(events@);
        let ghost start = self@;
        let at: usize = self.next;
        let text = render(result);
        let id = self.calls[at].id.clone();
        let name = self.calls[at].function.name.clone();
        self.push(Message::tool_result(id.as_str(), text.as_str()));
        let _total: usize = self.calls.len();
        assert(at < _total);
        self.next = at + 1;
        self.phase = Phase::Calling;
        let ghost finished = EventView::ToolFinished { name: name@, result: text@ };
        events.push(LoopEvent::ToolFinished { name, result: text });
        assert(event_views(events@) =~= before.push(finished));
        if self.todos.len() > 0 {
            let short = summary(self.todos.as_slice());
            let ghost changed = EventView::TodoChanged { summary: short@ };
            events.push(LoopEvent::TodoChanged { summary: short });
            assert(event_views(events@) =~= before.push(finished).push(changed));
        }
        assert(event_views(events@) =~= before + answer_events(
            start.call().name,
            compact(result@),
            start.todos,
        ));
    }

    /// Takes the next call of the model, given its arguments.
    pub fn take_call(&mut self, config: &Config, args: &Json) -> (r: Told)
        requires
            old(self)@.sound(),
            old(self)@.phase is Calling,
            old(self)@.next < old(self)@.calls.len(),
        ensures
            final(self)@ == call_taken(old(self)@, config@, args@).session,
            r.step@ == call_taken(old(self)@, config@, args@).step,
            event_views(r.events@) == call_taken(old(self)@, config@, args@).events,
            final(self)@.sound(),
            call_step(
                old(self)@.call().name,
                args@,
                config@.auto_approve,
                config@.workdir,
                old(self)@.todos,
            ).0 matches StepView::Answer(result) ==> (r.step is Next ==> tells(
                final(self)@.messages.last(),
                old(self)@.call().id,
                result,
            )),
            r.step matches LoopStep::Finish(out) ==> if old(self)@.call().name == "finish"@ {
                tells(
                    final(self)@.messages.last(),
                    old(self)@.call().id,
                    finish_note(out@.status),
                )
            } else {
                tells(
                    final(self)@.messages.last(),
                    old(self)@.call().id,
                    stuck_note(out@.final_answer),
                )
            },
            final(self)@.messages.len() > old(self)@.messages.len() ==> tells_all(
                final(self)@.messages.last(),
            ),
    {
        let ghost start = self@;
        let call = self.calls[self.next].clone();
        assert(call@ == start.call());
        let mut events: Vec<LoopEvent> = Vec::new();
        events.push(
            LoopEvent::ToolCalled {
                name: call.function.name.clone(),
                args: call.function.arguments.clone(),
            },
        );
        let ghost called = seq![
            EventView::ToolCalled { name: start.call().name, args: start.call().arguments },
        ];
        assert(event_views(events@) =~= called);
        if same_text(call.function.name.as_str(), "finish") {
            let (result, blocked) = finish_verdict(args);
            let status = if blocked {
                "blocked"
            } else {
                "completed"
            };
            let note = Json::object().with("ok", Json::Bool(true)).with(
                "status",
                Json::text(status),
            );
            self.push(Message::tool_result(call.id.as_str(), render(&note).as_str()));
            let out = self.end(status, result);
            self.phase = Phase::Over;
            return Told { step: LoopStep::Finish(out), events };
        }
        let mut mark = call.function.name.clone();
        mark.append(":");
        mark.append(call.function.arguments.as_str());
        assert(mark@ == signature(start.call()));
        let again = match &self.last {
            Some(last) => same_text(last.as_str(), mark.as_str()),
            None => false,
        };
        if again {
            self.repeats = self.repeats + 1;
        } else {
            self.repeats = 1;
            self.last = Some(mark);
        }
        if self.repeats >= STUCK_REPEAT_LIMIT {
            let message = say_stuck(
                call.function.name.as_str(),
                self.repeats,
                self.task_id.as_str(),
            );
            let note = Json::object().with("error", Json::text(message.as_str())).with(
                "stuck",
                Json::Bool(true),
            );
            self.push(Message::tool_result(call.id.as_str(), render(&note).as_str()));
            let out = self.end("blocked", message);
            self.phase = Phase::Over;
            return Told { step: LoopStep::Finish(out), events };
        }
        let context = ToolContext {
            auto_approve: config.auto_approve,
            workdir: config.workdir.clone(),
        };
        match run_tool(call.function.name.as_str(), args, &context, &mut self.todos) {
            ToolStep::Act(action) => {
                self.phase = Phase::Acting;
                Told { step: LoopStep::Act(action), events }
            },
            ToolStep::Answer(result) => {
                self.answer(&result, &mut events);
                Told { step: LoopStep::Next, events }
            },
        }
    }

    /// Takes the calls of the turn, from the next one on.
    pub fn take_calls(&mut self, config: &Config) -> (r: Told)
        requires
            old(self)@.sound(),
            old(self)@.phase is Calling,
        ensures
            final(self)@ == calls_taken(old(self)@, config@).session,
            r.step@ == calls_taken(old(self)@, config@).step,
            event_views(r.events@) == calls_taken(old(self)@, config@).events,
            final(self)@.sound(),
            forall|i: int|
                old(self)@.messages.len() <= i < final(self)@.messages.len() ==> tells_all(
                    #[trigger] final(self)@.messages[i],
                ),
        decreases old(self)@.calls.len() - old(self)@.next,
    {
        if self.next >= self.calls.len() {
            self.phase = Phase::Ready;
            let events: Vec<LoopEvent> = Vec::new();
            assert(event_views(events@) =~= Seq::empty());
            return Told { step: LoopStep::Save, events };
        }
        let args = self.calls[self.next].arguments_value();
        let one = self.take_call(config, &args);
        if self.phase != Phase::Calling {
            return one;
        }
        let ghost first = event_views(one.events@);
        let mut events = one.events;
        let ghost middle = self@;
        let rest = self.take_calls(config);
        proof {
            crate::chat_laws::lemma_calls_go_on(middle, config@);
            assert(self@.messages.take(middle.messages.len() as int)[middle.messages.len() - 1]
                == middle.messages.last());
        }
        let ghost then = event_views(rest.events@);
        let mut more = rest.events;
        events.append(&mut more);
        assert(event_views(events@) =~= first + then);
        Told { step: rest.step, events }
    }

    /// Takes the reply of the model, given the closing call that is written in its text.
    pub fn take_reply_with(&mut self, reply: Message, found: Capture) -> (r: Told)
        requires
            old(self)@.sound(),
            old(self)@.phase is Asked,
        ensures
            final(self)@ == reply_taken(old(self)@, reply@, found@).session,
            r.step@ == reply_taken(old(self)@, reply@, found@).step,
            event_views(r.events@) == reply_taken(old(self)@, reply@, found@).events,
            final(self)@.sound(),
    {
        let ghost said = reply@;
        let mut events: Vec<LoopEvent> = Vec::new();
        assert(event_views(events@) =~= Seq::empty());
        let content = copy_opt(&reply.content);
        let calls = match &reply.tool_calls {
            Some(calls) => copy_calls(calls),
            None => Vec::new(),
        };
        assert(call_views(calls@) =~= reply_calls(said));
        self.push(Message::assistant(reply.content, reply.tool_calls));
        if let Some(text) = &content {
            if !can_cut(text.as_str(), LOG_TEXT_LIMIT) {
                self.phase = Phase::Over;
                return Told { step: LoopStep::Abort, events };
            }
            if !text.as_str().is_empty() {
                events.push(LoopEvent::AssistantResponse { text: text.clone() });
                assert(event_views(events@) =~= seq![
                    EventView::AssistantResponse { text: text@ },
                ]);
            }
        }
        if calls.len() == 0 {
            let answer = match found {
                Capture::Found(answer) => answer,
                Capture::Missing => match content {
                    Some(text) => text,
                    None => String::new(),
                },
                Capture::Inside => {
                    self.phase = Phase::Over;
                    return Told { step: LoopStep::Abort, events };
                },
            };
            let out = self.end("completed", answer);
            self.phase = Phase::Over;
            return Told { step: LoopStep::Finish(out), events };
        }
        self.calls = calls;
        self.next = 0;
        self.phase = Phase::Calling;
        Told { step: LoopStep::Next, events }
    }

    /// Takes the reply of the model, or what kept it from answering.
    pub fn take_reply(&mut self, reply: Result<LlmResponse, LlmError>) -> (r: Told)
        requires
            old(self)@.sound(),
            old(self)@.phase is Asked,
        ensures
            ({
                let moved = match reply {
                    Ok(response) => reply_taken(
                        old(self)@,
                        response.message@,
                        written_call(response.message@),
                    ),
                    Err(e) => reply_failed(old(self)@, e),
                };
                &&& final(self)@ == moved.session
                &&& r.step@ == moved.step
                &&& event_views(r.events@) == moved.events
            }),
            final(self)@.sound(),
    {
        match reply {
            Ok(response) => {
                let called = match &response.message.tool_calls {
                    Some(calls) => calls.len() > 0,
                    None => false,
                };
                let found = match &response.message.content {
                    Some(text) => if called {
                        Capture::Missing
                    } else {
                        extract_inline_finish(text.as_str())
                    },
                    None => Capture::Missing,
                };
                self.take_reply_with(response.message, found)
            },
            Err(e) => {
                let out = self.end("error", e.human_message());
                self.phase = Phase::Over;
                let events: Vec<LoopEvent> = Vec::new();
                assert(event_views(events@) =~= Seq::empty());
                Told { step: LoopStep::Finish(out), events }
            },
        }
    }

    /// Takes the result of an action.
    pub fn take_result(&mut self, result: &Json) -> (r: Told)
        requires
            old(self)@.sound(),
            old(self)@.phase is Acting,
        ensures
            final(self)@ == result_taken(old(self)@, result@).session,
            r.step@ == result_taken(old(self)@, result@).step,
            event_views(r.events@) == result_taken(old(self)@, result@).events,
            final(self)@.sound(),
            final(self)@.messages.drop_last() == old(self)@.messages,
            tells(final(self)@.messages.last(), old(self)@.call().id, result@),
    {
        let mut events: Vec<LoopEvent> = Vec::new();
        assert(event_views(events@) =~= Seq::empty());
        self.answer(result, &mut events);
        Told { step: LoopStep::Next, events }
    }
}

/// A text for the log.
pub fn truncate_log(s: &str, max: usize) -> (r: String)
    requires
        cuts_clean(s@, max as nat),
    ensures
        r@ == shortened(s@, max as nat),
{
    shorten(s, max)
}

/// Whether the words of an event can be cut for the log. What the model says is cut after just so
/// many bytes; the result of a tool can always be clipped.
pub open spec fn loggable(event: EventView) -> bool {
    event matches EventView::AssistantResponse { text } ==> cuts_clean(text, LOG_TEXT_LIMIT as nat)
}

/// What is logged of an event.
pub open spec fn log_text(event: EventView) -> Seq<char> {
    match event {
        EventView::TurnStart { .. } => "calling llm"@,
        EventView::AssistantResponse { text } => "llm said: "@ + shortened(
            text,
            LOG_TEXT_LIMIT as nat,
        ),
        EventView::ToolCalled { name, args } => "tool: "@ + name + "("@ + args + ")"@,
        EventView::ToolFinished { name, result } => "result: "@ + name + " "@ + clipped(
            result,
            LOG_TEXT_LIMIT as nat,
        ),
        EventView::TodoChanged { summary } => "todos: "@ + summary,
    }
}

/// The line that is logged of an event in a turn; with JSON as output nothing is logged.
pub open spec fn log_line(json_output: bool, turn: u32, event: EventView) -> Option<Seq<char>> {
    if json_output {
        None
    } else {
        Some("[turn "@ + decimal(turn as nat) + "] "@ + log_text(event))
    }
}

/// The line that is logged of an event in a turn.
pub fn log_turn(config: &Config, turn: u32, event: &LoopEvent) -> (r: Option<String>)
    requires
        loggable(event@),
    ensures
        opt_view(r) == log_line(config@.json_output, turn, event@),
{
    let text = match event {
        LoopEvent::TurnStart { .. } => "calling llm".to_string(),
        LoopEvent::AssistantResponse { text } => {
            let mut out = "llm said: ".to_string();
            out.append(truncate_log(text.as_str(), LOG_TEXT_LIMIT).as_str());
            out
        },
        LoopEvent::ToolCalled { name, args } => {
            let mut out = "tool: ".to_string();
            out.append(name.as_str());
            out.append("(");
            out.append(args.as_str());
            out.append(")");
            out
        },
        LoopEvent::ToolFinished { name, result } => {
            let mut out = "result: ".to_string();
            out.append(name.as_str());
            out.append(" ");
            out.append(clip(result.as_str(), LOG_TEXT_LIMIT).as_str());
            out
        },
        LoopEvent::TodoChanged { summary } => {
            let mut out = "todos: ".to_string();
            out.append(summary.as_str());
            out
        },
    };
    if config.json_output {
        return None;
    }
    let mut line = "[turn ".to_string();
    push_decimal(&mut line, turn as u64);
    line.append("] ");
    line.append(text.as_str());
    Some(line)
}

/// Where the task is saved: the directory of the terms, or else the usual one.
pub fn save_dir(config: &Config, usual: &str) -> (r: String)
    ensures
        r@ == (match config@.state_dir {
            Some(dir) => dir,
            None => usual@,
        }),
{
    match &config.state_dir {
        Some(dir) => dir.clone(),
        None => usual.to_string(),
    }
}

/// What is said where a task could not be saved.
pub fn save_failed(reason: &str) -> (r: String)
    ensures
        r@ == "could not save task state: "@ + reason@,
{
    let mut out = "could not save task state: ".to_string();
    out.append(reason);
    out
}

}
