//! The commands of the program: what they refuse, under what terms they run, and what they print.

use vstd::prelude::*;
use vstd::string::*;

use crate::chat::{outcome_json, outcome_to_json, Config, ConfigView, Outcome, OutcomeView};
use crate::json::{pretty, reads_back, render_pretty, Json, JsonView};
use crate::llm::{copy_opt, json_views, opt_view};
use crate::schemas::{tool_lines, tool_list};
use crate::state::{exit_code, exit_code_for_status, TaskState, TaskView};
use crate::text::{decimal, push_decimal, same_text, trim, trimmed, views};
use crate::todo::{summary, summary_of, TodoItem, TodoView};
use crate::tools::{glue, glue3};

verus! {

/// A command with its options.
#[derive(Debug)]
pub enum Command {
    Run {
        task: String,
        max_turns: u32,
        json: bool,
        yes: bool,
        llm_config: String,
        model: Option<String>,
        llm_binary: Option<String>,
    },
    Resume {
        task_id: String,
        json: bool,
        yes: bool,
        llm_config: String,
        model: Option<String>,
        llm_binary: Option<String>,
        max_turns: Option<u32>,
    },
    Tools {
        json: bool,
    },
    Tasks {
        json: bool,
    },
    Chat {
        task: String,
        max_turns: u32,
        json: bool,
        yes: bool,
        llm_config: String,
        model: Option<String>,
        llm_binary: Option<String>,
    },
}

/// What the user asked the program for.
#[derive(Debug)]
pub struct Cli {
    pub command: Command,
}

/// Why a new task is refused before anything is done, given whether the file of the model's
/// settings is there: it has nothing to do, no turn to do it in, or no settings.
pub open spec fn new_task_refusal(
    task: Seq<char>,
    max_turns: u32,
    llm_config: Seq<char>,
    settings_exist: bool,
) -> Option<Seq<char>> {
    if trimmed(task).len() == 0 {
        Some("task cannot be empty. pass --task \"what you want done\""@)
    } else if max_turns == 0 {
        Some("max-turns must be at least 1"@)
    } else if !settings_exist {
        Some(
            "llm config not found at "@ + llm_config
                + ". copy it from llm-adapter's config.yaml.template and fill in your keys"@,
        )
    } else {
        None
    }
}

/// Why a command is refused before anything is done, given whether the file of the model's settings
/// is there and the saved task that is to be resumed.
pub open spec fn refusal(
    command: Command,
    settings_exist: bool,
    saved: Option<TaskView>,
) -> Option<Seq<char>> {
    match command {
        Command::Run { task, max_turns, llm_config, .. } => new_task_refusal(
            task@,
            max_turns,
            llm_config@,
            settings_exist,
        ),
        Command::Resume { llm_config, max_turns, .. } => if max_turns == Some(0u32) {
            Some("max-turns must be at least 1"@)
        } else {
            match saved {
                Some(task) => if !settings_exist {
                    Some(
                        "llm config not found at "@ + llm_config@ + ". the original run used: "@
                            + task.config_path,
                    )
                } else {
                    None
                },
                None => None,
            }
        },
        Command::Chat { task, max_turns, llm_config, .. } => new_task_refusal(
            task@,
            max_turns,
            llm_config@,
            settings_exist,
        ),
        _ => None,
    }
}

/// The terms under which a command runs a task, given where it runs and the saved task that is to
/// be resumed. Commands that run no task have none.
pub open spec fn terms(
    command: Command,
    workdir: Seq<char>,
    saved: Option<TaskView>,
) -> Option<ConfigView> {
    match command {
        Command::Run { task, max_turns, json, yes, llm_config, model, llm_binary } => Some(
            ConfigView {
                task: task@,
                max_turns,
                json_output: json,
                auto_approve: yes,
                workdir,
                model: opt_view(model),
                config_path: llm_config@,
                binary_flag: opt_view(llm_binary),
                state_dir: None,
            },
        ),
        Command::Resume { task_id, json, yes, llm_config, model, llm_binary, max_turns } =>
        match saved {
            Some(task) => Some(
                ConfigView {
                    task: task.task,
                    max_turns: match max_turns {
                        Some(n) => n,
                        None => task.max_turns,
                    },
                    json_output: json,
                    auto_approve: yes || task.auto_approve,
                    workdir,
                    model: match model {
                        Some(m) => Some(m@),
                        None => task.model,
                    },
                    config_path: llm_config@,
                    binary_flag: opt_view(llm_binary),
                    state_dir: None,
                },
            ),
            None => None,
        },
        Command::Chat { task, max_turns, json, yes, llm_config, model, llm_binary } => Some(
            ConfigView {
                task: task@,
                max_turns,
                json_output: json,
                auto_approve: yes,
                workdir,
                model: opt_view(model),
                config_path: llm_config@,
                binary_flag: opt_view(llm_binary),
                state_dir: None,
            },
        ),
        _ => None,
    }
}

/// What an optional saved task says.
pub open spec fn saved_view(saved: Option<&TaskState>) -> Option<TaskView> {
    match saved {
        Some(task) => Some(task@),
        None => None,
    }
}

/// Why a new task is refused before anything is done.
fn refuse_new_task(
    task: &str,
    max_turns: u32,
    llm_config: &str,
    settings_exist: bool,
) -> (r: Option<String>)
    ensures
        opt_view(r) == new_task_refusal(task@, max_turns, llm_config@, settings_exist),
{
    if trim(task).as_str().is_empty() {
        return Some("task cannot be empty. pass --task \"what you want done\"".to_string());
    }
    if max_turns == 0 {
        return Some("max-turns must be at least 1".to_string());
    }
    if !settings_exist {
        return Some(
            glue3(
                "llm config not found at ",
                llm_config,
                ". copy it from llm-adapter's config.yaml.template and fill in your keys",
            ),
        );
    }
    None
}

/// The model that a command names for its client. Commands that run no task name none.
pub open spec fn model_named(command: Command) -> Option<Seq<char>> {
    match command {
        Command::Run { model, .. } => opt_view(model),
        Command::Resume { model, .. } => opt_view(model),
        Command::Chat { model, .. } => opt_view(model),
        _ => None,
    }
}

impl Command {
    /// The model that the command names for its client.
    pub fn client_model(&self) -> (r: Option<String>)
        ensures
            opt_view(r) == model_named(*self),
    {
        match self {
            Command::Run { model, .. } => copy_opt(model),
            Command::Resume { model, .. } => copy_opt(model),
            Command::Chat { model, .. } => copy_opt(model),
            _ => None,
        }
    }

    /// Why the command is refused before anything is done.
    pub fn refused(&self, settings_exist: bool, saved: Option<&TaskState>) -> (r: Option<String>)
        ensures
            opt_view(r) == refusal(*self, settings_exist, saved_view(saved)),
    {
        match self {
            Command::Run { task, max_turns, llm_config, .. } => refuse_new_task(
                task.as_str(),
                *max_turns,
                llm_config.as_str(),
                settings_exist,
            ),
            Command::Resume { llm_config, max_turns, .. } => {
                if let Some(0) = max_turns {
                    return Some("max-turns must be at least 1".to_string());
                }
                if let Some(task) = saved {
                    if !settings_exist {
                        let mut out = glue3(
                            "llm config not found at ",
                            llm_config.as_str(),
                            ". the original run used: ",
                        );
                        out.append(task.config_path.as_str());
                        return Some(out);
                    }
                }
                None
            },
            Command::Chat { task, max_turns, llm_config, .. } => refuse_new_task(
                task.as_str(),
                *max_turns,
                llm_config.as_str(),
                settings_exist,
            ),
            _ => None,
        }
    }

    /// The terms under which the command runs a task.
    pub fn config(&self, workdir: &str, saved: Option<&TaskState>) -> (r: Option<Config>)
        ensures
            match r {
                Some(config) => terms(*self, workdir@, saved_view(saved)) == Some(config@),
                None => terms(*self, workdir@, saved_view(saved)) is None,
            },
    {
        match self {
            Command::Run { task, max_turns, json, yes, llm_config, model, llm_binary } => Some(
                Config {
                    task: task.clone(),
                    max_turns: *max_turns,
                    json_output: *json,
                    auto_approve: *yes,
                    workdir: workdir.to_string(),
                    model: copy_opt(model),
                    config_path: llm_config.clone(),
                    binary_flag: copy_opt(llm_binary),
                    state_dir: None,
                },
            ),
            Command::Resume { json, yes, llm_config, model, llm_binary, max_turns, .. } =>
            match saved {
                Some(task) => Some(
                    Config {
                        task: task.task.clone(),
                        max_turns: match max_turns {
                            Some(n) => *n,
                            None => task.max_turns,
                        },
                        json_output: *json,
                        auto_approve: *yes || task.auto_approve,
                        workdir: workdir.to_string(),
                        model: match model {
                            Some(m) => Some(m.clone()),
                            None => copy_opt(&task.model),
                        },
                        config_path: llm_config.clone(),
                        binary_flag: copy_opt(llm_binary),
                        state_dir: None,
                    },
                ),
                None => None,
            },
            Command::Chat { task, max_turns, json, yes, llm_config, model, llm_binary } => Some(
                Config {
                    task: task.clone(),
                    max_turns: *max_turns,
                    json_output: *json,
                    auto_approve: *yes,
                    workdir: workdir.to_string(),
                    model: copy_opt(model),
                    config_path: llm_config.clone(),
                    binary_flag: copy_opt(llm_binary),
                    state_dir: None,
                },
            ),
            _ => None,
        }
    }

    /// Whether the command was asked to print JSON.
    pub fn wants_json(&self) -> (r: bool)
        ensures
            r == (match *self {
                Command::Run { json, .. } => json,
                Command::Resume { json, .. } => json,
                Command::Tools { json } => json,
                Command::Tasks { json } => json,
                Command::Chat { json, .. } => json,
            }),
    {
        match self {
            Command::Run { json, .. } => *json,
            Command::Resume { json, .. } => *json,
            Command::Tools { json } => *json,
            Command::Tasks { json } => *json,
            Command::Chat { json, .. } => *json,
        }
    }
}

/// The lines that a command prints, and its exit code.
#[derive(Debug)]
pub struct Printed {
    pub out: Vec<String>,
    pub err: Vec<String>,
    pub code: i32,
}

/// What is printed.
pub struct PrintedView {
    pub out: Seq<Seq<char>>,
    pub err: Seq<Seq<char>>,
    pub code: i32,
}

impl View for Printed {
    type V = PrintedView;

    open spec fn view(&self) -> PrintedView {
        PrintedView { out: views(self.out@), err: views(self.err@), code: self.code }
    }
}

/// An error as JSON.
pub open spec fn failure_json(message: Seq<char>) -> JsonView {
    JsonView::empty().with("status"@, JsonView::Text("error"@)).with(
        "error"@,
        JsonView::Text(message),
    )
}

/// An error as JSON.
pub fn failure_to_json(message: &str) -> (r: Json)
    ensures
        r@ == failure_json(message@),
{
    Json::object().with("status", Json::text("error")).with("error", Json::text(message))
}

/// What is printed of an error.
pub open spec fn failure(message: Seq<char>, json: bool) -> PrintedView {
    if json {
        PrintedView { out: seq![pretty(failure_json(message))], err: Seq::empty(), code: 1 }
    } else {
        PrintedView { out: Seq::empty(), err: seq![message], code: 1 }
    }
}

/// What is printed of an error.
pub fn fail(message: &str, json: bool) -> (r: Printed)
    ensures
        r@ == failure(message@, json),
        json ==> r@.out.len() == 1 && reads_back(r@.out[0], failure_json(message@)),
{
    let mut out: Vec<String> = Vec::new();
    let mut err: Vec<String> = Vec::new();
    if json {
        out.push(render_pretty(&failure_to_json(message)));
    } else {
        err.push(message.to_string());
    }
    assert(views(out@) =~= failure(message@, json).out);
    assert(views(err@) =~= failure(message@, json).err);
    Printed { out, err, code: 1 }
}

/// The line for one item of a todo list.
pub open spec fn todo_line(item: TodoView) -> Seq<char> {
    "  ["@ + item.status.name() + "] "@ + item.id + " — "@ + item.content
}

/// What is printed of a todo list behind the answer.
pub open spec fn todo_lines(todos: Seq<TodoView>) -> Seq<Seq<char>> {
    if todos.len() == 0 {
        Seq::empty()
    } else {
        seq![""@, "todos: "@ + summary_of(todos)] + Seq::new(
            todos.len(),
            |i: int| todo_line(todos[i]),
        )
    }
}

/// What is printed of a task that ended, given whether the user broke in.
pub open spec fn ending(out: OutcomeView, json: bool, interrupted: bool) -> PrintedView {
    let code = if interrupted {
        130
    } else {
        exit_code(out.status)
    };
    if json {
        PrintedView { out: seq![pretty(outcome_json(out))], err: Seq::empty(), code }
    } else {
        PrintedView {
            out: seq![out.final_answer],
            err: todo_lines(out.todos) + if out.status == "interrupted"@ {
                seq![""@, "interrupted. "@ + out.final_answer]
            } else {
                Seq::empty()
            },
            code,
        }
    }
}

/// The line for one item of a todo list.
fn line_of(item: &TodoItem) -> (r: String)
    ensures
        r@ == todo_line(item@),
{
    let mut out = "  [".to_string();
    out.append(item.status.as_str());
    out.append("] ");
    out.append(item.id.as_str());
    out.append(" — ");
    out.append(item.content.as_str());
    out
}

/// What is printed of a todo list behind the answer.
fn lines_of_todos(todos: &Vec<TodoItem>) -> (r: Vec<String>)
    ensures
        views(r@) == todo_lines(crate::todo::todo_views(todos@)),
{
    let ghost all = crate::todo::todo_views(todos@);
    let mut out: Vec<String> = Vec::new();
    if todos.len() == 0 {
        assert(views(out@) =~= Seq::empty());
        return out;
    }
    out.push("".to_string());
    out.push(glue("todos: ", summary(todos.as_slice()).as_str()));
    for i in 0..todos.len()
        invariant
            all == crate::todo::todo_views(todos@),
            out@.len() == i + 2,
            out@[0]@ == ""@,
            out@[1]@ == "todos: "@ + summary_of(all),
            forall|k: int| 0 <= k < i ==> (#[trigger] out@[k + 2])@ == todo_line(all[k]),
    {
        let ghost before = out@;
        out.push(line_of(&todos[i]));
        assert forall|k: int| 0 <= k < i + 1 implies (#[trigger] out@[k + 2])@ == todo_line(
            all[k],
        ) by {
            if k < i {
                assert(before[k + 2] == out@[k + 2]);
            }
        }
    }
    let ghost told = todo_lines(all);
    assert forall|n: int| 0 <= n < told.len() implies views(out@)[n] == told[n] by {
        if n >= 2 {
            assert(out@[(n - 2) + 2]@ == todo_line(all[n - 2]));
        }
    }
    assert(views(out@) =~= told);
    out
}

/// What is printed of a task that ended.
pub fn finish_outcome(outcome: &Outcome, json: bool, interrupted: bool) -> (r: Printed)
    ensures
        r@ == ending(outcome@, json, interrupted),
        json ==> r@.out.len() == 1 && reads_back(r@.out[0], outcome_json(outcome@)),
{
    let code: i32 = if interrupted {
        130
    } else {
        exit_code_for_status(outcome.status.as_str())
    };
    let mut out: Vec<String> = Vec::new();
    if json {
        out.push(render_pretty(&outcome_to_json(outcome)));
        let err: Vec<String> = Vec::new();
        assert(views(out@) =~= seq![pretty(outcome_json(outcome@))]);
        assert(views(err@) =~= Seq::empty());
        return Printed { out, err, code };
    }
    out.push(outcome.final_answer.clone());
    assert(views(out@) =~= seq![outcome@.final_answer]);
    let mut err = lines_of_todos(&outcome.todos);
    let ghost listed = views(err@);
    if same_text(outcome.status.as_str(), "interrupted") {
        err.push("".to_string());
        err.push(glue("interrupted. ", outcome.final_answer.as_str()));
        assert(views(err@) =~= listed + seq![""@, "interrupted. "@ + outcome@.final_answer]);
    } else {
        assert(views(err@) =~= listed + Seq::empty());
    }
    Printed { out, err, code }
}

/// What is said where a task is resumed.
pub fn resume_line(task_id: &str, turn: u32, max: u32) -> (r: String)
    ensures
        r@ == "[resume] task "@ + task_id@ + " at turn "@ + decimal(turn as nat) + "/"@ + decimal(
            max as nat,
        ),
{
    let mut out = glue3("[resume] task ", task_id, " at turn ");
    push_decimal(&mut out, turn as u64);
    out.append("/");
    push_decimal(&mut out, max as u64);
    out
}

/// A saved task as it is listed: its id, and what could be read of it.
#[derive(Debug)]
pub struct SavedTask {
    pub id: String,
    pub state: Option<TaskState>,
}

/// The line for one saved task.
pub open spec fn saved_line(id: Seq<char>, state: Option<TaskView>) -> Seq<char> {
    match state {
        Some(task) => id + "  turn "@ + decimal(task.turn_count as nat) + "/"@ + decimal(
            task.max_turns as nat,
        ) + "  "@ + task.task,
        None => id + "  (unreadable)"@,
    }
}

/// What a listed task says.
pub open spec fn listed_view(task: SavedTask) -> (Seq<char>, Option<TaskView>) {
    (
        task.id@,
        match task.state {
            Some(state) => Some(state@),
            None => None,
        },
    )
}

/// The lines for the saved tasks.
pub open spec fn saved_lines(tasks: Seq<SavedTask>) -> Seq<Seq<char>> {
    if tasks.len() == 0 {
        seq!["no saved tasks"@]
    } else {
        Seq::new(
            tasks.len(),
            |i: int| saved_line(listed_view(tasks[i]).0, listed_view(tasks[i]).1),
        )
    }
}

/// The line for one saved task.
fn line_of_task(task: &SavedTask) -> (r: String)
    ensures
        r@ == saved_line(listed_view(*task).0, listed_view(*task).1),
{
    let mut out = task.id.clone();
    match &task.state {
        Some(state) => {
            out.append("  turn ");
            push_decimal(&mut out, state.turn_count as u64);
            out.append("/");
            push_decimal(&mut out, state.max_turns as u64);
            out.append("  ");
            out.append(state.task.as_str());
        },
        None => {
            out.append("  (unreadable)");
        },
    }
    out
}

/// The lines for the saved tasks.
pub fn task_lines(tasks: &Vec<SavedTask>) -> (r: Vec<String>)
    ensures
        views(r@) == saved_lines(tasks@),
{
    let mut out: Vec<String> = Vec::new();
    if tasks.len() == 0 {
        out.push("no saved tasks".to_string());
        assert(views(out@) =~= saved_lines(tasks@));
        return out;
    }
    for i in 0..tasks.len()
        invariant
            out@.len() == i,
            forall|k: int|
                0 <= k < i ==> (#[trigger] out@[k])@ == saved_line(
                    listed_view(tasks@[k]).0,
                    listed_view(tasks@[k]).1,
                ),
    {
        out.push(line_of_task(&tasks[i]));
    }
    assert(views(out@) =~= saved_lines(tasks@));
    out
}

/// The saved tasks as JSON: of each its id, and what could be read of it or that nothing could.
pub open spec fn saved_json(id: Seq<char>, state: Option<TaskView>) -> JsonView {
    let entry = JsonView::empty().with("id"@, JsonView::Text(id));
    match state {
        Some(task) => entry.with("turn_count"@, JsonView::Number(decimal(task.turn_count as nat))).with(
            "max_turns"@,
            JsonView::Number(decimal(task.max_turns as nat)),
        ).with("task"@, JsonView::Text(task.task)),
        None => entry.with("unreadable"@, JsonView::Bool(true)),
    }
}

/// The envelope for the saved tasks.
pub open spec fn tasks_json(tasks: Seq<SavedTask>) -> JsonView {
    JsonView::empty().with(
        "tasks"@,
        JsonView::Array(
            Seq::new(
                tasks.len(),
                |i: int| saved_json(listed_view(tasks[i]).0, listed_view(tasks[i]).1),
            ),
        ),
    )
}

/// What is printed of the saved tasks: one envelope, or a line for each.
pub open spec fn tasks_printed(tasks: Seq<SavedTask>, json: bool) -> PrintedView {
    PrintedView {
        out: if json {
            seq![pretty(tasks_json(tasks))]
        } else {
            saved_lines(tasks)
        },
        err: Seq::empty(),
        code: 0,
    }
}

/// A saved task as JSON.
fn json_of_task(task: &SavedTask) -> (r: Json)
    ensures
        r@ == saved_json(listed_view(*task).0, listed_view(*task).1),
{
    let entry = Json::object().with("id", Json::text(task.id.as_str()));
    match &task.state {
        Some(state) => entry.with("turn_count", Json::count(state.turn_count as usize)).with(
            "max_turns",
            Json::count(state.max_turns as usize),
        ).with("task", Json::text(state.task.as_str())),
        None => entry.with("unreadable", Json::Bool(true)),
    }
}

/// Only lines on the usual output, for a command that did what it was asked.
fn all_well(out: Vec<String>) -> (r: Printed)
    ensures
        r@ == (PrintedView { out: views(out@), err: Seq::empty(), code: 0 }),
{
    let err: Vec<String> = Vec::new();
    assert(views(err@) =~= Seq::empty());
    Printed { out, err, code: 0 }
}

/// One value on the usual output, for a command that did what it was asked.
fn one_envelope(envelope: &Json) -> (r: Printed)
    ensures
        r@ == (PrintedView { out: seq![pretty(envelope@)], err: Seq::empty(), code: 0 }),
        reads_back(r@.out[0], envelope@),
{
    let mut out: Vec<String> = Vec::new();
    out.push(render_pretty(envelope));
    assert(views(out@) =~= seq![pretty(envelope@)]);
    all_well(out)
}

/// What is printed of the saved tasks.
pub fn print_tasks(tasks: &Vec<SavedTask>, json: bool) -> (r: Printed)
    ensures
        r@ == tasks_printed(tasks@, json),
        json ==> r@.out.len() == 1 && reads_back(r@.out[0], tasks_json(tasks@)),
{
    if !json {
        return all_well(task_lines(tasks));
    }
    let mut list: Vec<Json> = Vec::new();
    for i in 0..tasks.len()
        invariant
            list@.len() == i,
            forall|k: int|
                0 <= k < i ==> (#[trigger] list@[k])@ == saved_json(
                    listed_view(tasks@[k]).0,
                    listed_view(tasks@[k]).1,
                ),
    {
        list.push(json_of_task(&tasks[i]));
    }
    let array = Json::Array(list);
    assert(array@->Array_0 =~= Seq::new(
        tasks@.len(),
        |i: int| saved_json(listed_view(tasks@[i]).0, listed_view(tasks@[i]).1),
    ));
    one_envelope(&Json::object().with("tasks", array))
}

/// The envelope for the tools.
pub open spec fn tools_json(schemas: Seq<JsonView>) -> JsonView {
    JsonView::empty().with("tools"@, JsonView::Array(schemas))
}

/// What is printed of the tools: one envelope with their schemas, or some lines for each.
pub open spec fn tools_printed(schemas: Seq<JsonView>, json: bool) -> PrintedView {
    PrintedView {
        out: if json {
            seq![pretty(tools_json(schemas))]
        } else {
            tool_list(schemas)
        },
        err: Seq::empty(),
        code: 0,
    }
}

/// What is printed of the tools.
pub fn print_tools(schemas: Vec<Json>, json: bool) -> (r: Printed)
    ensures
        r@ == tools_printed(json_views(schemas@), json),
        json ==> r@.out.len() == 1 && reads_back(r@.out[0], tools_json(json_views(schemas@))),
{
    if !json {
        return all_well(tool_lines(&schemas));
    }
    let ghost all = json_views(schemas@);
    let array = Json::Array(schemas);
    assert(array@->Array_0 =~= all);
    one_envelope(&Json::object().with("tools", array))
}

/// A task that is resumed without other wishes goes on under the terms it was saved with, but for
/// where it runs and where the model's settings are.
pub proof fn law_resume_keeps_the_terms(
    command: Command,
    workdir: Seq<char>,
    saved: TaskView,
)
    requires
        command matches Command::Resume { yes, model, max_turns, .. } && !yes && model is None
            && max_turns is None,
    ensures
        terms(command, workdir, Some(saved)) matches Some(config) && config.task == saved.task
            && config.max_turns == saved.max_turns && config.auto_approve == saved.auto_approve
            && config.model == saved.model,
{
}

/// Approval that was given once stays given when the task is resumed.
pub proof fn law_resume_keeps_approval(command: Command, workdir: Seq<char>, saved: TaskView)
    requires
        command is Resume,
        saved.auto_approve,
    ensures
        terms(command, workdir, Some(saved)) matches Some(config) && config.auto_approve,
{
}

/// A new task that is not refused has something to do, a turn to do it in, and settings for the
/// model.
pub proof fn law_new_task_has_what_it_needs(
    command: Command,
    settings_exist: bool,
    workdir: Seq<char>,
)
    requires
        command is Run || command is Chat,
        refusal(command, settings_exist, None) is None,
    ensures
        terms(command, workdir, None) matches Some(config) && trimmed(config.task).len() > 0
            && config.max_turns >= 1,
        settings_exist,
{
}

/// No command takes a limit of no turns.
pub proof fn law_no_turns_are_refused(
    command: Command,
    settings_exist: bool,
    saved: Option<TaskView>,
)
    requires
        match command {
            Command::Run { max_turns, .. } => max_turns == 0,
            Command::Resume { max_turns, .. } => max_turns == Some(0u32),
            Command::Chat { max_turns, .. } => max_turns == 0,
            _ => false,
        },
    ensures
        refusal(command, settings_exist, saved) is Some,
{
}

}
