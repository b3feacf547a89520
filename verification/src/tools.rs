//! The tools: what a call asks for, and what its outcome is reported as.
//!
//! A call is first held against its arguments. It is answered at once where they do not do, where
//! the guard holds a command back, or where the todo list is all it is about; otherwise it becomes
//! an action on the world, whose outcome is then put into words.

use vstd::prelude::*;
use vstd::string::*;

use crate::json::{compact, print_number, render, Json, JsonView};
pub use crate::schemas::tool_schemas;
use crate::security::{destructive, explain, explanation, is_destructive};
use crate::text::{decimal, lowercase, push_decimal, same_text, views};
use crate::todo::{
    list_to_json, status_of, todo_views, todos_json, unknown_status, upsert, upserted, TodoItem,
    TodoStatus, TodoView,
};

verus! {

/// Under what terms tools run.
#[derive(Debug)]
pub struct ToolContext {
    pub auto_approve: bool,
    pub workdir: String,
}

/// What a tool call does to the world.
#[derive(Debug)]
pub enum ToolAction {
    Read { path: String },
    Write { path: String, content: String },
    Grep { pattern: String, path: String },
    Search { query: String },
    Exec { command: String, args: Vec<String>, workdir: String },
}

/// What an action says.
pub enum ActionView {
    Read { path: Seq<char> },
    Write { path: Seq<char>, content: Seq<char> },
    Grep { pattern: Seq<char>, path: Seq<char> },
    Search { query: Seq<char> },
    Exec { command: Seq<char>, args: Seq<Seq<char>>, workdir: Seq<char> },
}

impl View for ToolAction {
    type V = ActionView;

    open spec fn view(&self) -> ActionView {
        match self {
            ToolAction::Read { path } => ActionView::Read { path: path@ },
            ToolAction::Write { path, content } => ActionView::Write {
                path: path@,
                content: content@,
            },
            ToolAction::Grep { pattern, path } => ActionView::Grep {
                pattern: pattern@,
                path: path@,
            },
            ToolAction::Search { query } => ActionView::Search { query: query@ },
            ToolAction::Exec { command, args, workdir } => ActionView::Exec {
                command: command@,
                args: views(args@),
                workdir: workdir@,
            },
        }
    }
}

/// What becomes of a tool call: an answer at once, or an action.
#[derive(Debug)]
pub enum ToolStep {
    Answer(Json),
    Act(ToolAction),
}

/// What a step says.
pub enum StepView {
    Answer(JsonView),
    Act(ActionView),
}

impl View for ToolStep {
    type V = StepView;

    open spec fn view(&self) -> StepView {
        match self {
            ToolStep::Answer(j) => StepView::Answer(j@),
            ToolStep::Act(action) => StepView::Act(action@),
        }
    }
}

/// An error with the next step.
pub open spec fn error_with_fix(error: Seq<char>, fix: Seq<char>) -> JsonView {
    JsonView::empty().with("error"@, JsonView::Text(error)).with("fix"@, JsonView::Text(fix))
}

/// An error with the next step.
pub(crate) fn error_fix(error: &str, fix: &str) -> (r: Json)
    ensures
        r@ == error_with_fix(error@, fix@),
{
    Json::object().with("error", Json::text(error)).with("fix", Json::text(fix))
}

/// Two texts, one behind the other.
pub(crate) fn glue(a: &str, b: &str) -> (r: String)
    ensures
        r@ == a@ + b@,
{
    let mut out = a.to_string();
    out.append(b);
    out
}

/// Three texts, one behind the other.
pub(crate) fn glue3(a: &str, b: &str, c: &str) -> (r: String)
    ensures
        r@ == a@ + b@ + c@,
{
    let mut out = a.to_string();
    out.append(b);
    out.append(c);
    out
}

/// The name of a kind of value.
pub open spec fn kind_of(v: JsonView) -> Seq<char> {
    match v {
        JsonView::Null => "null"@,
        JsonView::Bool(_) => "bool"@,
        JsonView::Number(_) => "number"@,
        JsonView::Text(_) => "string"@,
        JsonView::Array(_) => "array"@,
        JsonView::Object(_) => "object"@,
    }
}

/// The name of a kind of value.
pub fn kind_name(v: &Json) -> (r: &'static str)
    ensures
        r@ == kind_of(v@),
{
    match v {
        Json::Null => "null",
        Json::Bool(_) => "bool",
        Json::Number(_) => "number",
        Json::Text(_) => "string",
        Json::Array(_) => "array",
        Json::Object(_) => "object",
    }
}

/// The complaint about an argument that is not there.
pub open spec fn missing_argument(key: Seq<char>) -> JsonView {
    error_with_fix(
        "missing required argument: '"@ + key + "'"@,
        "add \""@ + key + "\" to the arguments"@,
    )
}

/// A text among the arguments, or the complaint that it is not there or no text.
pub open spec fn wanted_text(args: JsonView, key: Seq<char>) -> Result<Seq<char>, JsonView> {
    match args.get(key) {
        Some(JsonView::Text(s)) => Ok(s),
        Some(v) => Err(
            error_with_fix(
                "'"@ + key + "' must be a string, got "@ + kind_of(v),
                "pass \""@ + key + "\": \"value\" in the arguments object"@,
            ),
        ),
        None => Err(missing_argument(key)),
    }
}

/// A list among the arguments, or the complaint that it is not there or no list.
pub open spec fn wanted_items(args: JsonView, key: Seq<char>) -> Result<Seq<JsonView>, JsonView> {
    match args.get(key) {
        Some(JsonView::Array(items)) => Ok(items),
        Some(_) => Err(
            error_with_fix(
                "'"@ + key + "' must be an array"@,
                "pass \""@ + key + "\": [...]"@,
            ),
        ),
        None => Err(missing_argument(key)),
    }
}

/// The complaint about an argument that is not there.
fn missing(key: &str) -> (r: Json)
    ensures
        r@ == missing_argument(key@),
{
    error_fix(
        glue3("missing required argument: '", key, "'").as_str(),
        glue3("add \"", key, "\" to the arguments").as_str(),
    )
}

/// A text among the arguments, or the complaint that it is not there or no text.
pub fn want_str(args: &Json, key: &str) -> (r: Result<String, Json>)
    ensures
        match wanted_text(args@, key@) {
            Ok(s) => r matches Ok(t) && t@ == s,
            Err(e) => r matches Err(j) && j@ == e,
        },
{
    match args.get(key) {
        Some(v) => match v {
            Json::Text(s) => Ok(s.clone()),
            other => {
                let mut error = glue3("'", key, "' must be a string, got ");
                error.append(kind_name(other));
                Err(
                    error_fix(
                        error.as_str(),
                        glue3("pass \"", key, "\": \"value\" in the arguments object").as_str(),
                    ),
                )
            },
        },
        None => Err(missing(key)),
    }
}

/// A list among the arguments, or the complaint that it is not there or no list.
pub fn want_arr<'a>(args: &'a Json, key: &str) -> (r: Result<&'a Vec<Json>, Json>)
    ensures
        match wanted_items(args@, key@) {
            Ok(items) => r matches Ok(list) && Seq::new(list@.len(), |i: int| list@[i]@) == items,
            Err(e) => r matches Err(j) && j@ == e,
        },
{
    match args.get(key) {
        Some(v) => match v.as_array() {
            Some(items) => Ok(items),
            None => Err(
                error_fix(
                    glue3("'", key, "' must be an array").as_str(),
                    glue3("pass \"", key, "\": [...]").as_str(),
                ),
            ),
        },
        None => Err(missing(key)),
    }
}

/// What a call of `read` becomes.
pub open spec fn read_step(args: JsonView) -> StepView {
    match wanted_text(args, "path"@) {
        Ok(path) => StepView::Act(ActionView::Read { path }),
        Err(e) => StepView::Answer(e),
    }
}

/// Takes a call of `read`: a file or a directory by its path.
pub fn tool_read(args: &Json) -> (r: ToolStep)
    ensures
        r@ == read_step(args@),
{
    match want_str(args, "path") {
        Ok(path) => ToolStep::Act(ToolAction::Read { path }),
        Err(e) => ToolStep::Answer(e),
    }
}

/// What a call of `write` becomes.
pub open spec fn write_step(args: JsonView) -> StepView {
    match wanted_text(args, "path"@) {
        Ok(path) => match wanted_text(args, "content"@) {
            Ok(content) => StepView::Act(ActionView::Write { path, content }),
            Err(e) => StepView::Answer(e),
        },
        Err(e) => StepView::Answer(e),
    }
}

/// Takes a call of `write`: a text into a file.
pub fn tool_write(args: &Json) -> (r: ToolStep)
    ensures
        r@ == write_step(args@),
{
    let path = match want_str(args, "path") {
        Ok(p) => p,
        Err(e) => return ToolStep::Answer(e),
    };
    match want_str(args, "content") {
        Ok(content) => ToolStep::Act(ToolAction::Write { path, content }),
        Err(e) => ToolStep::Answer(e),
    }
}

/// What a call of `grep` becomes.
pub open spec fn grep_step(args: JsonView) -> StepView {
    match wanted_text(args, "pattern"@) {
        Ok(pattern) => StepView::Act(
            ActionView::Grep {
                pattern,
                path: match args.text_at("path"@) {
                    Some(path) => path,
                    None => "."@,
                },
            },
        ),
        Err(e) => StepView::Answer(e),
    }
}

/// Takes a call of `grep`: a pattern below a path, by default the current directory.
pub fn tool_grep(args: &Json) -> (r: ToolStep)
    ensures
        r@ == grep_step(args@),
{
    let pattern = match want_str(args, "pattern") {
        Ok(p) => p,
        Err(e) => return ToolStep::Answer(e),
    };
    let path = match args.str_at("path") {
        Some(p) => p.to_string(),
        None => ".".to_string(),
    };
    ToolStep::Act(ToolAction::Grep { pattern, path })
}

/// What a call of `search` becomes.
pub open spec fn search_step(args: JsonView) -> StepView {
    match wanted_text(args, "query"@) {
        Ok(query) => StepView::Act(ActionView::Search { query }),
        Err(e) => StepView::Answer(e),
    }
}

/// Takes a call of `search`: a query to the web.
pub fn tool_search(args: &Json) -> (r: ToolStep)
    ensures
        r@ == search_step(args@),
{
    match want_str(args, "query") {
        Ok(query) => ToolStep::Act(ToolAction::Search { query }),
        Err(e) => ToolStep::Answer(e),
    }
}

/// The text that a value stands for as an argument of a command, where it is a text, a number or a
/// truth value.
pub open spec fn arg_text(v: JsonView) -> Option<Seq<char>> {
    match v {
        JsonView::Text(s) => Some(s),
        JsonView::Number(n) => Some(n),
        JsonView::Bool(b) => Some(
            if b {
                "true"@
            } else {
                "false"@
            },
        ),
        _ => None,
    }
}

/// The arguments that values stand for, or the first value that stands for none.
pub open spec fn arg_texts(items: Seq<JsonView>) -> Result<Seq<Seq<char>>, JsonView>
    decreases items.len(),
{
    if items.len() == 0 {
        Ok(Seq::empty())
    } else {
        match arg_texts(items.drop_last()) {
            Ok(texts) => match arg_text(items.last()) {
                Some(text) => Ok(texts.push(text)),
                None => Err(items.last()),
            },
            Err(v) => Err(v),
        }
    }
}

/// What is said of a command that the guard holds back.
pub open spec fn held_back(command: Seq<char>, args: Seq<Seq<char>>) -> JsonView {
    JsonView::empty().with("error"@, JsonView::Text(explanation(command, args))).with(
        "command"@,
        JsonView::Text(command),
    ).with(
        "args"@,
        JsonView::Array(Seq::new(args.len(), |i: int| JsonView::Text(args[i]))),
    ).with("blocked"@, JsonView::Bool(true)).with(
        "fix"@,
        JsonView::Text(
            "the user must allow destructive commands. tell the user to rerun with --yes, or do the operation yourself outside the agent"@,
        ),
    )
}

/// What becomes of a command once its arguments are read: held back where it is destructive and
/// nobody approved, run in the working directory otherwise.
pub open spec fn guarded(
    command: Seq<char>,
    args: Seq<Seq<char>>,
    auto_approve: bool,
    workdir: Seq<char>,
) -> StepView {
    if !auto_approve && destructive(command, args) {
        StepView::Answer(held_back(command, args))
    } else {
        StepView::Act(ActionView::Exec { command, args, workdir })
    }
}

/// What a call of `exec` becomes.
pub open spec fn exec_step(args: JsonView, auto_approve: bool, workdir: Seq<char>) -> StepView {
    match wanted_text(args, "command"@) {
        Ok(command) => match args.get("args"@) {
            Some(JsonView::Array(items)) => match arg_texts(items) {
                Ok(texts) => guarded(command, texts, auto_approve, workdir),
                Err(v) => StepView::Answer(
                    error_with_fix(
                        "each arg must be a string, number, or bool. got: "@ + compact(v),
                        "pass args as an array of strings"@,
                    ),
                ),
            },
            Some(_) => StepView::Answer(
                error_with_fix(
                    "'args' must be an array of strings"@,
                    "pass \"args\": [\"-la\"] or \"args\": []"@,
                ),
            ),
            None => guarded(command, Seq::empty(), auto_approve, workdir),
        },
        Err(e) => StepView::Answer(e),
    }
}

/// The first value that stands for no argument is where the reading stops.
proof fn lemma_arg_texts_stop(items: Seq<JsonView>, at: int)
    requires
        0 <= at < items.len(),
        arg_texts(items.take(at)) is Ok,
        arg_text(items[at]) is None,
    ensures
        arg_texts(items) == Err::<Seq<Seq<char>>, JsonView>(items[at]),
    decreases items.len() - at,
{
    lemma_arg_texts_stop_upto(items, at, items.len() as int);
    assert(items.take(items.len() as int) =~= items);
}

proof fn lemma_arg_texts_stop_upto(items: Seq<JsonView>, at: int, n: int)
    requires
        0 <= at < n <= items.len(),
        arg_texts(items.take(at)) is Ok,
        arg_text(items[at]) is None,
    ensures
        arg_texts(items.take(n)) == Err::<Seq<Seq<char>>, JsonView>(items[at]),
    decreases n - at,
{
    assert(items.take(n).drop_last() =~= items.take(n - 1));
    if n > at + 1 {
        lemma_arg_texts_stop_upto(items, at, n - 1);
    }
}

/// The arguments that values stand for, or the complaint about the first that stands for none.
fn command_args(items: &Vec<Json>) -> (r: Result<Vec<String>, Json>)
    ensures
        match arg_texts(Seq::new(items@.len(), |i: int| items@[i]@)) {
            Ok(texts) => r matches Ok(list) && views(list@) == texts,
            Err(v) => r matches Err(j) && j@ == error_with_fix(
                "each arg must be a string, number, or bool. got: "@ + compact(v),
                "pass args as an array of strings"@,
            ),
        },
{
    let mut out: Vec<String> = Vec::new();
    let ghost all = Seq::new(items@.len(), |i: int| items@[i]@);
    assert(arg_texts(all.take(0)) == Ok::<Seq<Seq<char>>, JsonView>(views(out@))) by {
        assert(views(out@) =~= Seq::empty());
    }
    for i in 0..items.len()
        invariant
            all == Seq::new(items@.len(), |i: int| items@[i]@),
            arg_texts(all.take(i as int)) == Ok::<Seq<Seq<char>>, JsonView>(views(out@)),
    {
        assert(all.take(i + 1).drop_last() =~= all.take(i as int));
        assert(all.take(i + 1).last() == items@[i as int]@);
        let ghost before = views(out@);
        let text = match &items[i] {
            Json::Text(s) => s.clone(),
            Json::Number(n) => print_number(n),
            Json::Bool(b) => if *b {
                "true".to_string()
            } else {
                "false".to_string()
            },
            other => {
                proof {
                    lemma_arg_texts_stop(all, i as int);
                }
                return Err(
                    error_fix(
                        glue(
                            "each arg must be a string, number, or bool. got: ",
                            render(other).as_str(),
                        ).as_str(),
                        "pass args as an array of strings",
                    ),
                );
            },
        };
        out.push(text);
        assert(views(out@) =~= before.push(text@));
    }
    assert(all.take(all.len() as int) =~= all);
    Ok(out)
}

/// Holds a command back where it is destructive and nobody approved.
pub fn guard(command: String, args: Vec<String>, ctx: &ToolContext) -> (r: ToolStep)
    ensures
        r@ == guarded(command@, views(args@), ctx.auto_approve, ctx.workdir@),
{
    if !ctx.auto_approve && is_destructive(command.as_str(), args.as_slice()) {
        let shown = Json::texts(&args);
        let ghost texts = views(args@);
        assert(shown@->Array_0 =~= Seq::new(texts.len(), |i: int| JsonView::Text(texts[i])));
        return ToolStep::Answer(
            Json::object().with(
                "error",
                Json::text(explain(command.as_str(), args.as_slice()).as_str()),
            ).with("command", Json::text(command.as_str())).with("args", shown).with(
                "blocked",
                Json::Bool(true),
            ).with(
                "fix",
                Json::text(
                    "the user must allow destructive commands. tell the user to rerun with --yes, or do the operation yourself outside the agent",
                ),
            ),
        );
    }
    ToolStep::Act(ToolAction::Exec { command, args, workdir: ctx.workdir.clone() })
}

/// Takes a call of `exec`: a command with its arguments, no shell in between.
pub fn tool_exec(args: &Json, ctx: &ToolContext) -> (r: ToolStep)
    ensures
        r@ == exec_step(args@, ctx.auto_approve, ctx.workdir@),
{
    let command = match want_str(args, "command") {
        Ok(c) => c,
        Err(e) => return ToolStep::Answer(e),
    };
    match args.get("args") {
        Some(v) => match v.as_array() {
            Some(items) => match command_args(items) {
                Ok(texts) => guard(command, texts, ctx),
                Err(e) => ToolStep::Answer(e),
            },
            None => ToolStep::Answer(
                error_fix(
                    "'args' must be an array of strings",
                    "pass \"args\": [\"-la\"] or \"args\": []",
                ),
            ),
        },
        None => {
            let none: Vec<String> = Vec::new();
            assert(views(none@) =~= Seq::empty());
            guard(command, none, ctx)
        },
    }
}

/// How the complaints about one item of a list begin.
pub open spec fn item_label(i: nat) -> Seq<char> {
    "items["@ + decimal(i) + "]"@
}

/// The todo item that a value of a list stands for, or the complaint about it.
pub open spec fn item_read(v: JsonView, i: nat) -> Result<TodoView, JsonView> {
    if !(v is Object) {
        Err(
            error_with_fix(
                item_label(i) + " is not an object"@,
                "each item must have id, content, and status"@,
            ),
        )
    } else {
        match v.text_at("id"@) {
            None => Err(
                error_with_fix(item_label(i) + " missing 'id'"@, "each item needs a string id"@),
            ),
            Some(id) => match v.text_at("content"@) {
                None => Err(
                    error_with_fix(
                        item_label(i) + " missing 'content'"@,
                        "each item needs a content string"@,
                    ),
                ),
                Some(content) => match v.text_at("status"@) {
                    None => Err(
                        error_with_fix(
                            item_label(i) + " missing 'status'"@,
                            "status must be pending, in_progress, completed, or blocked"@,
                        ),
                    ),
                    Some(word) => match status_of(lowercase(word)) {
                        None => Err(
                            error_with_fix(
                                item_label(i) + ": "@ + unknown_status(lowercase(word)),
                                "status must be pending, in_progress, completed, or blocked"@,
                            ),
                        ),
                        Some(status) => Ok(TodoView { id, content, status }),
                    },
                },
            },
        }
    }
}

/// The todo items that the values of a list stand for, or the complaint about the first that
/// stands for none.
pub open spec fn items_read(items: Seq<JsonView>) -> Result<Seq<TodoView>, JsonView>
    decreases items.len(),
{
    if items.len() == 0 {
        Ok(Seq::empty())
    } else {
        match items_read(items.drop_last()) {
            Ok(done) => match item_read(items.last(), (items.len() - 1) as nat) {
                Ok(item) => Ok(done.push(item)),
                Err(e) => Err(e),
            },
            Err(e) => Err(e),
        }
    }
}

/// The answer to an update of the todo list.
pub open spec fn updated_answer(before: nat, todos: Seq<TodoView>) -> JsonView {
    JsonView::empty().with("ok"@, JsonView::Bool(true)).with(
        "before_count"@,
        JsonView::Number(decimal(before)),
    ).with("after_count"@, JsonView::Number(decimal(todos.len()))).with("todos"@, todos_json(todos))
}

/// What a call of `todo_update` answers, and the todo list behind it. Where it complains, the list
/// stays as it was.
pub open spec fn todo_step(args: JsonView, todos: Seq<TodoView>) -> (JsonView, Seq<TodoView>) {
    match wanted_items(args, "items"@) {
        Ok(items) => match items_read(items) {
            Ok(updates) => (
                updated_answer(todos.len(), upserted(todos, updates)),
                upserted(todos, updates),
            ),
            Err(e) => (e, todos),
        },
        Err(e) => (e, todos),
    }
}

/// The first value that stands for no item is where the reading stops.
proof fn lemma_items_read_stop(items: Seq<JsonView>, at: int, n: int, e: JsonView)
    requires
        0 <= at < n <= items.len(),
        items_read(items.take(at)) is Ok,
        item_read(items[at], at as nat) == Err::<TodoView, JsonView>(e),
    ensures
        items_read(items.take(n)) == Err::<Seq<TodoView>, JsonView>(e),
    decreases n - at,
{
    assert(items.take(n).drop_last() =~= items.take(n - 1));
    if n > at + 1 {
        lemma_items_read_stop(items, at, n - 1, e);
    }
}

/// The todo item that a value of a list stands for, or the complaint about it.
fn read_item(v: &Json, i: usize) -> (r: Result<TodoItem, Json>)
    ensures
        match item_read(v@, i as nat) {
            Ok(item) => r matches Ok(t) && t@ == item,
            Err(e) => r matches Err(j) && j@ == e,
        },
{
    let mut label = "items[".to_string();
    push_decimal(&mut label, i as u64);
    label.append("]");
    if !v.is_object() {
        label.append(" is not an object");
        return Err(error_fix(label.as_str(), "each item must have id, content, and status"));
    }
    let id = match v.str_at("id") {
        Some(s) => s.to_string(),
        None => {
            label.append(" missing 'id'");
            return Err(error_fix(label.as_str(), "each item needs a string id"));
        },
    };
    let content = match v.str_at("content") {
        Some(s) => s.to_string(),
        None => {
            label.append(" missing 'content'");
            return Err(error_fix(label.as_str(), "each item needs a content string"));
        },
    };
    let word = match v.str_at("status") {
        Some(s) => s.to_string(),
        None => {
            label.append(" missing 'status'");
            return Err(
                error_fix(
                    label.as_str(),
                    "status must be pending, in_progress, completed, or blocked",
                ),
            );
        },
    };
    match TodoStatus::from_str(word.as_str()) {
        Ok(status) => Ok(TodoItem { id, content, status }),
        Err(e) => {
            label.append(": ");
            label.append(e.as_str());
            Err(
                error_fix(
                    label.as_str(),
                    "status must be pending, in_progress, completed, or blocked",
                ),
            )
        },
    }
}

/// The todo items that the values of a list stand for, or the complaint about the first that
/// stands for none.
fn read_items(items: &Vec<Json>) -> (r: Result<Vec<TodoItem>, Json>)
    ensures
        match items_read(Seq::new(items@.len(), |i: int| items@[i]@)) {
            Ok(all) => r matches Ok(list) && todo_views(list@) == all,
            Err(e) => r matches Err(j) && j@ == e,
        },
{
    let mut out: Vec<TodoItem> = Vec::new();
    let ghost all = Seq::new(items@.len(), |i: int| items@[i]@);
    assert(items_read(all.take(0)) == Ok::<Seq<TodoView>, JsonView>(todo_views(out@))) by {
        assert(todo_views(out@) =~= Seq::empty());
    }
    for i in 0..items.len()
        invariant
            all == Seq::new(items@.len(), |i: int| items@[i]@),
            items_read(all.take(i as int)) == Ok::<Seq<TodoView>, JsonView>(todo_views(out@)),
    {
        assert(all.take(i + 1).drop_last() =~= all.take(i as int));
        assert(all.take(i + 1).last() == items@[i as int]@);
        let ghost before = todo_views(out@);
        match read_item(&items[i], i) {
            Ok(item) => {
                out.push(item);
                assert(todo_views(out@) =~= before.push(item@));
            },
            Err(e) => {
                proof {
                    lemma_items_read_stop(all, i as int, all.len() as int, e@);
                    assert(all.take(all.len() as int) =~= all);
                }
                return Err(e);
            },
        }
    }
    assert(all.take(all.len() as int) =~= all);
    Ok(out)
}

/// Takes a call of `todo_update`: enters its items into the todo list.
pub fn tool_todo_update(args: &Json, todos: &mut Vec<TodoItem>) -> (r: Json)
    ensures
        (r@, todo_views(final(todos)@)) == todo_step(args@, todo_views(old(todos)@)),
{
    let items = match want_arr(args, "items") {
        Ok(items) => items,
        Err(e) => return e,
    };
    let updates = match read_items(items) {
        Ok(list) => list,
        Err(e) => return e,
    };
    let before: usize = todos.len();
    let after = upsert(todos.as_slice(), updates.as_slice());
    let answer = Json::object().with("ok", Json::Bool(true)).with(
        "before_count",
        Json::count(before),
    ).with("after_count", Json::count(after.len())).with("todos", list_to_json(after.as_slice()));
    *todos = after;
    answer
}

/// The names of the tools, in the order in which they are offered.
pub open spec fn tool_names() -> Seq<Seq<char>> {
    seq!["read"@, "write"@, "grep"@, "search"@, "exec"@, "todo_update"@, "finish"@]
}

/// The answer to a call of a tool that there is not.
pub open spec fn unknown_tool(name: Seq<char>) -> JsonView {
    JsonView::empty().with("error"@, JsonView::Text("unknown tool: "@ + name)).with(
        "available"@,
        JsonView::Array(Seq::new(tool_names().len(), |i: int| JsonView::Text(tool_names()[i]))),
    ).with("fix"@, JsonView::Text("call one of the available tools"@))
}

/// What becomes of a tool call, and the todo list behind it.
pub open spec fn call_step(
    name: Seq<char>,
    args: JsonView,
    auto_approve: bool,
    workdir: Seq<char>,
    todos: Seq<TodoView>,
) -> (StepView, Seq<TodoView>) {
    if name == "read"@ {
        (read_step(args), todos)
    } else if name == "write"@ {
        (write_step(args), todos)
    } else if name == "grep"@ {
        (grep_step(args), todos)
    } else if name == "search"@ {
        (search_step(args), todos)
    } else if name == "exec"@ {
        (exec_step(args, auto_approve, workdir), todos)
    } else if name == "todo_update"@ {
        (StepView::Answer(todo_step(args, todos).0), todo_step(args, todos).1)
    } else {
        (StepView::Answer(unknown_tool(name)), todos)
    }
}

/// The names of the tools.
fn names() -> (r: Vec<String>)
    ensures
        views(r@) == tool_names(),
{
    let mut out: Vec<String> = Vec::new();
    out.push("read".to_string());
    out.push("write".to_string());
    out.push("grep".to_string());
    out.push("search".to_string());
    out.push("exec".to_string());
    out.push("todo_update".to_string());
    out.push("finish".to_string());
    assert(views(out@) =~= tool_names());
    out
}

/// Takes a tool call by the tool's name.
pub fn run_tool(name: &str, args: &Json, ctx: &ToolContext, todos: &mut Vec<TodoItem>) -> (r:
    ToolStep)
    ensures
        (r@, todo_views(final(todos)@)) == call_step(
            name@,
            args@,
            ctx.auto_approve,
            ctx.workdir@,
            todo_views(old(todos)@),
        ),
{
    if same_text(name, "read") {
        tool_read(args)
    } else if same_text(name, "write") {
        tool_write(args)
    } else if same_text(name, "grep") {
        tool_grep(args)
    } else if same_text(name, "search") {
        tool_search(args)
    } else if same_text(name, "exec") {
        tool_exec(args, ctx)
    } else if same_text(name, "todo_update") {
        ToolStep::Answer(tool_todo_update(args, todos))
    } else {
        let available = names();
        let shown = Json::texts(&available);
        assert(shown@->Array_0 =~= Seq::new(
            tool_names().len(),
            |i: int| JsonView::Text(tool_names()[i]),
        )) by {
            assert(views(available@) == tool_names());
            assert forall|i: int| 0 <= i < available@.len() implies available@[i]@
                == tool_names()[i] by {
                assert(views(available@)[i] == available@[i]@);
            }
        }
        ToolStep::Answer(
            Json::object().with("error", Json::text(glue("unknown tool: ", name).as_str())).with(
                "available",
                shown,
            ).with("fix", Json::text("call one of the available tools")),
        )
    }
}

}
