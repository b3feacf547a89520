//! Messages and saved tasks as JSON, and read from it again.
//!
//! A reader ignores members that it does not know. A member that may be missing may also be null.

use vstd::prelude::*;
use vstd::string::*;

use crate::json::{is_plain, parse, parsed, pretty, print_number, render_pretty, Json, JsonView};
use crate::llm::{
    call_json, call_views, json_views, message_json, message_to_json, message_views, opt_call_views,
    opt_view, CallView, FunctionCall, Message, MessageView, ToolCall,
};
use crate::state::{TaskState, TaskView};
use crate::text::{decimal, law_decimal_reads_back, parse_unsigned, same_text, unsigned_of};
use crate::todo::{
    list_to_json, todo_json, todo_views, todos_json, TodoItem, TodoStatus, TodoView,
};
use crate::tools::glue3;

verus! {

/// The complaint about a member that is not there.
pub open spec fn missing_field(key: Seq<char>) -> Seq<char> {
    "missing field `"@ + key + "`"@
}

/// The complaint about a member that is of another kind than it must be.
pub open spec fn wrong_field(key: Seq<char>, wanted: Seq<char>) -> Seq<char> {
    "field `"@ + key + "` is not "@ + wanted
}

/// The text of that name.
pub open spec fn text_field(v: JsonView, key: Seq<char>) -> Result<Seq<char>, Seq<char>> {
    match v.get(key) {
        Some(JsonView::Text(s)) => Ok(s),
        Some(_) => Err(wrong_field(key, "a string"@)),
        None => Err(missing_field(key)),
    }
}

/// The text of that name, if there is one.
pub open spec fn optional_field(v: JsonView, key: Seq<char>) -> Result<
    Option<Seq<char>>,
    Seq<char>,
> {
    match v.get(key) {
        Some(JsonView::Text(s)) => Ok(Some(s)),
        Some(JsonView::Null) => Ok(None),
        Some(_) => Err(wrong_field(key, "a string"@)),
        None => Ok(None),
    }
}

/// The truth value of that name.
pub open spec fn flag_field(v: JsonView, key: Seq<char>) -> Result<bool, Seq<char>> {
    match v.get(key) {
        Some(JsonView::Bool(b)) => Ok(b),
        Some(_) => Err(wrong_field(key, "a boolean"@)),
        None => Err(missing_field(key)),
    }
}

/// The count of that name.
pub open spec fn count_field(v: JsonView, key: Seq<char>) -> Result<u32, Seq<char>> {
    match v.get(key) {
        Some(JsonView::Number(text)) => match unsigned_of(text) {
            Some(n) => if n <= u32::MAX {
                Ok(n as u32)
            } else {
                Err(wrong_field(key, "a count"@))
            },
            None => Err(wrong_field(key, "a count"@)),
        },
        Some(_) => Err(wrong_field(key, "a count"@)),
        None => Err(missing_field(key)),
    }
}

/// The list of that name.
pub open spec fn list_field(v: JsonView, key: Seq<char>) -> Result<Seq<JsonView>, Seq<char>> {
    match v.get(key) {
        Some(JsonView::Array(items)) => Ok(items),
        Some(_) => Err(wrong_field(key, "an array"@)),
        None => Err(missing_field(key)),
    }
}

/// The complaint about a member that is not there.
fn say_missing(key: &str) -> (r: String)
    ensures
        r@ == missing_field(key@),
{
    glue3("missing field `", key, "`")
}

/// The complaint about a member that is of another kind than it must be.
fn say_wrong(key: &str, wanted: &str) -> (r: String)
    ensures
        r@ == wrong_field(key@, wanted@),
{
    let mut out = glue3("field `", key, "` is not ");
    out.append(wanted);
    out
}

/// The text of that name.
pub fn read_text(v: &Json, key: &str) -> (r: Result<String, String>)
    ensures
        match text_field(v@, key@) {
            Ok(s) => r matches Ok(t) && t@ == s,
            Err(why) => r matches Err(e) && e@ == why,
        },
{
    match v.get(key) {
        Some(inner) => match inner {
            Json::Text(s) => Ok(s.clone()),
            _ => Err(say_wrong(key, "a string")),
        },
        None => Err(say_missing(key)),
    }
}

/// The text of that name, if there is one.
pub fn read_optional(v: &Json, key: &str) -> (r: Result<Option<String>, String>)
    ensures
        match optional_field(v@, key@) {
            Ok(s) => r matches Ok(t) && opt_view(t) == s,
            Err(why) => r matches Err(e) && e@ == why,
        },
{
    match v.get(key) {
        Some(inner) => match inner {
            Json::Text(s) => Ok(Some(s.clone())),
            Json::Null => Ok(None),
            _ => Err(say_wrong(key, "a string")),
        },
        None => Ok(None),
    }
}

/// The truth value of that name.
pub fn read_flag(v: &Json, key: &str) -> (r: Result<bool, String>)
    ensures
        match flag_field(v@, key@) {
            Ok(b) => r == Ok::<bool, String>(b),
            Err(why) => r matches Err(e) && e@ == why,
        },
{
    match v.get(key) {
        Some(inner) => match inner {
            Json::Bool(b) => Ok(*b),
            _ => Err(say_wrong(key, "a boolean")),
        },
        None => Err(say_missing(key)),
    }
}

/// The count of that name.
pub fn read_count(v: &Json, key: &str) -> (r: Result<u32, String>)
    ensures
        match count_field(v@, key@) {
            Ok(n) => r == Ok::<u32, String>(n),
            Err(why) => r matches Err(e) && e@ == why,
        },
{
    match v.get(key) {
        Some(inner) => match inner {
            Json::Number(n) => match parse_unsigned(print_number(n).as_str()) {
                Some(count) => if count <= u32::MAX as u64 {
                    Ok(count as u32)
                } else {
                    Err(say_wrong(key, "a count"))
                },
                None => Err(say_wrong(key, "a count")),
            },
            _ => Err(say_wrong(key, "a count")),
        },
        None => Err(say_missing(key)),
    }
}

/// The list of that name.
pub fn read_list<'a>(v: &'a Json, key: &str) -> (r: Result<&'a Vec<Json>, String>)
    ensures
        match list_field(v@, key@) {
            Ok(items) => r matches Ok(list) && json_views(list@) == items,
            Err(why) => r matches Err(e) && e@ == why,
        },
{
    match v.get(key) {
        Some(inner) => match inner.as_array() {
            Some(items) => {
                assert(json_views(items@) =~= inner@->Array_0);
                Ok(items)
            },
            None => Err(say_wrong(key, "an array")),
        },
        None => Err(say_missing(key)),
    }
}

/// The tool call that a value stands for.
pub open spec fn call_read(v: JsonView) -> Result<CallView, Seq<char>> {
    let id = text_field(v, "id"@);
    let call_type = text_field(v, "type"@);
    match v.get("function"@) {
        None => if id is Err {
            Err(id->Err_0)
        } else if call_type is Err {
            Err(call_type->Err_0)
        } else {
            Err(missing_field("function"@))
        },
        Some(function) => {
            let name = text_field(function, "name"@);
            let arguments = text_field(function, "arguments"@);
            if id is Err {
                Err(id->Err_0)
            } else if call_type is Err {
                Err(call_type->Err_0)
            } else if name is Err {
                Err(name->Err_0)
            } else if arguments is Err {
                Err(arguments->Err_0)
            } else {
                Ok(
                    CallView {
                        id: id->Ok_0,
                        call_type: call_type->Ok_0,
                        name: name->Ok_0,
                        arguments: arguments->Ok_0,
                    },
                )
            }
        },
    }
}

/// The tool calls that the values of a list stand for, or the complaint about the first that stands
/// for none.
pub open spec fn calls_read(items: Seq<JsonView>) -> Result<Seq<CallView>, Seq<char>>
    decreases items.len(),
{
    if items.len() == 0 {
        Ok(Seq::empty())
    } else {
        match calls_read(items.drop_last()) {
            Ok(done) => match call_read(items.last()) {
                Ok(call) => Ok(done.push(call)),
                Err(why) => Err(why),
            },
            Err(why) => Err(why),
        }
    }
}

/// The tool calls of a message, if it has a list of them.
pub open spec fn tool_calls_read(v: JsonView) -> Result<Option<Seq<CallView>>, Seq<char>> {
    match v.get("tool_calls"@) {
        Some(JsonView::Array(items)) => match calls_read(items) {
            Ok(calls) => Ok(Some(calls)),
            Err(why) => Err(why),
        },
        Some(JsonView::Null) => Ok(None),
        Some(_) => Err(wrong_field("tool_calls"@, "an array"@)),
        None => Ok(None),
    }
}

/// The message that a value stands for.
pub open spec fn message_read(v: JsonView) -> Result<MessageView, Seq<char>> {
    let role = text_field(v, "role"@);
    let content = optional_field(v, "content"@);
    let tool_calls = tool_calls_read(v);
    let tool_call_id = optional_field(v, "tool_call_id"@);
    if role is Err {
        Err(role->Err_0)
    } else if content is Err {
        Err(content->Err_0)
    } else if tool_calls is Err {
        Err(tool_calls->Err_0)
    } else if tool_call_id is Err {
        Err(tool_call_id->Err_0)
    } else {
        Ok(
            MessageView {
                role: role->Ok_0,
                content: content->Ok_0,
                tool_calls: tool_calls->Ok_0,
                tool_call_id: tool_call_id->Ok_0,
            },
        )
    }
}

/// The messages that the values of a list stand for, or the complaint about the first that stands
/// for none.
pub open spec fn messages_read(items: Seq<JsonView>) -> Result<Seq<MessageView>, Seq<char>>
    decreases items.len(),
{
    if items.len() == 0 {
        Ok(Seq::empty())
    } else {
        match messages_read(items.drop_last()) {
            Ok(done) => match message_read(items.last()) {
                Ok(message) => Ok(done.push(message)),
                Err(why) => Err(why),
            },
            Err(why) => Err(why),
        }
    }
}

/// The status that is stored under a word.
pub open spec fn stored_status(word: Seq<char>) -> Result<TodoStatus, Seq<char>> {
    if word == "pending"@ {
        Ok(TodoStatus::Pending)
    } else if word == "inprogress"@ {
        Ok(TodoStatus::InProgress)
    } else if word == "completed"@ {
        Ok(TodoStatus::Completed)
    } else if word == "blocked"@ {
        Ok(TodoStatus::Blocked)
    } else {
        Err("unknown variant `"@ + word + "`"@)
    }
}

/// The item of a todo list that a value stands for.
pub open spec fn todo_read(v: JsonView) -> Result<TodoView, Seq<char>> {
    let id = text_field(v, "id"@);
    let content = text_field(v, "content"@);
    let word = text_field(v, "status"@);
    if id is Err {
        Err(id->Err_0)
    } else if content is Err {
        Err(content->Err_0)
    } else if word is Err {
        Err(word->Err_0)
    } else {
        match stored_status(word->Ok_0) {
            Ok(status) => Ok(TodoView { id: id->Ok_0, content: content->Ok_0, status }),
            Err(why) => Err(why),
        }
    }
}

/// The todo list that the values of a list stand for, or the complaint about the first that stands
/// for no item.
pub open spec fn todos_read(items: Seq<JsonView>) -> Result<Seq<TodoView>, Seq<char>>
    decreases items.len(),
{
    if items.len() == 0 {
        Ok(Seq::empty())
    } else {
        match todos_read(items.drop_last()) {
            Ok(done) => match todo_read(items.last()) {
                Ok(item) => Ok(done.push(item)),
                Err(why) => Err(why),
            },
            Err(why) => Err(why),
        }
    }
}

/// A task as it is saved.
pub open spec fn task_json(task: TaskView) -> JsonView {
    JsonView::empty().with("task_id"@, JsonView::Text(task.task_id)).with(
        "task"@,
        JsonView::Text(task.task),
    ).with(
        "messages"@,
        JsonView::Array(Seq::new(task.messages.len(), |i: int| message_json(task.messages[i]))),
    ).with("todos"@, todos_json(task.todos)).with(
        "turn_count"@,
        JsonView::Number(decimal(task.turn_count as nat)),
    ).with("max_turns"@, JsonView::Number(decimal(task.max_turns as nat))).with(
        "model"@,
        match task.model {
            Some(model) => JsonView::Text(model),
            None => JsonView::Null,
        },
    ).with("config_path"@, JsonView::Text(task.config_path)).with(
        "auto_approve"@,
        JsonView::Bool(task.auto_approve),
    ).with("created_at"@, JsonView::Text(task.created_at)).with(
        "updated_at"@,
        JsonView::Text(task.updated_at),
    )
}

/// The messages of a saved task.
pub open spec fn task_messages(v: JsonView) -> Result<Seq<MessageView>, Seq<char>> {
    match list_field(v, "messages"@) {
        Ok(items) => messages_read(items),
        Err(why) => Err(why),
    }
}

/// The todo list of a saved task.
pub open spec fn task_todos(v: JsonView) -> Result<Seq<TodoView>, Seq<char>> {
    match list_field(v, "todos"@) {
        Ok(items) => todos_read(items),
        Err(why) => Err(why),
    }
}

/// The task that a value stands for.
pub open spec fn task_read(v: JsonView) -> Result<TaskView, Seq<char>> {
    let task_id = text_field(v, "task_id"@);
    let task = text_field(v, "task"@);
    let messages = task_messages(v);
    let todos = task_todos(v);
    let turn_count = count_field(v, "turn_count"@);
    let max_turns = count_field(v, "max_turns"@);
    let model = optional_field(v, "model"@);
    let config_path = text_field(v, "config_path"@);
    let auto_approve = flag_field(v, "auto_approve"@);
    let created_at = text_field(v, "created_at"@);
    let updated_at = text_field(v, "updated_at"@);
    if task_id is Err {
        Err(task_id->Err_0)
    } else if task is Err {
        Err(task->Err_0)
    } else if messages is Err {
        Err(messages->Err_0)
    } else if todos is Err {
        Err(todos->Err_0)
    } else if turn_count is Err {
        Err(turn_count->Err_0)
    } else if max_turns is Err {
        Err(max_turns->Err_0)
    } else if model is Err {
        Err(model->Err_0)
    } else if config_path is Err {
        Err(config_path->Err_0)
    } else if auto_approve is Err {
        Err(auto_approve->Err_0)
    } else if created_at is Err {
        Err(created_at->Err_0)
    } else if updated_at is Err {
        Err(updated_at->Err_0)
    } else {
        Ok(
            TaskView {
                task_id: task_id->Ok_0,
                task: task->Ok_0,
                messages: messages->Ok_0,
                todos: todos->Ok_0,
                turn_count: turn_count->Ok_0,
                max_turns: max_turns->Ok_0,
                model: model->Ok_0,
                config_path: config_path->Ok_0,
                auto_approve: auto_approve->Ok_0,
                created_at: created_at->Ok_0,
                updated_at: updated_at->Ok_0,
            },
        )
    }
}

/// The task that is saved as a text, or why it holds none.
pub open spec fn task_in(text: Seq<char>) -> Result<TaskView, Seq<char>> {
    match parsed(text) {
        Ok(v) => task_read(v),
        Err(why) => Err(why),
    }
}

/// The tool call that a value stands for.
pub fn call_from_json(v: &Json) -> (r: Result<ToolCall, String>)
    ensures
        match call_read(v@) {
            Ok(call) => r matches Ok(c) && c@ == call,
            Err(why) => r matches Err(e) && e@ == why,
        },
{
    let id = match read_text(v, "id") {
        Ok(s) => s,
        Err(e) => return Err(e),
    };
    let call_type = match read_text(v, "type") {
        Ok(s) => s,
        Err(e) => return Err(e),
    };
    let function = match v.get("function") {
        Some(f) => f,
        None => return Err(say_missing("function")),
    };
    let name = match read_text(function, "name") {
        Ok(s) => s,
        Err(e) => return Err(e),
    };
    let arguments = match read_text(function, "arguments") {
        Ok(s) => s,
        Err(e) => return Err(e),
    };
    Ok(ToolCall { id, call_type, function: FunctionCall { name, arguments } })
}

/// The first value that stands for no call is where the reading stops.
proof fn lemma_calls_read_stop(items: Seq<JsonView>, at: int, n: int, why: Seq<char>)
    requires
        0 <= at < n <= items.len(),
        calls_read(items.take(at)) is Ok,
        call_read(items[at]) == Err::<CallView, Seq<char>>(why),
    ensures
        calls_read(items.take(n)) == Err::<Seq<CallView>, Seq<char>>(why),
    decreases n - at,
{
    assert(items.take(n).drop_last() =~= items.take(n - 1));
    if n > at + 1 {
        lemma_calls_read_stop(items, at, n - 1, why);
    }
}

/// The tool calls that the values of a list stand for.
pub fn calls_from_json(items: &Vec<Json>) -> (r: Result<Vec<ToolCall>, String>)
    ensures
        match calls_read(json_views(items@)) {
            Ok(calls) => r matches Ok(list) && call_views(list@) == calls,
            Err(why) => r matches Err(e) && e@ == why,
        },
{
    let ghost all = json_views(items@);
    let mut out: Vec<ToolCall> = Vec::new();
    assert(call_views(out@) =~= Seq::empty());
    assert(calls_read(all.take(0)) == Ok::<Seq<CallView>, Seq<char>>(call_views(out@)));
    for i in 0..items.len()
        invariant
            all == json_views(items@),
            calls_read(all.take(i as int)) == Ok::<Seq<CallView>, Seq<char>>(call_views(out@)),
    {
        assert(all.take(i + 1).drop_last() =~= all.take(i as int));
        let ghost before = call_views(out@);
        match call_from_json(&items[i]) {
            Ok(call) => {
                out.push(call);
                assert(call_views(out@) =~= before.push(call@));
            },
            Err(e) => {
                proof {
                    lemma_calls_read_stop(all, i as int, all.len() as int, e@);
                    assert(all.take(all.len() as int) =~= all);
                }
                return Err(e);
            },
        }
    }
    assert(all.take(all.len() as int) =~= all);
    Ok(out)
}

/// The tool calls of a message, if it has a list of them.
fn read_tool_calls(v: &Json) -> (r: Result<Option<Vec<ToolCall>>, String>)
    ensures
        match tool_calls_read(v@) {
            Ok(calls) => r matches Ok(list) && opt_call_views(list) == calls,
            Err(why) => r matches Err(e) && e@ == why,
        },
{
    match v.get("tool_calls") {
        Some(inner) => match inner {
            Json::Array(items) => {
                assert(json_views(items@) =~= inner@->Array_0);
                match calls_from_json(items) {
                    Ok(calls) => Ok(Some(calls)),
                    Err(e) => Err(e),
                }
            },
            Json::Null => Ok(None),
            _ => Err(say_wrong("tool_calls", "an array")),
        },
        None => Ok(None),
    }
}

/// The message that a value stands for.
pub fn message_from_json(v: &Json) -> (r: Result<Message, String>)
    ensures
        match message_read(v@) {
            Ok(message) => r matches Ok(m) && m@ == message,
            Err(why) => r matches Err(e) && e@ == why,
        },
{
    let role = match read_text(v, "role") {
        Ok(s) => s,
        Err(e) => return Err(e),
    };
    let content = match read_optional(v, "content") {
        Ok(s) => s,
        Err(e) => return Err(e),
    };
    let tool_calls = match read_tool_calls(v) {
        Ok(calls) => calls,
        Err(e) => return Err(e),
    };
    let tool_call_id = match read_optional(v, "tool_call_id") {
        Ok(s) => s,
        Err(e) => return Err(e),
    };
    Ok(Message { role, content, tool_calls, tool_call_id })
}

/// The first value that stands for no message is where the reading stops.
proof fn lemma_messages_read_stop(items: Seq<JsonView>, at: int, n: int, why: Seq<char>)
    requires
        0 <= at < n <= items.len(),
        messages_read(items.take(at)) is Ok,
        message_read(items[at]) == Err::<MessageView, Seq<char>>(why),
    ensures
        messages_read(items.take(n)) == Err::<Seq<MessageView>, Seq<char>>(why),
    decreases n - at,
{
    assert(items.take(n).drop_last() =~= items.take(n - 1));
    if n > at + 1 {
        lemma_messages_read_stop(items, at, n - 1, why);
    }
}

/// The messages that the values of a list stand for.
pub fn messages_from_json(items: &Vec<Json>) -> (r: Result<Vec<Message>, String>)
    ensures
        match messages_read(json_views(items@)) {
            Ok(messages) => r matches Ok(list) && message_views(list@) == messages,
            Err(why) => r matches Err(e) && e@ == why,
        },
{
    let ghost all = json_views(items@);
    let mut out: Vec<Message> = Vec::new();
    assert(message_views(out@) =~= Seq::empty());
    assert(messages_read(all.take(0)) == Ok::<Seq<MessageView>, Seq<char>>(message_views(out@)));
    for i in 0..items.len()
        invariant
            all == json_views(items@),
            messages_read(all.take(i as int)) == Ok::<Seq<MessageView>, Seq<char>>(
                message_views(out@),
            ),
    {
        assert(all.take(i + 1).drop_last() =~= all.take(i as int));
        let ghost before = message_views(out@);
        match message_from_json(&items[i]) {
            Ok(message) => {
                out.push(message);
                assert(message_views(out@) =~= before.push(message@));
            },
            Err(e) => {
                proof {
                    lemma_messages_read_stop(all, i as int, all.len() as int, e@);
                    assert(all.take(all.len() as int) =~= all);
                }
                return Err(e);
            },
        }
    }
    assert(all.take(all.len() as int) =~= all);
    Ok(out)
}

/// The status that is stored under a word.
pub fn status_from_stored(word: &str) -> (r: Result<TodoStatus, String>)
    ensures
        match stored_status(word@) {
            Ok(status) => r == Ok::<TodoStatus, String>(status),
            Err(why) => r matches Err(e) && e@ == why,
        },
{
    if same_text(word, "pending") {
        Ok(TodoStatus::Pending)
    } else if same_text(word, "inprogress") {
        Ok(TodoStatus::InProgress)
    } else if same_text(word, "completed") {
        Ok(TodoStatus::Completed)
    } else if same_text(word, "blocked") {
        Ok(TodoStatus::Blocked)
    } else {
        Err(glue3("unknown variant `", word, "`"))
    }
}

/// The item of a todo list that a value stands for.
pub fn todo_from_json(v: &Json) -> (r: Result<TodoItem, String>)
    ensures
        match todo_read(v@) {
            Ok(item) => r matches Ok(t) && t@ == item,
            Err(why) => r matches Err(e) && e@ == why,
        },
{
    let id = match read_text(v, "id") {
        Ok(s) => s,
        Err(e) => return Err(e),
    };
    let content = match read_text(v, "content") {
        Ok(s) => s,
        Err(e) => return Err(e),
    };
    let word = match read_text(v, "status") {
        Ok(s) => s,
        Err(e) => return Err(e),
    };
    match status_from_stored(word.as_str()) {
        Ok(status) => Ok(TodoItem { id, content, status }),
        Err(e) => Err(e),
    }
}

/// The first value that stands for no item is where the reading stops.
proof fn lemma_todos_read_stop(items: Seq<JsonView>, at: int, n: int, why: Seq<char>)
    requires
        0 <= at < n <= items.len(),
        todos_read(items.take(at)) is Ok,
        todo_read(items[at]) == Err::<TodoView, Seq<char>>(why),
    ensures
        todos_read(items.take(n)) == Err::<Seq<TodoView>, Seq<char>>(why),
    decreases n - at,
{
    assert(items.take(n).drop_last() =~= items.take(n - 1));
    if n > at + 1 {
        lemma_todos_read_stop(items, at, n - 1, why);
    }
}

/// The todo list that the values of a list stand for.
pub fn todos_from_json(items: &Vec<Json>) -> (r: Result<Vec<TodoItem>, String>)
    ensures
        match todos_read(json_views(items@)) {
            Ok(todos) => r matches Ok(list) && todo_views(list@) == todos,
            Err(why) => r matches Err(e) && e@ == why,
        },
{
    let ghost all = json_views(items@);
    let mut out: Vec<TodoItem> = Vec::new();
    assert(todo_views(out@) =~= Seq::empty());
    assert(todos_read(all.take(0)) == Ok::<Seq<TodoView>, Seq<char>>(todo_views(out@)));
    for i in 0..items.len()
        invariant
            all == json_views(items@),
            todos_read(all.take(i as int)) == Ok::<Seq<TodoView>, Seq<char>>(todo_views(out@)),
    {
        assert(all.take(i + 1).drop_last() =~= all.take(i as int));
        let ghost before = todo_views(out@);
        match todo_from_json(&items[i]) {
            Ok(item) => {
                out.push(item);
                assert(todo_views(out@) =~= before.push(item@));
            },
            Err(e) => {
                proof {
                    lemma_todos_read_stop(all, i as int, all.len() as int, e@);
                    assert(all.take(all.len() as int) =~= all);
                }
                return Err(e);
            },
        }
    }
    assert(all.take(all.len() as int) =~= all);
    Ok(out)
}

/// A task as it is saved.
pub fn task_to_json(task: &TaskState) -> (r: Json)
    ensures
        r@ == task_json(task@),
{
    let mut list: Vec<Json> = Vec::new();
    for i in 0..task.messages.len()
        invariant
            list@.len() == i,
            forall|k: int|
                0 <= k < i ==> (#[trigger] list@[k])@ == message_json(task.messages@[k]@),
    {
        list.push(message_to_json(&task.messages[i]));
    }
    let messages = Json::Array(list);
    let ghost said = message_views(task.messages@);
    assert(messages@->Array_0 =~= Seq::new(said.len(), |i: int| message_json(said[i])));
    let model = match &task.model {
        Some(model) => Json::text(model.as_str()),
        None => Json::Null,
    };
    Json::object().with("task_id", Json::text(task.task_id.as_str())).with(
        "task",
        Json::text(task.task.as_str()),
    ).with("messages", messages).with("todos", list_to_json(task.todos.as_slice())).with(
        "turn_count",
        Json::count(task.turn_count as usize),
    ).with("max_turns", Json::count(task.max_turns as usize)).with("model", model).with(
        "config_path",
        Json::text(task.config_path.as_str()),
    ).with("auto_approve", Json::Bool(task.auto_approve)).with(
        "created_at",
        Json::text(task.created_at.as_str()),
    ).with("updated_at", Json::text(task.updated_at.as_str()))
}

/// The task that a value stands for.
pub fn task_from_json(v: &Json) -> (r: Result<TaskState, String>)
    ensures
        match task_read(v@) {
            Ok(task) => r matches Ok(t) && t@ == task,
            Err(why) => r matches Err(e) && e@ == why,
        },
{
    let task_id = match read_text(v, "task_id") {
        Ok(s) => s,
        Err(e) => return Err(e),
    };
    let task = match read_text(v, "task") {
        Ok(s) => s,
        Err(e) => return Err(e),
    };
    let message_items = match read_list(v, "messages") {
        Ok(items) => items,
        Err(e) => return Err(e),
    };
    let messages = match messages_from_json(message_items) {
        Ok(list) => list,
        Err(e) => return Err(e),
    };
    let todo_items = match read_list(v, "todos") {
        Ok(items) => items,
        Err(e) => return Err(e),
    };
    let todos = match todos_from_json(todo_items) {
        Ok(list) => list,
        Err(e) => return Err(e),
    };
    let turn_count = match read_count(v, "turn_count") {
        Ok(n) => n,
        Err(e) => return Err(e),
    };
    let max_turns = match read_count(v, "max_turns") {
        Ok(n) => n,
        Err(e) => return Err(e),
    };
    let model = match read_optional(v, "model") {
        Ok(s) => s,
        Err(e) => return Err(e),
    };
    let config_path = match read_text(v, "config_path") {
        Ok(s) => s,
        Err(e) => return Err(e),
    };
    let auto_approve = match read_flag(v, "auto_approve") {
        Ok(b) => b,
        Err(e) => return Err(e),
    };
    let created_at = match read_text(v, "created_at") {
        Ok(s) => s,
        Err(e) => return Err(e),
    };
    let updated_at = match read_text(v, "updated_at") {
        Ok(s) => s,
        Err(e) => return Err(e),
    };
    Ok(
        TaskState {
            task_id,
            task,
            messages,
            todos,
            turn_count,
            max_turns,
            model,
            config_path,
            auto_approve,
            created_at,
            updated_at,
        },
    )
}

/// The text as which a task is saved. The task can be read from it again, as it was.
pub fn task_text(task: &TaskState) -> (r: String)
    ensures
        r@ == pretty(task_json(task@)),
        task_in(r@) == Ok::<TaskView, Seq<char>>(task@),
{
    let v = task_to_json(task);
    proof {
        lemma_task_is_plain(task@);
        law_saved_task_reads_back(task@);
    }
    render_pretty(&v)
}

/// The task that is saved as a text, or why it holds none.
pub fn task_from_text(text: &str) -> (r: Result<TaskState, String>)
    ensures
        match task_in(text@) {
            Ok(task) => r matches Ok(t) && t@ == task,
            Err(why) => r matches Err(e) && e@ == why,
        },
{
    match parse(text) {
        Ok(v) => task_from_json(&v),
        Err(e) => Err(e),
    }
}

/// A tool call is read back as it was.
pub proof fn law_call_reads_back(call: CallView)
    ensures
        call_read(call_json(call)) == Ok::<CallView, Seq<char>>(call),
{
    reveal_strlit("id");
    reveal_strlit("type");
    reveal_strlit("function");
    reveal_strlit("name");
    reveal_strlit("arguments");
    assert("id"@.len() == 2 && "type"@.len() == 4 && "function"@.len() == 8 && "name"@.len() == 4
        && "arguments"@.len() == 9);
}

proof fn lemma_calls_read_back(calls: Seq<CallView>)
    ensures
        calls_read(Seq::new(calls.len(), |i: int| call_json(calls[i]))) == Ok::<
            Seq<CallView>,
            Seq<char>,
        >(calls),
    decreases calls.len(),
{
    let items = Seq::new(calls.len(), |i: int| call_json(calls[i]));
    if calls.len() > 0 {
        let fewer = calls.drop_last();
        lemma_calls_read_back(fewer);
        law_call_reads_back(calls.last());
        assert(items.drop_last() =~= Seq::new(fewer.len(), |i: int| call_json(fewer[i])));
        assert(fewer.push(calls.last()) =~= calls);
    } else {
        assert(calls =~= Seq::empty());
    }
}

/// A message is read back as it was.
pub proof fn law_message_reads_back(message: MessageView)
    ensures
        message_read(message_json(message)) == Ok::<MessageView, Seq<char>>(message),
{
    reveal_strlit("role");
    reveal_strlit("content");
    reveal_strlit("tool_calls");
    reveal_strlit("tool_call_id");
    assert("role"@.len() == 4 && "content"@.len() == 7 && "tool_calls"@.len() == 10
        && "tool_call_id"@.len() == 12);
    if let Some(calls) = message.tool_calls {
        lemma_calls_read_back(calls);
    }
}

proof fn lemma_messages_read_back(messages: Seq<MessageView>)
    ensures
        messages_read(Seq::new(messages.len(), |i: int| message_json(messages[i]))) == Ok::<
            Seq<MessageView>,
            Seq<char>,
        >(messages),
    decreases messages.len(),
{
    let items = Seq::new(messages.len(), |i: int| message_json(messages[i]));
    if messages.len() > 0 {
        let fewer = messages.drop_last();
        lemma_messages_read_back(fewer);
        law_message_reads_back(messages.last());
        assert(items.drop_last() =~= Seq::new(fewer.len(), |i: int| message_json(fewer[i])));
        assert(fewer.push(messages.last()) =~= messages);
    } else {
        assert(messages =~= Seq::empty());
    }
}

/// An item of a todo list is read back as it was.
pub proof fn law_todo_reads_back(item: TodoView)
    ensures
        todo_read(todo_json(item)) == Ok::<TodoView, Seq<char>>(item),
{
    reveal_strlit("id");
    reveal_strlit("content");
    reveal_strlit("status");
    assert("id"@.len() == 2 && "content"@.len() == 7 && "status"@.len() == 6);
    reveal_strlit("pending");
    reveal_strlit("inprogress");
    reveal_strlit("completed");
    reveal_strlit("blocked");
    assert("pending"@.len() == 7 && "pending"@[0] == 'p' && "inprogress"@.len() == 10
        && "completed"@.len() == 9 && "blocked"@.len() == 7 && "blocked"@[0] == 'b');
}

proof fn lemma_todos_read_back(todos: Seq<TodoView>)
    ensures
        todos_read(Seq::new(todos.len(), |i: int| todo_json(todos[i]))) == Ok::<
            Seq<TodoView>,
            Seq<char>,
        >(todos),
    decreases todos.len(),
{
    let items = Seq::new(todos.len(), |i: int| todo_json(todos[i]));
    if todos.len() > 0 {
        let fewer = todos.drop_last();
        lemma_todos_read_back(fewer);
        law_todo_reads_back(todos.last());
        assert(items.drop_last() =~= Seq::new(fewer.len(), |i: int| todo_json(fewer[i])));
        assert(fewer.push(todos.last()) =~= todos);
    } else {
        assert(todos =~= Seq::empty());
    }
}

/// A count that is written in decimal is read back as itself.
proof fn lemma_count_reads_back(n: u32)
    ensures
        unsigned_of(decimal(n as nat)) == Some(n as u64),
{
    law_decimal_reads_back(n as nat);
    assert(decimal(n as nat)[0] != '+');
}

/// The names of a saved task's members differ.
proof fn lemma_task_names()
    ensures
        "task_id"@.len() == 7,
        "task"@.len() == 4,
        "messages"@.len() == 8,
        "todos"@.len() == 5 && "todos"@[0] == 't',
        "turn_count"@.len() == 10 && "turn_count"@[0] == 't',
        "max_turns"@.len() == 9,
        "model"@.len() == 5 && "model"@[0] == 'm',
        "config_path"@.len() == 11,
        "auto_approve"@.len() == 12,
        "created_at"@.len() == 10 && "created_at"@[0] == 'c',
        "updated_at"@.len() == 10 && "updated_at"@[0] == 'u',
{
    reveal_strlit("task_id");
    reveal_strlit("task");
    reveal_strlit("messages");
    reveal_strlit("todos");
    reveal_strlit("turn_count");
    reveal_strlit("max_turns");
    reveal_strlit("model");
    reveal_strlit("config_path");
    reveal_strlit("auto_approve");
    reveal_strlit("created_at");
    reveal_strlit("updated_at");
}

/// A saved task is read back as it was, in every part.
pub proof fn law_saved_task_reads_back(task: TaskView)
    ensures
        task_read(task_json(task)) == Ok::<TaskView, Seq<char>>(task),
{
    lemma_task_names();
    lemma_messages_read_back(task.messages);
    lemma_todos_read_back(task.todos);
    lemma_count_reads_back(task.turn_count);
    lemma_count_reads_back(task.max_turns);
}

proof fn lemma_message_is_plain(message: MessageView, depth: nat)
    requires
        depth >= 4,
    ensures
        is_plain(message_json(message), depth),
{
    reveal_with_fuel(is_plain, 5);
    if let Some(calls) = message.tool_calls {
        let items = Seq::new(calls.len(), |i: int| call_json(calls[i]));
        assert forall|i: int| 0 <= i < items.len() implies is_plain(
            #[trigger] items[i],
            (depth - 2) as nat,
        ) by {
            assert(items[i] == call_json(calls[i]));
        }
    }
}

/// A saved task holds no numbers but counts, and is not deeply nested.
proof fn lemma_task_is_plain(task: TaskView)
    ensures
        is_plain(task_json(task), 100),
{
    let messages = Seq::new(task.messages.len(), |i: int| message_json(task.messages[i]));
    assert forall|i: int| 0 <= i < messages.len() implies is_plain(#[trigger] messages[i], 98) by {
        lemma_message_is_plain(task.messages[i], 98);
    }
    assert(is_plain(JsonView::Array(messages), 99));
    let todos = Seq::new(task.todos.len(), |i: int| todo_json(task.todos[i]));
    assert forall|i: int| 0 <= i < todos.len() implies is_plain(#[trigger] todos[i], 98) by {
        reveal_with_fuel(is_plain, 2);
    }
    assert(is_plain(JsonView::Array(todos), 99));
    assert(is_plain(todos_json(task.todos), 99));
    reveal_with_fuel(is_plain, 2);
}

}
