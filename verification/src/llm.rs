//! Talking to the model: messages, the request, the reply, and what can go wrong.

use vstd::prelude::*;
use vstd::string::*;

use crate::json::{compact, parse, parsed, render, Json, JsonView};
use crate::paths::{join_path, path_below};
use crate::records::{message_from_json, message_read};
use crate::text::{
    decimal, join, joined, parse_unsigned, pieces, push_decimal, signed_decimal, signed_text, split,
    trim, trimmed, unsigned_of, views,
};

verus! {

/// What an optional text says.
pub open spec fn opt_view(s: Option<String>) -> Option<Seq<char>> {
    match s {
        Some(t) => Some(t@),
        None => None,
    }
}

/// A copy of an optional text.
pub fn copy_opt(s: &Option<String>) -> (r: Option<String>)
    ensures
        opt_view(r) == opt_view(*s),
{
    match s {
        Some(t) => Some(t.clone()),
        None => None,
    }
}

/// What a tool call says.
pub struct CallView {
    pub id: Seq<char>,
    pub call_type: Seq<char>,
    pub name: Seq<char>,
    pub arguments: Seq<char>,
}

/// The tool a model calls, with its arguments as JSON text.
#[derive(Debug)]
pub struct FunctionCall {
    pub name: String,
    pub arguments: String,
}

/// A tool call of the model.
#[derive(Debug)]
pub struct ToolCall {
    pub id: String,
    pub call_type: String,
    pub function: FunctionCall,
}

impl View for ToolCall {
    type V = CallView;

    open spec fn view(&self) -> CallView {
        CallView {
            id: self.id@,
            call_type: self.call_type@,
            name: self.function.name@,
            arguments: self.function.arguments@,
        }
    }
}

impl Clone for ToolCall {
    fn clone(&self) -> (r: ToolCall)
        ensures
            r@ == self@,
    {
        ToolCall {
            id: self.id.clone(),
            call_type: self.call_type.clone(),
            function: FunctionCall {
                name: self.function.name.clone(),
                arguments: self.function.arguments.clone(),
            },
        }
    }
}

/// What the calls of a list say.
pub open spec fn call_views(calls: Seq<ToolCall>) -> Seq<CallView> {
    Seq::new(calls.len(), |i: int| calls[i]@)
}

/// A copy of a list of calls.
pub fn copy_calls(calls: &Vec<ToolCall>) -> (r: Vec<ToolCall>)
    ensures
        call_views(r@) == call_views(calls@),
{
    let mut out: Vec<ToolCall> = Vec::new();
    for i in 0..calls.len()
        invariant
            out@.len() == i,
            forall|k: int| 0 <= k < i ==> (#[trigger] out@[k])@ == calls@[k]@,
    {
        out.push(calls[i].clone());
    }
    assert(call_views(out@) =~= call_views(calls@));
    out
}

/// What a message says.
pub struct MessageView {
    pub role: Seq<char>,
    pub content: Option<Seq<char>>,
    pub tool_calls: Option<Seq<CallView>>,
    pub tool_call_id: Option<Seq<char>>,
}

/// A message of the conversation.
#[derive(Debug)]
pub struct Message {
    pub role: String,
    pub content: Option<String>,
    pub tool_calls: Option<Vec<ToolCall>>,
    pub tool_call_id: Option<String>,
}

/// What an optional list of calls says.
pub open spec fn opt_call_views(calls: Option<Vec<ToolCall>>) -> Option<Seq<CallView>> {
    match calls {
        Some(c) => Some(call_views(c@)),
        None => None,
    }
}

impl View for Message {
    type V = MessageView;

    open spec fn view(&self) -> MessageView {
        MessageView {
            role: self.role@,
            content: opt_view(self.content),
            tool_calls: opt_call_views(self.tool_calls),
            tool_call_id: opt_view(self.tool_call_id),
        }
    }
}

impl Clone for Message {
    fn clone(&self) -> (r: Message)
        ensures
            r@ == self@,
    {
        Message {
            role: self.role.clone(),
            content: copy_opt(&self.content),
            tool_calls: match &self.tool_calls {
                Some(calls) => Some(copy_calls(calls)),
                None => None,
            },
            tool_call_id: copy_opt(&self.tool_call_id),
        }
    }
}

/// What the messages of a list say.
pub open spec fn message_views(messages: Seq<Message>) -> Seq<MessageView> {
    Seq::new(messages.len(), |i: int| messages[i]@)
}

/// A copy of a list of messages.
pub fn copy_messages(messages: &[Message]) -> (r: Vec<Message>)
    ensures
        message_views(r@) == message_views(messages@),
{
    let mut out: Vec<Message> = Vec::new();
    for i in 0..messages.len()
        invariant
            out@.len() == i,
            forall|k: int| 0 <= k < i ==> (#[trigger] out@[k])@ == messages@[k]@,
    {
        out.push(messages[i].clone());
    }
    assert(message_views(out@) =~= message_views(messages@));
    out
}

/// A message of the system.
pub open spec fn system_message(text: Seq<char>) -> MessageView {
    MessageView { role: "system"@, content: Some(text), tool_calls: None, tool_call_id: None }
}

/// A message of the user.
pub open spec fn user_message(text: Seq<char>) -> MessageView {
    MessageView { role: "user"@, content: Some(text), tool_calls: None, tool_call_id: None }
}

/// A message of the model.
pub open spec fn assistant_message(
    text: Option<Seq<char>>,
    calls: Option<Seq<CallView>>,
) -> MessageView {
    MessageView { role: "assistant"@, content: text, tool_calls: calls, tool_call_id: None }
}

/// The answer of a tool to a call.
pub open spec fn tool_message(call_id: Seq<char>, text: Seq<char>) -> MessageView {
    MessageView {
        role: "tool"@,
        content: Some(text),
        tool_calls: None,
        tool_call_id: Some(call_id),
    }
}

impl Message {
    /// A message of the system.
    pub fn system(text: &str) -> (r: Message)
        ensures
            r@ == system_message(text@),
    {
        Message {
            role: "system".to_string(),
            content: Some(text.to_string()),
            tool_calls: None,
            tool_call_id: None,
        }
    }

    /// A message of the user.
    pub fn user(text: &str) -> (r: Message)
        ensures
            r@ == user_message(text@),
    {
        Message {
            role: "user".to_string(),
            content: Some(text.to_string()),
            tool_calls: None,
            tool_call_id: None,
        }
    }

    /// A message of the model: text, tool calls, or both.
    pub fn assistant(text: Option<String>, tool_calls: Option<Vec<ToolCall>>) -> (r: Message)
        ensures
            r@ == assistant_message(opt_view(text), opt_call_views(tool_calls)),
    {
        Message { role: "assistant".to_string(), content: text, tool_calls, tool_call_id: None }
    }

    /// The answer of a tool to a call.
    pub fn tool_result(tool_call_id: &str, text: &str) -> (r: Message)
        ensures
            r@ == tool_message(tool_call_id@, text@),
    {
        Message {
            role: "tool".to_string(),
            content: Some(text.to_string()),
            tool_calls: None,
            tool_call_id: Some(tool_call_id.to_string()),
        }
    }
}

/// The arguments of a call, given what reading their text gave: nothing readable counts as no
/// arguments.
pub open spec fn arguments_read(read: Result<JsonView, Seq<char>>) -> JsonView {
    match read {
        Ok(v) => v,
        Err(_) => JsonView::empty(),
    }
}

/// The arguments that a text holds; the empty text holds none.
pub open spec fn arguments_of(text: Seq<char>) -> JsonView {
    if text.len() == 0 {
        JsonView::empty()
    } else {
        arguments_read(parsed(text))
    }
}

/// The arguments of a call, given what reading their text gave.
pub fn arguments_from(read: Result<Json, String>) -> (r: Json)
    ensures
        match read {
            Ok(v) => r@ == v@,
            Err(_) => r@ == JsonView::empty(),
        },
{
    match read {
        Ok(v) => v,
        Err(_) => Json::object(),
    }
}

impl ToolCall {
    /// The arguments of the call as a value. Where the text is empty or no JSON, the call has no
    /// arguments.
    pub fn arguments_value(&self) -> (r: Json)
        ensures
            r@ == arguments_of(self@.arguments),
    {
        if self.function.arguments.as_str().is_empty() {
            return Json::object();
        }
        arguments_from(parse(self.function.arguments.as_str()))
    }
}

/// What the model answered.
#[derive(Debug)]
pub struct LlmResponse {
    pub message: Message,
    pub finish_reason: String,
}

/// What kept the model from answering.
#[derive(Debug)]
pub enum LlmError {
    BinaryNotFound { searched: Vec<String> },
    Spawn(String),
    StdinWrite(String),
    StdoutRead(String),
    Timeout { secs: u64 },
    NonZeroExit { code: i32, stderr: String },
    BadJson(String),
    NoChoices,
}

/// An error in words, with the next step.
pub open spec fn error_message(e: LlmError) -> Seq<char> {
    match e {
        LlmError::BinaryNotFound { searched } => "llm-adapter not found. tried: "@ + joined(
            views(searched@),
            ", "@,
        )
            + ". install with: sheol pull edersonff/llm-adapter, then build and put the binary on your PATH, or set --llm-binary <path> or LLM_ADAPTER_BINARY=<path>"@,
        LlmError::Spawn(reason) => "could not start llm-adapter: "@ + reason@,
        LlmError::StdinWrite(reason) => "could not send request to llm-adapter: "@ + reason@,
        LlmError::StdoutRead(reason) => "could not read answer from llm-adapter: "@ + reason@,
        LlmError::Timeout { secs } => "llm-adapter did not answer within "@ + decimal(secs as nat)
            + "s, so the task stops here instead of inventing an answer. next steps: check the gateway the adapter config points at is up, then resume with: agentic resume <task-id>. raise the limit with AGENTIC_LLM_TIMEOUT_SECS if the model is just slow"@,
        LlmError::NonZeroExit { code, stderr } => "llm-adapter exited with code "@
            + signed_decimal(code as int) + ". stderr: "@ + trimmed(stderr@),
        LlmError::BadJson(reason) =>
            "llm-adapter returned something that is not valid openai json: "@ + reason@
            + ". this usually means the provider returned an error page or the config is wrong"@,
        LlmError::NoChoices =>
            "llm-adapter returned no choices. the model may have refused or the request was rejected"@,
    }
}

impl LlmError {
    /// The error in words, with the next step.
    pub fn human_message(&self) -> (r: String)
        ensures
            r@ == error_message(*self),
    {
        match self {
            LlmError::BinaryNotFound { searched } => {
                let mut out = "llm-adapter not found. tried: ".to_string();
                out.append(join(searched.as_slice(), ", ").as_str());
                out.append(
                    ". install with: sheol pull edersonff/llm-adapter, then build and put the binary on your PATH, or set --llm-binary <path> or LLM_ADAPTER_BINARY=<path>",
                );
                out
            },
            LlmError::Spawn(reason) => {
                let mut out = "could not start llm-adapter: ".to_string();
                out.append(reason.as_str());
                out
            },
            LlmError::StdinWrite(reason) => {
                let mut out = "could not send request to llm-adapter: ".to_string();
                out.append(reason.as_str());
                out
            },
            LlmError::StdoutRead(reason) => {
                let mut out = "could not read answer from llm-adapter: ".to_string();
                out.append(reason.as_str());
                out
            },
            LlmError::Timeout { secs } => {
                let mut out = "llm-adapter did not answer within ".to_string();
                push_decimal(&mut out, *secs);
                out.append(
                    "s, so the task stops here instead of inventing an answer. next steps: check the gateway the adapter config points at is up, then resume with: agentic resume <task-id>. raise the limit with AGENTIC_LLM_TIMEOUT_SECS if the model is just slow",
                );
                out
            },
            LlmError::NonZeroExit { code, stderr } => {
                let mut out = "llm-adapter exited with code ".to_string();
                out.append(signed_text(*code).as_str());
                out.append(". stderr: ");
                out.append(trim(stderr.as_str()).as_str());
                out
            },
            LlmError::BadJson(reason) => {
                let mut out =
                    "llm-adapter returned something that is not valid openai json: ".to_string();
                out.append(reason.as_str());
                out.append(
                    ". this usually means the provider returned an error page or the config is wrong",
                );
                out
            },
            LlmError::NoChoices => {
                "llm-adapter returned no choices. the model may have refused or the request was rejected".to_string()
            },
        }
    }
}

/// A tool call as JSON.
pub open spec fn call_json(call: CallView) -> JsonView {
    JsonView::empty().with("id"@, JsonView::Text(call.id)).with(
        "type"@,
        JsonView::Text(call.call_type),
    ).with(
        "function"@,
        JsonView::empty().with("name"@, JsonView::Text(call.name)).with(
            "arguments"@,
            JsonView::Text(call.arguments),
        ),
    )
}

/// A message as JSON; what the message does not have is left out.
pub open spec fn message_json(m: MessageView) -> JsonView {
    let role = JsonView::empty().with("role"@, JsonView::Text(m.role));
    let content = match m.content {
        Some(text) => role.with("content"@, JsonView::Text(text)),
        None => role,
    };
    let calls = match m.tool_calls {
        Some(calls) => content.with(
            "tool_calls"@,
            JsonView::Array(Seq::new(calls.len(), |i: int| call_json(calls[i]))),
        ),
        None => content,
    };
    match m.tool_call_id {
        Some(id) => calls.with("tool_call_id"@, JsonView::Text(id)),
        None => calls,
    }
}

/// The request for the model's next message.
pub open spec fn request_json(
    messages: Seq<MessageView>,
    tools: Seq<JsonView>,
    model: Option<Seq<char>>,
    temperature: JsonView,
) -> JsonView {
    let basic = JsonView::empty().with(
        "messages"@,
        JsonView::Array(Seq::new(messages.len(), |i: int| message_json(messages[i]))),
    ).with("temperature"@, temperature);
    let named = match model {
        Some(m) => basic.with("model"@, JsonView::Text(m)),
        None => basic,
    };
    if tools.len() > 0 {
        named.with("tools"@, JsonView::Array(tools)).with("tool_choice"@, JsonView::Text("auto"@))
    } else {
        named
    }
}

/// What the values of a list say.
pub open spec fn json_views(items: Seq<Json>) -> Seq<JsonView> {
    Seq::new(items.len(), |i: int| items[i]@)
}

/// What an optional borrowed text says.
pub open spec fn opt_str_view(s: Option<&str>) -> Option<Seq<char>> {
    match s {
        Some(t) => Some(t@),
        None => None,
    }
}

/// A tool call as JSON.
fn call_to_json(call: &ToolCall) -> (r: Json)
    ensures
        r@ == call_json(call@),
{
    Json::object().with("id", Json::text(call.id.as_str())).with(
        "type",
        Json::text(call.call_type.as_str()),
    ).with(
        "function",
        Json::object().with("name", Json::text(call.function.name.as_str())).with(
            "arguments",
            Json::text(call.function.arguments.as_str()),
        ),
    )
}

/// A message as JSON; what the message does not have is left out.
pub fn message_to_json(m: &Message) -> (r: Json)
    ensures
        r@ == message_json(m@),
{
    let mut out = Json::object().with("role", Json::text(m.role.as_str()));
    if let Some(text) = &m.content {
        out = out.with("content", Json::text(text.as_str()));
    }
    if let Some(calls) = &m.tool_calls {
        let mut list: Vec<Json> = Vec::new();
        for i in 0..calls.len()
            invariant
                list@.len() == i,
                forall|k: int| 0 <= k < i ==> (#[trigger] list@[k])@ == call_json(calls@[k]@),
        {
            list.push(call_to_json(&calls[i]));
        }
        let array = Json::Array(list);
        let ghost views = call_views(calls@);
        assert(array@->Array_0 =~= Seq::new(views.len(), |i: int| call_json(views[i])));
        out = out.with("tool_calls", array);
    }
    if let Some(id) = &m.tool_call_id {
        out = out.with("tool_call_id", Json::text(id.as_str()));
    }
    out
}

/// The request for the model's next message, at a given temperature.
pub fn request_with(
    messages: &[Message],
    tools: &[Json],
    model: Option<&str>,
    temperature: Json,
) -> (r: Json)
    ensures
        r@ == request_json(
            message_views(messages@),
            json_views(tools@),
            opt_str_view(model),
            temperature@,
        ),
{
    let mut list: Vec<Json> = Vec::new();
    for i in 0..messages.len()
        invariant
            list@.len() == i,
            forall|k: int| 0 <= k < i ==> (#[trigger] list@[k])@ == message_json(messages@[k]@),
    {
        list.push(message_to_json(&messages[i]));
    }
    let array = Json::Array(list);
    let ghost views = message_views(messages@);
    assert(array@->Array_0 =~= Seq::new(views.len(), |i: int| message_json(views[i])));
    let mut out = Json::object().with("messages", array).with("temperature", temperature);
    if let Some(m) = model {
        out = out.with("model", Json::text(m));
    }
    if tools.len() > 0 {
        let mut offered: Vec<Json> = Vec::new();
        for i in 0..tools.len()
            invariant
                offered@.len() == i,
                forall|k: int| 0 <= k < i ==> (#[trigger] offered@[k])@ == tools@[k]@,
        {
            offered.push(tools[i].clone());
        }
        let offer = Json::Array(offered);
        assert(offer@->Array_0 =~= json_views(tools@));
        out = out.with("tools", offer).with("tool_choice", Json::text("auto"));
    }
    out
}

/// The temperature of a request, given what reading its numeral gave.
pub open spec fn temperature_read(read: Result<JsonView, Seq<char>>) -> JsonView {
    match read {
        Ok(v) => v,
        Err(_) => JsonView::Null,
    }
}

/// The text to send for the model's next message: the request at a temperature of 0.7.
pub fn request_text(messages: &[Message], tools: &[Json], model: Option<&str>) -> (r: String)
    ensures
        r@ == compact(
            request_json(
                message_views(messages@),
                json_views(tools@),
                opt_str_view(model),
                temperature_read(parsed("0.7"@)),
            ),
        ),
{
    let temperature = match parse("0.7") {
        Ok(v) => v,
        Err(_) => Json::Null,
    };
    render(&request_with(messages, tools, model, temperature))
}

/// The part of a reply that counts: the message of its first choice and why the model stopped.
pub open spec fn picked(reply: JsonView) -> Option<(JsonView, Seq<char>)> {
    match reply.get("choices"@) {
        Some(choices) => match choices.as_items() {
            Some(items) => if items.len() > 0 {
                match items[0].get("message"@) {
                    Some(message) => Some(
                        (
                            message,
                            match items[0].text_at("finish_reason"@) {
                                Some(reason) => reason,
                                None => "stop"@,
                            },
                        ),
                    ),
                    None => None,
                }
            } else {
                None
            },
            None => None,
        },
        None => None,
    }
}

/// Whether an answer or an error is what a reply gives: a reply without a choice, or whose first
/// choice has no message, offers none; a message that cannot be read is bad JSON.
pub open spec fn answers(r: Result<LlmResponse, LlmError>, reply: JsonView) -> bool {
    match picked(reply) {
        Some((message, reason)) => match message_read(message) {
            Ok(said) => r matches Ok(response) && response.message@ == said
                && response.finish_reason@ == reason,
            Err(why) => r matches Err(LlmError::BadJson(complaint)) && complaint@ == why,
        },
        None => r == Err::<LlmResponse, LlmError>(LlmError::NoChoices),
    }
}

/// Picks the message out of a reply.
pub fn pick_reply(reply: &Json) -> (r: Result<LlmResponse, LlmError>)
    ensures
        answers(r, reply@),
{
    let choices = match reply.get("choices") {
        Some(c) => c,
        None => return Err(LlmError::NoChoices),
    };
    let items = match choices.as_array() {
        Some(items) => items,
        None => return Err(LlmError::NoChoices),
    };
    if items.len() == 0 {
        return Err(LlmError::NoChoices);
    }
    let first = &items[0];
    let message = match first.get("message") {
        Some(m) => m,
        None => return Err(LlmError::NoChoices),
    };
    let finish_reason = match first.str_at("finish_reason") {
        Some(reason) => reason.to_string(),
        None => "stop".to_string(),
    };
    match message_from_json(message) {
        Ok(message) => Ok(LlmResponse { message, finish_reason }),
        Err(why) => Err(LlmError::BadJson(why)),
    }
}

/// Reads what the adapter printed.
pub fn read_reply(out: &str) -> (r: Result<LlmResponse, LlmError>)
    ensures
        match parsed(out@) {
            Ok(reply) => answers(r, reply),
            Err(complaint) => r matches Err(LlmError::BadJson(reason)) && reason@ == complaint,
        },
{
    match parse(out) {
        Ok(reply) => pick_reply(&reply),
        Err(complaint) => Err(LlmError::BadJson(complaint)),
    }
}

/// Holds the adapter's exit against what it printed: an exit without success is an error with its
/// code, or -1 where it has none, and what it complained of.
pub fn check_exit(success: bool, code: Option<i32>, stderr: &str) -> (r: Result<(), LlmError>)
    ensures
        success ==> r == Ok::<(), LlmError>(()),
        !success ==> (r matches Err(LlmError::NonZeroExit { code: c, stderr: s }) && s@ == stderr@
            && c == (match code {
            Some(given) => given,
            None => -1i32,
        })),
{
    if success {
        Ok(())
    } else {
        let shown: i32 = match code {
            Some(given) => given,
            None => -1,
        };
        Err(LlmError::NonZeroExit { code: shown, stderr: stderr.to_string() })
    }
}

/// What comes of the adapter once it has exited, given how it exited and what it printed and
/// complained of: its reply where it succeeded, and else an error.
pub fn conclude(success: bool, code: Option<i32>, out: &str, err: &str) -> (r: Result<
    LlmResponse,
    LlmError,
>)
    ensures
        !success ==> (r matches Err(LlmError::NonZeroExit { code: c, stderr: s }) && s@ == err@
            && c == (match code {
            Some(given) => given,
            None => -1i32,
        })),
        success ==> match parsed(out@) {
            Ok(reply) => answers(r, reply),
            Err(complaint) => r matches Err(LlmError::BadJson(reason)) && reason@ == complaint,
        },
{
    match check_exit(success, code, err) {
        Ok(()) => read_reply(out),
        Err(e) => Err(e),
    }
}

/// What of the adapter's complaints to pass on: where it succeeded, all but white space around;
/// where it did not, nothing, for they are part of the error.
pub fn passed_on(success: bool, stderr: &str) -> (r: Option<String>)
    ensures
        match r {
            Some(s) => success && trimmed(stderr@).len() > 0 && s@ == trimmed(stderr@),
            None => !success || trimmed(stderr@).len() == 0,
        },
{
    let s = trim(stderr);
    if !success || s.as_str().is_empty() {
        None
    } else {
        Some(s)
    }
}

/// What looking at the adapter showed.
#[derive(Debug)]
pub enum Look {
    /// It has exited.
    Exited,
    /// It still runs, and its time is up or not.
    Running { expired: bool },
    /// It could not be looked at.
    Failed(String),
}

/// What to do next about the adapter.
#[derive(Debug)]
pub enum Wait {
    /// Read what it printed.
    Read,
    /// Look again after so many milliseconds.
    Sleep { millis: u64 },
    /// Stop it and give up with the error.
    Kill(LlmError),
    /// Give up with the error.
    Fail(LlmError),
}

/// Decides how to go on waiting for the adapter: until it exits, but not beyond its time.
pub fn keep_waiting(look: Look, timeout_secs: u64) -> (r: Wait)
    ensures
        match look {
            Look::Exited => r == Wait::Read,
            Look::Running { expired } => if expired {
                r == Wait::Kill(LlmError::Timeout { secs: timeout_secs })
            } else {
                r == (Wait::Sleep { millis: 50 })
            },
            Look::Failed(reason) => r == Wait::Fail(LlmError::Spawn(reason)),
        },
{
    match look {
        Look::Exited => Wait::Read,
        Look::Running { expired } => if expired {
            Wait::Kill(LlmError::Timeout { secs: timeout_secs })
        } else {
            Wait::Sleep { millis: 50 }
        },
        Look::Failed(reason) => Wait::Fail(LlmError::Spawn(reason)),
    }
}

/// Where a program of some name may lie, by the directories of a search path.
pub open spec fn candidates(path: Seq<char>, name: Seq<char>) -> Seq<Seq<char>> {
    let dirs = pieces(path, ':');
    Seq::new(dirs.len(), |i: int| path_below(dirs[i], name))
}

/// Where a program of some name may lie, in the order in which a search path names the places.
pub fn search_places(path: &str, name: &str) -> (r: Vec<String>)
    ensures
        views(r@) == candidates(path@, name@),
{
    let dirs = split(path, ':');
    let mut out: Vec<String> = Vec::new();
    for i in 0..dirs.len()
        invariant
            out@.len() == i,
            forall|k: int| 0 <= k < i ==> (#[trigger] out@[k])@ == path_below(dirs@[k]@, name@),
    {
        out.push(join_path(dirs[i].as_str(), name));
    }
    assert(views(out@) =~= candidates(path@, name@)) by {
        assert(views(dirs@) == pieces(path@, ':'));
    }
    out
}

/// Where the adapter was looked for, and whether it was there.
#[derive(Debug)]
pub struct Lookup {
    /// The path of the command line, if it named one.
    pub flag: Option<String>,
    pub flag_found: bool,
    /// The path of the environment, if it named one.
    pub setting: Option<String>,
    pub setting_found: bool,
    /// Whether the adapter lies on the search path.
    pub on_path: bool,
}

/// The places that were tried, in words.
pub open spec fn places_tried(flag: Option<Seq<char>>, setting: Option<Seq<char>>) -> Seq<
    Seq<char>,
> {
    let by_flag = match flag {
        Some(path) => seq!["flag --llm-binary="@ + path],
        None => Seq::empty(),
    };
    let by_setting = match setting {
        Some(path) => by_flag.push("env LLM_ADAPTER_BINARY="@ + path),
        None => by_flag,
    };
    by_setting.push("PATH:llm-adapter"@)
}

/// The adapter to use: the command line's where it is there, else the environment's where it is
/// there, else the one on the search path.
pub open spec fn binary_of(lookup: Lookup) -> Option<Seq<char>> {
    if lookup.flag is Some && lookup.flag_found {
        Some(lookup.flag->0@)
    } else if lookup.setting is Some && lookup.setting_found {
        Some(lookup.setting->0@)
    } else if lookup.on_path {
        Some("llm-adapter"@)
    } else {
        None
    }
}

/// Chooses the adapter.
pub fn resolve_binary(lookup: &Lookup) -> (r: Result<String, LlmError>)
    ensures
        match binary_of(*lookup) {
            Some(path) => r matches Ok(s) && s@ == path,
            None => r matches Err(LlmError::BinaryNotFound { searched }) && views(searched@)
                == places_tried(opt_view(lookup.flag), opt_view(lookup.setting)),
        },
{
    let mut searched: Vec<String> = Vec::new();
    if let Some(path) = &lookup.flag {
        if lookup.flag_found {
            return Ok(path.clone());
        }
        let mut place = "flag --llm-binary=".to_string();
        place.append(path.as_str());
        searched.push(place);
    }
    if let Some(path) = &lookup.setting {
        if lookup.setting_found {
            return Ok(path.clone());
        }
        let mut place = "env LLM_ADAPTER_BINARY=".to_string();
        place.append(path.as_str());
        searched.push(place);
    }
    if lookup.on_path {
        return Ok("llm-adapter".to_string());
    }
    searched.push("PATH:llm-adapter".to_string());
    assert(views(searched@) =~= places_tried(opt_view(lookup.flag), opt_view(lookup.setting)));
    Err(LlmError::BinaryNotFound { searched })
}

/// How many seconds the adapter has: what the setting says where it is a number from 1 on, else
/// 300.
pub open spec fn timeout_of(setting: Option<Seq<char>>) -> u64 {
    match setting {
        Some(s) => match unsigned_of(s) {
            Some(secs) => if secs >= 1 {
                secs
            } else {
                300
            },
            None => 300,
        },
        None => 300,
    }
}

/// How many seconds the adapter has.
pub fn timeout_secs_from(setting: Option<&str>) -> (r: u64)
    ensures
        r == timeout_of(opt_str_view(setting)),
        r >= 1,
{
    match setting {
        Some(s) => match parse_unsigned(s) {
            Some(secs) => if secs >= 1 {
                secs
            } else {
                300
            },
            None => 300,
        },
        None => 300,
    }
}

/// A client that asks the adapter.
#[derive(Debug)]
pub struct RealLlmClient {
    pub binary: String,
    pub config_path: String,
    pub model: Option<String>,
    pub timeout_secs: u64,
}

impl RealLlmClient {
    /// Sets the client up, given where the adapter was looked for and the setting for its time.
    pub fn resolve(
        lookup: &Lookup,
        timeout_setting: Option<&str>,
        config_path: &str,
        model: Option<&str>,
    ) -> (r: Result<RealLlmClient, LlmError>)
        ensures
            match binary_of(*lookup) {
                Some(path) => r matches Ok(client) && client.binary@ == path
                    && client.config_path@ == config_path@ && opt_view(client.model)
                    == opt_str_view(model) && client.timeout_secs == timeout_of(
                    opt_str_view(timeout_setting),
                ),
                None => r matches Err(LlmError::BinaryNotFound { searched }) && views(searched@)
                    == places_tried(opt_view(lookup.flag), opt_view(lookup.setting)),
            },
    {
        let binary = match resolve_binary(lookup) {
            Ok(b) => b,
            Err(e) => return Err(e),
        };
        let timeout_secs = timeout_secs_from(timeout_setting);
        Ok(
            RealLlmClient {
                binary,
                config_path: config_path.to_string(),
                model: match model {
                    Some(m) => Some(m.to_string()),
                    None => None,
                },
                timeout_secs,
            },
        )
    }
}

/// Whether a scripted client gives one error for another: the same where it is plain data of the
/// model's side, else that there were no choices.
pub open spec fn replays(given: LlmError, copy: LlmError) -> bool {
    match given {
        LlmError::BinaryNotFound { searched } => copy matches LlmError::BinaryNotFound {
            searched: places,
        } && views(places@) == views(searched@),
        LlmError::BadJson(reason) => copy matches LlmError::BadJson(words) && words@ == reason@,
        _ => copy is NoChoices,
    }
}

/// A copy of an error for a scripted client.
pub fn clone_error(e: &LlmError) -> (r: LlmError)
    ensures
        replays(*e, r),
{
    match e {
        LlmError::BinaryNotFound { searched } => {
            let mut copy: Vec<String> = Vec::new();
            for i in 0..searched.len()
                invariant
                    views(copy@) == views(searched@).take(i as int),
            {
                let ghost before = copy@;
                copy.push(searched[i].clone());
                assert(views(copy@) =~= views(before).push(searched@[i as int]@));
                assert(views(copy@) =~= views(searched@).take(i + 1));
            }
            assert(views(searched@).take(searched@.len() as int) =~= views(searched@));
            LlmError::BinaryNotFound { searched: copy }
        },
        LlmError::BadJson(reason) => LlmError::BadJson(reason.clone()),
        _ => LlmError::NoChoices,
    }
}

/// A client that replays prepared responses and keeps what it was asked.
#[derive(Debug)]
pub struct MockLlmClient {
    pub responses: Vec<Result<LlmResponse, LlmError>>,
    pub call_count: usize,
    pub calls: Vec<Vec<Message>>,
}

impl MockLlmClient {
    /// A client with its responses, in the order in which it gives them.
    pub fn new(responses: Vec<Result<LlmResponse, LlmError>>) -> (r: MockLlmClient)
        ensures
            r.responses == responses,
            r.call_count == 0,
            r.calls@ == Seq::<Vec<Message>>::empty(),
    {
        MockLlmClient { responses, call_count: 0, calls: Vec::new() }
    }

    /// The next prepared response; when they are used up, that there are no choices.
    pub fn complete(&mut self, messages: &[Message], tools: &[Json]) -> (r: Result<
        LlmResponse,
        LlmError,
    >)
        requires
            old(self).call_count < usize::MAX,
        ensures
            final(self).responses == old(self).responses,
            final(self).call_count == old(self).call_count + 1,
            final(self).calls@.len() == old(self).calls@.len() + 1,
            final(self).calls@.drop_last() == old(self).calls@,
            message_views(final(self).calls@.last()@) == message_views(messages@),
            old(self).call_count < old(self).responses@.len() ==> match old(
                self,
            ).responses@[old(self).call_count as int] {
                Ok(given) => r matches Ok(copy) && copy.message@ == given.message@
                    && copy.finish_reason@ == given.finish_reason@,
                Err(given) => r matches Err(copy) && replays(given, copy),
            },
            old(self).call_count >= old(self).responses@.len() ==> r == Err::<
                LlmResponse,
                LlmError,
            >(LlmError::NoChoices),
    {
        self.calls.push(copy_messages(messages));
        assert(self.calls@.drop_last() =~= old(self).calls@);
        let i: usize = self.call_count;
        self.call_count = i + 1;
        if i < self.responses.len() {
            match &self.responses[i] {
                Ok(given) => Ok(
                    LlmResponse {
                        message: given.message.clone(),
                        finish_reason: given.finish_reason.clone(),
                    },
                ),
                Err(e) => Err(clone_error(e)),
            }
        } else {
            Err(LlmError::NoChoices)
        }
    }
}

}
