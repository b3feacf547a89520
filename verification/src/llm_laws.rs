//! What holds of talking to the model: what it is sent, what is read from its reply, and where its
//! adapter is found.

use vstd::prelude::*;
use vstd::string::*;

use crate::json::JsonView;
use crate::llm::{
    answers, binary_of, call_json, candidates, error_message, message_json, opt_view, picked,
    places_tried, request_json, timeout_of, CallView, LlmError, LlmResponse, Lookup, MessageView,
};
use crate::records::{
    call_read, calls_read, law_call_reads_back, law_message_reads_back, message_read, messages_read,
};
use crate::text::{contains_seq, decimal, joined, occurs_at, signed_decimal, trimmed, unsigned_of, views};
use crate::text_laws::{
    ends_with, law_joined_texts_come_apart, law_numbers_are_read, lemma_stands_between,
    lemma_stands_last, lemma_stays_behind, lemma_two_stand,
};

verus! {

/// The names of a request's members differ.
proof fn lemma_request_names()
    ensures
        "messages"@.len() == 8,
        "temperature"@.len() == 11 && "temperature"@[0] == 't',
        "model"@.len() == 5 && "model"@[0] == 'm',
        "tools"@.len() == 5 && "tools"@[0] == 't',
        "tool_choice"@.len() == 11 && "tool_choice"@[1] == 'o',
        "temperature"@[1] == 'e',
{
    reveal_strlit("messages");
    reveal_strlit("temperature");
    reveal_strlit("model");
    reveal_strlit("tools");
    reveal_strlit("tool_choice");
}

/// A request holds the whole conversation: as many messages as there are, in their order, and each
/// reads back as it was.
pub proof fn law_requests_hold_the_conversation(
    messages: Seq<MessageView>,
    tools: Seq<JsonView>,
    model: Option<Seq<char>>,
    temperature: JsonView,
)
    ensures
        request_json(messages, tools, model, temperature).get("messages"@) matches Some(
            JsonView::Array(list),
        ) && list.len() == messages.len() && forall|i: int|
            0 <= i < messages.len() ==> message_read(#[trigger] list[i]) == Ok::<
                MessageView,
                Seq<char>,
            >(messages[i]),
{
    lemma_request_names();
    let list = request_json(messages, tools, model, temperature).get("messages"@)->0->Array_0;
    assert forall|i: int| 0 <= i < messages.len() implies message_read(#[trigger] list[i]) == Ok::<
        MessageView,
        Seq<char>,
    >(messages[i]) by {
        law_message_reads_back(messages[i]);
    }
}

/// Two conversations never make the same request.
pub proof fn law_requests_tell_conversations_apart(
    a: Seq<MessageView>,
    b: Seq<MessageView>,
    tools: Seq<JsonView>,
    model: Option<Seq<char>>,
    temperature: JsonView,
)
    requires
        request_json(a, tools, model, temperature) == request_json(b, tools, model, temperature),
    ensures
        a == b,
{
    law_requests_hold_the_conversation(a, tools, model, temperature);
    law_requests_hold_the_conversation(b, tools, model, temperature);
    let list = request_json(a, tools, model, temperature).get("messages"@)->0->Array_0;
    assert forall|i: int| 0 <= i < a.len() implies a[i] == b[i] by {
        assert(message_read(list[i]) == Ok::<MessageView, Seq<char>>(a[i]));
    }
    assert(a =~= b);
}

/// A request offers every tool, as it is described, and leaves the choice to the model. It names
/// the model just where one is wished for, and holds the temperature.
pub proof fn law_requests_offer_the_tools(
    messages: Seq<MessageView>,
    tools: Seq<JsonView>,
    model: Option<Seq<char>>,
    temperature: JsonView,
)
    ensures
        tools.len() > 0 ==> request_json(messages, tools, model, temperature).get("tools"@) == Some(
            JsonView::Array(tools),
        ) && request_json(messages, tools, model, temperature).text_at("tool_choice"@) == Some(
            "auto"@,
        ),
        tools.len() == 0 ==> request_json(messages, tools, model, temperature).get("tools"@) is None
            && request_json(messages, tools, model, temperature).get("tool_choice"@) is None,
        request_json(messages, tools, model, temperature).get("model"@) == match model {
            Some(m) => Some(JsonView::Text(m)),
            None => None,
        },
        request_json(messages, tools, model, temperature).get("temperature"@) == Some(temperature),
{
    lemma_request_names();
}

/// The names of a message's members differ.
proof fn lemma_message_names()
    ensures
        "role"@.len() == 4,
        "content"@.len() == 7,
        "tool_calls"@.len() == 10,
        "tool_call_id"@.len() == 12,
        "id"@.len() == 2,
        "type"@.len() == 4 && "type"@[0] == 't',
        "function"@.len() == 8,
        "name"@.len() == 4,
        "arguments"@.len() == 9,
{
    reveal_strlit("role");
    reveal_strlit("content");
    reveal_strlit("tool_calls");
    reveal_strlit("tool_call_id");
    reveal_strlit("id");
    reveal_strlit("type");
    reveal_strlit("function");
    reveal_strlit("name");
    reveal_strlit("arguments");
}

/// A message is sent under the names that the model's side knows, whole: what it has is there as it
/// stands, and what it does not have is not there.
pub proof fn law_messages_are_sent_whole(m: MessageView)
    ensures
        message_json(m).text_at("role"@) == Some(m.role),
        message_json(m).get("content"@) == match m.content {
            Some(text) => Some(JsonView::Text(text)),
            None => None,
        },
        message_json(m).get("tool_call_id"@) == match m.tool_call_id {
            Some(id) => Some(JsonView::Text(id)),
            None => None,
        },
        m.tool_calls is None ==> message_json(m).get("tool_calls"@) is None,
        m.tool_calls matches Some(calls) ==> (message_json(m).get("tool_calls"@) matches Some(
            JsonView::Array(list),
        ) && list.len() == calls.len() && forall|i: int|
            0 <= i < calls.len() ==> call_read(#[trigger] list[i]) == Ok::<CallView, Seq<char>>(
                calls[i],
            )),
{
    lemma_message_names();
    if let Some(calls) = m.tool_calls {
        let list = message_json(m).get("tool_calls"@)->0->Array_0;
        assert forall|i: int| 0 <= i < calls.len() implies call_read(#[trigger] list[i]) == Ok::<
            CallView,
            Seq<char>,
        >(calls[i]) by {
            law_call_reads_back(calls[i]);
        }
    }
}

/// A call is sent under the names that the model's side knows, whole.
pub proof fn law_calls_are_sent_whole(call: CallView)
    ensures
        call_json(call).text_at("id"@) == Some(call.id),
        call_json(call).text_at("type"@) == Some(call.call_type),
        call_json(call).get("function"@) matches Some(function) && function.text_at("name"@) == Some(
            call.name,
        ) && function.text_at("arguments"@) == Some(call.arguments),
{
    lemma_message_names();
}

/// What the model's side adds to a message beyond what is known makes no difference.
pub proof fn law_unknown_members_are_ignored(v: JsonView, key: Seq<char>, value: JsonView)
    requires
        key != "role"@,
        key != "content"@,
        key != "tool_calls"@,
        key != "tool_call_id"@,
    ensures
        message_read(v.with(key, value)) == message_read(v),
{
}

/// A member of a message that is null counts as one that is not there.
pub proof fn law_null_is_nothing(v: JsonView, said: MessageView)
    requires
        v is Object,
        message_read(v) == Ok::<MessageView, Seq<char>>(said),
    ensures
        message_read(v.with("content"@, JsonView::Null)) == Ok::<MessageView, Seq<char>>(
            MessageView { content: None, ..said },
        ),
        message_read(v.with("tool_calls"@, JsonView::Null)) == Ok::<MessageView, Seq<char>>(
            MessageView { tool_calls: None, ..said },
        ),
        message_read(v.with("tool_call_id"@, JsonView::Null)) == Ok::<MessageView, Seq<char>>(
            MessageView { tool_call_id: None, ..said },
        ),
{
    lemma_message_names();
}

/// A message is read from the members that the model's side gives: the role, the words, the calls
/// with their ids, names and arguments. Without a role there is no message.
pub proof fn law_messages_are_read_from_their_members(v: JsonView)
    ensures
        message_read(v) matches Ok(said) ==> {
            &&& v.text_at("role"@) == Some(said.role)
            &&& said.content == v.text_at("content"@)
            &&& said.tool_call_id == v.text_at("tool_call_id"@)
            &&& said.tool_calls is Some <==> v.get("tool_calls"@) is Some && v.get(
                "tool_calls"@,
            )->0 is Array
        },
        v.get("role"@) is None ==> message_read(v) is Err,
{
}

/// A call is read from its members, and each of them must be there.
pub proof fn law_calls_are_read_from_their_members(v: JsonView)
    ensures
        call_read(v) matches Ok(call) ==> {
            &&& v.text_at("id"@) == Some(call.id)
            &&& v.text_at("type"@) == Some(call.call_type)
            &&& v.get("function"@) matches Some(function) && function.text_at("name"@) == Some(
                call.name,
            ) && function.text_at("arguments"@) == Some(call.arguments)
        },
        call_read(v) is Ok <==> v.text_at("id"@) is Some && v.text_at("type"@) is Some && (v.get(
            "function"@,
        ) matches Some(function) && function.text_at("name"@) is Some && function.text_at(
            "arguments"@,
        ) is Some),
{
}

/// The answer of the model is the message of the first choice of its reply, read as it stands, with
/// the reason for which it stopped; further choices make no difference.
pub proof fn law_the_first_choice_is_the_answer(
    r: Result<LlmResponse, LlmError>,
    reply: JsonView,
    items: Seq<JsonView>,
    message: JsonView,
    said: MessageView,
)
    requires
        answers(r, reply),
        reply.get("choices"@) == Some(JsonView::Array(items)),
        items.len() > 0,
        items[0].get("message"@) == Some(message),
        message_read(message) == Ok::<MessageView, Seq<char>>(said),
    ensures
        r matches Ok(response) && response.message@ == said && (items[0].text_at(
            "finish_reason"@,
        ) matches Some(reason) ==> response.finish_reason@ == reason) && (items[0].get(
            "finish_reason"@,
        ) is None ==> response.finish_reason@ == "stop"@),
{
}

/// A message that is sent back unchanged is the answer.
pub proof fn law_what_is_sent_back_is_read(
    r: Result<LlmResponse, LlmError>,
    reply: JsonView,
    items: Seq<JsonView>,
    said: MessageView,
)
    requires
        answers(r, reply),
        reply.get("choices"@) == Some(JsonView::Array(items)),
        items.len() > 0,
        items[0].get("message"@) == Some(message_json(said)),
    ensures
        r matches Ok(response) && response.message@ == said,
{
    law_message_reads_back(said);
}

/// A reply without a choice gives no answer, and is told apart from one whose message cannot be
/// read.
pub proof fn law_replies_without_choices_are_errors(
    r: Result<LlmResponse, LlmError>,
    reply: JsonView,
)
    requires
        answers(r, reply),
    ensures
        reply.get("choices"@) is None ==> r == Err::<LlmResponse, LlmError>(LlmError::NoChoices),
        reply.get("choices"@) == Some(JsonView::Array(Seq::empty())) ==> r == Err::<
            LlmResponse,
            LlmError,
        >(LlmError::NoChoices),
        reply.get("choices"@) matches Some(v) ==> (!(v is Array) ==> r == Err::<
            LlmResponse,
            LlmError,
        >(LlmError::NoChoices)),
        reply.get("choices"@) matches Some(JsonView::Array(items)) ==> (items.len() > 0 ==> (
        items[0].get("message"@) is None ==> r == Err::<LlmResponse, LlmError>(
            LlmError::NoChoices,
        ))),
        reply.get("choices"@) matches Some(JsonView::Array(items)) ==> (items.len() > 0 ==> (
        items[0].get("message"@) matches Some(message) ==> (message_read(message) matches Err(why)
            ==> (r matches Err(LlmError::BadJson(complaint)) && complaint@ == why)))),
        r is Ok || (r matches Err(LlmError::NoChoices)) || (r matches Err(LlmError::BadJson(_))),
        r is Ok ==> picked(reply) is Some,
{
}

/// An error in words holds what is known of it: the reason, the time, the code and the complaint,
/// the places that were tried.
pub proof fn law_errors_say_what_is_known(e: LlmError)
    ensures
        match e {
            LlmError::BinaryNotFound { searched } => contains_seq(
                error_message(e),
                joined(views(searched@), ", "@),
            ) && contains_seq(error_message(e), "--llm-binary"@),
            LlmError::Spawn(reason) => ends_with(error_message(e), reason@),
            LlmError::StdinWrite(reason) => ends_with(error_message(e), reason@),
            LlmError::StdoutRead(reason) => ends_with(error_message(e), reason@),
            LlmError::Timeout { secs } => contains_seq(error_message(e), decimal(secs as nat)),
            LlmError::NonZeroExit { code, stderr } => contains_seq(
                error_message(e),
                signed_decimal(code as int),
            ) && ends_with(error_message(e), trimmed(stderr@)),
            LlmError::BadJson(reason) => contains_seq(error_message(e), reason@),
            LlmError::NoChoices => true,
        },
{
    match e {
        LlmError::BinaryNotFound { searched } => {
            let tried = joined(views(searched@), ", "@);
            let rest =
                ". install with: sheol pull edersonff/llm-adapter, then build and put the binary on your PATH, or set --llm-binary <path> or LLM_ADAPTER_BINARY=<path>"@;
            lemma_stands_between("llm-adapter not found. tried: "@, tried, rest);
            reveal_strlit(
                ". install with: sheol pull edersonff/llm-adapter, then build and put the binary on your PATH, or set --llm-binary <path> or LLM_ADAPTER_BINARY=<path>",
            );
            reveal_strlit("--llm-binary");
            let at = 101;
            assert(rest.subrange(at, at + 12) =~= "--llm-binary"@);
            assert(occurs_at(rest, "--llm-binary"@, at));
            lemma_stays_behind("llm-adapter not found. tried: "@ + tried, rest, "--llm-binary"@);
        },
        LlmError::Spawn(reason) => {
            lemma_stands_last("could not start llm-adapter: "@, reason@);
        },
        LlmError::StdinWrite(reason) => {
            lemma_stands_last("could not send request to llm-adapter: "@, reason@);
        },
        LlmError::StdoutRead(reason) => {
            lemma_stands_last("could not read answer from llm-adapter: "@, reason@);
        },
        LlmError::Timeout { secs } => {
            let rest =
                "s, so the task stops here instead of inventing an answer. next steps: check the gateway the adapter config points at is up, then resume with: agentic resume <task-id>. raise the limit with AGENTIC_LLM_TIMEOUT_SECS if the model is just slow"@;
            lemma_stands_between(
                "llm-adapter did not answer within "@,
                decimal(secs as nat),
                rest,
            );
        },
        LlmError::NonZeroExit { code, stderr } => {
            let front = "llm-adapter exited with code "@;
            let shown = signed_decimal(code as int);
            lemma_two_stand(front, shown, ". stderr: "@, trimmed(stderr@));
        },
        LlmError::BadJson(reason) => {
            lemma_stands_between(
                "llm-adapter returned something that is not valid openai json: "@,
                reason@,
                ". this usually means the provider returned an error page or the config is wrong"@,
            );
        },
        LlmError::NoChoices => {},
    }
}

/// The adapter is the one that was asked for where it is there: the command line's counts before
/// the environment's, and that before the search path's. What was not found is never used, and
/// where nothing is found every place that was tried is named.
pub proof fn law_the_adapter_asked_for_is_used(lookup: Lookup)
    ensures
        lookup.flag matches Some(path) ==> (lookup.flag_found ==> binary_of(lookup) == Some(path@)),
        !(lookup.flag is Some && lookup.flag_found) ==> (lookup.setting matches Some(path) ==> (
        lookup.setting_found ==> binary_of(lookup) == Some(path@))),
        !(lookup.flag is Some && lookup.flag_found) && !(lookup.setting is Some
            && lookup.setting_found) ==> binary_of(lookup) == if lookup.on_path {
            Some("llm-adapter"@)
        } else {
            None
        },
        ({
            let tried = places_tried(opt_view(lookup.flag), opt_view(lookup.setting));
            &&& tried.len() == 1 + (if lookup.flag is Some {
                1int
            } else {
                0
            }) + (if lookup.setting is Some {
                1int
            } else {
                0
            })
            &&& lookup.flag matches Some(path) ==> ends_with(tried[0], path@)
            &&& lookup.setting matches Some(path) ==> ends_with(tried[tried.len() - 2], path@)
            &&& tried.last() == "PATH:llm-adapter"@
        }),
{
    if let Some(path) = lookup.flag {
        lemma_stands_last("flag --llm-binary="@, path@);
    }
    if let Some(path) = lookup.setting {
        lemma_stands_last("env LLM_ADAPTER_BINARY="@, path@);
    }
}

/// The adapter has the time that the setting gives in seconds; without one, or with one that gives
/// no time, it has five minutes.
pub proof fn law_the_time_is_what_is_set(secs: u64, setting: Option<Seq<char>>)
    ensures
        secs >= 1 ==> timeout_of(Some(decimal(secs as nat))) == secs,
        timeout_of(Some(decimal(0))) == 5 * 60,
        setting is None ==> timeout_of(setting) == 5 * 60,
        setting matches Some(words) ==> (unsigned_of(words) is None ==> timeout_of(setting) == 5
            * 60),
        timeout_of(setting) >= 1,
{
    law_numbers_are_read(secs);
    law_numbers_are_read(0);
}

/// A program is looked for in every directory of the search path, in its order.
pub proof fn law_every_directory_is_searched(dirs: Seq<Seq<char>>, name: Seq<char>)
    requires
        dirs.len() > 0,
        forall|k: int, i: int|
            0 <= k < dirs.len() && 0 <= i < dirs[k].len() ==> #[trigger] dirs[k][i] != ':',
        name.len() > 0,
        name[0] != '/',
    ensures
        candidates(joined(dirs, seq![':']), name).len() == dirs.len(),
        forall|k: int|
            0 <= k < dirs.len() && dirs[k].len() > 0 && dirs[k].last() != '/'
                ==> #[trigger] candidates(joined(dirs, seq![':']), name)[k] == dirs[k] + seq!['/']
                + name,
        forall|k: int|
            0 <= k < dirs.len() && dirs[k].len() > 0 && dirs[k].last() == '/'
                ==> #[trigger] candidates(joined(dirs, seq![':']), name)[k] == dirs[k] + name,
        forall|k: int|
            0 <= k < dirs.len() && dirs[k].len() == 0 ==> #[trigger] candidates(
                joined(dirs, seq![':']),
                name,
            )[k] == name,
{
    law_joined_texts_come_apart(dirs, ':');
    reveal_strlit("/");
    assert("/"@ =~= seq!['/']);
    assert forall|k: int| 0 <= k < dirs.len() && dirs[k].len() == 0 implies #[trigger] candidates(
        joined(dirs, seq![':']),
        name,
    )[k] == name by {
        assert(dirs[k] + name =~= name);
    }
}

/// Whether a member is a text, null, or not there.
pub open spec fn text_or_nothing(v: JsonView, key: Seq<char>) -> bool {
    v.get(key) is None || v.get(key) == Some(JsonView::Null) || v.text_at(key) is Some
}

/// A message is read just where all that it has is of its kind: a text for its role, texts or
/// nothing for its words and the id of a call, and for its calls a list of calls or nothing.
pub proof fn law_which_messages_are_read(v: JsonView)
    ensures
        message_read(v) is Ok <==> {
            &&& v.text_at("role"@) is Some
            &&& text_or_nothing(v, "content"@)
            &&& text_or_nothing(v, "tool_call_id"@)
            &&& match v.get("tool_calls"@) {
                Some(JsonView::Array(items)) => calls_read(items) is Ok,
                Some(JsonView::Null) => true,
                Some(_) => false,
                None => true,
            }
        },
        message_read(v) matches Ok(said) ==> (v.get("tool_calls"@) matches Some(
            JsonView::Array(items),
        ) ==> calls_read(items) == Ok::<Seq<CallView>, Seq<char>>(said.tool_calls->0)),
{
}

/// The calls of a list are read one by one, all of them and in order; one that cannot be read makes
/// the list unreadable.
pub proof fn law_lists_of_calls_are_read_whole(items: Seq<JsonView>)
    ensures
        calls_read(items) matches Ok(calls) ==> calls.len() == items.len() && forall|i: int|
            0 <= i < items.len() ==> call_read(#[trigger] items[i]) == Ok::<CallView, Seq<char>>(
                calls[i],
            ),
        calls_read(items) is Err ==> exists|i: int|
            0 <= i < items.len() && call_read(#[trigger] items[i]) is Err,
    decreases items.len(),
{
    if items.len() > 0 {
        let fewer = items.drop_last();
        law_lists_of_calls_are_read_whole(fewer);
        if calls_read(items) is Ok {
            let calls = calls_read(items)->Ok_0;
            assert forall|i: int| 0 <= i < items.len() implies call_read(#[trigger] items[i])
                == Ok::<CallView, Seq<char>>(calls[i]) by {
                if i < fewer.len() {
                    assert(fewer[i] == items[i]);
                }
            }
        } else if calls_read(fewer) is Err {
            let i = choose|i: int| 0 <= i < fewer.len() && call_read(#[trigger] fewer[i]) is Err;
            assert(items[i] == fewer[i]);
        } else {
            assert(call_read(items[items.len() - 1]) is Err);
        }
    }
}

/// The messages of a list are read one by one, all of them and in order; one that cannot be read
/// makes the list unreadable.
pub proof fn law_lists_of_messages_are_read_whole(items: Seq<JsonView>)
    ensures
        messages_read(items) matches Ok(said) ==> said.len() == items.len() && forall|i: int|
            0 <= i < items.len() ==> message_read(#[trigger] items[i]) == Ok::<
                MessageView,
                Seq<char>,
            >(said[i]),
        messages_read(items) is Err ==> exists|i: int|
            0 <= i < items.len() && message_read(#[trigger] items[i]) is Err,
    decreases items.len(),
{
    if items.len() > 0 {
        let fewer = items.drop_last();
        law_lists_of_messages_are_read_whole(fewer);
        if messages_read(items) is Ok {
            let said = messages_read(items)->Ok_0;
            assert forall|i: int| 0 <= i < items.len() implies message_read(#[trigger] items[i])
                == Ok::<MessageView, Seq<char>>(said[i]) by {
                if i < fewer.len() {
                    assert(fewer[i] == items[i]);
                }
            }
        } else if messages_read(fewer) is Err {
            let i = choose|i: int| 0 <= i < fewer.len() && message_read(#[trigger] fewer[i]) is Err;
            assert(items[i] == fewer[i]);
        } else {
            assert(message_read(items[items.len() - 1]) is Err);
        }
    }
}

/// A request and a message hold nothing beyond what they are said to hold.
pub proof fn law_nothing_else_is_sent(
    messages: Seq<MessageView>,
    tools: Seq<JsonView>,
    model: Option<Seq<char>>,
    temperature: JsonView,
    m: MessageView,
    key: Seq<char>,
)
    ensures
        request_json(messages, tools, model, temperature).get(key) is Some ==> key == "messages"@
            || key == "temperature"@ || key == "model"@ || key == "tools"@ || key == "tool_choice"@,
        message_json(m).get(key) is Some ==> key == "role"@ || key == "content"@ || key
            == "tool_calls"@ || key == "tool_call_id"@,
{
}

}
