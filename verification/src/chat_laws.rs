//! What holds of a task from its beginning to its end.

use vstd::prelude::*;
use vstd::string::*;

use crate::chat::{
    answered, begun, call_taken, calls_taken, kept, loggable, reply_calls,
    reply_failed, reply_taken, result_taken, signature, turn_begun, ConfigView, EventView,
    LoopStepView, Move, Phase, SessionView,
};
use crate::inline::CaptureView;
use crate::json::{compact, is_plain, parsed, reads_back, JsonView};
use crate::llm::{arguments_of, assistant_message, LlmError, MessageView};
use crate::security::destructive;
use crate::state::{exit_code, TaskView};
use crate::tools::{call_step, ActionView};

verus! {

/// Whether what to do next is what the session waits for.
pub open spec fn in_keeping(m: Move) -> bool {
    &&& m.session.sound()
    &&& match m.step {
        LoopStepView::Ask => m.session.phase is Asked,
        LoopStepView::Act(_) => m.session.phase is Acting,
        LoopStepView::Next => m.session.phase is Calling,
        LoopStepView::Save => m.session.phase is Ready,
        LoopStepView::Finish(_) | LoopStepView::Stop(_) | LoopStepView::Abort =>
            m.session.phase is Over,
    }
}

proof fn lemma_calls_keep(s: SessionView, config: ConfigView)
    requires
        s.sound(),
        s.phase is Calling,
    ensures
        in_keeping(calls_taken(s, config)),
    decreases s.calls.len() - s.next,
{
    if s.next < s.calls.len() {
        let one = call_taken(s, config, arguments_of(s.call().arguments));
        if one.session.phase is Calling {
            lemma_calls_keep(one.session, config);
        }
    }
}

/// Each step leaves the session waiting for just that: it can be followed by the next one, whatever
/// the model replies and whatever an action gives.
pub proof fn law_steps_follow_one_another(
    s: SessionView,
    config: ConfigView,
    interrupted: bool,
    reply: MessageView,
    found: CaptureView,
    error: LlmError,
    args: JsonView,
    result: JsonView,
)
    requires
        s.sound(),
    ensures
        s.phase is Ready ==> in_keeping(turn_begun(s, config, interrupted)),
        s.phase is Asked ==> in_keeping(reply_taken(s, reply, found)),
        s.phase is Asked ==> in_keeping(reply_failed(s, error)),
        s.phase is Calling && s.next < s.calls.len() ==> in_keeping(call_taken(s, config, args)),
        s.phase is Calling ==> in_keeping(calls_taken(s, config)),
        s.phase is Acting ==> in_keeping(result_taken(s, result)),
{
    if s.phase is Calling {
        lemma_calls_keep(s, config);
    }
}

/// Whether one list of messages goes on from another.
pub open spec fn goes_on(before: Seq<MessageView>, after: Seq<MessageView>) -> bool {
    before.len() <= after.len() && after.take(before.len() as int) == before
}

/// Whether each call of the turn that was taken has its answer, in order, behind the messages that
/// there were when the first was taken. An answer is the text of a value, in full.
pub open spec fn all_answered(s: SessionView, before: Seq<MessageView>) -> bool {
    &&& s.messages.len() == before.len() + s.next
    &&& s.messages.take(before.len() as int) == before
    &&& forall|i: int|
        0 <= i < s.next ==> (#[trigger] s.messages[before.len() + i]).role == "tool"@
            && s.messages[before.len() + i].tool_call_id == Some(s.calls[i].id)
            && exists|v: JsonView|
            s.messages[before.len() + i].content == Some(#[trigger] compact(v))
}

/// Whether each call of the turn that was taken has its own result for an answer, in order, behind
/// the messages that there were when the first was taken.
pub open spec fn all_told(s: SessionView, before: Seq<MessageView>, results: Seq<JsonView>) -> bool {
    &&& results.len() == s.next
    &&& s.messages.len() == before.len() + results.len()
    &&& s.messages.take(before.len() as int) == before
    &&& forall|i: int|
        0 <= i < results.len() ==> (#[trigger] s.messages[before.len() + i]).role == "tool"@
            && s.messages[before.len() + i].tool_call_id == Some(s.calls[i].id)
            && s.messages[before.len() + i].content == Some(compact(results[i]))
}

proof fn lemma_answered_one(s: SessionView, result: JsonView, before: Seq<MessageView>)
    requires
        all_answered(s, before),
        s.next < s.calls.len(),
    ensures
        all_answered(answered(s, result), before),
{
    let t = answered(s, result);
    assert(t.messages.take(before.len() as int) =~= before);
    assert forall|i: int| 0 <= i < t.next implies (#[trigger] t.messages[before.len() + i]).role
        == "tool"@ && t.messages[before.len() + i].tool_call_id == Some(t.calls[i].id) && exists|
        v: JsonView,
    | t.messages[before.len() + i].content == Some(#[trigger] compact(v)) by {
        if i < s.next {
            assert(t.messages[before.len() + i] == s.messages[before.len() + i]);
        } else {
            assert(t.messages[before.len() + i].content == Some(compact(result)));
        }
    }
}

proof fn lemma_told_one(
    s: SessionView,
    result: JsonView,
    before: Seq<MessageView>,
    results: Seq<JsonView>,
)
    requires
        all_told(s, before, results),
        s.next < s.calls.len(),
    ensures
        all_told(answered(s, result), before, results.push(result)),
{
    let t = answered(s, result);
    let all = results.push(result);
    assert(t.messages.take(before.len() as int) =~= before);
    assert forall|i: int| 0 <= i < all.len() implies (#[trigger] t.messages[before.len() + i]).role
        == "tool"@ && t.messages[before.len() + i].tool_call_id == Some(t.calls[i].id)
        && t.messages[before.len() + i].content == Some(compact(all[i])) by {
        if i < results.len() {
            assert(t.messages[before.len() + i] == s.messages[before.len() + i]);
        }
    }
}

/// The results that the calls of a turn get at once, from the next one on, up to one that acts on
/// the world or ends the task.
pub open spec fn given_at_once(s: SessionView, config: ConfigView) -> Seq<JsonView>
    decreases s.calls.len() - s.next,
{
    if s.next >= s.calls.len() {
        Seq::empty()
    } else {
        let args = arguments_of(s.call().arguments);
        let one = call_taken(s, config, args);
        if one.session.phase is Calling {
            seq![
                call_step(
                    s.call().name,
                    args,
                    config.auto_approve,
                    config.workdir,
                    s.todos,
                ).0->Answer_0,
            ] + given_at_once(one.session, config)
        } else {
            Seq::empty()
        }
    }
}

/// Each call of a turn is answered with its own result, in full and in order, and with nothing
/// else: the one that its tool gives at once, or the one of its action.
pub proof fn law_each_call_is_told_its_result(
    s: SessionView,
    config: ConfigView,
    before: Seq<MessageView>,
    results: Seq<JsonView>,
)
    requires
        s.sound(),
        s.phase is Calling,
        all_told(s, before, results),
    ensures
        calls_taken(s, config).step is Save || calls_taken(s, config).step is Act ==> all_told(
            calls_taken(s, config).session,
            before,
            results + given_at_once(s, config),
        ),
        calls_taken(s, config).step is Finish ==> {
            let told = before.len() + results.len() + given_at_once(s, config).len();
            let end = calls_taken(s, config).session.messages;
            &&& end.len() == told + 1
            &&& end.last().tool_call_id == Some(calls_taken(s, config).session.call().id)
        },
    decreases s.calls.len() - s.next,
{
    if s.next < s.calls.len() {
        let args = arguments_of(s.call().arguments);
        let one = call_taken(s, config, args);
        if one.session.phase is Calling {
            let (step, todos) = call_step(
                s.call().name,
                args,
                config.auto_approve,
                config.workdir,
                s.todos,
            );
            let result = step->Answer_0;
            let updated = SessionView {
                todos,
                last: one.session.last,
                repeats: one.session.repeats,
                ..s
            };
            lemma_told_one(updated, result, before, results);
            law_each_call_is_told_its_result(one.session, config, before, results.push(result));
            assert(results.push(result) + given_at_once(one.session, config) =~= results
                + given_at_once(s, config));
        } else {
            assert(results + given_at_once(s, config) =~= results);
        }
    } else {
        assert(results + given_at_once(s, config) =~= results);
    }
}

/// The result of an action goes back to the model in full, as the answer to the call that asked for
/// it: whatever reads the text of a value reads the result from that answer, and the rest of the
/// conversation stays as it was.
pub proof fn law_the_model_is_told_the_result(
    s: SessionView,
    result: JsonView,
    before: Seq<MessageView>,
    results: Seq<JsonView>,
)
    requires
        s.sound(),
        s.phase is Acting,
        all_told(s, before, results),
    ensures
        all_told(result_taken(s, result).session, before, results.push(result)),
        result_taken(s, result).session.messages.drop_last() == s.messages,
        result_taken(s, result).session.messages.last().content matches Some(text) && (reads_back(
            compact(result),
            result,
        ) && is_plain(result, 100) ==> parsed(text) == Ok::<JsonView, Seq<char>>(result)),
        result_taken(s, result).session.todos == s.todos,
        result_taken(s, result).session.last == s.last,
        result_taken(s, result).session.repeats == s.repeats,
{
    lemma_told_one(s, result, before, results);
    assert(result_taken(s, result).session.messages.drop_last() =~= s.messages);
}

/// Two results that differ are told differently, where what is printed can be read again.
pub proof fn law_results_are_told_apart(s: SessionView, a: JsonView, b: JsonView)
    requires
        is_plain(a, 100),
        is_plain(b, 100),
        reads_back(compact(a), a),
        reads_back(compact(b), b),
        result_taken(s, a).session.messages.last() == result_taken(s, b).session.messages.last(),
    ensures
        a == b,
{
}

/// The calls of a turn are taken one after the other, and each has its answer, under its id and in
/// order, before the turn is saved; where a call ends the task, it has its answer too.
pub proof fn law_calls_are_answered_in_order(
    s: SessionView,
    config: ConfigView,
    before: Seq<MessageView>,
)
    requires
        s.sound(),
        s.phase is Calling,
        all_answered(s, before),
    ensures
        calls_taken(s, config).session.calls == s.calls,
        calls_taken(s, config).step is Save ==> {
            &&& all_answered(calls_taken(s, config).session, before)
            &&& calls_taken(s, config).session.next == s.calls.len()
        },
        calls_taken(s, config).step is Act ==> all_answered(calls_taken(s, config).session, before),
        calls_taken(s, config).step is Finish ==> {
            let end = calls_taken(s, config).session;
            &&& end.next < s.calls.len()
            &&& end.messages.len() == before.len() + end.next + 1
            &&& end.messages.take(before.len() as int) == before
            &&& end.messages.last().role == "tool"@
            &&& end.messages.last().tool_call_id == Some(end.call().id)
        },
        goes_on(s.messages, calls_taken(s, config).session.messages),
    decreases s.calls.len() - s.next,
{
    if s.next < s.calls.len() {
        let args = arguments_of(s.call().arguments);
        let one = call_taken(s, config, args);
        if one.session.phase is Calling {
            let (step, todos) = call_step(
                s.call().name,
                args,
                config.auto_approve,
                config.workdir,
                s.todos,
            );
            let updated = SessionView {
                todos,
                last: one.session.last,
                repeats: one.session.repeats,
                ..s
            };
            lemma_answered_one(updated, step->Answer_0, before);
            law_calls_are_answered_in_order(one.session, config, before);
            assert(one.session.messages.take(s.messages.len() as int) =~= s.messages);
            let end = calls_taken(s, config).session.messages;
            assert(end.take(s.messages.len() as int) =~= end.take(
                one.session.messages.len() as int,
            ).take(s.messages.len() as int));
        } else {
            let end = one.session.messages;
            assert(end.take(s.messages.len() as int) =~= s.messages);
            assert(end.take(before.len() as int) =~= s.messages.take(before.len() as int));
        }
    } else {
        assert(s.messages.take(s.messages.len() as int) =~= s.messages);
    }
}

/// A reply with calls leaves all of them to be answered, behind what was said.
pub proof fn law_every_call_is_taken_up(s: SessionView, reply: MessageView, found: CaptureView)
    requires
        s.sound(),
        s.phase is Asked,
        reply_calls(reply).len() > 0,
        !(reply_taken(s, reply, found).step is Abort),
    ensures
        reply_taken(s, reply, found).step is Next,
        reply_taken(s, reply, found).session.calls == reply_calls(reply),
        all_answered(
            reply_taken(s, reply, found).session,
            s.messages.push(assistant_message(reply.content, reply.tool_calls)),
        ),
{
    let heard = s.messages.push(assistant_message(reply.content, reply.tool_calls));
    assert(heard.take(heard.len() as int) =~= heard);
}

/// The result of an action answers its call, behind those that were answered before.
pub proof fn law_every_action_is_answered(
    s: SessionView,
    result: JsonView,
    before: Seq<MessageView>,
)
    requires
        s.sound(),
        s.phase is Acting,
        all_answered(s, before),
    ensures
        all_answered(result_taken(s, result).session, before),
        result_taken(s, result).session.calls == s.calls,
        result_taken(s, result).session.next == s.next + 1,
{
    lemma_answered_one(s, result, before);
}

pub(crate) proof fn lemma_calls_go_on(s: SessionView, config: ConfigView)
    requires
        s.sound(),
        s.phase is Calling,
    ensures
        goes_on(s.messages, calls_taken(s, config).session.messages),
        calls_taken(s, config).session.task_id == s.task_id,
        calls_taken(s, config).session.created_at == s.created_at,
        calls_taken(s, config).session.turn == s.turn,
    decreases s.calls.len() - s.next,
{
    if s.next < s.calls.len() {
        let one = call_taken(s, config, arguments_of(s.call().arguments));
        assert(one.session.messages.take(s.messages.len() as int) =~= s.messages);
        if one.session.phase is Calling {
            lemma_calls_go_on(one.session, config);
            let end = calls_taken(s, config).session.messages;
            assert(end.take(s.messages.len() as int) =~= end.take(
                one.session.messages.len() as int,
            ).take(s.messages.len() as int));
        }
    } else {
        assert(s.messages.take(s.messages.len() as int) =~= s.messages);
    }
}

/// Nothing that was said is ever taken back, and the task keeps its id and its time of birth.
pub proof fn law_nothing_said_is_lost(
    s: SessionView,
    config: ConfigView,
    interrupted: bool,
    reply: MessageView,
    found: CaptureView,
    error: LlmError,
    result: JsonView,
)
    requires
        s.sound(),
    ensures
        keeps(s, turn_begun(s, config, interrupted).session),
        keeps(s, reply_taken(s, reply, found).session),
        keeps(s, reply_failed(s, error).session),
        keeps(s, result_taken(s, result).session),
        s.phase is Calling ==> keeps(s, calls_taken(s, config).session),
{
    assert(s.messages.take(s.messages.len() as int) =~= s.messages);
    let heard = reply_taken(s, reply, found).session.messages;
    assert(heard.take(s.messages.len() as int) =~= s.messages);
    let told = result_taken(s, result).session.messages;
    assert(told.take(s.messages.len() as int) =~= s.messages);
    if s.phase is Calling {
        lemma_calls_go_on(s, config);
    }
}

/// Whether a session holds all that an earlier one said, of the same task.
pub open spec fn keeps(before: SessionView, after: SessionView) -> bool {
    &&& goes_on(before.messages, after.messages)
    &&& after.task_id == before.task_id
    &&& after.created_at == before.created_at
}

/// The model is asked once in each turn, turn after turn, and in no more turns than are allowed:
/// once they are spent, the task stops as blocked.
pub proof fn law_turns_are_bounded(
    s: SessionView,
    config: ConfigView,
    interrupted: bool,
    reply: MessageView,
    found: CaptureView,
    error: LlmError,
    result: JsonView,
)
    requires
        s.sound(),
    ensures
        turn_begun(s, config, interrupted).step is Ask ==> turn_begun(
            s,
            config,
            interrupted,
        ).session.turn == s.turn + 1 <= config.max_turns,
        turn_begun(s, config, interrupted).step is Stop <==> s.turn >= config.max_turns,
        turn_begun(s, config, interrupted).step matches LoopStepView::Stop(out) ==> out.status
            == "blocked"@,
        same_turn(s, reply_taken(s, reply, found)),
        same_turn(s, reply_failed(s, error)),
        same_turn(s, result_taken(s, result)),
        s.phase is Calling ==> same_turn(s, calls_taken(s, config)),
{
    lemma_calls_do_not_ask(s, config);
    if s.phase is Calling {
        lemma_calls_go_on(s, config);
    }
}

/// Whether a move stays in its turn and does not ask the model.
pub open spec fn same_turn(s: SessionView, m: Move) -> bool {
    m.session.turn == s.turn && !(m.step is Ask)
}

proof fn lemma_calls_do_not_ask(s: SessionView, config: ConfigView)
    ensures
        !(calls_taken(s, config).step is Ask),
    decreases s.calls.len() - s.next,
{
    if s.next < s.calls.len() {
        let one = call_taken(s, config, arguments_of(s.call().arguments));
        if one.session.phase is Calling {
            lemma_calls_do_not_ask(one.session, config);
        }
    }
}

/// A task that was saved and is resumed goes on exactly where it was: with its id, its messages,
/// its todo list, its turn and its time of birth.
pub proof fn law_resume_goes_on_where_it_was_saved(
    s: SessionView,
    saved_under: ConfigView,
    saved_at: Seq<char>,
    resumed_under: ConfigView,
    id: Seq<char>,
    now: Seq<char>,
)
    ensures
        ({
            let again = begun(resumed_under, Some(kept(s, saved_under, saved_at)), id, now);
            &&& again.task_id == s.task_id
            &&& again.messages == s.messages
            &&& again.todos == s.todos
            &&& again.turn == s.turn
            &&& again.created_at == s.created_at
            &&& again.phase is Ready
            &&& again.sound()
        }),
{
}

/// A task that is saved at the end of a turn and stops there, or is broken off there, is saved as
/// it is at its end.
pub proof fn law_end_of_turn_saves_all(
    s: SessionView,
    config: ConfigView,
    interrupted: bool,
    now: Seq<char>,
)
    requires
        !(turn_begun(s, config, interrupted).step is Ask),
    ensures
        kept(turn_begun(s, config, interrupted).session, config, now) == kept(s, config, now),
{
}

/// Where the user broke in, a turn that could begin does not: the task is saved and ends as
/// interrupted.
pub proof fn law_interrupt_saves_and_ends(s: SessionView, config: ConfigView)
    requires
        s.turn < config.max_turns,
    ensures
        turn_begun(s, config, true).step matches LoopStepView::Finish(out) && out.status
            == "interrupted"@ && exit_code(out.status) == 130,
{
    crate::state::law_exit_codes_tell_apart("interrupted"@);
}

/// Whether an outcome has one of the four statuses.
pub open spec fn known_status(step: LoopStepView) -> bool {
    match step {
        LoopStepView::Finish(out) | LoopStepView::Stop(out) => out.status == "completed"@
            || out.status == "blocked"@ || out.status == "interrupted"@ || out.status == "error"@,
        _ => true,
    }
}

proof fn lemma_calls_status(s: SessionView, config: ConfigView)
    ensures
        known_status(calls_taken(s, config).step),
    decreases s.calls.len() - s.next,
{
    if s.next < s.calls.len() {
        let one = call_taken(s, config, arguments_of(s.call().arguments));
        if one.session.phase is Calling {
            lemma_calls_status(one.session, config);
        }
    }
}

/// A task ends as completed, blocked, interrupted or with an error, and no other way.
pub proof fn law_ends_are_known(
    s: SessionView,
    config: ConfigView,
    interrupted: bool,
    reply: MessageView,
    found: CaptureView,
    error: LlmError,
    result: JsonView,
)
    ensures
        known_status(turn_begun(s, config, interrupted).step),
        known_status(reply_taken(s, reply, found).step),
        known_status(reply_failed(s, error).step),
        known_status(calls_taken(s, config).step),
        known_status(result_taken(s, result).step),
{
    lemma_calls_status(s, config);
}

/// Whether a step runs no destructive command.
pub open spec fn harmless(step: LoopStepView) -> bool {
    step matches LoopStepView::Act(ActionView::Exec { command, args, .. }) ==> !destructive(
        command,
        args,
    )
}

/// Without approval a task never runs a destructive command, whatever the model replies: no step
/// but the taking of calls acts at all, and that one only harmlessly.
pub proof fn law_no_destructive_command_without_approval(
    s: SessionView,
    config: ConfigView,
    interrupted: bool,
    reply: MessageView,
    found: CaptureView,
    error: LlmError,
    args: JsonView,
    result: JsonView,
)
    requires
        !config.auto_approve,
    ensures
        harmless(call_taken(s, config, args).step),
        harmless(calls_taken(s, config).step),
        !(turn_begun(s, config, interrupted).step is Act),
        !(reply_taken(s, reply, found).step is Act),
        !(reply_failed(s, error).step is Act),
        !(result_taken(s, result).step is Act),
    decreases s.calls.len() - s.next,
{
    if s.next < s.calls.len() {
        let one = call_taken(s, config, arguments_of(s.call().arguments));
        if one.session.phase is Calling {
            law_no_destructive_command_without_approval(
                one.session,
                config,
                interrupted,
                reply,
                found,
                error,
                args,
                result,
            );
        }
    }
}

/// How many calls at the end of a list are the same.
pub open spec fn same_at_end(calls: Seq<Seq<char>>) -> nat
    decreases calls.len(),
{
    if calls.len() == 0 {
        0
    } else if calls.len() > 1 && calls[calls.len() - 2] == calls.last() {
        same_at_end(calls.drop_last()) + 1
    } else {
        1
    }
}

/// Whether a session counts as it must, given all calls that were made so far.
pub open spec fn counts(s: SessionView, calls: Seq<Seq<char>>) -> bool {
    &&& s.repeats == same_at_end(calls)
    &&& if calls.len() == 0 {
        s.last is None
    } else {
        s.last == Some(calls.last())
    }
}

/// The last three calls are the same.
pub open spec fn thrice(calls: Seq<Seq<char>>) -> bool {
    calls.len() >= 3 && calls[calls.len() - 1] == calls[calls.len() - 2] && calls[calls.len() - 2]
        == calls[calls.len() - 3]
}

/// A call ends the task as stuck just where it is the third of its kind in a row.
pub proof fn law_stuck_at_the_third_call(
    s: SessionView,
    config: ConfigView,
    args: JsonView,
    calls: Seq<Seq<char>>,
)
    requires
        s.sound(),
        s.phase is Calling,
        s.next < s.calls.len(),
        s.call().name != "finish"@,
        counts(s, calls),
    ensures
        ({
            let all = calls.push(signature(s.call()));
            let m = call_taken(s, config, args);
            &&& m.step is Finish <==> thrice(all)
            &&& m.step matches LoopStepView::Finish(out) ==> out.status == "blocked"@
            &&& counts(m.session, all)
        }),
{
    let sig = signature(s.call());
    let all = calls.push(sig);
    assert(all.drop_last() =~= calls);
    if calls.len() > 0 {
        let fewer = calls.drop_last();
        assert(all[all.len() - 2] == calls.last());
        if calls.len() > 1 {
            assert(all[all.len() - 3] == calls[calls.len() - 2]);
            if fewer.len() > 1 {
                lemma_some_at_end(fewer);
            }
        }
        lemma_some_at_end(calls);
    }
}

proof fn lemma_some_at_end(calls: Seq<Seq<char>>)
    ensures
        calls.len() > 0 ==> same_at_end(calls) >= 1,
        same_at_end(calls) <= calls.len(),
    decreases calls.len(),
{
    if calls.len() > 0 {
        lemma_some_at_end(calls.drop_last());
    }
}

/// A new or resumed session has made no calls.
pub proof fn law_count_begins_anew(
    config: ConfigView,
    existing: Option<TaskView>,
    id: Seq<char>,
    now: Seq<char>,
)
    ensures
        counts(begun(config, existing, id, now), Seq::empty()),
        begun(config, existing, id, now).sound(),
{
}

/// The count goes on over turns, replies and results: only calls change it.
pub proof fn law_count_goes_on(
    s: SessionView,
    config: ConfigView,
    interrupted: bool,
    reply: MessageView,
    found: CaptureView,
    result: JsonView,
    calls: Seq<Seq<char>>,
)
    requires
        counts(s, calls),
    ensures
        counts(turn_begun(s, config, interrupted).session, calls),
        counts(reply_taken(s, reply, found).session, calls),
        counts(result_taken(s, result).session, calls),
{
}

proof fn lemma_calls_loggable(s: SessionView, config: ConfigView)
    ensures
        forall|i: int|
            0 <= i < calls_taken(s, config).events.len() ==> loggable(
                #[trigger] calls_taken(s, config).events[i],
            ),
    decreases s.calls.len() - s.next,
{
    if s.next < s.calls.len() {
        let one = call_taken(s, config, arguments_of(s.call().arguments));
        if one.session.phase is Calling {
            lemma_calls_loggable(one.session, config);
            let rest = calls_taken(one.session, config).events;
            let all = calls_taken(s, config).events;
            assert forall|i: int| 0 <= i < all.len() implies loggable(#[trigger] all[i]) by {
                if i >= one.events.len() {
                    assert(all[i] == rest[i - one.events.len()]);
                }
            }
        }
    }
}

/// Whether all of some events can be logged.
pub open spec fn all_loggable(events: Seq<EventView>) -> bool {
    forall|i: int| 0 <= i < events.len() ==> loggable(#[trigger] events[i])
}

/// Whatever there is to tell can be logged.
pub proof fn law_events_can_be_logged(
    s: SessionView,
    config: ConfigView,
    interrupted: bool,
    reply: MessageView,
    found: CaptureView,
    error: LlmError,
    result: JsonView,
)
    ensures
        all_loggable(turn_begun(s, config, interrupted).events),
        all_loggable(reply_taken(s, reply, found).events),
        all_loggable(reply_failed(s, error).events),
        all_loggable(calls_taken(s, config).events),
        all_loggable(result_taken(s, result).events),
{
    lemma_calls_loggable(s, config);
}

/// How far a task is from its end: the turns that are left, the stage of the turn, and the calls of
/// the turn that are left, each to be taken and answered.
pub open spec fn left(s: SessionView, config: ConfigView) -> (int, int, int) {
    (
        config.max_turns - s.turn,
        match s.phase {
            Phase::Asked => 3,
            Phase::Calling | Phase::Acting => 2,
            Phase::Ready => 1,
            Phase::Over => 0,
        },
        2 * (s.calls.len() - s.next) + if s.phase is Calling {
            1int
        } else {
            0
        },
    )
}

/// Whether less is left: of turns, or of the same turn.
pub open spec fn is_less(a: (int, int, int), b: (int, int, int)) -> bool {
    a.0 < b.0 || (a.0 == b.0 && (a.1 < b.1 || (a.1 == b.1 && a.2 < b.2)))
}

proof fn lemma_calls_move_on(s: SessionView, config: ConfigView)
    requires
        s.sound(),
        s.phase is Calling,
    ensures
        calls_taken(s, config).session.next >= s.next,
        calls_taken(s, config).session.calls == s.calls,
        calls_taken(s, config).session.turn == s.turn,
        !(calls_taken(s, config).session.phase is Asked),
        !(calls_taken(s, config).session.phase is Calling),
    decreases s.calls.len() - s.next,
{
    if s.next < s.calls.len() {
        let one = call_taken(s, config, arguments_of(s.call().arguments));
        if one.session.phase is Calling {
            lemma_calls_move_on(one.session, config);
        }
    }
}

/// A task comes to an end, whatever the model replies: each step leaves less to do, and there is
/// only so much to begin with.
pub proof fn law_every_task_ends(
    s: SessionView,
    config: ConfigView,
    interrupted: bool,
    reply: MessageView,
    found: CaptureView,
    error: LlmError,
    args: JsonView,
    result: JsonView,
)
    requires
        s.sound(),
    ensures
        s.phase is Ready ==> is_less(
            left(turn_begun(s, config, interrupted).session, config),
            left(s, config),
        ),
        s.phase is Asked ==> is_less(
            left(reply_taken(s, reply, found).session, config),
            left(s, config),
        ),
        s.phase is Asked ==> is_less(left(reply_failed(s, error).session, config), left(s, config)),
        s.phase is Calling && s.next < s.calls.len() ==> is_less(
            left(call_taken(s, config, args).session, config),
            left(s, config),
        ),
        s.phase is Calling ==> is_less(
            left(calls_taken(s, config).session, config),
            left(s, config),
        ),
        s.phase is Acting ==> is_less(left(result_taken(s, result).session, config), left(s, config)),
        s.phase is Ready && left(s, config).0 <= 0 ==> turn_begun(
            s,
            config,
            interrupted,
        ).session.phase is Over,
        left(s, config).1 >= 0,
        left(s, config).2 >= 0,
{
    if s.phase is Calling {
        lemma_calls_move_on(s, config);
    }
}

}
