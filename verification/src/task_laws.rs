//! What holds of a task's steps: how it begins, what each reply and each call comes to, how it ends,
//! and under what terms it goes on once it was saved.

use vstd::prelude::*;
use vstd::string::*;
use vstd::utf8::*;

use crate::chat::{
    begun, call_taken, calls_taken, finish_note, kept, log_line, reply_calls, reply_failed,
    reply_taken, result_taken, signature, stuck_note, turn_begun, ConfigView, EventView,
    written_call, LoopStepView, Move, SessionView,
};
use crate::cli::{terms, Command};
use crate::inline::{lowered, CaptureView};
use crate::inline_laws::{law_a_written_call_gives_its_answer, law_other_words_are_no_call};
use crate::json::{compact, parsed, JsonView};
use crate::llm::{arguments_of, error_message, CallView, LlmError, MessageView};
use crate::text::{
    byte_len, clipped, contains_seq, cuts_clean, decimal, lowercase, occurs_at, shortened,
    trimmed_end,
};
use crate::text_laws::{
    ends_with, law_ascii_cuts_anywhere, law_clipped_texts_keep_what_fits,
    lemma_stands_between, lemma_stands_last, lemma_stays_before, lemma_stays_behind,
    lemma_three_stand, lemma_two_stand,
};
use crate::todo::summary_of;
use crate::tools::{call_step, StepView};

verus! {

/// A task that was saved under some terms and is resumed without other wishes runs under the same
/// terms, and takes its next turn just where it had one left.
pub proof fn law_saved_terms_are_resumed(
    s: SessionView,
    config: ConfigView,
    now: Seq<char>,
    command: Command,
    workdir: Seq<char>,
    id: Seq<char>,
    later: Seq<char>,
)
    requires
        command matches Command::Resume { yes, model, max_turns, .. } && !yes && model is None
            && max_turns is None,
    ensures
        terms(command, workdir, Some(kept(s, config, now))) is Some,
        ({
            let again = terms(command, workdir, Some(kept(s, config, now)))->0;
            let resumed = begun(again, Some(kept(s, config, now)), id, later);
            &&& again.task == config.task
            &&& again.max_turns == config.max_turns
            &&& again.model == config.model
            &&& again.auto_approve == config.auto_approve
            &&& again.workdir == workdir
            &&& resumed.turn == s.turn
            &&& turn_begun(resumed, again, false).step is Ask <==> s.turn < config.max_turns
            &&& s.turn < config.max_turns ==> turn_begun(resumed, again, false).session.turn
                == s.turn + 1
        }),
{
}

/// A task that was broken off has its turns left when it is resumed: it goes on with the next one.
pub proof fn law_broken_off_task_goes_on(
    s: SessionView,
    config: ConfigView,
    now: Seq<char>,
    command: Command,
    workdir: Seq<char>,
    id: Seq<char>,
    later: Seq<char>,
)
    requires
        command matches Command::Resume { max_turns, .. } && max_turns is None,
        turn_begun(s, config, true).step matches LoopStepView::Finish(_),
    ensures
        ({
            let saved = kept(turn_begun(s, config, true).session, config, now);
            let again = terms(command, workdir, Some(saved))->0;
            let moved = turn_begun(begun(again, Some(saved), id, later), again, false);
            &&& moved.step is Ask
            &&& moved.session.turn == s.turn + 1
            &&& moved.session.messages == s.messages
            &&& moved.session.todos == s.todos
        }),
{
}

/// What the user wishes on resuming counts before what was saved; approval is given by either.
pub proof fn law_wishes_count_on_resuming(
    s: SessionView,
    config: ConfigView,
    now: Seq<char>,
    command: Command,
    workdir: Seq<char>,
)
    requires
        command is Resume,
    ensures
        terms(command, workdir, Some(kept(s, config, now))) matches Some(again) && {
            &&& command matches Command::Resume { max_turns: Some(n), .. } ==> again.max_turns == n
            &&& command matches Command::Resume { model: Some(m), .. } ==> again.model == Some(m@)
            &&& command matches Command::Resume { yes, .. } ==> again.auto_approve == (yes
                || config.auto_approve)
            &&& command matches Command::Resume { llm_config, .. } ==> again.config_path
                == llm_config@
            &&& command matches Command::Resume { json, .. } ==> again.json_output == json
            &&& again.task == config.task
        },
{
}

/// What is kept of a task is all that the session says of it, and the terms it runs under.
pub proof fn law_all_of_a_task_is_kept(s: SessionView, config: ConfigView, now: Seq<char>)
    ensures
        kept(s, config, now).task_id == s.task_id,
        kept(s, config, now).messages == s.messages,
        kept(s, config, now).todos == s.todos,
        kept(s, config, now).turn_count == s.turn,
        kept(s, config, now).created_at == s.created_at,
        kept(s, config, now).updated_at == now,
        kept(s, config, now).task == config.task,
        kept(s, config, now).max_turns == config.max_turns,
        kept(s, config, now).model == config.model,
        kept(s, config, now).config_path == config.config_path,
        kept(s, config, now).auto_approve == config.auto_approve,
{
}

/// A new task begins with what the model must know: the working directory, the task word for word
/// in the user's name, and that destructive commands are allowed just where they are.
pub proof fn law_new_task_is_put_to_the_model(config: ConfigView, id: Seq<char>, now: Seq<char>)
    ensures
        ({
            let s = begun(config, None, id, now);
            &&& s.messages.len() == if config.auto_approve {
                3int
            } else {
                2
            }
            &&& s.messages[0].role == "system"@
            &&& s.messages[0].content matches Some(text) && ends_with(text, config.workdir)
            &&& s.messages[1].role == "user"@
            &&& s.messages[1].content matches Some(text) && ends_with(text, config.task)
                && text.len() == "Task: "@.len() + config.task.len()
            &&& config.auto_approve ==> s.messages[2].role == "system"@ && (
            s.messages[2].content matches Some(text) && contains_seq(text, "--yes"@))
            &&& forall|i: int|
                0 <= i < s.messages.len() ==> (#[trigger] s.messages[i]).tool_calls is None
                    && s.messages[i].tool_call_id is None
            &&& s.todos.len() == 0
            &&& s.turn == 0
            &&& s.task_id == id
            &&& s.created_at == now
            &&& s.phase is Ready
        }),
{
    let s = begun(config, None, id, now);
    lemma_stands_last(crate::chat::PROMPT@, config.workdir);
    lemma_stands_last("Task: "@, config.task);
    if config.auto_approve {
        let text = "destructive commands are allowed: the user passed --yes"@;
        reveal_strlit("destructive commands are allowed: the user passed --yes");
        reveal_strlit("--yes");
        assert(text.subrange(50, 55) =~= "--yes"@);
        assert(occurs_at(text, "--yes"@, 50));
    }
}

/// A turn begins just where one is left and the user did not break in. It counts itself, and
/// changes nothing of what was said.
pub proof fn law_turns_begin_while_they_last(
    s: SessionView,
    config: ConfigView,
    interrupted: bool,
)
    ensures
        turn_begun(s, config, interrupted).step is Ask <==> s.turn < config.max_turns
            && !interrupted,
        turn_begun(s, config, interrupted).session.messages == s.messages,
        turn_begun(s, config, interrupted).session.todos == s.todos,
        turn_begun(s, config, interrupted).session.last == s.last,
        turn_begun(s, config, interrupted).session.repeats == s.repeats,
        turn_begun(s, config, interrupted).step is Ask ==> {
            &&& turn_begun(s, config, interrupted).session.turn == s.turn + 1
            &&& turn_begun(s, config, interrupted).events == seq![
                EventView::TurnStart { turn: (s.turn + 1) as u32, max: config.max_turns },
            ]
        },
        !(turn_begun(s, config, interrupted).step is Ask) ==> turn_begun(
            s,
            config,
            interrupted,
        ).session.turn == s.turn,
{
}

proof fn lemma_hint_stands_last(front: Seq<char>, id: Seq<char>)
    ensures
        ends_with(front + ". resume with: agentic resume "@ + id, "agentic resume "@ + id),
{
    reveal_strlit("agentic resume ");
    reveal_strlit(". resume with: agentic resume ");
    let link = ". resume with: agentic resume "@;
    let hint = "agentic resume "@ + id;
    assert(link.skip(15) =~= "agentic resume "@);
    let whole = front + link + id;
    assert(whole.skip(whole.len() - hint.len()) =~= link.skip(15) + id);
}

/// A task that stops for want of turns, or is broken off, says how to go on with it by its id.
pub proof fn law_stopped_task_says_how_to_resume(
    s: SessionView,
    config: ConfigView,
    interrupted: bool,
)
    ensures
        turn_begun(s, config, interrupted).step matches LoopStepView::Stop(out) ==> ends_with(
            out.final_answer,
            "agentic resume "@ + s.task_id,
        ) && contains_seq(out.final_answer, decimal(config.max_turns as nat)) && out.status
            == "blocked"@,
        turn_begun(s, config, interrupted).step matches LoopStepView::Finish(out) ==> ends_with(
            out.final_answer,
            "agentic resume "@ + s.task_id,
        ) && contains_seq(out.final_answer, decimal(s.turn as nat)) && out.status
            == "interrupted"@,
{
    let id = s.task_id;
    let max = decimal(config.max_turns as nat);
    let turn = decimal(s.turn as nat);
    let link = ". resume with: agentic resume "@;
    let first = "reached max turns ("@ + max + "). task saved as "@ + id;
    lemma_hint_stands_last(first, id);
    lemma_two_stand("reached max turns ("@, max, "). task saved as "@, id);
    lemma_stays_before(first, link, max);
    lemma_stays_before(first + link, id, max);
    let second = "interrupted at turn "@ + turn + ". task saved as "@ + id;
    lemma_hint_stands_last(second, id);
    lemma_two_stand("interrupted at turn "@, turn, ". task saved as "@, id);
    lemma_stays_before(second, link, turn);
    lemma_stays_before(second + link, id, turn);
}

/// Whether an outcome tells of the session as it is: its id, its turns and its todo list.
pub open spec fn ends_as_it_is(m: Move) -> bool {
    match m.step {
        LoopStepView::Finish(out) | LoopStepView::Stop(out) => out.task_id == m.session.task_id
            && out.turns == m.session.turn && out.todos == m.session.todos,
        _ => true,
    }
}

proof fn lemma_calls_end_as_they_are(s: SessionView, config: ConfigView)
    ensures
        ends_as_it_is(calls_taken(s, config)),
    decreases s.calls.len() - s.next,
{
    if s.next < s.calls.len() {
        let one = call_taken(s, config, arguments_of(s.call().arguments));
        if one.session.phase is Calling {
            lemma_calls_end_as_they_are(one.session, config);
        }
    }
}

/// However a task ends, its outcome tells of the task as it is at its end.
pub proof fn law_outcomes_tell_of_the_task(
    s: SessionView,
    config: ConfigView,
    interrupted: bool,
    reply: MessageView,
    found: CaptureView,
    error: LlmError,
    args: JsonView,
)
    ensures
        ends_as_it_is(turn_begun(s, config, interrupted)),
        ends_as_it_is(reply_taken(s, reply, found)),
        ends_as_it_is(reply_failed(s, error)),
        ends_as_it_is(call_taken(s, config, args)),
        ends_as_it_is(calls_taken(s, config)),
{
    lemma_calls_end_as_they_are(s, config);
}

/// What the model says is kept in the conversation as it said it, words and calls, and told.
pub proof fn law_replies_are_kept_as_they_are(
    s: SessionView,
    reply: MessageView,
    found: CaptureView,
)
    ensures
        ({
            let m = reply_taken(s, reply, found);
            &&& m.session.messages.drop_last() == s.messages
            &&& m.session.messages.last().role == "assistant"@
            &&& m.session.messages.last().content == reply.content
            &&& m.session.messages.last().tool_calls == reply.tool_calls
            &&& m.session.messages.last().tool_call_id is None
            &&& m.session.todos == s.todos
            &&& m.session.turn == s.turn
            &&& reply.tool_calls matches Some(calls) ==> (calls.len() > 0 && !(m.step is Abort)
                ==> m.session.calls == calls && m.session.next == 0)
            &&& reply.content matches Some(text) ==> (text.len() > 0 && cuts_clean(text, 200)
                ==> m.events == seq![EventView::AssistantResponse { text }])
            &&& reply.content is None ==> m.events.len() == 0
        }),
{
    let m = reply_taken(s, reply, found);
    assert(m.session.messages.drop_last() =~= s.messages);
}

/// A reply without calls completes the task. Its answer is what the model said, word for word, or
/// the answer of a closing call that it wrote as text.
pub proof fn law_words_complete_the_task(s: SessionView, reply: MessageView, found: CaptureView)
    requires
        reply.tool_calls matches Some(calls) ==> calls.len() == 0,
        reply.content matches Some(text) ==> cuts_clean(text, 200),
    ensures
        found is Missing ==> (reply_taken(s, reply, found).step matches LoopStepView::Finish(out)
            && out.status == "completed"@ && out.final_answer == (match reply.content {
            Some(text) => text,
            None => Seq::empty(),
        })),
        found matches CaptureView::Found(answer) ==> (reply_taken(
            s,
            reply,
            found,
        ).step matches LoopStepView::Finish(out) && out.status == "completed"@ && out.final_answer
            == answer),
{
}

/// A reply in ASCII never makes a task give up, and a reply with calls always leads on to them.
pub proof fn law_plain_replies_lead_on(s: SessionView, reply: MessageView, found: CaptureView)
    requires
        reply.content matches Some(text) ==> is_ascii_chars(text) || byte_len(text) <= 200,
    ensures
        reply_calls(reply).len() > 0 ==> reply_taken(s, reply, found).step is Next,
        reply_calls(reply).len() == 0 && !(found is Inside) ==> reply_taken(
            s,
            reply,
            found,
        ).step is Finish,
{
    if let Some(text) = reply.content {
        if is_ascii_chars(text) {
            law_ascii_cuts_anywhere(text, 200);
        }
    }
}

/// Where the model could not be asked, the task ends with the error in words, and nothing that was
/// said is touched.
pub proof fn law_errors_end_the_task(s: SessionView, e: LlmError)
    ensures
        reply_failed(s, e).step matches LoopStepView::Finish(out) && out.status == "error"@
            && out.final_answer == error_message(e),
        reply_failed(s, e).session.messages == s.messages,
        reply_failed(s, e).session.todos == s.todos,
{
}

/// A call of `finish` ends the task: as blocked just where the model says so, with the result that
/// it names for an answer.
pub proof fn law_finish_ends_the_task(s: SessionView, config: ConfigView, args: JsonView)
    requires
        s.call().name == "finish"@,
    ensures
        ({
            let m = call_taken(s, config, args);
            &&& m.session.phase is Over
            &&& m.session.todos == s.todos
            &&& m.session.messages.drop_last() == s.messages
            &&& m.session.messages.last().tool_call_id == Some(s.call().id)
            &&& m.step matches LoopStepView::Finish(out) && {
                &&& args.get("result"@) matches Some(JsonView::Text(text)) ==> out.final_answer
                    == text
                &&& args.text_at("result"@) is None ==> out.final_answer.len() == 0
                &&& args.get("blocked"@) == Some(JsonView::Bool(true)) ==> out.status == "blocked"@
                &&& args.get("blocked"@) != Some(JsonView::Bool(true)) ==> out.status
                    == "completed"@
                &&& m.session.messages.last().content == Some(compact(finish_note(out.status)))
            }
        }),
        finish_note("blocked"@).text_at("status"@) == Some("blocked"@),
        finish_note("completed"@).text_at("status"@) == Some("completed"@),
        finish_note("completed"@).flag_at("ok"@) == Some(true),
{
    let m = call_taken(s, config, args);
    assert(m.session.messages.drop_last() =~= s.messages);
    reveal_strlit("ok");
    reveal_strlit("status");
    assert("ok"@.len() == 2 && "status"@.len() == 6);
}

/// Whether the next call would be the third of its kind in a row.
pub open spec fn would_be_stuck(s: SessionView) -> bool {
    s.last == Some(signature(s.call())) && s.repeats >= 2
}

/// A call is carried out as its tool takes it: it acts on the world where the tool acts, and is
/// answered at once where the tool answers. Nothing else happens to the task.
pub proof fn law_calls_are_carried_out(s: SessionView, config: ConfigView, args: JsonView)
    requires
        s.sound(),
        s.phase is Calling,
        s.next < s.calls.len(),
        s.call().name != "finish"@,
        !would_be_stuck(s),
    ensures
        ({
            let m = call_taken(s, config, args);
            let (step, todos) = call_step(
                s.call().name,
                args,
                config.auto_approve,
                config.workdir,
                s.todos,
            );
            &&& m.session.todos == todos
            &&& m.session.calls == s.calls
            &&& m.session.turn == s.turn
            &&& step matches StepView::Act(action) ==> m.step == LoopStepView::Act(action)
                && m.session.messages == s.messages && m.session.next == s.next
            &&& step matches StepView::Answer(result) ==> m.step is Next
                && m.session.messages.drop_last() == s.messages && m.session.messages.last().content
                == Some(compact(result)) && m.session.messages.last().tool_call_id == Some(
                s.call().id,
            ) && m.session.next == s.next + 1
        }),
{
    let m = call_taken(s, config, args);
    if m.step is Next {
        assert(m.session.messages.drop_last() =~= s.messages);
    }
}

/// The arguments of a call are what its text holds, as it stands; a text that holds nothing that
/// can be read counts as no arguments.
pub proof fn law_arguments_are_what_the_text_holds(text: Seq<char>, v: JsonView)
    ensures
        text.len() > 0 && parsed(text) == Ok::<JsonView, Seq<char>>(v) ==> arguments_of(text) == v,
        text.len() == 0 || parsed(text) is Err ==> forall|key: Seq<char>| #[trigger]
            arguments_of(text).get(key) is None,
        text.len() == 0 || parsed(text) is Err ==> arguments_of(text) is Object,
{
}

/// The calls of a turn are taken with the arguments that the model gave, one after the other; a
/// call that acts on the world or ends the task is waited for before the next is taken.
pub proof fn law_calls_are_taken_with_their_arguments(
    s: SessionView,
    config: ConfigView,
    v: JsonView,
)
    requires
        s.sound(),
        s.phase is Calling,
    ensures
        s.next >= s.calls.len() ==> calls_taken(s, config).step is Save && calls_taken(
            s,
            config,
        ).session.messages == s.messages,
        s.next < s.calls.len() && s.call().arguments.len() > 0 && parsed(s.call().arguments) == Ok::<
            JsonView,
            Seq<char>,
        >(v) ==> arguments_of(s.call().arguments) == v,
        s.next < s.calls.len() ==> {
            let one = call_taken(s, config, arguments_of(s.call().arguments));
            &&& !(one.step is Next) ==> calls_taken(s, config) == one
            &&& one.step is Next ==> calls_taken(s, config).session == calls_taken(
                one.session,
                config,
            ).session && calls_taken(s, config).step == calls_taken(one.session, config).step
                && calls_taken(s, config).events == one.events + calls_taken(
                one.session,
                config,
            ).events
        },
{
}

/// Two calls count as the same just where they are of the same tool with the same arguments.
pub proof fn law_same_calls_are_the_same_throughout(a: CallView, b: CallView)
    requires
        forall|i: int| 0 <= i < a.name.len() ==> #[trigger] a.name[i] != ':',
        forall|i: int| 0 <= i < b.name.len() ==> #[trigger] b.name[i] != ':',
    ensures
        signature(a) == signature(b) <==> a.name == b.name && a.arguments == b.arguments,
{
    reveal_strlit(":");
    let x = signature(a);
    let y = signature(b);
    if x == y {
        assert(x[a.name.len() as int] == ':');
        assert(y[b.name.len() as int] == ':');
        if a.name.len() < b.name.len() {
            assert(y[a.name.len() as int] == b.name[a.name.len() as int]);
        }
        if b.name.len() < a.name.len() {
            assert(x[b.name.len() as int] == a.name[b.name.len() as int]);
        }
        assert(a.name =~= x.take(a.name.len() as int));
        assert(b.name =~= y.take(b.name.len() as int));
        assert(a.arguments =~= x.skip((a.name.len() + 1) as int));
        assert(b.arguments =~= y.skip((b.name.len() + 1) as int));
    }
}

/// A call that differs from the one before, in its tool or its arguments, is never one too many.
pub proof fn law_another_call_is_not_stuck(
    s: SessionView,
    config: ConfigView,
    args: JsonView,
    previous: CallView,
)
    requires
        s.sound(),
        s.phase is Calling,
        s.next < s.calls.len(),
        s.call().name != "finish"@,
        s.last == Some(signature(previous)),
        previous.name != s.call().name || previous.arguments != s.call().arguments,
        forall|i: int| 0 <= i < previous.name.len() ==> #[trigger] previous.name[i] != ':',
        forall|i: int| 0 <= i < s.call().name.len() ==> #[trigger] s.call().name[i] != ':',
    ensures
        !(call_taken(s, config, args).step is Finish),
        call_taken(s, config, args).session.repeats == 1,
        call_taken(s, config, args).session.last == Some(signature(s.call())),
{
    law_same_calls_are_the_same_throughout(s.call(), previous);
}

/// A task that is stuck ends as blocked: it names the tool and the task, and tells the model.
pub proof fn law_stuck_task_says_so(s: SessionView, config: ConfigView, args: JsonView)
    requires
        s.sound(),
        s.phase is Calling,
        s.next < s.calls.len(),
        s.call().name != "finish"@,
        would_be_stuck(s),
    ensures
        ({
            let m = call_taken(s, config, args);
            &&& m.session.todos == s.todos
            &&& m.session.messages.drop_last() == s.messages
            &&& m.session.messages.last().tool_call_id == Some(s.call().id)
            &&& m.step matches LoopStepView::Finish(out) && {
                &&& out.status == "blocked"@
                &&& contains_seq(out.final_answer, s.call().name)
                &&& ends_with(out.final_answer, s.task_id)
                &&& m.session.messages.last().content == Some(
                    compact(stuck_note(out.final_answer)),
                )
                &&& stuck_note(out.final_answer).text_at("error"@) == Some(out.final_answer)
                &&& stuck_note(out.final_answer).flag_at("stuck"@) == Some(true)
            }
        }),
{
    let m = call_taken(s, config, args);
    assert(m.session.messages.drop_last() =~= s.messages);
    let name = s.call().name;
    let repeats = (s.repeats + 1) as u32;
    lemma_three_stand(
        "stuck: the agent called "@,
        name,
        " with the same arguments "@,
        decimal(repeats as nat),
        " times in a row. task saved as "@,
        s.task_id,
    );
    reveal_strlit("error");
    reveal_strlit("stuck");
    assert("error"@[0] == 'e' && "stuck"@[0] == 's');
}

/// What is told on the way is what happened: the call with its tool and arguments as the model made
/// it, then its result in full, then the state of the todo list where there is one.
pub proof fn law_events_tell_what_happened(
    s: SessionView,
    config: ConfigView,
    args: JsonView,
    result: JsonView,
)
    ensures
        call_taken(s, config, args).events[0] == (EventView::ToolCalled {
            name: s.call().name,
            args: s.call().arguments,
        }),
        !(call_taken(s, config, args).step is Next) ==> call_taken(s, config, args).events.len()
            == 1,
        result_taken(s, result).events[0] == (EventView::ToolFinished {
            name: s.call().name,
            result: compact(result),
        }),
        s.todos.len() == 0 ==> result_taken(s, result).events.len() == 1,
        s.todos.len() > 0 ==> result_taken(s, result).events.len() == 2 && result_taken(
            s,
            result,
        ).events[1] == (EventView::TodoChanged { summary: summary_of(s.todos) }),
        call_taken(s, config, args).step is Next ==> {
            let m = call_taken(s, config, args);
            &&& m.events[1] matches EventView::ToolFinished { name, result: told } && name
                == s.call().name && Some(told) == m.session.messages.last().content
            &&& m.session.todos.len() == 0 ==> m.events.len() == 2
            &&& m.session.todos.len() > 0 ==> m.events.len() == 3 && m.events[2] == (
            EventView::TodoChanged { summary: summary_of(m.session.todos) })
        },
{
}

/// With JSON as output nothing is logged; else each event has a line of its turn that holds what
/// it says, cut only where it is long.
pub proof fn law_log_lines_hold_what_happened(json: bool, turn: u32, event: EventView)
    ensures
        log_line(json, turn, event) is None <==> json,
        !json ==> (log_line(json, turn, event) matches Some(line) && contains_seq(
            line,
            decimal(turn as nat),
        ) && match event {
            EventView::TurnStart { .. } => ends_with(line, "calling llm"@),
            EventView::AssistantResponse { text } => ends_with(line, shortened(text, 200)) && (
            byte_len(text) <= 200 ==> ends_with(line, text)),
            EventView::ToolCalled { name, args } => contains_seq(line, name) && contains_seq(
                line,
                args,
            ),
            EventView::ToolFinished { name, result } => contains_seq(line, name) && ends_with(
                line,
                clipped(result, 200),
            ) && (byte_len(result) <= 200 ==> ends_with(line, result)),
            EventView::TodoChanged { summary } => ends_with(line, summary),
        }),
{
    if !json {
        let front = "[turn "@ + decimal(turn as nat) + "] "@;
        let said = crate::chat::log_text(event);
        lemma_stands_between("[turn "@, decimal(turn as nat), "] "@);
        lemma_stays_before(front, said, decimal(turn as nat));
        match event {
            EventView::TurnStart { .. } => {
                lemma_stands_last(front, said);
            },
            EventView::AssistantResponse { text } => {
                let shown = shortened(text, 200);
                lemma_stands_last("llm said: "@, shown);
                lemma_stays_behind(front, said, shown);
            },
            EventView::ToolCalled { name, args } => {
                lemma_two_stand("tool: "@, name, "("@, args);
                let most = "tool: "@ + name + "("@ + args;
                lemma_stays_before(most, ")"@, name);
                lemma_stays_before(most, ")"@, args);
                lemma_stays_behind(front, said, name);
                lemma_stays_behind(front, said, args);
            },
            EventView::ToolFinished { name, result } => {
                let shown = clipped(result, 200);
                lemma_two_stand("result: "@, name, " "@, shown);
                lemma_stays_behind(front, said, name);
                lemma_stays_behind(front, said, shown);
                law_clipped_texts_keep_what_fits(result, 200);
            },
            EventView::TodoChanged { summary } => {
                lemma_stands_last("todos: "@, summary);
                lemma_stays_behind(front, said, summary);
            },
        }
    }
}

/// A reply without calls in which a closing call is written as text completes the task with the
/// answer of that call; one in which none is written completes it with all of its words.
pub proof fn law_a_written_call_completes_the_task(
    s: SessionView,
    reply: MessageView,
    before: Seq<char>,
    answer: Seq<char>,
    after: Seq<char>,
)
    requires
        reply.tool_calls matches Some(calls) ==> calls.len() == 0,
        is_ascii_chars(before),
        is_ascii_chars(answer),
        is_ascii_chars(after),
        forall|i: int| 0 <= i < before.len() ==> #[trigger] before[i] != '"' && before[i] != '(',
        forall|i: int| 0 <= i < answer.len() ==> #[trigger] answer[i] != '"',
        reply.content == Some(before + "finish(result=\""@ + answer + seq!['"'] + after),
        lowercase(reply.content->0) == lowered(reply.content->0),
    ensures
        reply_taken(s, reply, written_call(reply)).step matches LoopStepView::Finish(out)
            && out.status == "completed"@ && out.final_answer == if trimmed_end(before).len() == 0 {
            answer
        } else {
            trimmed_end(before)
        },
{
    let text = reply.content->0;
    reveal_strlit("finish(result=\"");
    assert(is_ascii_chars(text));
    law_ascii_cuts_anywhere(text, 200);
    law_a_written_call_gives_its_answer(before, answer, after);
    law_words_complete_the_task(s, reply, written_call(reply));
}

/// Words in which no result is named complete the task as they stand.
pub proof fn law_words_complete_the_task_as_they_stand(
    s: SessionView,
    reply: MessageView,
    text: Seq<char>,
)
    requires
        reply.tool_calls matches Some(calls) ==> calls.len() == 0,
        reply.content == Some(text),
        is_ascii_chars(text),
        lowercase(text) == lowered(text),
        !contains_seq(lowered(text), "result"@),
    ensures
        reply_taken(s, reply, written_call(reply)).step matches LoopStepView::Finish(out)
            && out.status == "completed"@ && out.final_answer == text,
{
    law_ascii_cuts_anywhere(text, 200);
    law_other_words_are_no_call(text);
    law_words_complete_the_task(s, reply, written_call(reply));
}

/// A reply with calls is not searched for a written one.
pub proof fn law_calls_count_before_words(reply: MessageView)
    requires
        reply_calls(reply).len() > 0,
    ensures
        written_call(reply) is Missing,
{
}

}
