//! What holds of the tools as a whole.

use vstd::prelude::*;
use vstd::string::*;
use vstd::utf8::*;

use crate::json::JsonView;
use crate::reports::{
    cut_to, exec_told, grep_told, matches_told, read_told, results_told, search_told, write_course,
    ExecOutcome, GrepOutcome, ReadOutcome, SearchOutcome, WriteNextView, WriteProgress,
    MAX_EXEC_OUTPUT, MAX_GREP_LINES, MAX_READ_BYTES, MAX_SEARCH_RESULTS,
};
use crate::schemas::{array_has, member, schemas};
use crate::security::destructive;
use crate::text::{byte_len, cuts_clean, law_head_is_prefix};
use crate::todo::TodoView;
use crate::tools::{
    arg_texts, call_step, exec_step, held_back, items_read, todo_step, tool_names, wanted_items,
    ActionView, StepView,
};

verus! {

/// A tool is offered under each of the names, in their order.
pub proof fn law_every_tool_is_offered()
    ensures
        schemas().len() == tool_names().len(),
        forall|i: int|
            0 <= i < tool_names().len() ==> member(#[trigger] schemas()[i], "function"@).text_at(
                "name"@,
            ) == Some(tool_names()[i]),
{
    reveal_strlit("name");
    reveal_strlit("description");
    reveal_strlit("parameters");
    assert("name"@.len() == 4 && "description"@.len() == 11 && "parameters"@.len() == 10);
}

/// A call of a tool that is not offered is answered with the names of those that are, and leaves
/// the todo list alone.
pub proof fn law_other_names_are_unknown(
    name: Seq<char>,
    args: JsonView,
    auto_approve: bool,
    workdir: Seq<char>,
    todos: Seq<TodoView>,
)
    requires
        !tool_names().contains(name),
    ensures
        call_step(name, args, auto_approve, workdir, todos) == (
            StepView::Answer(crate::tools::unknown_tool(name)),
            todos,
        ),
{
    let names = tool_names();
    assert(names.contains(names[0]) && names.contains(names[1]) && names.contains(names[2])
        && names.contains(names[3]) && names.contains(names[4]) && names.contains(names[5]));
}

/// Without approval no destructive command is ever run.
pub proof fn law_destructive_commands_need_approval(
    name: Seq<char>,
    args: JsonView,
    workdir: Seq<char>,
    todos: Seq<TodoView>,
    command: Seq<char>,
    command_args: Seq<Seq<char>>,
    at: Seq<char>,
)
    requires
        call_step(name, args, false, workdir, todos).0 == StepView::Act(
            ActionView::Exec { command, args: command_args, workdir: at },
        ),
    ensures
        !destructive(command, command_args),
{
}

/// A command is run in the working directory of the task, and nowhere else.
pub proof fn law_commands_run_in_the_working_directory(
    name: Seq<char>,
    args: JsonView,
    auto_approve: bool,
    workdir: Seq<char>,
    todos: Seq<TodoView>,
)
    ensures
        call_step(name, args, auto_approve, workdir, todos).0 matches StepView::Act(
            ActionView::Exec { workdir: at, .. },
        ) ==> at == workdir,
{
}

/// A destructive command is answered without approval with what holds it back and what to do, and
/// run with approval.
pub proof fn law_approval_decides(
    args: JsonView,
    command: Seq<char>,
    items: Seq<JsonView>,
    workdir: Seq<char>,
)
    requires
        args.get("command"@) == Some(JsonView::Text(command)),
        args.get("args"@) == Some(JsonView::Array(items)),
        arg_texts(items) matches Ok(texts) && destructive(command, texts),
    ensures
        exec_step(args, false, workdir) == StepView::Answer(
            held_back(command, arg_texts(items)->Ok_0),
        ),
        held_back(command, arg_texts(items)->Ok_0).flag_at("blocked"@) == Some(true),
        held_back(command, arg_texts(items)->Ok_0).text_at("fix"@) is Some,
        exec_step(args, true, workdir) == StepView::Act(
            ActionView::Exec { command, args: arg_texts(items)->Ok_0, workdir },
        ),
{
    reveal_strlit("blocked");
    reveal_strlit("fix");
    assert("blocked"@.len() == 7 && "fix"@.len() == 3);
}

/// Texts are arguments as they stand: no part of them is taken for an operator of a shell.
pub proof fn law_text_arguments_are_literal(texts: Seq<Seq<char>>)
    ensures
        arg_texts(Seq::new(texts.len(), |i: int| JsonView::Text(texts[i]))) == Ok::<
            Seq<Seq<char>>,
            JsonView,
        >(texts),
    decreases texts.len(),
{
    let items = Seq::new(texts.len(), |i: int| JsonView::Text(texts[i]));
    if texts.len() == 0 {
        assert(texts =~= Seq::empty());
    } else {
        let fewer = texts.drop_last();
        law_text_arguments_are_literal(fewer);
        assert(items.drop_last() =~= Seq::new(fewer.len(), |i: int| JsonView::Text(fewer[i])));
        assert(texts =~= fewer.push(texts.last()));
    }
}

/// Only `todo_update` changes the todo list.
pub proof fn law_other_tools_leave_the_todos(
    name: Seq<char>,
    args: JsonView,
    auto_approve: bool,
    workdir: Seq<char>,
    todos: Seq<TodoView>,
)
    requires
        name != "todo_update"@,
    ensures
        call_step(name, args, auto_approve, workdir, todos).1 == todos,
{
}

/// An update of the todo list that is answered with an error leaves it as it was.
pub proof fn law_refused_update_changes_nothing(args: JsonView, todos: Seq<TodoView>)
    ensures
        todo_step(args, todos).0.get("error"@) is Some ==> todo_step(args, todos).1 == todos,
{
    reveal_strlit("ok");
    reveal_strlit("before_count");
    reveal_strlit("after_count");
    reveal_strlit("todos");
    reveal_strlit("error");
    assert("ok"@.len() == 2 && "before_count"@.len() == 12 && "after_count"@.len() == 11);
    assert("todos"@[0] == 't' && "error"@[0] == 'e' && "error"@.len() == 5);
}

/// Where the reading of a list fails, the next step is named.
proof fn lemma_items_read_fix(items: Seq<JsonView>)
    requires
        items_read(items) is Err,
    ensures
        items_read(items)->Err_0.get("fix"@) is Some,
    decreases items.len(),
{
    if items_read(items.drop_last()) is Err {
        lemma_items_read_fix(items.drop_last());
    } else {
        reveal_strlit("fix");
        assert("fix"@.len() == 3);
    }
}

/// A call that is answered with an error is told the next step.
pub proof fn law_refusals_name_the_next_step(
    name: Seq<char>,
    args: JsonView,
    auto_approve: bool,
    workdir: Seq<char>,
    todos: Seq<TodoView>,
)
    ensures
        call_step(name, args, auto_approve, workdir, todos).0 matches StepView::Answer(answer) ==> (
        answer.get("error"@) is Some ==> answer.get("fix"@) is Some),
{
    reveal_strlit("fix");
    reveal_strlit("error");
    assert("error"@.len() == 5 && "fix"@.len() == 3);
    if name == "todo_update"@ {
        reveal_strlit("ok");
        reveal_strlit("before_count");
        reveal_strlit("after_count");
        reveal_strlit("todos");
        assert("ok"@.len() == 2 && "before_count"@.len() == 12 && "after_count"@.len() == 11);
        assert("todos"@[0] == 't' && "error"@[0] == 'e');
        if wanted_items(args, "items"@) is Ok {
            let items = wanted_items(args, "items"@)->Ok_0;
            if items_read(items) is Err {
                lemma_items_read_fix(items);
            }
        }
    }
}

/// Whether an error comes with the next step.
pub open spec fn helpful(told: JsonView) -> bool {
    told.get("error"@) is Some ==> told.get("fix"@) is Some
}

/// An outcome that is reported as an error comes with the next step.
pub proof fn law_reports_name_the_next_step(
    subject: Seq<char>,
    content: Seq<char>,
    args: Seq<Seq<char>>,
    read: ReadOutcome,
    write: WriteProgress,
    grep: GrepOutcome,
    search: SearchOutcome,
    exec: ExecOutcome,
)
    ensures
        helpful(read_told(subject, read)),
        write_course(subject, content, write) matches WriteNextView::Answer(told) ==> helpful(told),
        write_course(subject, content, write) matches WriteNextView::RemoveTemp(told) ==> helpful(
            told,
        ),
        helpful(grep_told(subject, content, grep)),
        helpful(search_told(subject, search)),
        exec_told(subject, args, exec) matches Some(told) ==> helpful(told),
{
    reveal_strlit("fix");
    reveal_strlit("error");
    assert("error"@.len() == 5 && "fix"@.len() == 3 && "error"@[0] == 'e');
    reveal_strlit("path");
    reveal_strlit("content");
    reveal_strlit("is_directory");
    reveal_strlit("entries");
    reveal_strlit("hint");
    reveal_strlit("truncated");
    reveal_strlit("note");
    reveal_strlit("bytes");
    reveal_strlit("ok");
    reveal_strlit("pattern");
    reveal_strlit("matches");
    reveal_strlit("shown");
    reveal_strlit("results");
    reveal_strlit("query");
    reveal_strlit("count");
    reveal_strlit("raw");
    reveal_strlit("command");
    reveal_strlit("args");
    reveal_strlit("exit");
    reveal_strlit("stdout");
    reveal_strlit("stderr");
    reveal_strlit("stdout_truncated");
    reveal_strlit("stderr_truncated");
    assert("path"@.len() == 4 && "content"@.len() == 7 && "is_directory"@.len() == 12
        && "entries"@.len() == 7 && "hint"@.len() == 4 && "truncated"@.len() == 9
        && "note"@.len() == 4 && "bytes"@[0] == 'b' && "ok"@.len() == 2);
    assert("pattern"@.len() == 7 && "matches"@.len() == 7 && "shown"@[0] == 's'
        && "results"@.len() == 7 && "query"@[0] == 'q' && "count"@[0] == 'c' && "raw"@.len() == 3);
    assert("command"@.len() == 7 && "args"@.len() == 4 && "exit"@.len() == 4 && "stdout"@.len() == 6
        && "stderr"@.len() == 6 && "stdout_truncated"@.len() == 16 && "stderr_truncated"@.len()
        == 16);
}

/// A file is only replaced by one that was written in full beside it, and what was written beside
/// does not stay where the replacing fails.
pub proof fn law_write_is_whole_or_not_at_all(
    path: Seq<char>,
    content: Seq<char>,
    progress: WriteProgress,
)
    ensures
        write_course(path, content, progress) is Rename <==> progress is TempWritten,
        write_course(path, content, progress) is RemoveTemp <==> progress is RenameFailed,
        (write_course(path, content, progress) matches WriteNextView::Answer(told)
            && told.flag_at("ok"@) == Some(true)) <==> progress is Renamed,
{
    reveal_strlit("ok");
    reveal_strlit("error");
    reveal_strlit("fix");
    assert("ok"@.len() == 2 && "error"@.len() == 5 && "fix"@.len() == 3);
}

/// A text that was written reads back as it was, with as many bytes as the writing told, where it
/// is short enough to be shown whole.
pub proof fn law_written_text_reads_back(path: Seq<char>, content: Seq<char>, bytes: Vec<u8>)
    requires
        bytes@ == encode_utf8(content),
        byte_len(content) <= MAX_READ_BYTES,
    ensures
        read_told(path, ReadOutcome::Bytes(bytes)).text_at("content"@) == Some(content),
        write_course(path, content, WriteProgress::Renamed) matches WriteNextView::Answer(told)
            && told.get("bytes"@) is Some && told.get("bytes"@) == read_told(
            path,
            ReadOutcome::Bytes(bytes),
        ).get("bytes"@),
{
    encode_utf8_valid_utf8(content);
    encode_utf8_decode_utf8(content);
    reveal_strlit("content");
    reveal_strlit("bytes");
    reveal_strlit("ok");
    assert("content"@.len() == 7 && "bytes"@.len() == 5 && "ok"@.len() == 2);
}

/// No more matching lines, search results or output are shown than there is room for, and it is
/// told when there were more lines.
pub proof fn law_what_is_shown_is_bounded(
    subject: Seq<char>,
    path: Seq<char>,
    lines: Seq<Seq<char>>,
    results: Seq<JsonView>,
    output: Seq<char>,
)
    requires
        lines.len() > 0,
        cuts_clean(output, MAX_EXEC_OUTPUT as nat),
    ensures
        matches_told(subject, path, lines).get("results"@) matches Some(JsonView::Array(shown))
            && shown.len() <= MAX_GREP_LINES,
        matches_told(subject, path, lines).flag_at("truncated"@) == Some(
            lines.len() > MAX_GREP_LINES,
        ),
        results_told(subject, JsonView::Array(results)).get("results"@) matches Some(
            JsonView::Array(shown),
        ) && shown.len() <= MAX_SEARCH_RESULTS,
        byte_len(cut_to(output, MAX_EXEC_OUTPUT as nat)) <= MAX_EXEC_OUTPUT,
{
    reveal_strlit("results");
    reveal_strlit("truncated");
    reveal_strlit("count");
    assert("results"@.len() == 7 && "truncated"@.len() == 9 && "count"@.len() == 5);
    if byte_len(output) > MAX_EXEC_OUTPUT {
        law_head_is_prefix(output, MAX_EXEC_OUTPUT as nat);
    }
}

/// Whether the schema of a tool names an argument as one that must be there.
pub open spec fn must_have(schema: JsonView, key: Seq<char>) -> bool {
    array_has(
        member(member(member(schema, "function"@), "parameters"@), "required"@),
        key,
    )
}

/// A call without an argument that the tool's schema says must be there is answered with an error
/// and changes nothing.
pub proof fn law_required_arguments_are_required(
    i: int,
    key: Seq<char>,
    args: JsonView,
    auto_approve: bool,
    workdir: Seq<char>,
    todos: Seq<TodoView>,
)
    requires
        0 <= i < tool_names().len() - 1,
        must_have(schemas()[i], key),
        args.get(key) is None,
    ensures
        call_step(tool_names()[i], args, auto_approve, workdir, todos).0 matches StepView::Answer(answer)
            && answer.get("error"@) is Some,
        call_step(tool_names()[i], args, auto_approve, workdir, todos).1 == todos,
{
    reveal_strlit("error");
    reveal_strlit("fix");
    reveal_strlit("type");
    reveal_strlit("function");
    reveal_strlit("name");
    reveal_strlit("description");
    reveal_strlit("parameters");
    reveal_strlit("properties");
    reveal_strlit("required");
    assert("error"@.len() == 5 && "fix"@.len() == 3 && "type"@.len() == 4 && "function"@.len() == 8
        && "name"@.len() == 4 && "description"@.len() == 11 && "parameters"@.len() == 10
        && "properties"@.len() == 10 && "required"@.len() == 8);
    reveal_strlit("read");
    reveal_strlit("write");
    reveal_strlit("grep");
    reveal_strlit("search");
    reveal_strlit("exec");
    reveal_strlit("todo_update");
    assert("read"@.len() == 4 && "read"@[0] == 'r' && "write"@.len() == 5 && "grep"@.len() == 4
        && "grep"@[0] == 'g' && "search"@.len() == 6 && "exec"@.len() == 4 && "exec"@[0] == 'e'
        && "todo_update"@.len() == 11);
    let required = member(
        member(member(schemas()[i], "function"@), "parameters"@),
        "required"@,
    )->Array_0;
    let k = choose|k: int| 0 <= k < required.len() && required[k] == JsonView::Text(key);
    assert(required[k] == JsonView::Text(key));
}

}
