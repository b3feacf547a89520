//! What holds of each tool: what a call of it asks for, in terms of the arguments that the model
//! gave.

use vstd::prelude::*;
use vstd::string::*;
use vstd::utf8::*;

use crate::json::{is_plain, JsonView};
use crate::reports::{read_told, ReadOutcome};
use crate::security::{
    command_line, destructive, explanation, is_git_risk, is_listed, is_mark, is_marked,
};
use crate::text::{byte_len, contains_seq, decimal, joined, lowercase, occurs_at};
use crate::text_laws::{
    ends_with, lemma_stands_between, lemma_stands_last, lemma_stays_before, lemma_stays_behind,
    lemma_two_stand,
};
use crate::todo::{
    count_of, law_upsert_keeps_the_rest, law_upsert_takes_the_last, lemma_place_of,
    status_of, summary_of, todo_json, todos_json, upserted, TodoStatus, TodoView,
};
use crate::tool_laws::law_written_text_reads_back;
use crate::tools::{
    arg_texts, call_step, error_with_fix, held_back, item_read, items_read, kind_of,
    tool_names, unknown_tool, wanted_items, wanted_text, ActionView,
    StepView,
};

verus! {

/// The names of the tools differ.
proof fn lemma_tool_names_differ()
    ensures
        "read"@.len() == 4 && "read"@[0] == 'r',
        "write"@.len() == 5,
        "grep"@.len() == 4 && "grep"@[0] == 'g',
        "search"@.len() == 6 && "search"@[0] == 's',
        "exec"@.len() == 4 && "exec"@[0] == 'e',
        "todo_update"@.len() == 11,
        "finish"@.len() == 6 && "finish"@[0] == 'f',
{
    reveal_strlit("read");
    reveal_strlit("write");
    reveal_strlit("grep");
    reveal_strlit("search");
    reveal_strlit("exec");
    reveal_strlit("todo_update");
    reveal_strlit("finish");
}

/// An answer that only complains: it has an error, and asks for nothing of the world.
pub open spec fn is_complaint(step: StepView) -> bool {
    step matches StepView::Answer(answer) && answer.text_at("error"@) is Some
}

/// A call of `read` reads the file of just the path that it names; without a path it is refused.
pub proof fn law_read_reads_what_is_named(
    args: JsonView,
    auto_approve: bool,
    workdir: Seq<char>,
    todos: Seq<TodoView>,
)
    ensures
        args.get("path"@) matches Some(JsonView::Text(p)) ==> call_step(
            "read"@,
            args,
            auto_approve,
            workdir,
            todos,
        ).0 == StepView::Act(ActionView::Read { path: p }),
        args.text_at("path"@) is None ==> is_complaint(
            call_step("read"@, args, auto_approve, workdir, todos).0,
        ),
        call_step("read"@, args, auto_approve, workdir, todos).1 == todos,
{
    lemma_tool_names_differ();
    reveal_strlit("error");
    reveal_strlit("fix");
    assert("error"@.len() == 5 && "fix"@.len() == 3);
}

/// A call of `write` writes just the text that it holds, all of it, into the file of just the path
/// that it names; without either it is refused.
pub proof fn law_write_writes_what_is_given(
    args: JsonView,
    auto_approve: bool,
    workdir: Seq<char>,
    todos: Seq<TodoView>,
    p: Seq<char>,
    c: Seq<char>,
)
    ensures
        args.get("path"@) == Some(JsonView::Text(p)) && args.get("content"@) == Some(
            JsonView::Text(c),
        ) ==> call_step("write"@, args, auto_approve, workdir, todos).0 == StepView::Act(
            ActionView::Write { path: p, content: c },
        ),
        args.text_at("path"@) is None || args.text_at("content"@) is None ==> is_complaint(
            call_step("write"@, args, auto_approve, workdir, todos).0,
        ),
        call_step("write"@, args, auto_approve, workdir, todos).1 == todos,
{
    lemma_tool_names_differ();
    reveal_strlit("error");
    reveal_strlit("fix");
    assert("error"@.len() == 5 && "fix"@.len() == 3);
}

/// Whoever reads a file after it was written is shown the content argument of the call that wrote
/// it, up to a megabyte, under the path argument of the call.
pub proof fn law_what_is_written_is_read(
    args: JsonView,
    auto_approve: bool,
    workdir: Seq<char>,
    todos: Seq<TodoView>,
    bytes: Vec<u8>,
)
    requires
        args.text_at("path"@) is Some,
        args.text_at("content"@) is Some,
        call_step("write"@, args, auto_approve, workdir, todos).0 matches StepView::Act(
            ActionView::Write { content, .. },
        ) && bytes@ == encode_utf8(content) && byte_len(content) <= 1_048_576,
    ensures
        call_step("write"@, args, auto_approve, workdir, todos).0 matches StepView::Act(
            ActionView::Write { path, .. },
        ) && Some(path) == args.text_at("path"@) && read_told(
            path,
            ReadOutcome::Bytes(bytes),
        ).text_at("content"@) == args.text_at("content"@),
{
    let p = args.text_at("path"@)->0;
    let c = args.text_at("content"@)->0;
    law_write_writes_what_is_given(args, auto_approve, workdir, todos, p, c);
    law_written_text_reads_back(p, c, bytes);
}

/// A call of `grep` looks for just the pattern that it names, below just the path that it names or
/// else below the current directory; without a pattern it is refused.
pub proof fn law_grep_looks_for_what_is_named(
    args: JsonView,
    auto_approve: bool,
    workdir: Seq<char>,
    todos: Seq<TodoView>,
    pattern: Seq<char>,
)
    ensures
        args.get("pattern"@) == Some(JsonView::Text(pattern)) ==> call_step(
            "grep"@,
            args,
            auto_approve,
            workdir,
            todos,
        ).0 == StepView::Act(
            ActionView::Grep {
                pattern,
                path: if args.text_at("path"@) is Some {
                    args.text_at("path"@)->0
                } else {
                    "."@
                },
            },
        ),
        args.text_at("pattern"@) is None ==> is_complaint(
            call_step("grep"@, args, auto_approve, workdir, todos).0,
        ),
        call_step("grep"@, args, auto_approve, workdir, todos).1 == todos,
{
    lemma_tool_names_differ();
    reveal_strlit("error");
    reveal_strlit("fix");
    assert("error"@.len() == 5 && "fix"@.len() == 3);
}

/// A call of `search` asks the web for just the query that it names; without one it is refused.
pub proof fn law_search_asks_for_what_is_named(
    args: JsonView,
    auto_approve: bool,
    workdir: Seq<char>,
    todos: Seq<TodoView>,
)
    ensures
        args.get("query"@) matches Some(JsonView::Text(query)) ==> call_step(
            "search"@,
            args,
            auto_approve,
            workdir,
            todos,
        ).0 == StepView::Act(ActionView::Search { query }),
        args.text_at("query"@) is None ==> is_complaint(
            call_step("search"@, args, auto_approve, workdir, todos).0,
        ),
        call_step("search"@, args, auto_approve, workdir, todos).1 == todos,
{
    lemma_tool_names_differ();
    reveal_strlit("error");
    reveal_strlit("fix");
    assert("error"@.len() == 5 && "fix"@.len() == 3);
}

/// Each argument of a command is what its value says: a text as it stands, a number by its text, a
/// truth value by its word. Values of other kinds are no arguments, and nothing is left out.
pub proof fn law_arguments_stand_for_their_values(items: Seq<JsonView>)
    ensures
        arg_texts(items) matches Ok(texts) ==> texts.len() == items.len() && forall|i: int|
            0 <= i < items.len() ==> match #[trigger] items[i] {
                JsonView::Text(s) => texts[i] == s,
                JsonView::Number(n) => texts[i] == n,
                JsonView::Bool(b) => texts[i] == if b {
                    "true"@
                } else {
                    "false"@
                },
                _ => false,
            },
        arg_texts(items) matches Err(v) ==> items.contains(v) && (v is Null || v is Array
            || v is Object),
        (forall|i: int|
            0 <= i < items.len() ==> (#[trigger] items[i]) is Text || items[i] is Number
                || items[i] is Bool) ==> arg_texts(items) is Ok,
    decreases items.len(),
{
    if items.len() > 0 {
        let fewer = items.drop_last();
        law_arguments_stand_for_their_values(fewer);
        assert(items[items.len() - 1] == items.last());
        if arg_texts(fewer) is Ok {
            let some = arg_texts(fewer)->Ok_0;
            if arg_texts(items) is Ok {
                let texts = arg_texts(items)->Ok_0;
                assert forall|i: int| 0 <= i < items.len() implies match #[trigger] items[i] {
                    JsonView::Text(s) => texts[i] == s,
                    JsonView::Number(n) => texts[i] == n,
                    JsonView::Bool(b) => texts[i] == if b {
                        "true"@
                    } else {
                        "false"@
                    },
                    _ => false,
                } by {
                    if i < fewer.len() {
                        assert(fewer[i] == items[i]);
                        assert(texts[i] == some[i]);
                    }
                }
            } else {
                assert(items.contains(items.last()));
            }
        } else {
            let v = arg_texts(fewer)->Err_0;
            let k = choose|k: int| 0 <= k < fewer.len() && fewer[k] == v;
            assert(items[k] == v);
        }
        if forall|i: int|
            0 <= i < items.len() ==> (#[trigger] items[i]) is Text || items[i] is Number
                || items[i] is Bool {
            assert forall|i: int| 0 <= i < fewer.len() implies (#[trigger] fewer[i]) is Text
                || fewer[i] is Number || fewer[i] is Bool by {
                assert(items[i] is Text || items[i] is Number || items[i] is Bool);
            }
        }
    }
}

/// A command that is not destructive is run, with approval or without: just that command, with just
/// those arguments, in the working directory. Without a list of arguments it is run with none.
pub proof fn law_harmless_commands_are_run(
    args: JsonView,
    auto_approve: bool,
    workdir: Seq<char>,
    todos: Seq<TodoView>,
    command: Seq<char>,
    texts: Seq<Seq<char>>,
)
    requires
        args.get("command"@) == Some(JsonView::Text(command)),
        match args.get("args"@) {
            Some(JsonView::Array(items)) => arg_texts(items) == Ok::<Seq<Seq<char>>, JsonView>(
                texts,
            ),
            Some(_) => false,
            None => texts.len() == 0,
        },
        auto_approve || !destructive(command, texts),
    ensures
        call_step("exec"@, args, auto_approve, workdir, todos).0 == StepView::Act(
            ActionView::Exec { command, args: texts, workdir },
        ),
        call_step("exec"@, args, auto_approve, workdir, todos).1 == todos,
{
    lemma_tool_names_differ();
    if args.get("args"@) is None {
        assert(texts =~= Seq::empty());
    }
}

/// A call of `exec` is answered as blocked only where nobody approved and the command that it names
/// is destructive, and then it says which command and which arguments it holds back.
pub proof fn law_only_destructive_commands_are_held_back(
    args: JsonView,
    auto_approve: bool,
    workdir: Seq<char>,
    todos: Seq<TodoView>,
)
    ensures
        call_step("exec"@, args, auto_approve, workdir, todos).0 matches StepView::Answer(answer) ==> (
        answer.get("blocked"@) is Some ==> !auto_approve && (args.get("command"@) matches Some(
            JsonView::Text(command),
        ) && answer.text_at("command"@) == Some(command) && (match args.get("args"@) {
            Some(JsonView::Array(items)) => arg_texts(items) matches Ok(texts) && destructive(
                command,
                texts,
            ) && answer.get("args"@) == Some(
                JsonView::Array(Seq::new(texts.len(), |i: int| JsonView::Text(texts[i]))),
            ),
            Some(_) => false,
            None => destructive(command, Seq::empty()),
        }))),
        auto_approve ==> (call_step("exec"@, args, auto_approve, workdir, todos).0 matches
            StepView::Answer(answer) ==> answer.get("blocked"@) is None),
{
    lemma_tool_names_differ();
    reveal_strlit("error");
    reveal_strlit("fix");
    reveal_strlit("blocked");
    reveal_strlit("command");
    reveal_strlit("args");
    assert("error"@.len() == 5 && "fix"@.len() == 3 && "blocked"@.len() == 7 && "blocked"@[0] == 'b'
        && "command"@.len() == 7 && "command"@[0] == 'c' && "args"@.len() == 4);
}

/// A call of `exec` without a command, with arguments that are no list, or with one of them that
/// stands for no argument is refused, and not as blocked.
pub proof fn law_unreadable_commands_are_refused(
    args: JsonView,
    auto_approve: bool,
    workdir: Seq<char>,
    todos: Seq<TodoView>,
)
    requires
        args.text_at("command"@) is None || match args.get("args"@) {
            Some(JsonView::Array(items)) => arg_texts(items) is Err,
            Some(_) => true,
            None => false,
        },
    ensures
        is_complaint(call_step("exec"@, args, auto_approve, workdir, todos).0),
        call_step("exec"@, args, auto_approve, workdir, todos).0->Answer_0.get("blocked"@) is None,
{
    lemma_tool_names_differ();
    reveal_strlit("error");
    reveal_strlit("fix");
    reveal_strlit("blocked");
    assert("error"@.len() == 5 && "fix"@.len() == 3 && "blocked"@.len() == 7);
}

/// The complaint about an argument names it, and says of which kind it is where it is of a wrong
/// one; an argument that does is taken as it stands.
pub proof fn law_complaints_name_the_argument(args: JsonView, key: Seq<char>)
    ensures
        args.get(key) matches Some(JsonView::Text(s)) ==> wanted_text(args, key) == Ok::<
            Seq<char>,
            JsonView,
        >(s),
        args.get(key) matches Some(JsonView::Array(items)) ==> wanted_items(args, key) == Ok::<
            Seq<JsonView>,
            JsonView,
        >(items),
        wanted_text(args, key) matches Err(e) ==> e.text_at("error"@) matches Some(words)
            && contains_seq(words, key) && (args.get(key) matches Some(v) ==> ends_with(
            words,
            kind_of(v),
        )),
        wanted_items(args, key) matches Err(e) ==> e.text_at("error"@) matches Some(words)
            && contains_seq(words, key),
{
    reveal_strlit("error");
    reveal_strlit("fix");
    assert("error"@.len() == 5 && "fix"@.len() == 3);
    lemma_stands_between("missing required argument: '"@, key, "'"@);
    lemma_stands_between("'"@, key, "' must be an array"@);
    if let Some(v) = args.get(key) {
        lemma_two_stand("'"@, key, "' must be a string, got "@, kind_of(v));
    }
}

/// A call of a tool that there is not is told so by its name, and told all tools that there are.
pub proof fn law_unknown_tools_are_told_the_others(name: Seq<char>)
    ensures
        unknown_tool(name).text_at("error"@) matches Some(words) && ends_with(words, name),
        unknown_tool(name).get("available"@) matches Some(JsonView::Array(list)) && list.len()
            == tool_names().len() && forall|i: int|
            0 <= i < list.len() ==> #[trigger] list[i] == JsonView::Text(tool_names()[i]),
{
    reveal_strlit("error");
    reveal_strlit("fix");
    reveal_strlit("available");
    assert("error"@.len() == 5 && "fix"@.len() == 3 && "available"@.len() == 9);
    lemma_stands_last("unknown tool: "@, name);
}

/// The commands that destroy something whatever their arguments.
pub open spec fn destroyers() -> Seq<Seq<char>> {
    seq![
        "rm"@,
        "rmdir"@,
        "shred"@,
        "dd"@,
        "mkfs"@,
        "fdisk"@,
        "parted"@,
        "sudo"@,
        "su"@,
        "kill"@,
        "killall"@,
        "pkill"@,
        "chmod"@,
        "chown"@,
        "shutdown"@,
        "reboot"@,
        "halt"@,
        "poweroff"@,
        "systemctl"@,
    ]
}

/// The pieces of text that mark a command line as destructive.
pub open spec fn warnings() -> Seq<Seq<char>> {
    seq![
        "--force"@,
        "-rf"@,
        "-r -f"@,
        "-fr"@,
        "--no-preserve-root"@,
        "/dev/sd"@,
        "/dev/nvme"@,
        "/dev/disk"@,
        "--hard"@,
        "-9 "@,
        " -KILL"@,
    ]
}

/// What git does that cannot be taken back.
pub open spec fn git_risks() -> Seq<Seq<char>> {
    seq!["push"@, "reset"@, "clean"@, "force-push"@]
}

proof fn lemma_destroyers(command: Seq<char>)
    ensures
        destroyers().contains(command) <==> is_listed(command),
{
    let all = destroyers();
    if is_listed(command) {
        assert(all[0] == "rm"@ && all[1] == "rmdir"@ && all[2] == "shred"@ && all[3] == "dd"@
            && all[4] == "mkfs"@ && all[5] == "fdisk"@ && all[6] == "parted"@ && all[7] == "sudo"@
            && all[8] == "su"@ && all[9] == "kill"@ && all[10] == "killall"@ && all[11] == "pkill"@
            && all[12] == "chmod"@ && all[13] == "chown"@ && all[14] == "shutdown"@ && all[15]
            == "reboot"@ && all[16] == "halt"@ && all[17] == "poweroff"@ && all[18]
            == "systemctl"@);
    }
    if all.contains(command) {
        let k = choose|k: int| 0 <= k < all.len() && all[k] == command;
        assert(all.len() == 19);
    }
}

proof fn lemma_warnings(piece: Seq<char>)
    ensures
        warnings().contains(piece) <==> is_mark(piece),
{
    let all = warnings();
    if is_mark(piece) {
        assert(all[0] == "--force"@ && all[1] == "-rf"@ && all[2] == "-r -f"@ && all[3] == "-fr"@
            && all[4] == "--no-preserve-root"@ && all[5] == "/dev/sd"@ && all[6] == "/dev/nvme"@
            && all[7] == "/dev/disk"@ && all[8] == "--hard"@ && all[9] == "-9 "@ && all[10]
            == " -KILL"@);
    }
    if all.contains(piece) {
        let k = choose|k: int| 0 <= k < all.len() && all[k] == piece;
        assert(all.len() == 11);
    }
}

proof fn lemma_git_risks(word: Seq<char>)
    ensures
        git_risks().contains(word) <==> is_git_risk(word),
{
    let all = git_risks();
    if is_git_risk(word) {
        assert(all[0] == "push"@ && all[1] == "reset"@ && all[2] == "clean"@ && all[3]
            == "force-push"@);
    }
    if all.contains(word) {
        let k = choose|k: int| 0 <= k < all.len() && all[k] == word;
        assert(all.len() == 4);
    }
}

/// A command is destructive for one of three reasons, and for no other: it destroys something
/// whatever its arguments, it has git do what cannot be taken back, or a warning stands in its line.
pub proof fn law_why_a_command_is_destructive(command: Seq<char>, args: Seq<Seq<char>>)
    ensures
        destructive(command, args) <==> {
            ||| destroyers().contains(command)
            ||| command == "git"@ && args.len() > 0 && git_risks().contains(args[0])
            ||| exists|k: int|
                0 <= k < warnings().len() && contains_seq(
                    command + " "@ + joined(args, " "@),
                    #[trigger] warnings()[k],
                )
        },
{
    lemma_destroyers(command);
    if args.len() > 0 {
        lemma_git_risks(args[0]);
    }
    let line = command + " "@ + joined(args, " "@);
    if is_marked(line) {
        let piece = choose|piece: Seq<char>| is_mark(piece) && #[trigger] contains_seq(line, piece);
        lemma_warnings(piece);
        let k = choose|k: int| 0 <= k < warnings().len() && warnings()[k] == piece;
        assert(contains_seq(line, warnings()[k]));
    }
    if exists|k: int| 0 <= k < warnings().len() && contains_seq(line, #[trigger] warnings()[k]) {
        let k = choose|k: int|
            0 <= k < warnings().len() && contains_seq(line, #[trigger] warnings()[k]);
        lemma_warnings(warnings()[k]);
        assert(warnings().contains(warnings()[k]));
        assert(is_marked(line));
    }
}

/// A warning has a hyphen in it or names a device.
proof fn lemma_warnings_show(line: Seq<char>)
    requires
        is_marked(line),
    ensures
        contains_seq(line, "/dev/"@) || exists|i: int| 0 <= i < line.len() && line[i] == '-',
{
    let piece = choose|piece: Seq<char>| is_mark(piece) && #[trigger] contains_seq(line, piece);
    let at = choose|at: int| occurs_at(line, piece, at);
    reveal_strlit("--force");
    reveal_strlit("-rf");
    reveal_strlit("-r -f");
    reveal_strlit("-fr");
    reveal_strlit("--no-preserve-root");
    reveal_strlit("/dev/sd");
    reveal_strlit("/dev/nvme");
    reveal_strlit("/dev/disk");
    reveal_strlit("--hard");
    reveal_strlit("-9 ");
    reveal_strlit(" -KILL");
    reveal_strlit("/dev/");
    let part = line.subrange(at, at + piece.len());
    assert(occurs_at(line, piece, at));
    assert(part == piece);
    if piece == "/dev/sd"@ || piece == "/dev/nvme"@ || piece == "/dev/disk"@ {
        assert(piece.subrange(0, 5) =~= "/dev/"@);
        assert(line.subrange(at, at + 5) =~= part.subrange(0, 5));
        assert(occurs_at(line, "/dev/"@, at));
    } else if piece == " -KILL"@ {
        assert(" -KILL"@.len() == 6 && " -KILL"@[1] == '-');
        assert(part[1] == piece[1]);
        assert(part[1] == line[at + 1]);
        assert(line[at + 1] == '-');
    } else {
        assert(piece.len() > 0 && piece[0] == '-');
        assert(part[0] == piece[0]);
        assert(part[0] == line[at]);
        assert(line[at] == '-');
    }
}

/// A command without options, that names no device and is none of those that destroy something, is
/// not destructive; git is not either where it is asked for nothing that cannot be taken back.
pub proof fn law_plain_commands_are_harmless(command: Seq<char>, args: Seq<Seq<char>>)
    requires
        !destroyers().contains(command),
        command == "git"@ && args.len() > 0 ==> !git_risks().contains(args[0]),
        forall|i: int|
            0 <= i < command_line(command, args).len() ==> #[trigger] command_line(
                command,
                args,
            )[i] != '-',
        !contains_seq(command_line(command, args), "/dev/"@),
    ensures
        !destructive(command, args),
{
    lemma_destroyers(command);
    if args.len() > 0 {
        lemma_git_risks(args[0]);
    }
    if is_marked(command_line(command, args)) {
        lemma_warnings_show(command_line(command, args));
    }
}

/// What holds a command back says the command line and the way to allow it.
pub proof fn law_explanations_name_the_command(command: Seq<char>, args: Seq<Seq<char>>)
    ensures
        contains_seq(explanation(command, args), command),
        contains_seq(explanation(command, args), joined(args, " "@)),
        contains_seq(explanation(command, args), "--yes"@),
        held_back(command, args).text_at("error"@) == Some(explanation(command, args)),
        held_back(command, args).text_at("command"@) == Some(command),
{
    let end = "\" is destructive. rerun with --yes to allow it, or do it yourself"@;
    let line = command_line(command, args);
    lemma_two_stand(Seq::empty(), command, " "@, joined(args, " "@));
    assert(Seq::<char>::empty() + command =~= command);
    let front = "the command \""@ + line;
    lemma_stays_behind("the command \""@, line, command);
    lemma_stays_behind("the command \""@, line, joined(args, " "@));
    lemma_stays_before(front, end, command);
    lemma_stays_before(front, end, joined(args, " "@));
    reveal_strlit("\" is destructive. rerun with --yes to allow it, or do it yourself");
    reveal_strlit("--yes");
    assert(end.subrange(29, 34) =~= "--yes"@);
    assert(occurs_at(end, "--yes"@, 29));
    lemma_stays_behind(front, end, "--yes"@);
    reveal_strlit("error");
    reveal_strlit("command");
    reveal_strlit("args");
    reveal_strlit("blocked");
    reveal_strlit("fix");
    assert("error"@.len() == 5 && "command"@.len() == 7 && "command"@[0] == 'c' && "args"@.len()
        == 4 && "blocked"@.len() == 7 && "blocked"@[0] == 'b' && "fix"@.len() == 3);
}

/// The words for a status are those under which it is shown and stored, and `done`; no other word
/// stands for any.
pub proof fn law_words_for_a_status(word: Seq<char>, status: TodoStatus)
    ensures
        status_of("pending"@) == Some(TodoStatus::Pending),
        status_of("in_progress"@) == Some(TodoStatus::InProgress),
        status_of("inprogress"@) == Some(TodoStatus::InProgress),
        status_of("completed"@) == Some(TodoStatus::Completed),
        status_of("done"@) == Some(TodoStatus::Completed),
        status_of("blocked"@) == Some(TodoStatus::Blocked),
        status_of(status.name()) == Some(status),
        status_of(status.stored_name()) == Some(status),
        status_of(word) == Some(status) ==> word == status.name() || word == status.stored_name()
            || word == "done"@,
{
    reveal_strlit("pending");
    reveal_strlit("in_progress");
    reveal_strlit("inprogress");
    reveal_strlit("completed");
    reveal_strlit("done");
    reveal_strlit("blocked");
    assert("pending"@.len() == 7 && "pending"@[0] == 'p' && "in_progress"@.len() == 11
        && "inprogress"@.len() == 10 && "completed"@.len() == 9 && "done"@.len() == 4
        && "blocked"@.len() == 7 && "blocked"@[0] == 'b');
}

/// Whether a value of a list holds the parts of an item, with a word for its status.
pub open spec fn describes(v: JsonView, item: TodoView) -> bool {
    &&& v is Object
    &&& v.text_at("id"@) == Some(item.id)
    &&& v.text_at("content"@) == Some(item.content)
    &&& v.text_at("status"@) matches Some(word) && status_of(lowercase(word)) == Some(item.status)
}

proof fn lemma_items_are_read(items: Seq<JsonView>, updates: Seq<TodoView>)
    requires
        items.len() == updates.len(),
        forall|i: int| 0 <= i < items.len() ==> describes(#[trigger] items[i], updates[i]),
    ensures
        items_read(items) == Ok::<Seq<TodoView>, JsonView>(updates),
    decreases items.len(),
{
    if items.len() == 0 {
        assert(updates =~= Seq::empty());
    } else {
        let fewer = items.drop_last();
        let done = updates.drop_last();
        assert forall|i: int| 0 <= i < fewer.len() implies describes(
            #[trigger] fewer[i],
            done[i],
        ) by {
            assert(fewer[i] == items[i]);
        }
        lemma_items_are_read(fewer, done);
        assert(describes(items[items.len() - 1], updates[updates.len() - 1]));
        assert(done.push(updates.last()) =~= updates);
    }
}

/// An update enters the items that it describes, and nothing else: each stands in the list behind
/// it unless a later one has its id, items that it does not name stay as they are and where they
/// are, and the answer shows the list as it then is.
pub proof fn law_updates_enter_what_they_describe(
    args: JsonView,
    items: Seq<JsonView>,
    updates: Seq<TodoView>,
    todos: Seq<TodoView>,
    auto_approve: bool,
    workdir: Seq<char>,
)
    requires
        args.get("items"@) == Some(JsonView::Array(items)),
        items.len() == updates.len(),
        forall|i: int| 0 <= i < items.len() ==> describes(#[trigger] items[i], updates[i]),
    ensures
        ({
            let (step, list) = call_step("todo_update"@, args, auto_approve, workdir, todos);
            &&& list.len() >= todos.len()
            &&& forall|k: int|
                #![trigger updates[k]]
                0 <= k < updates.len() && (forall|later: int|
                    k < later < updates.len() ==> (#[trigger] updates[later]).id != updates[k].id)
                    ==> list.contains(updates[k])
            &&& forall|i: int|
                0 <= i < todos.len() && (forall|k: int|
                    0 <= k < updates.len() ==> (#[trigger] updates[k]).id != todos[i].id)
                    ==> #[trigger] list[i] == todos[i]
            &&& step matches StepView::Answer(answer) && {
                &&& answer.flag_at("ok"@) == Some(true)
                &&& answer.get("error"@) is None
                &&& answer.get("before_count"@) == Some(JsonView::Number(decimal(todos.len())))
                &&& answer.get("after_count"@) == Some(JsonView::Number(decimal(list.len())))
                &&& answer.get("todos"@) matches Some(JsonView::Array(shown)) && shown.len()
                    == list.len() && forall|i: int|
                    0 <= i < shown.len() ==> (#[trigger] shown[i]).text_at("id"@) == Some(
                        list[i].id,
                    ) && shown[i].text_at("content"@) == Some(list[i].content)
                        && shown[i].text_at("status"@) == Some(list[i].status.stored_name())
            }
        }),
{
    lemma_tool_names_differ();
    lemma_items_are_read(items, updates);
    let list = upserted(todos, updates);
    law_upsert_keeps_the_rest(todos, updates);
    assert forall|k: int|
        #![trigger updates[k]]
        0 <= k < updates.len() && (forall|later: int|
            k < later < updates.len() ==> (#[trigger] updates[later]).id
                != updates[k].id) implies list.contains(updates[k]) by {
        law_upsert_takes_the_last(todos, updates, k);
        lemma_place_of(list, updates[k].id);
    }
    reveal_strlit("ok");
    reveal_strlit("before_count");
    reveal_strlit("after_count");
    reveal_strlit("todos");
    reveal_strlit("error");
    reveal_strlit("id");
    reveal_strlit("content");
    reveal_strlit("status");
    assert("ok"@.len() == 2 && "before_count"@.len() == 12 && "after_count"@.len() == 11
        && "todos"@.len() == 5 && "todos"@[0] == 't' && "error"@[0] == 'e' && "error"@.len() == 5);
    assert("id"@.len() == 2 && "content"@.len() == 7 && "status"@.len() == 6);
}

/// An item under the words of the schema is described by them, in the case they are written in.
pub proof fn law_items_under_the_words_of_the_schema(v: JsonView, item: TodoView)
    requires
        v is Object,
        v.text_at("id"@) == Some(item.id),
        v.text_at("content"@) == Some(item.content),
        v.text_at("status"@) == Some(item.status.name()),
        lowercase(item.status.name()) == item.status.name(),
    ensures
        describes(v, item),
{
    law_words_for_a_status(item.status.name(), item.status);
}

proof fn lemma_bad_item_stops(items: Seq<JsonView>, at: int)
    requires
        0 <= at < items.len(),
        item_read(items[at], at as nat) is Err,
    ensures
        items_read(items) is Err,
    decreases items.len(),
{
    if at < items.len() - 1 {
        assert(items.drop_last()[at] == items[at]);
        lemma_bad_item_stops(items.drop_last(), at);
    }
}

proof fn lemma_items_read_error(items: Seq<JsonView>)
    requires
        items_read(items) is Err,
    ensures
        items_read(items)->Err_0.text_at("error"@) is Some,
    decreases items.len(),
{
    if items_read(items.drop_last()) is Err {
        lemma_items_read_error(items.drop_last());
    } else {
        reveal_strlit("fix");
        reveal_strlit("error");
        assert("fix"@.len() == 3 && "error"@.len() == 5);
    }
}

/// Whether a value of a list lacks a part of an item, or has a status that stands for none.
pub open spec fn is_no_item(v: JsonView) -> bool {
    ||| !(v is Object)
    ||| v.text_at("id"@) is None
    ||| v.text_at("content"@) is None
    ||| v.text_at("status"@) is None
    ||| v.text_at("status"@) matches Some(word) && status_of(lowercase(word)) is None
}

/// An update with an item that lacks a part, or whose status stands for none, is refused, and then
/// enters none of its items.
pub proof fn law_bad_items_are_refused(
    args: JsonView,
    items: Seq<JsonView>,
    at: int,
    todos: Seq<TodoView>,
    auto_approve: bool,
    workdir: Seq<char>,
)
    requires
        args.get("items"@) == Some(JsonView::Array(items)),
        0 <= at < items.len(),
        is_no_item(items[at]),
    ensures
        is_complaint(call_step("todo_update"@, args, auto_approve, workdir, todos).0),
        call_step("todo_update"@, args, auto_approve, workdir, todos).1 == todos,
{
    lemma_tool_names_differ();
    lemma_bad_item_stops(items, at);
    lemma_items_read_error(items);
}

/// How many items have a status is how many there are of it.
pub proof fn law_counts_count(items: Seq<TodoView>, status: TodoStatus)
    ensures
        count_of(items, status) == items.filter(|item: TodoView| item.status == status).len(),
    decreases items.len(),
{
    reveal(Seq::filter);
    if items.len() > 0 {
        law_counts_count(items.drop_last(), status);
    }
}

proof fn lemma_words_of_counts()
    ensures
        " total: "@ == " total"@ + seq![':', ' '],
        " pending, "@ == " pending"@ + seq![',', ' '],
        " in progress, "@ == " in progress"@ + seq![',', ' '],
        " completed, "@ == " completed"@ + seq![',', ' '],
{
    reveal_strlit(" total: ");
    reveal_strlit(" total");
    reveal_strlit(" pending, ");
    reveal_strlit(" pending");
    reveal_strlit(" in progress, ");
    reveal_strlit(" in progress");
    reveal_strlit(" completed, ");
    reveal_strlit(" completed");
    assert(" total: "@ =~= " total"@ + seq![':', ' ']);
    assert(" pending, "@ =~= " pending"@ + seq![',', ' ']);
    assert(" in progress, "@ =~= " in progress"@ + seq![',', ' ']);
    assert(" completed, "@ =~= " completed"@ + seq![',', ' ']);
}

/// A count with its word stands where the two were put one behind the other.
proof fn lemma_count_stands(front: Seq<char>, n: Seq<char>, word: Seq<char>, gap: Seq<char>)
    ensures
        contains_seq(front + n + (word + gap), n + word),
{
    lemma_stands_between(front, n + word, gap);
    assert(front + (n + word) + gap =~= front + n + (word + gap));
}

/// The line for a todo list tells how many items there are, and how many of each status.
pub proof fn law_summaries_tell_the_counts(items: Seq<TodoView>)
    requires
        items.len() > 0,
    ensures
        contains_seq(summary_of(items), decimal(items.len()) + " total"@),
        contains_seq(
            summary_of(items),
            decimal(items.filter(|item: TodoView| item.status == TodoStatus::Pending).len())
                + " pending"@,
        ),
        contains_seq(
            summary_of(items),
            decimal(items.filter(|item: TodoView| item.status == TodoStatus::InProgress).len())
                + " in progress"@,
        ),
        contains_seq(
            summary_of(items),
            decimal(items.filter(|item: TodoView| item.status == TodoStatus::Completed).len())
                + " completed"@,
        ),
        contains_seq(
            summary_of(items),
            decimal(items.filter(|item: TodoView| item.status == TodoStatus::Blocked).len())
                + " blocked"@,
        ),
{
    law_counts_count(items, TodoStatus::Pending);
    law_counts_count(items, TodoStatus::InProgress);
    law_counts_count(items, TodoStatus::Completed);
    law_counts_count(items, TodoStatus::Blocked);
    lemma_words_of_counts();
    let gap = seq![',', ' '];
    let none = Seq::<char>::empty();
    let n = decimal(items.len());
    let p = decimal(count_of(items, TodoStatus::Pending));
    let i = decimal(count_of(items, TodoStatus::InProgress));
    let c = decimal(count_of(items, TodoStatus::Completed));
    let b = decimal(count_of(items, TodoStatus::Blocked));
    let f0 = n + " total: "@;
    let f1 = f0 + p;
    let f2 = f1 + " pending, "@;
    let f3 = f2 + i;
    let f4 = f3 + " in progress, "@;
    let f5 = f4 + c;
    let f6 = f5 + " completed, "@;
    let f7 = f6 + b;
    let f8 = f7 + " blocked"@;
    assert(summary_of(items) == f8);
    lemma_count_stands(none, n, " total"@, seq![':', ' ']);
    assert(none + n =~= n);
    lemma_count_stands(f0, p, " pending"@, gap);
    lemma_count_stands(f2, i, " in progress"@, gap);
    lemma_count_stands(f4, c, " completed"@, gap);
    lemma_count_stands(f6, b, " blocked"@, none);
    assert(" blocked"@ + none =~= " blocked"@);
    lemma_stays_before(f0, p, n + " total"@);
    lemma_stays_before(f1, " pending, "@, n + " total"@);
    lemma_stays_before(f2, i, n + " total"@);
    lemma_stays_before(f3, " in progress, "@, n + " total"@);
    lemma_stays_before(f4, c, n + " total"@);
    lemma_stays_before(f5, " completed, "@, n + " total"@);
    lemma_stays_before(f6, b, n + " total"@);
    lemma_stays_before(f7, " blocked"@, n + " total"@);
    lemma_stays_before(f2, i, p + " pending"@);
    lemma_stays_before(f3, " in progress, "@, p + " pending"@);
    lemma_stays_before(f4, c, p + " pending"@);
    lemma_stays_before(f5, " completed, "@, p + " pending"@);
    lemma_stays_before(f6, b, p + " pending"@);
    lemma_stays_before(f7, " blocked"@, p + " pending"@);
    lemma_stays_before(f4, c, i + " in progress"@);
    lemma_stays_before(f5, " completed, "@, i + " in progress"@);
    lemma_stays_before(f6, b, i + " in progress"@);
    lemma_stays_before(f7, " blocked"@, i + " in progress"@);
    lemma_stays_before(f6, b, c + " completed"@);
    lemma_stays_before(f7, " blocked"@, c + " completed"@);
}

proof fn lemma_items_read_plain(items: Seq<JsonView>)
    requires
        items_read(items) is Err,
    ensures
        is_plain(items_read(items)->Err_0, 100),
    decreases items.len(),
{
    if items_read(items.drop_last()) is Err {
        lemma_items_read_plain(items.drop_last());
    } else {
        reveal_with_fuel(is_plain, 2);
    }
}

proof fn lemma_texts_plain(texts: Seq<Seq<char>>, depth: nat)
    requires
        depth > 0,
    ensures
        is_plain(JsonView::Array(Seq::new(texts.len(), |i: int| JsonView::Text(texts[i]))), depth),
{
    reveal_with_fuel(is_plain, 2);
}

proof fn lemma_todos_plain(todos: Seq<TodoView>)
    ensures
        is_plain(todos_json(todos), 99),
{
    let list = Seq::new(todos.len(), |i: int| todo_json(todos[i]));
    assert forall|i: int| 0 <= i < list.len() implies is_plain(#[trigger] list[i], 98) by {
        reveal_with_fuel(is_plain, 2);
    }
}

/// Whatever a tool answers at once can be read from its text again.
pub proof fn law_answers_can_be_read_again(
    name: Seq<char>,
    args: JsonView,
    auto_approve: bool,
    workdir: Seq<char>,
    todos: Seq<TodoView>,
)
    requires
        todos.len() <= u64::MAX,
        call_step(name, args, auto_approve, workdir, todos).1.len() <= u64::MAX,
    ensures
        call_step(name, args, auto_approve, workdir, todos).0 matches StepView::Answer(answer) ==> is_plain(
            answer,
            100,
        ),
{
    let (step, list) = call_step(name, args, auto_approve, workdir, todos);
    lemma_todos_plain(list);
    assert(decimal(todos.len()) == decimal(todos.len() as u64 as nat));
    assert(decimal(list.len()) == decimal(list.len() as u64 as nat));
    if name == "todo_update"@ {
        if wanted_items(args, "items"@) is Ok {
            let items = wanted_items(args, "items"@)->Ok_0;
            if items_read(items) is Err {
                lemma_items_read_plain(items);
            }
        }
    }
    if name == "exec"@ {
        if let Some(JsonView::Array(items)) = args.get("args"@) {
            if arg_texts(items) is Ok {
                lemma_texts_plain(arg_texts(items)->Ok_0, 99);
            }
        }
        lemma_texts_plain(Seq::empty(), 99);
    }
    lemma_texts_plain(tool_names(), 99);
    reveal_with_fuel(is_plain, 2);
}

/// A destructive command that nobody approved is held back, with its arguments or without any: it is
/// answered as blocked, with what holds it back and the next step.
pub proof fn law_destructive_commands_are_held_back(
    args: JsonView,
    workdir: Seq<char>,
    todos: Seq<TodoView>,
    command: Seq<char>,
    texts: Seq<Seq<char>>,
)
    requires
        args.get("command"@) == Some(JsonView::Text(command)),
        match args.get("args"@) {
            Some(JsonView::Array(items)) => arg_texts(items) == Ok::<Seq<Seq<char>>, JsonView>(
                texts,
            ),
            Some(_) => false,
            None => texts.len() == 0,
        },
        destructive(command, texts),
    ensures
        call_step("exec"@, args, false, workdir, todos).0 matches StepView::Answer(answer)
            && answer.flag_at("blocked"@) == Some(true) && answer.text_at("error"@) == Some(
            explanation(command, texts),
        ) && answer.text_at("fix"@) is Some && answer.text_at("command"@) == Some(command),
{
    lemma_tool_names_differ();
    if args.get("args"@) is None {
        assert(texts =~= Seq::empty());
    }
    reveal_strlit("error");
    reveal_strlit("command");
    reveal_strlit("args");
    reveal_strlit("blocked");
    reveal_strlit("fix");
    assert("error"@.len() == 5 && "command"@.len() == 7 && "command"@[0] == 'c' && "args"@.len()
        == 4 && "blocked"@.len() == 7 && "blocked"@[0] == 'b' && "fix"@.len() == 3);
}

/// The statuses are shown and stored under these names, each under its own.
pub proof fn law_names_of_the_statuses(a: TodoStatus, b: TodoStatus)
    ensures
        TodoStatus::Pending.name() == "pending"@,
        TodoStatus::InProgress.name() == "in_progress"@,
        TodoStatus::Completed.name() == "completed"@,
        TodoStatus::Blocked.name() == "blocked"@,
        TodoStatus::InProgress.stored_name() == "inprogress"@,
        a != TodoStatus::InProgress ==> a.stored_name() == a.name(),
        a.name() == b.name() ==> a == b,
        a.stored_name() == b.stored_name() ==> a == b,
{
    law_words_for_a_status(a.name(), a);
    law_words_for_a_status(b.name(), b);
}

/// Values of one kind have one name for it, and values of two kinds have two.
pub proof fn law_kinds_are_told_apart(a: JsonView, b: JsonView)
    ensures
        a is Text ==> kind_of(a) == "string"@,
        a is Number ==> kind_of(a) == "number"@,
        a is Bool ==> kind_of(a) == "bool"@,
        a is Null ==> kind_of(a) == "null"@,
        a is Array ==> kind_of(a) == "array"@,
        a is Object ==> kind_of(a) == "object"@,
{
}

/// The complaint about an item of a list says which one it is.
pub proof fn law_complaints_say_which_item(v: JsonView, i: nat)
    ensures
        item_read(v, i) matches Err(e) ==> (e.text_at("error"@) matches Some(words) && contains_seq(
            words,
            "items["@ + decimal(i) + "]"@,
        )),
        item_read(v, i) matches Ok(item) ==> v.text_at("id"@) == Some(item.id) && v.text_at(
            "content"@,
        ) == Some(item.content),
{
    reveal_strlit("error");
    reveal_strlit("fix");
    assert("error"@.len() == 5 && "fix"@.len() == 3);
    let label = "items["@ + decimal(i) + "]"@;
    let none = Seq::<char>::empty();
    lemma_stands_last(none, label);
    assert(none + label =~= label);
    lemma_stays_before(label, " is not an object"@, label);
    lemma_stays_before(label, " missing 'id'"@, label);
    lemma_stays_before(label, " missing 'content'"@, label);
    lemma_stays_before(label, " missing 'status'"@, label);
    lemma_stays_before(label, ": "@, label);
    if let Some(word) = v.text_at("status"@) {
        lemma_stays_before(
            label + ": "@,
            crate::todo::unknown_status(lowercase(word)),
            label,
        );
    }
}

/// An error is told as an error and the next step as the next step, each in its words.
pub proof fn law_errors_come_with_the_next_step(error: Seq<char>, fix: Seq<char>, key: Seq<char>)
    ensures
        error_with_fix(error, fix).text_at("error"@) == Some(error),
        error_with_fix(error, fix).text_at("fix"@) == Some(fix),
        error_with_fix(error, fix).get(key) is Some ==> key == "error"@ || key == "fix"@,
{
    reveal_strlit("error");
    reveal_strlit("fix");
    assert("error"@.len() == 5 && "fix"@.len() == 3);
}

/// A list without items is said to have none.
pub proof fn law_an_empty_list_says_so(items: Seq<TodoView>)
    ensures
        items.len() == 0 ==> summary_of(items) == "no todos"@,
{
}

}
