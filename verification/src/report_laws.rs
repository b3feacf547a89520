//! What holds of what the model is told of an action: it is shown what came of it, whole as far as
//! there is room, and is told where it is not.

use vstd::prelude::*;
use vstd::string::*;
use vstd::utf8::*;

use crate::json::{is_plain, JsonView};
use crate::reports::{
    exec_told, grep_told, matches_told, ran_told, read_told, results_told, search_told,
    text_lines, write_course, ExecOutcome, GrepOutcome, ReadOutcome, SearchOutcome, WriteNextView,
    WriteProgress,
};
use crate::text::{
    byte_len, contains_seq, cuts_clean, decimal, joined, law_head_is_prefix, lossy, occurs_at,
    signed_decimal,
};
use crate::text_laws::{
    ends_with, law_ascii_cuts_anywhere, law_lines_are_those_written, lemma_stands_between,
    lemma_stands_last, lemma_stays_before, lemma_two_stand,
};

verus! {

/// The names of the members of reports differ.
proof fn lemma_report_names()
    ensures
        "error"@.len() == 5 && "error"@[0] == 'e',
        "fix"@.len() == 3 && "fix"@[0] == 'f',
        "path"@.len() == 4 && "path"@[0] == 'p',
        "content"@.len() == 7 && "content"@[0] == 'c' && "content"@[2] == 'n',
        "is_directory"@.len() == 12,
        "entries"@.len() == 7 && "entries"@[0] == 'e',
        "hint"@.len() == 4 && "hint"@[0] == 'h',
        "truncated"@.len() == 9,
        "note"@.len() == 4 && "note"@[0] == 'n',
        "bytes"@.len() == 5 && "bytes"@[0] == 'b',
        "ok"@.len() == 2,
        "pattern"@.len() == 7 && "pattern"@[0] == 'p',
        "matches"@.len() == 7 && "matches"@[0] == 'm',
        "shown"@.len() == 5 && "shown"@[0] == 's',
        "results"@.len() == 7 && "results"@[0] == 'r',
        "query"@.len() == 5 && "query"@[0] == 'q',
        "count"@.len() == 5 && "count"@[0] == 'c',
        "raw"@.len() == 3 && "raw"@[0] == 'r',
        "command"@.len() == 7 && "command"@[0] == 'c' && "command"@[2] == 'm',
        "args"@.len() == 4 && "args"@[0] == 'a',
        "exit"@.len() == 4 && "exit"@[0] == 'e',
        "stdout"@.len() == 6 && "stdout"@[3] == 'o',
        "stderr"@.len() == 6 && "stderr"@[3] == 'e',
        "stdout_truncated"@.len() == 16 && "stdout_truncated"@[3] == 'o',
        "stderr_truncated"@.len() == 16 && "stderr_truncated"@[3] == 'e',
{
    reveal_strlit("error");
    reveal_strlit("fix");
    reveal_strlit("path");
    reveal_strlit("content");
    reveal_strlit("is_directory");
    reveal_strlit("entries");
    reveal_strlit("hint");
    reveal_strlit("truncated");
    reveal_strlit("note");
    reveal_strlit("bytes");
    reveal_strlit("ok");
    reveal_strlit("pattern");
    reveal_strlit("matches");
    reveal_strlit("shown");
    reveal_strlit("results");
    reveal_strlit("query");
    reveal_strlit("count");
    reveal_strlit("raw");
    reveal_strlit("command");
    reveal_strlit("args");
    reveal_strlit("exit");
    reveal_strlit("stdout");
    reveal_strlit("stderr");
    reveal_strlit("stdout_truncated");
    reveal_strlit("stderr_truncated");
}

/// A text file of up to a megabyte is shown whole: what is shown encodes to just its bytes. Its size
/// and its path are told with it, and nothing says that anything is missing.
pub proof fn law_files_are_shown_whole(path: Seq<char>, bytes: Vec<u8>)
    requires
        valid_utf8(bytes@),
        bytes@.len() <= 1_048_576,
    ensures
        ({
            let told = read_told(path, ReadOutcome::Bytes(bytes));
            &&& told.text_at("content"@) matches Some(shown) && encode_utf8(shown) == bytes@
            &&& told.get("bytes"@) == Some(JsonView::Number(decimal(bytes@.len())))
            &&& told.text_at("path"@) == Some(path)
            &&& told.get("truncated"@) is None
            &&& told.get("error"@) is None
        }),
{
    lemma_report_names();
    decode_utf8_encode_utf8(bytes@);
}

/// Of a longer file the first megabyte is shown, and the model is told that there is more and how
/// much there is.
pub proof fn law_long_files_are_shown_in_part(path: Seq<char>, bytes: Vec<u8>)
    requires
        bytes@.len() > 1_048_576,
    ensures
        ({
            let told = read_told(path, ReadOutcome::Bytes(bytes));
            &&& told.text_at("content"@) == Some(lossy(bytes@.take(1_048_576)))
            &&& told.flag_at("truncated"@) == Some(true)
            &&& told.text_at("path"@) == Some(path)
            &&& told.text_at("note"@) matches Some(words) && contains_seq(
                words,
                decimal(bytes@.len()),
            )
            &&& told.get("error"@) is None
        }),
{
    lemma_report_names();
    assert(bytes@.take(1_048_576) =~= bytes@.subrange(0, 1_048_576));
    lemma_two_stand("file is "@, decimal(bytes@.len()), " bytes, showed first "@, decimal(1_048_576));
    lemma_stays_before(
        "file is "@ + decimal(bytes@.len()) + " bytes, showed first "@ + decimal(1_048_576),
        ". read a specific section by reading a slice"@,
        decimal(bytes@.len()),
    );
}

/// A file that is no text is not shown: the model is told so, with what to do.
pub proof fn law_other_files_are_not_shown(path: Seq<char>, bytes: Vec<u8>)
    requires
        !valid_utf8(bytes@),
        bytes@.len() <= 1_048_576,
    ensures
        ({
            let told = read_told(path, ReadOutcome::Bytes(bytes));
            &&& told.text_at("error"@) == Some("file is not valid utf-8 text"@)
            &&& told.text_at("fix"@) is Some
            &&& told.get("content"@) is None
            &&& told.text_at("path"@) == Some(path)
        }),
{
    lemma_report_names();
}

/// A directory is listed: every entry, as it is named, in the order given. That is no error.
pub proof fn law_directories_are_listed(path: Seq<char>, names: Vec<String>)
    ensures
        ({
            let told = read_told(path, ReadOutcome::Listing(names));
            &&& told.flag_at("is_directory"@) == Some(true)
            &&& told.text_at("path"@) == Some(path)
            &&& told.get("entries"@) matches Some(JsonView::Array(list)) && list.len()
                == names@.len() && forall|i: int|
                0 <= i < list.len() ==> #[trigger] list[i] == JsonView::Text(names@[i]@)
            &&& told.get("error"@) is None
        }),
{
    lemma_report_names();
}

/// What kept a path from being read is told by the path and the reason.
pub proof fn law_failed_reading_says_why(path: Seq<char>, outcome: ReadOutcome)
    ensures
        match outcome {
            ReadOutcome::NotFound => read_told(path, outcome).text_at("error"@) matches Some(words)
                && ends_with(words, path) && contains_seq(words, "no such file"@),
            ReadOutcome::ListFailed(reason) | ReadOutcome::Denied(reason) | ReadOutcome::Failed(
                reason,
            ) => read_told(path, outcome).text_at("error"@) matches Some(words) && contains_seq(
                words,
                path,
            ) && ends_with(words, reason@),
            _ => true,
        },
{
    lemma_report_names();
    match outcome {
        ReadOutcome::NotFound => {
            lemma_stands_last("no such file: "@, path);
            reveal_strlit("no such file: ");
            reveal_strlit("no such file");
            assert("no such file: "@.subrange(0, 12) =~= "no such file"@);
            assert(occurs_at("no such file: "@, "no such file"@, 0));
            lemma_stays_before("no such file: "@, path, "no such file"@);
        },
        ReadOutcome::ListFailed(reason) => {
            lemma_reason_stands("cannot list directory "@, path, reason@);
        },
        ReadOutcome::Denied(reason) => {
            lemma_reason_stands("permission denied reading "@, path, reason@);
        },
        ReadOutcome::Failed(reason) => {
            lemma_reason_stands("could not read "@, path, reason@);
        },
        _ => {},
    }
}

proof fn lemma_reason_stands(front: Seq<char>, subject: Seq<char>, reason: Seq<char>)
    ensures
        contains_seq(front + subject + ": "@ + reason, subject),
        ends_with(front + subject + ": "@ + reason, reason),
{
    lemma_two_stand(front, subject, ": "@, reason);
}

/// A file is written unless its directory is named and missing; then the directory is named, and
/// nothing is written.
pub proof fn law_missing_directories_are_named(
    path: Seq<char>,
    content: Seq<char>,
    parent: Option<String>,
    parent_exists: bool,
)
    ensures
        write_course(path, content, WriteProgress::Start { parent, parent_exists }) is WriteTemp
            <==> (parent matches Some(dir) ==> dir@.len() == 0 || parent_exists),
        !(write_course(path, content, WriteProgress::Start { parent, parent_exists }) is WriteTemp)
            ==> (write_course(
            path,
            content,
            WriteProgress::Start { parent, parent_exists },
        ) matches WriteNextView::Answer(told) && (told.text_at("error"@) matches Some(words)
            && ends_with(words, parent->0@)) && (told.text_at("fix"@) matches Some(words)
            && ends_with(words, parent->0@))),
{
    lemma_report_names();
    if let Some(dir) = parent {
        lemma_stands_last("parent directory does not exist: "@, dir@);
        lemma_stands_last(
            "create the directory first, or write to a path that exists. try: exec mkdir -p "@,
            dir@,
        );
    }
}

/// A file that was written is told of by its path and by the size of all that was written; what
/// kept it from being written is told by its path.
pub proof fn law_written_files_are_told_of(
    path: Seq<char>,
    content: Seq<char>,
    progress: WriteProgress,
)
    ensures
        write_course(path, content, WriteProgress::Renamed) matches WriteNextView::Answer(told)
            && told.text_at("path"@) == Some(path) && told.get("bytes"@) == Some(
            JsonView::Number(decimal(encode_utf8(content).len())),
        ) && told.flag_at("ok"@) == Some(true) && told.get("error"@) is None,
        progress is TempDenied ==> (write_course(path, content, progress) matches
            WriteNextView::Answer(told) && (told.text_at("error"@) matches Some(words)
            && ends_with(words, path))),
        progress matches WriteProgress::TempFailed(reason) ==> (write_course(
            path,
            content,
            progress,
        ) matches WriteNextView::Answer(told) && (told.text_at("error"@) matches Some(words)
            && contains_seq(words, path) && ends_with(words, reason@))),
        progress matches WriteProgress::RenameFailed(reason) ==> (write_course(
            path,
            content,
            progress,
        ) matches WriteNextView::RemoveTemp(told) && (told.text_at("error"@) matches Some(words)
            && contains_seq(words, path) && ends_with(words, reason@))),
{
    lemma_report_names();
    lemma_stands_last("permission denied writing to "@, path);
    if let WriteProgress::TempFailed(reason) = progress {
        lemma_reason_stands("could not write to "@, path, reason@);
    }
    if let WriteProgress::RenameFailed(reason) = progress {
        lemma_reason_stands("could not finalize file "@, path, reason@);
    }
}

/// Up to a hundred matching lines are shown, all of them, as they stand and in their order; of more
/// the first hundred. How many there are is told in any case, and whether some are missing.
pub proof fn law_matching_lines_are_shown(
    pattern: Seq<char>,
    path: Seq<char>,
    lines: Seq<Seq<char>>,
)
    ensures
        ({
            let told = matches_told(pattern, path, lines);
            let room = if lines.len() <= 100 {
                lines.len() as int
            } else {
                100
            };
            &&& told.text_at("pattern"@) == Some(pattern)
            &&& told.text_at("path"@) == Some(path)
            &&& told.get("matches"@) == Some(JsonView::Number(decimal(lines.len())))
            &&& told.get("error"@) is None
            &&& lines.len() > 0 ==> {
                &&& told.get("results"@) matches Some(JsonView::Array(list)) && list.len() == room
                    && forall|i: int|
                    0 <= i < list.len() ==> #[trigger] list[i] == JsonView::Text(lines[i])
                &&& told.get("shown"@) == Some(JsonView::Number(decimal(room as nat)))
                &&& told.flag_at("truncated"@) == Some(lines.len() > 100)
            }
        }),
{
    lemma_report_names();
}

/// What the pattern search prints line by line is what the model is shown line by line.
pub proof fn law_printed_lines_are_shown(
    pattern: Seq<char>,
    path: Seq<char>,
    lines: Seq<Seq<char>>,
    stdout: Vec<u8>,
)
    requires
        0 < lines.len() <= 100,
        forall|k: int, i: int|
            0 <= k < lines.len() && 0 <= i < lines[k].len() ==> #[trigger] lines[k][i] != '\n',
        forall|k: int|
            0 <= k < lines.len() && (#[trigger] lines[k]).len() > 0 ==> lines[k].last() != '\r',
        lossy(stdout@) == joined(lines, seq!['\n']).push('\n'),
    ensures
        grep_told(pattern, path, GrepOutcome::Output(stdout)).get("results"@) matches Some(
            JsonView::Array(list),
        ) && list.len() == lines.len() && forall|i: int|
            0 <= i < list.len() ==> #[trigger] list[i] == JsonView::Text(lines[i]),
{
    law_lines_are_those_written(lines);
    law_matching_lines_are_shown(pattern, path, lines);
}

/// A search without a match is no error: it is told that there are none.
pub proof fn law_no_match_is_no_error(pattern: Seq<char>, path: Seq<char>, stdout: Vec<u8>)
    requires
        lossy(stdout@).len() == 0,
    ensures
        grep_told(pattern, path, GrepOutcome::Output(stdout)).get("matches"@) == Some(
            JsonView::Number(seq!['0']),
        ),
        grep_told(pattern, path, GrepOutcome::Output(stdout)).get("error"@) is None,
{
    lemma_report_names();
    assert(lossy(stdout@) =~= Seq::empty());
    assert(text_lines(lossy(stdout@)).len() == 0);
    assert(decimal(0) =~= seq!['0']);
}

/// Up to five results of the web are shown, all of them, as they came and in their order; of more
/// the first five. How many are shown is told.
pub proof fn law_results_are_shown(query: Seq<char>, items: Seq<JsonView>)
    ensures
        ({
            let told = results_told(query, JsonView::Array(items));
            let room = if items.len() <= 5 {
                items.len() as int
            } else {
                5
            };
            &&& told.text_at("query"@) == Some(query)
            &&& told.get("results"@) matches Some(JsonView::Array(list)) && list.len() == room
                && forall|i: int| 0 <= i < list.len() ==> #[trigger] list[i] == items[i]
            &&& told.get("count"@) == Some(JsonView::Number(decimal(room as nat)))
            &&& told.get("error"@) is None
        }),
{
    lemma_report_names();
}

/// What the web answered is shown where it can be read, and in full as it came where it cannot.
pub proof fn law_the_webs_answer_is_shown(query: Seq<char>, stdout: Vec<u8>, items: Seq<JsonView>)
    requires
        stdout@.len() > 0,
    ensures
        crate::json::parsed_bytes(stdout@) == Some(JsonView::Array(items)) ==> search_told(
            query,
            SearchOutcome::Output(stdout),
        ) == results_told(query, JsonView::Array(items)),
        crate::json::parsed_bytes(stdout@) is None ==> search_told(
            query,
            SearchOutcome::Output(stdout),
        ).text_at("raw"@) == Some(lossy(stdout@)),
        search_told(query, SearchOutcome::Output(stdout)).text_at("query"@) == Some(query),
        search_told(query, SearchOutcome::Output(stdout)).get("error"@) is None,
{
    lemma_report_names();
}

/// A command that ran is told of by its name and arguments, its exit code, and both its outputs,
/// each under its own name and whole up to ten kilobytes.
pub proof fn law_commands_are_told_of(
    command: Seq<char>,
    args: Seq<Seq<char>>,
    code: Option<i32>,
    stdout: Seq<char>,
    stderr: Seq<char>,
)
    ensures
        ({
            let told = ran_told(command, args, code, stdout, stderr);
            &&& told.text_at("command"@) == Some(command)
            &&& told.get("args"@) matches Some(JsonView::Array(list)) && list.len() == args.len()
                && forall|i: int|
                0 <= i < list.len() ==> #[trigger] list[i] == JsonView::Text(args[i])
            &&& code matches Some(c) ==> told.get("exit"@) == Some(
                JsonView::Number(signed_decimal(c as int)),
            )
            &&& code is None ==> told.get("exit"@) == Some(JsonView::Number(signed_decimal(-1)))
            &&& byte_len(stdout) <= 10_240 ==> told.text_at("stdout"@) == Some(stdout)
                && told.flag_at("stdout_truncated"@) == Some(false)
            &&& byte_len(stderr) <= 10_240 ==> told.text_at("stderr"@) == Some(stderr)
                && told.flag_at("stderr_truncated"@) == Some(false)
            &&& byte_len(stdout) > 10_240 ==> told.flag_at("stdout_truncated"@) == Some(true)
            &&& byte_len(stderr) > 10_240 ==> told.flag_at("stderr_truncated"@) == Some(true)
            &&& told.get("error"@) is None
        }),
{
    lemma_report_names();
}

/// Of a longer output just the first ten kilobytes are shown, as they stand.
pub proof fn law_long_outputs_are_shown_in_part(
    command: Seq<char>,
    args: Seq<Seq<char>>,
    code: Option<i32>,
    stdout: Seq<char>,
    stderr: Seq<char>,
)
    requires
        cuts_clean(stdout, 10_240),
        cuts_clean(stderr, 10_240),
    ensures
        byte_len(stdout) > 10_240 ==> (ran_told(command, args, code, stdout, stderr).text_at(
            "stdout"@,
        ) matches Some(shown) && shown.len() <= stdout.len() && shown == stdout.take(
            shown.len() as int,
        ) && byte_len(shown) == 10_240),
        byte_len(stderr) > 10_240 ==> (ran_told(command, args, code, stdout, stderr).text_at(
            "stderr"@,
        ) matches Some(shown) && shown.len() <= stderr.len() && shown == stderr.take(
            shown.len() as int,
        ) && byte_len(shown) == 10_240),
{
    lemma_report_names();
    if byte_len(stdout) > 10_240 {
        law_head_is_prefix(stdout, 10_240);
    }
    if byte_len(stderr) > 10_240 {
        law_head_is_prefix(stderr, 10_240);
    }
}

/// There is always something to tell of a command whose outputs are short or plain ASCII, and what
/// it printed is what is told.
pub proof fn law_what_was_printed_is_told(
    command: Seq<char>,
    args: Seq<Seq<char>>,
    code: Option<i32>,
    stdout: Vec<u8>,
    stderr: Vec<u8>,
)
    requires
        byte_len(lossy(stdout@)) <= 10_240 || is_ascii_chars(lossy(stdout@)),
        byte_len(lossy(stderr@)) <= 10_240 || is_ascii_chars(lossy(stderr@)),
    ensures
        exec_told(command, args, ExecOutcome::Done { code, stdout, stderr }) == Some(
            ran_told(command, args, code, lossy(stdout@), lossy(stderr@)),
        ),
{
    if is_ascii_chars(lossy(stdout@)) {
        law_ascii_cuts_anywhere(lossy(stdout@), 10_240);
    }
    if is_ascii_chars(lossy(stderr@)) {
        law_ascii_cuts_anywhere(lossy(stderr@), 10_240);
    }
}

/// A command that could not be run is told of by its name and the reason.
pub proof fn law_commands_that_do_not_run_are_named(
    command: Seq<char>,
    args: Seq<Seq<char>>,
    outcome: ExecOutcome,
)
    ensures
        !(outcome is Done) ==> (exec_told(command, args, outcome) matches Some(told)
            && told.get("exit"@) is None && (told.text_at("error"@) matches Some(words)
            && contains_seq(words, command) && (outcome matches ExecOutcome::Failed(reason)
            ==> ends_with(words, reason@)))),
{
    lemma_report_names();
    match outcome {
        ExecOutcome::Done { .. } => {},
        ExecOutcome::NotFound => {
            lemma_stands_last("command not found: "@, command);
        },
        ExecOutcome::Denied => {
            lemma_stands_between(
                "cannot execute '"@,
                command,
                "': not executable or permission denied"@,
            );
        },
        ExecOutcome::Failed(reason) => {
            lemma_two_stand("could not run '"@, command, "': "@, reason@);
        },
    }
}

proof fn lemma_texts_are_plain(texts: Seq<Seq<char>>, depth: nat)
    requires
        depth > 0,
    ensures
        is_plain(JsonView::Array(Seq::new(texts.len(), |i: int| JsonView::Text(texts[i]))), depth),
{
    reveal_with_fuel(is_plain, 2);
}

proof fn lemma_count_is_plain(n: nat, depth: nat)
    requires
        n <= u64::MAX,
    ensures
        is_plain(JsonView::Number(decimal(n)), depth),
{
    assert(decimal(n) == decimal(n as u64 as nat));
}

/// What is told of an action can be read from its text again, but for what the web itself answered.
pub proof fn law_reports_can_be_read_again(
    subject: Seq<char>,
    content: Seq<char>,
    args: Seq<Seq<char>>,
    lines: Seq<Seq<char>>,
    read: ReadOutcome,
    write: WriteProgress,
    exec: ExecOutcome,
)
    requires
        byte_len(content) <= u64::MAX,
        lines.len() <= u64::MAX,
    ensures
        is_plain(read_told(subject, read), 100),
        write_course(subject, content, write) matches WriteNextView::Answer(told) ==> is_plain(
            told,
            100,
        ),
        write_course(subject, content, write) matches WriteNextView::RemoveTemp(told) ==> is_plain(
            told,
            100,
        ),
        is_plain(matches_told(subject, content, lines), 100),
        exec_told(subject, args, exec) matches Some(told) ==> is_plain(told, 100),
{
    if let ReadOutcome::Listing(names) = read {
        let texts = Seq::new(names@.len(), |i: int| names@[i]@);
        lemma_texts_are_plain(texts, 99);
        assert(Seq::new(texts.len(), |i: int| JsonView::Text(texts[i])) =~= Seq::new(
            names@.len(),
            |i: int| JsonView::Text(names@[i]@),
        ));
    }
    if let ReadOutcome::Bytes(bytes) = read {
        if bytes@.len() <= 1_048_576 {
            lemma_count_is_plain(bytes@.len(), 99);
        }
    }
    lemma_count_is_plain(byte_len(content), 99);
    lemma_count_is_plain(lines.len(), 99);
    lemma_count_is_plain(0, 99);
    let shown = if lines.len() > 100 {
        lines.subrange(0, 100)
    } else {
        lines
    };
    lemma_count_is_plain(shown.len(), 99);
    lemma_texts_are_plain(shown, 99);
    lemma_texts_are_plain(args, 99);
    if let ExecOutcome::Done { code, .. } = exec {
        let exit: i64 = match code {
            Some(c) => c as i64,
            None => -1i64,
        };
        assert(is_plain(JsonView::Number(signed_decimal(exit as int)), 99));
    }
    reveal_with_fuel(is_plain, 2);
}

/// A search that could not be made is an error, with the reason where there is one; it is never
/// told as one without a match.
pub proof fn law_failed_searches_are_errors(
    subject: Seq<char>,
    path: Seq<char>,
    grep: GrepOutcome,
    search: SearchOutcome,
)
    ensures
        !(grep is Output) ==> grep_told(subject, path, grep).text_at("error"@) is Some && grep_told(
            subject,
            path,
            grep,
        ).text_at("fix"@) is Some && grep_told(subject, path, grep).get("matches"@) is None,
        grep matches GrepOutcome::Failed(reason) ==> (grep_told(subject, path, grep).text_at(
            "error"@,
        ) matches Some(words) && ends_with(words, reason@)),
        !(search is Output) ==> search_told(subject, search).text_at("error"@) is Some && search_told(
            subject,
            search,
        ).text_at("fix"@) is Some && search_told(subject, search).get("results"@) is None,
        search matches SearchOutcome::Failed(reason) ==> (search_told(subject, search).text_at(
            "error"@,
        ) matches Some(words) && ends_with(words, reason@)),
{
    lemma_report_names();
    if let GrepOutcome::Failed(reason) = grep {
        lemma_stands_last("could not run grep: "@, reason@);
    }
    if let SearchOutcome::Failed(reason) = search {
        lemma_stands_last("could not run ddgr: "@, reason@);
    }
}

/// Where the web answered nothing, or nothing that is a list, no results are shown and it is noted.
pub proof fn law_no_results_are_noted(query: Seq<char>, answer: JsonView, stdout: Vec<u8>)
    ensures
        !(answer is Array) ==> results_told(query, answer).get("results"@) == Some(
            JsonView::Array(Seq::empty()),
        ) && results_told(query, answer).text_at("note"@) is Some,
        stdout@.len() == 0 ==> search_told(query, SearchOutcome::Output(stdout)).get("results"@)
            == Some(JsonView::Array(Seq::empty())) && search_told(
            query,
            SearchOutcome::Output(stdout),
        ).text_at("note"@) is Some && search_told(query, SearchOutcome::Output(stdout)).get(
            "error"@,
        ) is None,
        results_told(query, answer).text_at("query"@) == Some(query),
{
    lemma_report_names();
}

}
