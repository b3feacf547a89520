//! What came of a tool's action, as the model is told.

use vstd::prelude::*;
use vstd::slice::slice_subrange;
use vstd::string::*;
use vstd::utf8::*;

use crate::json::{parse_bytes, parsed_bytes, Json, JsonView};
use crate::text::{
    byte_len, can_cut, chars_of, cuts_clean, decimal, from_bytes, from_bytes_lossy, head, head_of,
    lossy, pieces, push_decimal, signed_decimal, size_of, split, text_of, views,
};
use crate::tools::{error_fix, error_with_fix, glue, glue3};

verus! {

/// How many bytes of a file are shown.
pub const MAX_READ_BYTES: usize = 1_048_576;

/// How many bytes of each output of a command are shown.
pub const MAX_EXEC_OUTPUT: usize = 10_240;

/// How many matching lines are shown.
pub const MAX_GREP_LINES: usize = 100;

/// How many results of a search are shown.
pub const MAX_SEARCH_RESULTS: usize = 5;

/// What reading a path gave.
#[derive(Debug)]
pub enum ReadOutcome {
    /// The path is a directory with these entries.
    Listing(Vec<String>),
    /// The path is a directory that could not be listed.
    ListFailed(String),
    /// The path is a file with these bytes.
    Bytes(Vec<u8>),
    NotFound,
    Denied(String),
    Failed(String),
}

/// What is said of the part that is shown of a long file.
pub open spec fn long_file_note(total: nat) -> Seq<char> {
    "file is "@ + decimal(total) + " bytes, showed first "@ + decimal(MAX_READ_BYTES as nat)
        + ". read a specific section by reading a slice"@
}

/// What is told of a file that is too long to show whole.
pub open spec fn long_file(path: Seq<char>, shown: Seq<char>, total: nat) -> JsonView {
    JsonView::empty().with("path"@, JsonView::Text(path)).with(
        "content"@,
        JsonView::Text(shown),
    ).with("truncated"@, JsonView::Bool(true)).with("note"@, JsonView::Text(long_file_note(total)))
}

/// What is told of reading a path.
pub open spec fn read_told(path: Seq<char>, outcome: ReadOutcome) -> JsonView {
    match outcome {
        ReadOutcome::Listing(names) => JsonView::empty().with("path"@, JsonView::Text(path)).with(
            "is_directory"@,
            JsonView::Bool(true),
        ).with(
            "entries"@,
            JsonView::Array(Seq::new(names@.len(), |i: int| JsonView::Text(names@[i]@))),
        ).with(
            "hint"@,
            JsonView::Text(
                "this is a directory. pass a specific file path to read its contents"@,
            ),
        ),
        ReadOutcome::ListFailed(reason) => error_with_fix(
            "cannot list directory "@ + path + ": "@ + reason@,
            "check that this process may list the directory, or read one of its files by its path"@,
        ),
        ReadOutcome::Bytes(bytes) => if bytes@.len() > MAX_READ_BYTES {
            long_file(path, lossy(bytes@.subrange(0, MAX_READ_BYTES as int)), bytes@.len())
        } else if valid_utf8(bytes@) {
            JsonView::empty().with("path"@, JsonView::Text(path)).with(
                "content"@,
                JsonView::Text(decode_utf8(bytes@)),
            ).with("bytes"@, JsonView::Number(decimal(bytes@.len())))
        } else {
            JsonView::empty().with("error"@, JsonView::Text("file is not valid utf-8 text"@)).with(
                "path"@,
                JsonView::Text(path),
            ).with(
                "fix"@,
                JsonView::Text(
                    "this looks like a binary file. if you need to inspect it, use exec with `file` or `xxd`"@,
                ),
            )
        },
        ReadOutcome::NotFound => error_with_fix(
            "no such file: "@ + path,
            "check the path is right. if it should exist, create it first with write"@,
        ),
        ReadOutcome::Denied(reason) => error_with_fix(
            "permission denied reading "@ + path + ": "@ + reason@,
            "the file exists but this process cannot read it. check the file permissions"@,
        ),
        ReadOutcome::Failed(reason) => error_with_fix(
            "could not read "@ + path + ": "@ + reason@,
            "check that the path names a regular file, or try another path"@,
        ),
    }
}

/// Tells of a file that is too long to show whole.
pub fn long_file_report(path: &str, shown: &str, total: usize) -> (r: Json)
    ensures
        r@ == long_file(path@, shown@, total as nat),
{
    let mut note = "file is ".to_string();
    push_decimal(&mut note, total as u64);
    note.append(" bytes, showed first ");
    push_decimal(&mut note, MAX_READ_BYTES as u64);
    note.append(". read a specific section by reading a slice");
    Json::object().with("path", Json::text(path)).with("content", Json::text(shown)).with(
        "truncated",
        Json::Bool(true),
    ).with("note", Json::text(note.as_str()))
}

/// Tells of reading a path.
pub fn read_report(path: &str, outcome: ReadOutcome) -> (r: Json)
    ensures
        r@ == read_told(path@, outcome),
{
    match outcome {
        ReadOutcome::Listing(names) => Json::object().with("path", Json::text(path)).with(
            "is_directory",
            Json::Bool(true),
        ).with("entries", Json::texts(&names)).with(
            "hint",
            Json::text("this is a directory. pass a specific file path to read its contents"),
        ),
        ReadOutcome::ListFailed(reason) => {
            let mut error = glue3("cannot list directory ", path, ": ");
            error.append(reason.as_str());
            error_fix(
                error.as_str(),
                "check that this process may list the directory, or read one of its files by its path",
            )
        },
        ReadOutcome::Bytes(bytes) => {
            let total: usize = bytes.len();
            if total > MAX_READ_BYTES {
                let shown = from_bytes_lossy(slice_subrange(bytes.as_slice(), 0, MAX_READ_BYTES));
                return long_file_report(path, shown.as_str(), total);
            }
            match from_bytes(bytes) {
                Some(text) => Json::object().with("path", Json::text(path)).with(
                    "content",
                    Json::text(text.as_str()),
                ).with("bytes", Json::count(total)),
                None => Json::object().with(
                    "error",
                    Json::text("file is not valid utf-8 text"),
                ).with("path", Json::text(path)).with(
                    "fix",
                    Json::text(
                        "this looks like a binary file. if you need to inspect it, use exec with `file` or `xxd`",
                    ),
                ),
            }
        },
        ReadOutcome::NotFound => error_fix(
            glue("no such file: ", path).as_str(),
            "check the path is right. if it should exist, create it first with write",
        ),
        ReadOutcome::Denied(reason) => {
            let mut error = glue3("permission denied reading ", path, ": ");
            error.append(reason.as_str());
            error_fix(
                error.as_str(),
                "the file exists but this process cannot read it. check the file permissions",
            )
        },
        ReadOutcome::Failed(reason) => {
            let mut error = glue3("could not read ", path, ": ");
            error.append(reason.as_str());
            error_fix(
                error.as_str(),
                "check that the path names a regular file, or try another path",
            )
        },
    }
}

/// How far writing a file has come.
#[derive(Debug)]
pub enum WriteProgress {
    /// Nothing is written yet; this is the file's directory, if its path has one, and whether it
    /// exists.
    Start { parent: Option<String>, parent_exists: bool },
    /// The text is in a file beside the one to be written.
    TempWritten,
    TempDenied,
    TempFailed(String),
    /// The file beside has taken the place of the one to be written.
    Renamed,
    RenameFailed(String),
}

/// What to do next about a file to be written.
#[derive(Debug)]
pub enum WriteNext {
    /// Write the text into a file beside the one to be written.
    WriteTemp,
    /// Let the file beside take the place of the one to be written.
    Rename,
    /// Remove the file beside, and answer.
    RemoveTemp(Json),
    Answer(Json),
}

/// What a next step says.
pub enum WriteNextView {
    WriteTemp,
    Rename,
    RemoveTemp(JsonView),
    Answer(JsonView),
}

impl View for WriteNext {
    type V = WriteNextView;

    open spec fn view(&self) -> WriteNextView {
        match self {
            WriteNext::WriteTemp => WriteNextView::WriteTemp,
            WriteNext::Rename => WriteNextView::Rename,
            WriteNext::RemoveTemp(j) => WriteNextView::RemoveTemp(j@),
            WriteNext::Answer(j) => WriteNextView::Answer(j@),
        }
    }
}

/// The next step of writing a file: a text takes the place of the old one in one piece or not at
/// all.
pub open spec fn write_course(
    path: Seq<char>,
    content: Seq<char>,
    progress: WriteProgress,
) -> WriteNextView {
    match progress {
        WriteProgress::Start { parent, parent_exists } => match parent {
            Some(dir) => if dir@.len() > 0 && !parent_exists {
                WriteNextView::Answer(
                    error_with_fix(
                        "parent directory does not exist: "@ + dir@,
                        "create the directory first, or write to a path that exists. try: exec mkdir -p "@
                            + dir@,
                    ),
                )
            } else {
                WriteNextView::WriteTemp
            },
            None => WriteNextView::WriteTemp,
        },
        WriteProgress::TempWritten => WriteNextView::Rename,
        WriteProgress::TempDenied => WriteNextView::Answer(
            error_with_fix(
                "permission denied writing to "@ + path,
                "check the directory permissions. you may need to write to a different location"@,
            ),
        ),
        WriteProgress::TempFailed(reason) => WriteNextView::Answer(
            error_with_fix(
                "could not write to "@ + path + ": "@ + reason@,
                "check the path and the free space, or write to a different location"@,
            ),
        ),
        WriteProgress::Renamed => WriteNextView::Answer(
            JsonView::empty().with("path"@, JsonView::Text(path)).with(
                "bytes"@,
                JsonView::Number(decimal(byte_len(content))),
            ).with("ok"@, JsonView::Bool(true)),
        ),
        WriteProgress::RenameFailed(reason) => WriteNextView::RemoveTemp(
            error_with_fix(
                "could not finalize file "@ + path + ": "@ + reason@,
                "check that the path does not name a directory, or write to a different location"@,
            ),
        ),
    }
}

/// Decides the next step of writing a file.
pub fn write_next(path: &str, content: &str, progress: WriteProgress) -> (r: WriteNext)
    ensures
        r@ == write_course(path@, content@, progress),
{
    match progress {
        WriteProgress::Start { parent, parent_exists } => {
            if let Some(dir) = parent {
                if !dir.as_str().is_empty() && !parent_exists {
                    return WriteNext::Answer(
                        error_fix(
                            glue("parent directory does not exist: ", dir.as_str()).as_str(),
                            glue(
                                "create the directory first, or write to a path that exists. try: exec mkdir -p ",
                                dir.as_str(),
                            ).as_str(),
                        ),
                    );
                }
            }
            WriteNext::WriteTemp
        },
        WriteProgress::TempWritten => WriteNext::Rename,
        WriteProgress::TempDenied => WriteNext::Answer(
            error_fix(
                glue("permission denied writing to ", path).as_str(),
                "check the directory permissions. you may need to write to a different location",
            ),
        ),
        WriteProgress::TempFailed(reason) => {
            let mut error = glue3("could not write to ", path, ": ");
            error.append(reason.as_str());
            WriteNext::Answer(
                error_fix(
                    error.as_str(),
                    "check the path and the free space, or write to a different location",
                ),
            )
        },
        WriteProgress::Renamed => WriteNext::Answer(
            Json::object().with("path", Json::text(path)).with(
                "bytes",
                Json::count(size_of(content)),
            ).with("ok", Json::Bool(true)),
        ),
        WriteProgress::RenameFailed(reason) => {
            let mut error = glue3("could not finalize file ", path, ": ");
            error.append(reason.as_str());
            WriteNext::RemoveTemp(
                error_fix(
                    error.as_str(),
                    "check that the path does not name a directory, or write to a different location",
                ),
            )
        },
    }
}

/// A program to run, with its arguments and one setting of its environment.
#[derive(Debug)]
pub struct CommandLine {
    pub program: String,
    pub args: Vec<String>,
    pub setting: String,
    pub value: String,
}

/// What a command line says.
pub struct CommandView {
    pub program: Seq<char>,
    pub args: Seq<Seq<char>>,
    pub setting: Seq<char>,
    pub value: Seq<char>,
}

impl View for CommandLine {
    type V = CommandView;

    open spec fn view(&self) -> CommandView {
        CommandView {
            program: self.program@,
            args: views(self.args@),
            setting: self.setting@,
            value: self.value@,
        }
    }
}

/// The program that looks for a pattern below a path, and prints the number of each line.
pub fn grep_command(pattern: &str, path: &str) -> (r: CommandLine)
    ensures
        r@ == (CommandView {
            program: "rg"@,
            args: seq!["--line-number"@, "--no-heading"@, "--color=never"@, pattern@, path@],
            setting: "RG_CLI_LEVEL"@,
            value: "0"@,
        }),
{
    let mut args: Vec<String> = Vec::new();
    args.push("--line-number".to_string());
    args.push("--no-heading".to_string());
    args.push("--color=never".to_string());
    args.push(pattern.to_string());
    args.push(path.to_string());
    assert(views(args@) =~= seq![
        "--line-number"@,
        "--no-heading"@,
        "--color=never"@,
        pattern@,
        path@,
    ]);
    CommandLine {
        program: "rg".to_string(),
        args,
        setting: "RG_CLI_LEVEL".to_string(),
        value: "0".to_string(),
    }
}

/// The program that asks the web.
pub fn search_command(query: &str) -> (r: CommandLine)
    ensures
        r@ == (CommandView {
            program: "ddgr"@,
            args: seq!["--json"@, "-n"@, "5"@, query@],
            setting: "DDGR_HARDCONFIRM"@,
            value: "1"@,
        }),
{
    let mut args: Vec<String> = Vec::new();
    args.push("--json".to_string());
    args.push("-n".to_string());
    args.push("5".to_string());
    args.push(query.to_string());
    assert(views(args@) =~= seq!["--json"@, "-n"@, "5"@, query@]);
    CommandLine {
        program: "ddgr".to_string(),
        args,
        setting: "DDGR_HARDCONFIRM".to_string(),
        value: "1".to_string(),
    }
}

/// A text without the carriage return at its end.
pub open spec fn without_return(s: Seq<char>) -> Seq<char> {
    if s.len() > 0 && s.last() == '\r' {
        s.drop_last()
    } else {
        s
    }
}

/// The lines of a text. A line feed ends a line, with a carriage return before it or not; behind
/// the last line feed there is a line only where something stands.
pub open spec fn text_lines(s: Seq<char>) -> Seq<Seq<char>> {
    let parts = pieces(s, '\n');
    let ended = Seq::new((parts.len() - 1) as nat, |i: int| without_return(parts[i]));
    if parts.last().len() == 0 {
        ended
    } else {
        ended.push(parts.last())
    }
}

/// A text without the carriage return at its end.
fn drop_return(s: &str) -> (r: String)
    ensures
        r@ == without_return(s@),
{
    let chars = chars_of(s);
    let n: usize = chars.len();
    if n > 0 && chars[n - 1] == '\r' {
        let r = text_of(&chars, 0, n - 1);
        assert(r@ =~= s@.drop_last());
        r
    } else {
        s.to_string()
    }
}

/// The lines of a text.
pub fn lines_of(s: &str) -> (r: Vec<String>)
    ensures
        views(r@) == text_lines(s@),
{
    let parts = split(s, '\n');
    let ghost all = pieces(s@, '\n');
    assert(views(parts@) == all);
    proof {
        crate::text::lemma_pieces_some(s@, '\n');
    }
    let last: usize = parts.len() - 1;
    let mut out: Vec<String> = Vec::new();
    for i in 0..last
        invariant
            all == views(parts@),
            last == parts@.len() - 1,
            out@.len() == i,
            forall|k: int| 0 <= k < i ==> (#[trigger] out@[k])@ == without_return(all[k]),
    {
        out.push(drop_return(parts[i].as_str()));
    }
    if !parts[last].as_str().is_empty() {
        out.push(parts[last].clone());
    }
    assert(views(out@) =~= text_lines(s@));
    out
}

/// What running the pattern search gave.
#[derive(Debug)]
pub enum GrepOutcome {
    Output(Vec<u8>),
    NotInstalled,
    Failed(String),
}

/// What is told of the lines that match a pattern.
pub open spec fn matches_told(
    pattern: Seq<char>,
    path: Seq<char>,
    lines: Seq<Seq<char>>,
) -> JsonView {
    let base = JsonView::empty().with("pattern"@, JsonView::Text(pattern)).with(
        "path"@,
        JsonView::Text(path),
    );
    if lines.len() == 0 {
        base.with("matches"@, JsonView::Number(decimal(0))).with(
            "note"@,
            JsonView::Text("no matches found"@),
        )
    } else {
        let shown = if lines.len() > MAX_GREP_LINES {
            lines.subrange(0, MAX_GREP_LINES as int)
        } else {
            lines
        };
        base.with("matches"@, JsonView::Number(decimal(lines.len()))).with(
            "shown"@,
            JsonView::Number(decimal(shown.len())),
        ).with("truncated"@, JsonView::Bool(lines.len() > MAX_GREP_LINES)).with(
            "results"@,
            JsonView::Array(Seq::new(shown.len(), |i: int| JsonView::Text(shown[i]))),
        )
    }
}

/// What is told of a pattern search.
pub open spec fn grep_told(
    pattern: Seq<char>,
    path: Seq<char>,
    outcome: GrepOutcome,
) -> JsonView {
    match outcome {
        GrepOutcome::Output(stdout) => matches_told(pattern, path, text_lines(lossy(stdout@))),
        GrepOutcome::NotInstalled => error_with_fix(
            "ripgrep (rg) is not installed. grep needs it"@,
            "install ripgrep: on debian/ubuntu `apt install ripgrep`, on mac `brew install ripgrep`, or from https://github.com/BurntSushi/ripgrep"@,
        ),
        GrepOutcome::Failed(reason) => error_with_fix(
            "could not run grep: "@ + reason@,
            "check that rg can be started, or read the files one by one"@,
        ),
    }
}

/// Tells of the lines that match a pattern.
pub fn matches_report(pattern: &str, path: &str, text: &str) -> (r: Json)
    ensures
        r@ == matches_told(pattern@, path@, text_lines(text@)),
{
    let base = Json::object().with("pattern", Json::text(pattern)).with("path", Json::text(path));
    let lines = lines_of(text);
    let ghost all = text_lines(text@);
    assert(views(lines@) == all);
    let total: usize = lines.len();
    if total == 0 {
        return base.with("matches", Json::count(0)).with("note", Json::text("no matches found"));
    }
    let mut shown = lines;
    if total > MAX_GREP_LINES {
        shown.truncate(MAX_GREP_LINES);
    }
    let ghost few = if all.len() > MAX_GREP_LINES {
        all.subrange(0, MAX_GREP_LINES as int)
    } else {
        all
    };
    assert(views(shown@) =~= few);
    let count: usize = shown.len();
    let results = Json::texts(&shown);
    assert(results@->Array_0 =~= Seq::new(few.len(), |i: int| JsonView::Text(few[i]))) by {
        assert forall|i: int| 0 <= i < few.len() implies shown@[i]@ == few[i] by {
            assert(views(shown@)[i] == shown@[i]@);
        }
    }
    base.with("matches", Json::count(total)).with("shown", Json::count(count)).with(
        "truncated",
        Json::Bool(total > MAX_GREP_LINES),
    ).with("results", results)
}

/// Tells of a pattern search.
pub fn grep_report(pattern: &str, path: &str, outcome: GrepOutcome) -> (r: Json)
    ensures
        r@ == grep_told(pattern@, path@, outcome),
{
    match outcome {
        GrepOutcome::Output(stdout) => matches_report(
            pattern,
            path,
            from_bytes_lossy(stdout.as_slice()).as_str(),
        ),
        GrepOutcome::NotInstalled => error_fix(
            "ripgrep (rg) is not installed. grep needs it",
            "install ripgrep: on debian/ubuntu `apt install ripgrep`, on mac `brew install ripgrep`, or from https://github.com/BurntSushi/ripgrep",
        ),
        GrepOutcome::Failed(reason) => error_fix(
            glue("could not run grep: ", reason.as_str()).as_str(),
            "check that rg can be started, or read the files one by one",
        ),
    }
}

/// What asking the web gave.
#[derive(Debug)]
pub enum SearchOutcome {
    Output(Vec<u8>),
    NotInstalled,
    Failed(String),
}

/// What is told of an answer of the web that could be read.
pub open spec fn results_told(query: Seq<char>, answer: JsonView) -> JsonView {
    let base = JsonView::empty().with("query"@, JsonView::Text(query));
    match answer {
        JsonView::Array(items) => {
            let shown = if items.len() > MAX_SEARCH_RESULTS {
                items.subrange(0, MAX_SEARCH_RESULTS as int)
            } else {
                items
            };
            base.with("results"@, JsonView::Array(shown)).with(
                "count"@,
                JsonView::Number(decimal(shown.len())),
            )
        },
        _ => base.with("results"@, JsonView::Array(Seq::empty())).with(
            "note"@,
            JsonView::Text("ddgr returned unexpected format"@),
        ),
    }
}

/// What is told of asking the web.
pub open spec fn search_told(query: Seq<char>, outcome: SearchOutcome) -> JsonView {
    let base = JsonView::empty().with("query"@, JsonView::Text(query));
    match outcome {
        SearchOutcome::Output(stdout) => if stdout@.len() == 0 {
            base.with("results"@, JsonView::Array(Seq::empty())).with(
                "note"@,
                JsonView::Text("no results or ddgr returned nothing"@),
            )
        } else {
            match parsed_bytes(stdout@) {
                Some(answer) => results_told(query, answer),
                None => base.with("raw"@, JsonView::Text(lossy(stdout@))).with(
                    "note"@,
                    JsonView::Text("ddgr output was not json"@),
                ),
            }
        },
        SearchOutcome::NotInstalled => error_with_fix(
            "ddgr is not installed. web search needs it"@,
            "install ddgr: `pip install ddgr` or from https://github.com/jarun/ddgr"@,
        ),
        SearchOutcome::Failed(reason) => error_with_fix(
            "could not run ddgr: "@ + reason@,
            "check that ddgr can be started, or go on without a web search"@,
        ),
    }
}

/// An array without elements.
fn no_items() -> (r: Json)
    ensures
        r@ == JsonView::Array(Seq::empty()),
{
    let none: Vec<Json> = Vec::new();
    let r = Json::Array(none);
    assert(r@->Array_0 =~= Seq::<JsonView>::empty());
    r
}

/// Tells of an answer of the web that could be read.
pub fn results_report(query: &str, answer: Json) -> (r: Json)
    ensures
        r@ == results_told(query@, answer@),
{
    let base = Json::object().with("query", Json::text(query));
    let ghost told = answer@;
    match answer {
        Json::Array(items) => {
            let mut shown = items;
            let ghost all = told->Array_0;
            assert forall|i: int| 0 <= i < shown@.len() implies (#[trigger] shown@[i])@
                == all[i] by {}
            if shown.len() > MAX_SEARCH_RESULTS {
                shown.truncate(MAX_SEARCH_RESULTS);
            }
            let ghost few = if all.len() > MAX_SEARCH_RESULTS {
                all.subrange(0, MAX_SEARCH_RESULTS as int)
            } else {
                all
            };
            let count: usize = shown.len();
            let results = Json::Array(shown);
            assert(results@->Array_0 =~= few);
            base.with("results", results).with("count", Json::count(count))
        },
        _ => base.with("results", no_items()).with(
            "note",
            Json::text("ddgr returned unexpected format"),
        ),
    }
}

/// Tells of asking the web.
pub fn search_report(query: &str, outcome: SearchOutcome) -> (r: Json)
    ensures
        r@ == search_told(query@, outcome),
{
    match outcome {
        SearchOutcome::Output(stdout) => {
            if stdout.len() == 0 {
                return Json::object().with("query", Json::text(query)).with(
                    "results",
                    no_items(),
                ).with("note", Json::text("no results or ddgr returned nothing"));
            }
            match parse_bytes(stdout.as_slice()) {
                Some(answer) => results_report(query, answer),
                None => Json::object().with("query", Json::text(query)).with(
                    "raw",
                    Json::text(from_bytes_lossy(stdout.as_slice()).as_str()),
                ).with("note", Json::text("ddgr output was not json")),
            }
        },
        SearchOutcome::NotInstalled => error_fix(
            "ddgr is not installed. web search needs it",
            "install ddgr: `pip install ddgr` or from https://github.com/jarun/ddgr",
        ),
        SearchOutcome::Failed(reason) => error_fix(
            glue("could not run ddgr: ", reason.as_str()).as_str(),
            "check that ddgr can be started, or go on without a web search",
        ),
    }
}

/// A text that is cut after so many bytes, where it has more.
pub open spec fn cut_to(s: Seq<char>, max: nat) -> Seq<char> {
    if byte_len(s) <= max {
        s
    } else {
        head(s, max)
    }
}

/// A text that is cut after so many bytes, where it has more, and whether it was cut.
pub fn truncate_string(s: &str, max: usize) -> (r: (String, bool))
    requires
        cuts_clean(s@, max as nat),
    ensures
        r.0@ == cut_to(s@, max as nat),
        r.1 == (byte_len(s@) > max),
{
    if size_of(s) <= max {
        (s.to_string(), false)
    } else {
        (head_of(s, max).to_string(), true)
    }
}

/// What running a command gave.
#[derive(Debug)]
pub enum ExecOutcome {
    Done { code: Option<i32>, stdout: Vec<u8>, stderr: Vec<u8> },
    NotFound,
    Denied,
    Failed(String),
}

/// What is told of a command that ran.
pub open spec fn ran_told(
    command: Seq<char>,
    args: Seq<Seq<char>>,
    code: Option<i32>,
    stdout: Seq<char>,
    stderr: Seq<char>,
) -> JsonView {
    JsonView::empty().with("command"@, JsonView::Text(command)).with(
        "args"@,
        JsonView::Array(Seq::new(args.len(), |i: int| JsonView::Text(args[i]))),
    ).with(
        "exit"@,
        JsonView::Number(
            signed_decimal(
                match code {
                    Some(c) => c as int,
                    None => -1,
                },
            ),
        ),
    ).with("stdout"@, JsonView::Text(cut_to(stdout, MAX_EXEC_OUTPUT as nat))).with(
        "stderr"@,
        JsonView::Text(cut_to(stderr, MAX_EXEC_OUTPUT as nat)),
    ).with("stdout_truncated"@, JsonView::Bool(byte_len(stdout) > MAX_EXEC_OUTPUT)).with(
        "stderr_truncated"@,
        JsonView::Bool(byte_len(stderr) > MAX_EXEC_OUTPUT),
    )
}

/// What is told of running a command; nothing where an output would have to be cut inside a
/// character.
pub open spec fn exec_told(
    command: Seq<char>,
    args: Seq<Seq<char>>,
    outcome: ExecOutcome,
) -> Option<JsonView> {
    match outcome {
        ExecOutcome::Done { code, stdout, stderr } => if cuts_clean(
            lossy(stdout@),
            MAX_EXEC_OUTPUT as nat,
        ) && cuts_clean(lossy(stderr@), MAX_EXEC_OUTPUT as nat) {
            Some(ran_told(command, args, code, lossy(stdout@), lossy(stderr@)))
        } else {
            None
        },
        ExecOutcome::NotFound => Some(
            error_with_fix(
                "command not found: "@ + command,
                "check that '"@ + command + "' is installed and on your PATH"@,
            ),
        ),
        ExecOutcome::Denied => Some(
            error_with_fix(
                "cannot execute '"@ + command + "': not executable or permission denied"@,
                "check that '"@ + command + "' is an executable file"@,
            ),
        ),
        ExecOutcome::Failed(reason) => Some(
            error_with_fix(
                "could not run '"@ + command + "': "@ + reason@,
                "check the command and the working directory, or try a different command"@,
            ),
        ),
    }
}

/// Tells of a command that ran.
pub fn ran_report(
    command: &str,
    args: &Vec<String>,
    code: Option<i32>,
    stdout: &str,
    stderr: &str,
) -> (r: Json)
    requires
        cuts_clean(stdout@, MAX_EXEC_OUTPUT as nat),
        cuts_clean(stderr@, MAX_EXEC_OUTPUT as nat),
    ensures
        r@ == ran_told(command@, views(args@), code, stdout@, stderr@),
{
    let out = truncate_string(stdout, MAX_EXEC_OUTPUT);
    let err = truncate_string(stderr, MAX_EXEC_OUTPUT);
    let exit: i64 = match code {
        Some(c) => c as i64,
        None => -1,
    };
    let shown = Json::texts(args);
    let ghost texts = views(args@);
    assert(shown@->Array_0 =~= Seq::new(texts.len(), |i: int| JsonView::Text(texts[i])));
    Json::object().with("command", Json::text(command)).with("args", shown).with(
        "exit",
        Json::integer(exit),
    ).with("stdout", Json::text(out.0.as_str())).with("stderr", Json::text(err.0.as_str())).with(
        "stdout_truncated",
        Json::Bool(out.1),
    ).with("stderr_truncated", Json::Bool(err.1))
}

/// Tells of running a command; nothing where an output would have to be cut inside a character.
pub fn exec_report(command: &str, args: &Vec<String>, outcome: ExecOutcome) -> (r: Option<Json>)
    ensures
        match exec_told(command@, views(args@), outcome) {
            Some(told) => r matches Some(j) && j@ == told,
            None => r is None,
        },
{
    match outcome {
        ExecOutcome::Done { code, stdout, stderr } => {
            let out = from_bytes_lossy(stdout.as_slice());
            let err = from_bytes_lossy(stderr.as_slice());
            if can_cut(out.as_str(), MAX_EXEC_OUTPUT) && can_cut(err.as_str(), MAX_EXEC_OUTPUT) {
                Some(ran_report(command, args, code, out.as_str(), err.as_str()))
            } else {
                None
            }
        },
        ExecOutcome::NotFound => Some(
            error_fix(
                glue("command not found: ", command).as_str(),
                glue3("check that '", command, "' is installed and on your PATH").as_str(),
            ),
        ),
        ExecOutcome::Denied => Some(
            error_fix(
                glue3(
                    "cannot execute '",
                    command,
                    "': not executable or permission denied",
                ).as_str(),
                glue3("check that '", command, "' is an executable file").as_str(),
            ),
        ),
        ExecOutcome::Failed(reason) => {
            let mut error = glue3("could not run '", command, "': ");
            error.append(reason.as_str());
            Some(
                error_fix(
                    error.as_str(),
                    "check the command and the working directory, or try a different command",
                ),
            )
        },
    }
}

}
