use agentic::json::{parse, render};
use agentic::reports::{
    exec_report, grep_command, grep_report, lines_of, matches_report, ran_report, read_report,
    results_report, search_command, search_report, truncate_string, write_next, ExecOutcome,
    GrepOutcome, ReadOutcome, SearchOutcome, WriteNext, WriteProgress, MAX_EXEC_OUTPUT,
    MAX_READ_BYTES,
};

fn bytes(text: &str) -> Vec<u8> {
    text.as_bytes().to_vec()
}

fn done(stdout: &str, stderr: &str, code: Option<i32>) -> ExecOutcome {
    ExecOutcome::Done { code, stdout: bytes(stdout), stderr: bytes(stderr) }
}

#[test]
fn a_long_file_is_shown_in_part() {
    let report = read_report("big", ReadOutcome::Bytes(vec![97u8; MAX_READ_BYTES + 1]));
    assert_eq!(report.bool_at("truncated"), Some(true));
    assert_eq!(report.str_at("content").unwrap().len(), MAX_READ_BYTES);
    assert_eq!(
        report.str_at("note"),
        Some("file is 1048577 bytes, showed first 1048576. read a specific section by reading a slice")
    );
    let report = read_report("fits", ReadOutcome::Bytes(vec![97u8; MAX_READ_BYTES]));
    assert_eq!(render(report.get("bytes").unwrap()), "1048576");
    assert!(report.get("truncated").is_none());
}

#[test]
fn a_long_file_that_is_cut_inside_a_character_is_repaired() {
    let mut content = vec![97u8; MAX_READ_BYTES - 1];
    content.extend_from_slice("éé".as_bytes());
    let report = read_report("big", ReadOutcome::Bytes(content));
    assert!(report.str_at("content").unwrap().ends_with("a\u{fffd}"));
}

#[test]
fn a_binary_file_is_refused() {
    assert_eq!(
        render(&read_report("b", ReadOutcome::Bytes(vec![0xff, 0xfe]))),
        r#"{"error":"file is not valid utf-8 text","fix":"this looks like a binary file. if you need to inspect it, use exec with `file` or `xxd`","path":"b"}"#
    );
}

#[test]
fn reading_is_told_in_every_case() {
    assert_eq!(
        render(&read_report("d", ReadOutcome::Listing(vec!["x".into()]))),
        r#"{"entries":["x"],"hint":"this is a directory. pass a specific file path to read its contents","is_directory":true,"path":"d"}"#
    );
    assert_eq!(
        render(&read_report("d", ReadOutcome::ListFailed("why".into()))),
        r#"{"error":"cannot list directory d: why","fix":"check that this process may list the directory, or read one of its files by its path"}"#
    );
    assert_eq!(
        render(&read_report("f", ReadOutcome::NotFound)),
        r#"{"error":"no such file: f","fix":"check the path is right. if it should exist, create it first with write"}"#
    );
    assert_eq!(
        render(&read_report("f", ReadOutcome::Denied("no".into()))),
        r#"{"error":"permission denied reading f: no","fix":"the file exists but this process cannot read it. check the file permissions"}"#
    );
    assert_eq!(
        render(&read_report("f", ReadOutcome::Failed("io".into()))),
        r#"{"error":"could not read f: io","fix":"check that the path names a regular file, or try another path"}"#
    );
    assert_eq!(
        render(&read_report("f", ReadOutcome::Bytes(bytes("hé")))),
        r#"{"bytes":3,"content":"hé","path":"f"}"#
    );
}

#[test]
fn writing_goes_through_a_file_beside() {
    let next = |p: WriteProgress| write_next("f", "é", p);
    assert!(matches!(
        next(WriteProgress::Start { parent: None, parent_exists: false }),
        WriteNext::WriteTemp
    ));
    assert!(matches!(
        next(WriteProgress::Start { parent: Some("d".into()), parent_exists: true }),
        WriteNext::WriteTemp
    ));
    assert!(matches!(next(WriteProgress::TempWritten), WriteNext::Rename));
    let told = |w: WriteNext| match w {
        WriteNext::Answer(j) => render(&j),
        WriteNext::RemoveTemp(j) => format!("remove {}", render(&j)),
        other => panic!("got: {:?}", other),
    };
    assert_eq!(
        told(next(WriteProgress::TempDenied)),
        r#"{"error":"permission denied writing to f","fix":"check the directory permissions. you may need to write to a different location"}"#
    );
    assert_eq!(
        told(next(WriteProgress::TempFailed("full".into()))),
        r#"{"error":"could not write to f: full","fix":"check the path and the free space, or write to a different location"}"#
    );
    assert_eq!(
        told(next(WriteProgress::RenameFailed("busy".into()))),
        r#"remove {"error":"could not finalize file f: busy","fix":"check that the path does not name a directory, or write to a different location"}"#
    );
    assert_eq!(told(next(WriteProgress::Renamed)), r#"{"bytes":2,"ok":true,"path":"f"}"#);
}

#[test]
fn lines_end_with_line_feeds() {
    assert_eq!(lines_of("a\nb\r\nc"), vec!["a", "b", "c"]);
    assert_eq!(lines_of("a\n"), vec!["a"]);
    assert_eq!(lines_of("a\r"), vec!["a\r"]);
    assert_eq!(lines_of("\n\n"), vec!["", ""]);
    assert!(lines_of("").is_empty());
    for text in ["a\nb\r\nc", "a\n", "a\r", "\n\n", "", "\r\n", "x\r\r\n", "\r\n\r"] {
        let known: Vec<&str> = text.lines().collect();
        assert_eq!(lines_of(text), known, "{:?}", text);
    }
}

#[test]
fn matches_are_counted_and_cut() {
    assert_eq!(
        render(&grep_report("p", ".", GrepOutcome::Output(Vec::new()))),
        r#"{"matches":0,"note":"no matches found","path":".","pattern":"p"}"#
    );
    assert_eq!(
        render(&grep_report("p", ".", GrepOutcome::Output(bytes("a:1\nb:2\n")))),
        r#"{"matches":2,"path":".","pattern":"p","results":["a:1","b:2"],"shown":2,"truncated":false}"#
    );
    let many = "x\n".repeat(101);
    let report = matches_report("p", ".", &many);
    assert_eq!(render(report.get("matches").unwrap()), "101");
    assert_eq!(render(report.get("shown").unwrap()), "100");
    assert_eq!(report.bool_at("truncated"), Some(true));
    assert_eq!(report.get("results").unwrap().as_array().unwrap().len(), 100);
}

#[test]
fn a_missing_ripgrep_is_named() {
    let report = grep_report("p", ".", GrepOutcome::NotInstalled);
    assert_eq!(report.str_at("error"), Some("ripgrep (rg) is not installed. grep needs it"));
    assert!(report.str_at("fix").unwrap().starts_with("install ripgrep: "));
    assert_eq!(
        render(&grep_report("p", ".", GrepOutcome::Failed("why".into()))),
        r#"{"error":"could not run grep: why","fix":"check that rg can be started, or read the files one by one"}"#
    );
}

#[test]
fn search_results_are_cut_to_five() {
    let report = search_report("q", SearchOutcome::Output(bytes("[1,2,3,4,5,6,7]")));
    assert_eq!(render(&report), r#"{"count":5,"query":"q","results":[1,2,3,4,5]}"#);
    let report = results_report("q", parse(r#"[{"title":"t"}]"#).unwrap());
    assert_eq!(render(&report), r#"{"count":1,"query":"q","results":[{"title":"t"}]}"#);
}

#[test]
fn odd_search_results_are_noted() {
    let told = |out: &str| render(&search_report("q", SearchOutcome::Output(bytes(out))));
    assert_eq!(
        told(""),
        r#"{"note":"no results or ddgr returned nothing","query":"q","results":[]}"#
    );
    assert_eq!(
        told("{}"),
        r#"{"note":"ddgr returned unexpected format","query":"q","results":[]}"#
    );
    assert_eq!(
        told("oops"),
        r#"{"note":"ddgr output was not json","query":"q","raw":"oops"}"#
    );
    assert_eq!(
        render(&search_report("q", SearchOutcome::NotInstalled)),
        r#"{"error":"ddgr is not installed. web search needs it","fix":"install ddgr: `pip install ddgr` or from https://github.com/jarun/ddgr"}"#
    );
    assert_eq!(
        render(&search_report("q", SearchOutcome::Failed("why".into()))),
        r#"{"error":"could not run ddgr: why","fix":"check that ddgr can be started, or go on without a web search"}"#
    );
}

#[test]
fn a_command_is_told_with_its_outputs() {
    let args = vec!["-l".to_string()];
    assert_eq!(
        render(&exec_report("ls", &args, done("out", "err", Some(3))).unwrap()),
        r#"{"args":["-l"],"command":"ls","exit":3,"stderr":"err","stderr_truncated":false,"stdout":"out","stdout_truncated":false}"#
    );
    let killed = exec_report("ls", &args, done("", "", None)).unwrap();
    assert_eq!(render(killed.get("exit").unwrap()), "-1");
}

#[test]
fn long_outputs_are_cut() {
    let long = "a".repeat(MAX_EXEC_OUTPUT + 1);
    let report = exec_report("x", &Vec::new(), done(&long, "", Some(0))).unwrap();
    assert_eq!(report.bool_at("stdout_truncated"), Some(true));
    assert_eq!(report.bool_at("stderr_truncated"), Some(false));
    assert_eq!(report.str_at("stdout").unwrap().len(), MAX_EXEC_OUTPUT);
    let report = ran_report("x", &Vec::new(), Some(0), "", &long);
    assert_eq!(report.bool_at("stderr_truncated"), Some(true));
}

#[test]
fn outputs_that_cannot_be_cut_give_no_report() {
    let awkward = format!("{}é", "a".repeat(MAX_EXEC_OUTPUT - 1));
    assert!(exec_report("x", &Vec::new(), done(&awkward, "", Some(0))).is_none());
    assert!(exec_report("x", &Vec::new(), done("", &awkward, Some(0))).is_none());
}

#[test]
fn commands_that_do_not_run_are_named() {
    let told = |outcome: ExecOutcome| render(&exec_report("x", &Vec::new(), outcome).unwrap());
    assert_eq!(
        told(ExecOutcome::NotFound),
        r#"{"error":"command not found: x","fix":"check that 'x' is installed and on your PATH"}"#
    );
    assert_eq!(
        told(ExecOutcome::Denied),
        r#"{"error":"cannot execute 'x': not executable or permission denied","fix":"check that 'x' is an executable file"}"#
    );
    assert_eq!(
        told(ExecOutcome::Failed("why".into())),
        r#"{"error":"could not run 'x': why","fix":"check the command and the working directory, or try a different command"}"#
    );
}

#[test]
fn broken_output_is_repaired() {
    let report = exec_report(
        "x",
        &Vec::new(),
        ExecOutcome::Done { code: Some(0), stdout: vec![97, 0xff], stderr: Vec::new() },
    )
    .unwrap();
    assert_eq!(report.str_at("stdout"), Some("a\u{fffd}"));
}

#[test]
fn texts_are_cut_after_bytes() {
    assert_eq!(truncate_string("hello", 10), ("hello".to_string(), false));
    assert_eq!(truncate_string("hello", 5), ("hello".to_string(), false));
    assert_eq!(truncate_string("hello", 4), ("hell".to_string(), true));
    assert_eq!(truncate_string("éa", 2), ("é".to_string(), true));
}

#[test]
fn outside_programs_are_called_as_known() {
    let grep = grep_command("pat", "src");
    assert_eq!(grep.program, "rg");
    assert_eq!(
        grep.args,
        vec!["--line-number", "--no-heading", "--color=never", "pat", "src"]
    );
    assert_eq!((grep.setting.as_str(), grep.value.as_str()), ("RG_CLI_LEVEL", "0"));
    let search = search_command("rust verus");
    assert_eq!(search.program, "ddgr");
    assert_eq!(search.args, vec!["--json", "-n", "5", "rust verus"]);
    assert_eq!((search.setting.as_str(), search.value.as_str()), ("DDGR_HARDCONFIRM", "1"));
}

#[test]
fn written_text_reads_back() {
    let content = "line one\nzwölf\n";
    let written = match write_next("f", content, WriteProgress::Renamed) {
        WriteNext::Answer(j) => j,
        other => panic!("got: {:?}", other),
    };
    let read = read_report("f", ReadOutcome::Bytes(bytes(content)));
    assert_eq!(read.str_at("content"), Some(content));
    assert_eq!(render(read.get("bytes").unwrap()), render(written.get("bytes").unwrap()));
}
