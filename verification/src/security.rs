//! The guard in front of commands that destroy something.

use vstd::prelude::*;
use vstd::string::*;

use crate::text::{contains_seq, contains_text, join, joined, occurs_at, same_text, views};

verus! {

/// Whether a command is one that counts as destructive whatever its arguments.
pub open spec fn is_listed(command: Seq<char>) -> bool {
    ||| command == "rm"@
    ||| command == "rmdir"@
    ||| command == "shred"@
    ||| command == "dd"@
    ||| command == "mkfs"@
    ||| command == "fdisk"@
    ||| command == "parted"@
    ||| command == "sudo"@
    ||| command == "su"@
    ||| command == "kill"@
    ||| command == "killall"@
    ||| command == "pkill"@
    ||| command == "chmod"@
    ||| command == "chown"@
    ||| command == "shutdown"@
    ||| command == "reboot"@
    ||| command == "halt"@
    ||| command == "poweroff"@
    ||| command == "systemctl"@
}

/// Whether a word asks git for something that cannot be taken back.
pub open spec fn is_git_risk(word: Seq<char>) -> bool {
    word == "push"@ || word == "reset"@ || word == "clean"@ || word == "force-push"@
}

/// Whether a piece of text marks a command line as destructive wherever it stands.
pub open spec fn is_mark(piece: Seq<char>) -> bool {
    ||| piece == "--force"@
    ||| piece == "-rf"@
    ||| piece == "-r -f"@
    ||| piece == "-fr"@
    ||| piece == "--no-preserve-root"@
    ||| piece == "/dev/sd"@
    ||| piece == "/dev/nvme"@
    ||| piece == "/dev/disk"@
    ||| piece == "--hard"@
    ||| piece == "-9 "@
    ||| piece == " -KILL"@
}

/// Whether a text holds a mark.
pub open spec fn is_marked(line: Seq<char>) -> bool {
    exists|piece: Seq<char>| is_mark(piece) && #[trigger] contains_seq(line, piece)
}

/// A command and its arguments in one line.
pub open spec fn command_line(command: Seq<char>, args: Seq<Seq<char>>) -> Seq<char> {
    command + " "@ + joined(args, " "@)
}

/// Whether a command with its arguments counts as destructive.
pub open spec fn destructive(command: Seq<char>, args: Seq<Seq<char>>) -> bool {
    ||| is_listed(command)
    ||| command == "git"@ && args.len() > 0 && is_git_risk(args[0])
    ||| is_marked(command_line(command, args))
}

/// Whether a command is one that counts as destructive whatever its arguments.
fn listed(command: &str) -> (r: bool)
    ensures
        r == is_listed(command@),
{
    same_text(command, "rm") || same_text(command, "rmdir") || same_text(command, "shred")
        || same_text(command, "dd") || same_text(command, "mkfs") || same_text(command, "fdisk")
        || same_text(command, "parted") || same_text(command, "sudo") || same_text(command, "su")
        || same_text(command, "kill") || same_text(command, "killall") || same_text(
        command,
        "pkill",
    ) || same_text(command, "chmod") || same_text(command, "chown") || same_text(
        command,
        "shutdown",
    ) || same_text(command, "reboot") || same_text(command, "halt") || same_text(
        command,
        "poweroff",
    ) || same_text(command, "systemctl")
}

/// Whether a text holds a mark.
fn marked(line: &str) -> (r: bool)
    ensures
        r == is_marked(line@),
{
    let r = contains_text(line, "--force") || contains_text(line, "-rf") || contains_text(
        line,
        "-r -f",
    ) || contains_text(line, "-fr") || contains_text(line, "--no-preserve-root") || contains_text(
        line,
        "/dev/sd",
    ) || contains_text(line, "/dev/nvme") || contains_text(line, "/dev/disk") || contains_text(
        line,
        "--hard",
    ) || contains_text(line, "-9 ") || contains_text(line, " -KILL");
    assert(r ==> is_marked(line@)) by {
        if r {
            assert(is_mark("--force"@) && is_mark("-rf"@) && is_mark("-r -f"@) && is_mark("-fr"@));
            assert(is_mark("--no-preserve-root"@) && is_mark("/dev/sd"@) && is_mark("/dev/nvme"@));
            assert(is_mark("/dev/disk"@) && is_mark("--hard"@) && is_mark("-9 "@));
            assert(is_mark(" -KILL"@));
        }
    }
    r
}

/// A command and its arguments in one line.
fn line_of(command: &str, args: &[String]) -> (r: String)
    ensures
        r@ == command_line(command@, views(args@)),
{
    let mut line = command.to_string();
    line.append(" ");
    line.append(join(args, " ").as_str());
    line
}

/// Whether a command with its arguments counts as destructive.
pub fn is_destructive(command: &str, args: &[String]) -> (r: bool)
    ensures
        r == destructive(command@, views(args@)),
{
    if listed(command) {
        return true;
    }
    if same_text(command, "git") && args.len() > 0 {
        let word = args[0].as_str();
        if same_text(word, "push") || same_text(word, "reset") || same_text(word, "clean")
            || same_text(word, "force-push") {
            return true;
        }
    }
    marked(line_of(command, args).as_str())
}

/// Why a command was held back, and what to do about it.
pub open spec fn explanation(command: Seq<char>, args: Seq<Seq<char>>) -> Seq<char> {
    "the command \""@ + command_line(command, args)
        + "\" is destructive. rerun with --yes to allow it, or do it yourself"@
}

/// Why a command was held back, and what to do about it.
pub fn explain(command: &str, args: &[String]) -> (r: String)
    ensures
        r@ == explanation(command@, views(args@)),
{
    let mut out = "the command \"".to_string();
    out.append(line_of(command, args).as_str());
    out.append("\" is destructive. rerun with --yes to allow it, or do it yourself");
    out
}

/// What stands in a part stands in the whole.
proof fn lemma_contains_in_whole<T>(before: Seq<T>, part: Seq<T>, after: Seq<T>, piece: Seq<T>)
    requires
        contains_seq(part, piece),
    ensures
        contains_seq(before + part + after, piece),
{
    let at = choose|at: int| occurs_at(part, piece, at);
    let whole = before + part + after;
    assert(whole.subrange(before.len() + at, before.len() + at + piece.len()) =~= part.subrange(
        at,
        at + piece.len(),
    ));
    assert(occurs_at(whole, piece, before.len() + at));
}

/// What stands in one of several texts stands in them joined.
proof fn lemma_contains_in_joined(
    parts: Seq<Seq<char>>,
    sep: Seq<char>,
    k: int,
    piece: Seq<char>,
)
    requires
        0 <= k < parts.len(),
        contains_seq(parts[k], piece),
    ensures
        contains_seq(joined(parts, sep), piece),
    decreases parts.len(),
{
    if parts.len() > 1 {
        let none = Seq::<char>::empty();
        let front = joined(parts.drop_last(), sep);
        if k < parts.len() - 1 {
            assert(parts.drop_last()[k] == parts[k]);
            lemma_contains_in_joined(parts.drop_last(), sep, k, piece);
            lemma_contains_in_whole(none, front, sep + parts.last(), piece);
            assert(none + front + (sep + parts.last()) =~= joined(parts, sep));
        } else {
            lemma_contains_in_whole(front + sep, parts[k], none, piece);
            assert(front + sep + parts[k] + none =~= joined(parts, sep));
        }
    }
}

/// A mark in any argument makes any command destructive, be the command itself ever so harmless.
pub proof fn law_mark_in_any_argument(
    command: Seq<char>,
    args: Seq<Seq<char>>,
    k: int,
    piece: Seq<char>,
)
    requires
        0 <= k < args.len(),
        is_mark(piece),
        contains_seq(args[k], piece),
    ensures
        destructive(command, args),
{
    let none = Seq::<char>::empty();
    lemma_contains_in_joined(args, " "@, k, piece);
    lemma_contains_in_whole(command + " "@, joined(args, " "@), none, piece);
    assert(command + " "@ + joined(args, " "@) + none =~= command_line(command, args));
}

/// A listed command is destructive with any arguments.
pub proof fn law_listed_with_any_arguments(command: Seq<char>, args: Seq<Seq<char>>)
    requires
        is_listed(command),
    ensures
        destructive(command, args),
{
}

/// One more argument does not make a destructive command harmless.
proof fn lemma_one_more_argument(
    command: Seq<char>,
    args: Seq<Seq<char>>,
    more: Seq<char>,
)
    requires
        destructive(command, args),
    ensures
        destructive(command, args.push(more)),
{
    let none = Seq::<char>::empty();
    let longer = args.push(more);
    assert(longer.drop_last() =~= args);
    if is_marked(command_line(command, args)) {
        let piece = choose|piece: Seq<char>|
            is_mark(piece) && #[trigger] contains_seq(command_line(command, args), piece);
        let rest = if args.len() == 0 {
            more
        } else {
            " "@ + more
        };
        lemma_contains_in_whole(none, command_line(command, args), rest, piece);
        assert(none + command_line(command, args) + rest =~= command_line(command, longer));
    }
}

/// More arguments, however many, never make a destructive command harmless.
pub proof fn law_more_arguments_stay_destructive(
    command: Seq<char>,
    args: Seq<Seq<char>>,
    more: Seq<Seq<char>>,
)
    requires
        destructive(command, args),
    ensures
        destructive(command, args + more),
    decreases more.len(),
{
    if more.len() == 0 {
        assert(args + more =~= args);
    } else {
        law_more_arguments_stay_destructive(command, args, more.drop_last());
        lemma_one_more_argument(command, args + more.drop_last(), more.last());
        assert((args + more.drop_last()).push(more.last()) =~= args + more);
    }
}

}
