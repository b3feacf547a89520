use agentic::security::{explain, is_destructive};

fn args(words: &[&str]) -> Vec<String> {
    words.iter().map(|w| w.to_string()).collect()
}

#[test]
fn rm_is_destructive() {
    assert!(is_destructive("rm", &["-rf".to_string(), "/tmp/x".to_string()]));
}

#[test]
fn ls_is_safe() {
    assert!(!is_destructive("ls", &["-la".to_string()]));
}

#[test]
fn sudo_is_destructive() {
    assert!(is_destructive("sudo", &["apt".to_string(), "upgrade".to_string()]));
}

#[test]
fn git_push_is_destructive() {
    assert!(is_destructive("git", &["push".to_string(), "origin".to_string(), "main".to_string()]));
}

#[test]
fn git_status_is_safe() {
    assert!(!is_destructive("git", &["status".to_string()]));
}

#[test]
fn force_flag_caught_even_on_safe_command() {
    assert!(is_destructive("cargo", &["build".to_string(), "--force".to_string()]));
}

#[test]
fn no_preserve_root_caught() {
    assert!(is_destructive("rm", &["--no-preserve-root".to_string(), "/".to_string()]));
}

#[test]
fn cat_is_safe() {
    assert!(!is_destructive("cat", &["file.txt".to_string()]));
}

#[test]
fn explain_names_the_command() {
    let msg = explain("rm", &vec!["-rf".to_string(), "/tmp/x".to_string()]);
    assert!(msg.contains("rm"));
    assert!(msg.contains("--yes"));
}

#[test]
fn explanation_is_exact() {
    assert_eq!(
        explain("rm", &args(&["-rf", "/tmp/x"])),
        "the command \"rm -rf /tmp/x\" is destructive. rerun with --yes to allow it, or do it yourself"
    );
    assert_eq!(
        explain("halt", &[]),
        "the command \"halt \" is destructive. rerun with --yes to allow it, or do it yourself"
    );
}

#[test]
fn every_listed_command_is_destructive_without_arguments() {
    for command in [
        "rm", "rmdir", "shred", "dd", "mkfs", "fdisk", "parted", "sudo", "su", "kill", "killall",
        "pkill", "chmod", "chown", "shutdown", "reboot", "halt", "poweroff", "systemctl",
    ] {
        assert!(is_destructive(command, &[]), "{}", command);
    }
}

#[test]
fn a_mark_counts_in_any_argument() {
    for mark in [
        "--force", "-rf", "-r -f", "-fr", "--no-preserve-root", "/dev/sda", "/dev/nvme0",
        "/dev/disk1", "--hard", "-9 x", " -KILL",
    ] {
        assert!(is_destructive("echo", &args(&["a", mark, "b"])), "{}", mark);
    }
}

#[test]
fn a_mark_counts_across_arguments() {
    assert!(is_destructive("echo", &args(&["-r", "-f"])));
    assert!(is_destructive("echo", &args(&["-9", "1"])));
    assert!(!is_destructive("echo", &args(&["-9"])));
}

#[test]
fn git_is_judged_by_its_first_argument() {
    assert!(is_destructive("git", &args(&["reset"])));
    assert!(is_destructive("git", &args(&["clean"])));
    assert!(is_destructive("git", &args(&["force-push"])));
    assert!(!is_destructive("git", &args(&["-c", "x", "push"])));
    assert!(!is_destructive("git", &[]));
    assert!(!is_destructive("git", &args(&["log"])));
    assert!(!is_destructive("svn", &args(&["push"])));
}

#[test]
fn the_command_is_taken_as_it_is_written() {
    assert!(!is_destructive("RM", &[]));
    assert!(!is_destructive("rmx", &[]));
}

#[test]
fn more_arguments_stay_destructive() {
    assert!(is_destructive("tool", &args(&["--force"])));
    assert!(is_destructive("tool", &args(&["--force", "more"])));
    assert!(is_destructive("tool", &args(&["--force", "more", "still"])));
}
