use tuiedit::term_panel::{panel_rows, shell_failure_lines, shell_program, ShellFailure, started_message, strip_ansi, TerminalBuffer, TerminalPanel, MAX_LINES};
use tuiedit::text::{decimal_string, ends_with, parse_usize, skip_chars, split_two_slashes, starts_with, trim, trim_end_matches, trim_start_matches, unescape};

#[test]
fn trim_removes_surrounding_white_space() {
    assert_eq!(trim("  :w file.txt \t"), ":w file.txt");
    assert_eq!(trim("\u{3000}x\u{3000}"), "x");
    assert_eq!(trim("   "), "");
}

#[test]
fn parse_usize_reads_plain_numbers_only() {
    assert_eq!(parse_usize("42"), Some(42));
    assert_eq!(parse_usize("+7"), Some(7));
    assert_eq!(parse_usize("007"), Some(7));
    assert_eq!(parse_usize(""), None);
    assert_eq!(parse_usize("+"), None);
    assert_eq!(parse_usize("-1"), None);
    assert_eq!(parse_usize("12a"), None);
    assert_eq!(parse_usize("99999999999999999999999"), None);
    assert_eq!(parse_usize("18446744073709551615"), Some(usize::MAX));
}

#[test]
fn slashes_split_and_unescape() {
    assert_eq!(split_two_slashes("foo/bar/"), Some((String::from("foo"), String::from("bar"))));
    assert_eq!(split_two_slashes("a/b/c/d"), Some((String::from("a"), String::from("b"))));
    assert_eq!(split_two_slashes("only/one"), None);
    assert_eq!(unescape("a\\/b\\/c"), "a/b/c");
    assert_eq!(unescape("back\\slash"), "back\\slash");
}

#[test]
fn prefix_and_suffix_tests() {
    assert!(starts_with("write x", "write "));
    assert!(!starts_with("w", "write"));
    assert!(ends_with("main.rs", ".rs"));
    assert!(!ends_with("rs", ".rs"));
    assert_eq!(skip_chars("héllo", 2), "llo");
    assert_eq!(trim_start_matches("``````json", "```"), "json");
    assert_eq!(trim_end_matches("x``````", "```"), "x");
    assert_eq!(tuiedit::text::concat("ab", "cd"), "abcd");
    assert_eq!(decimal_string(0), "0");
    assert_eq!(decimal_string(1205), "1205");
}

#[test]
fn strip_ansi_removes_escape_sequences() {
    assert_eq!(strip_ansi("\x1b[31mred\x1b[0m plain"), "red plain");
    assert_eq!(strip_ansi("\x1b[2J\x1b[Hprompt> "), "prompt> ");
    assert_eq!(strip_ansi("no escapes here"), "no escapes here");
    assert_eq!(strip_ansi("\x1b]title"), "\x1btitle");
    assert_eq!(strip_ansi("end\x1b"), "end\x1b");
    assert_eq!(strip_ansi("\x1b[123"), "");
    assert_eq!(strip_ansi("\x1b[unterminated"), "nterminated");
}

#[test]
fn terminal_buffer_keeps_the_newest_lines() {
    let mut b = TerminalBuffer::new();
    for i in 0..(MAX_LINES + 3) {
        b.push(format!("{i}"));
    }
    assert_eq!(b.len(), MAX_LINES);
    let last = b.content(0, 2);
    assert_eq!(last, vec![format!("{}", MAX_LINES + 1), format!("{}", MAX_LINES + 2)]);
    let earlier = b.content(1, 2);
    assert_eq!(earlier, vec![format!("{}", MAX_LINES), format!("{}", MAX_LINES + 1)]);
    b.clear();
    assert_eq!(b.len(), 0);
    assert!(b.content(0, 5).is_empty());
}

#[test]
fn terminal_content_strips_escapes() {
    let mut b = TerminalBuffer::new();
    b.push(String::from("\x1b[1mbold\x1b[0m"));
    assert_eq!(b.content(0, 10), vec![String::from("bold")]);
}

#[test]
fn terminal_panel_states() {
    let mut p = TerminalPanel::new();
    assert!(!p.visible && !p.focused);
    assert_eq!(p.title(), " Terminal [cmd] ");
    p.mark_started("wsl.exe");
    assert!(p.visible && p.focused);
    assert_eq!(p.title(), " Terminal [wsl.exe] ");
    p.scroll_up(3);
    p.scroll_up(3);
    p.scroll_up(3);
    assert_eq!(p.scroll, 2);
    p.scroll_down();
    assert_eq!(p.scroll, 1);
    p.mark_stopped();
    assert!(!p.visible && !p.focused);
    p.mark_failed();
    assert!(p.visible && !p.focused);
    assert_eq!(started_message("cmd.exe"), "Terminal [cmd.exe] started");
    assert_eq!(shell_program(true), "wsl.exe");
    assert_eq!(shell_program(false), "cmd.exe");
    assert_eq!(panel_rows(10), 8);
    assert_eq!(panel_rows(2), 1);
}

#[test]
fn shell_failures_are_reported_by_step() {
    assert_eq!(shell_failure_lines(ShellFailure::Pty, "no pty"), vec![String::from("PTY init error: no pty")]);
    assert_eq!(
        shell_failure_lines(ShellFailure::Spawn, "not found"),
        vec![String::from("Spawn error: not found"), String::new(), String::from("Make sure the shell is installed.")]
    );
    assert_eq!(shell_failure_lines(ShellFailure::Reader, "x"), vec![String::from("PTY reader error: x")]);
    assert_eq!(shell_failure_lines(ShellFailure::Writer, "y"), vec![String::from("PTY writer error: y")]);
}
