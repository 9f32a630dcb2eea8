use martty::shell::{
    find_bytes, parse_status, scan_marker, shell_marker, shell_output, shell_quote, shell_result, shell_script,
    status_marker, take_pending, ShellRead,
};

#[test]
fn single_quotes_survive_quoting() {
    assert_eq!(shell_quote("echo hi"), "'echo hi'");
    assert_eq!(shell_quote("it's"), "'it'\\\"'\\\"'s'");
}

#[test]
fn the_first_occurrence_is_found() {
    assert_eq!(find_bytes(&b"abcabc".to_vec(), &b"ca".to_vec()), Some(2));
    assert_eq!(find_bytes(&b"abc".to_vec(), &b"abcd".to_vec()), None);
    assert_eq!(find_bytes(&b"abc".to_vec(), &b"x".to_vec()), None);
}

#[test]
fn exit_statuses_parse_like_i32() {
    assert_eq!(parse_status(b"0"), Some(0));
    assert_eq!(parse_status(b"-2"), Some(-2));
    assert_eq!(parse_status(b"+7"), Some(7));
    assert_eq!(parse_status(b""), None);
    assert_eq!(parse_status(b"x1"), None);
    assert_eq!(parse_status(b"2147483648"), None);
    assert_eq!(parse_status(b"-2147483648"), Some(i32::MIN));
}

#[test]
fn the_marker_ends_the_command_output() {
    let marker = status_marker("M", 3).into_bytes();
    assert_eq!(marker, b"\x1eM:3:".to_vec());
    let mut captured = b"out\n".to_vec();
    assert_eq!(scan_marker(&captured, &marker), None);
    captured.extend_from_slice(b"\x1eM:3:1");
    assert_eq!(scan_marker(&captured, &marker), None, "no terminator yet");
    captured.extend_from_slice(b"\x1f");
    assert_eq!(scan_marker(&captured, &marker), Some((4, Some(1))));
}

#[test]
fn the_script_runs_the_command_then_reports_its_status() {
    assert_eq!(
        shell_script("M", 7, "ls"),
        "eval 'ls' 2>&1 < /dev/null\n__martty_shell_status=$?\ncommand printf '\\036M:7:%s\\037' \"$__martty_shell_status\" >&9\n"
    );
    assert_eq!(shell_marker(42, "ab-1"), "MARTTY_SHELL_42_ab-1");
}

#[test]
fn long_output_is_cut_at_a_character_boundary() {
    assert_eq!(shell_output(b"hi".to_vec()), "hi");
    let mut big = vec![b'a'; 16383];
    big.extend_from_slice("é".as_bytes());
    let shown = shell_output(big);
    assert!(shown.ends_with("\n… (truncated)"));
    assert_eq!(shown.len(), 16383 + "\n… (truncated)".len());
    let exact = vec![b'a'; 16384];
    assert_eq!(shell_output(exact).len(), 16384);
}

#[test]
fn results_follow_how_the_wait_ended() {
    let (status, out, alive) = shell_result(ShellRead::Done(Some(0)), b"ok".to_vec(), None);
    assert_eq!((status, out.as_str(), alive), (Some(0), "ok", true));
    let (status, _, alive) = shell_result(ShellRead::Eof, Vec::new(), Some(3));
    assert_eq!((status, alive), (Some(3), false));
    let (status, out, alive) = shell_result(ShellRead::Silent, b"ignored".to_vec(), Some(1));
    assert_eq!(status, None);
    assert!(!alive);
    assert_eq!(out, "command killed: no output for 120s — the next `!` restarts the shell");
}

#[test]
fn a_finished_command_finds_the_tab_that_ran_it() {
    let mut pending: Vec<(u64, &str)> = vec![(3, "tab-a"), (4, "tab-b"), (4, "tab-c")];
    assert_eq!(take_pending(&mut pending, 4), Some("tab-b"));
    assert_eq!(pending, vec![(3, "tab-a"), (4, "tab-c")]);
    assert_eq!(take_pending(&mut pending, 9), None);
    assert_eq!(pending.len(), 2);
}
