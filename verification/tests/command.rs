use mise_tui::data::command::{command_outcome, cut_stderr, CommandError, MAX_STDERR_DISPLAY};

#[test]
fn short_stderr_is_kept_whole() {
    assert_eq!(cut_stderr("boom"), "boom");
}

#[test]
fn long_stderr_is_cut_to_the_limit() {
    let s = "x".repeat(2000);
    assert_eq!(cut_stderr(&s).len(), MAX_STDERR_DISPLAY);
}

#[test]
fn stderr_cut_stops_before_a_split_character() {
    // 1023 ASCII bytes, then a two-byte character that would cross the limit.
    let s = format!("{}é tail", "a".repeat(1023));
    let cut = cut_stderr(&s);
    assert_eq!(cut.len(), 1023);
    assert!(cut.chars().all(|c| c == 'a'));
}

#[test]
fn successful_outcome_keeps_stdout_and_code() {
    let r = command_outcome(true, Some(0), "out".to_string(), "err").unwrap();
    assert_eq!(r.stdout, "out");
    assert_eq!(r.exit_code, Some(0));
}

#[test]
fn failed_outcome_without_code_is_minus_one() {
    match command_outcome(false, None, String::new(), "bad") {
        Err(CommandError::Failed { exit_code, stderr }) => {
            assert_eq!(exit_code, -1);
            assert_eq!(stderr, "bad");
        }
        other => panic!("unexpected: {:?}", other),
    }
    match command_outcome(false, Some(3), String::new(), "bad") {
        Err(CommandError::Failed { exit_code, .. }) => assert_eq!(exit_code, 3),
        other => panic!("unexpected: {:?}", other),
    }
}
