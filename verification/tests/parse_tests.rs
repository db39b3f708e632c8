use comment_reloc::parse::GitBlameResult;
use comment_reloc::parse::parse_blame_output;

#[test]
fn parses_a_plain_trace_line() {
    let r = GitBlameResult::new_from_line("abc123 4 (Author Name 2021-01-01 12:00:00 +0900 2) code here").unwrap();
    assert_eq!(r.revision, "abc123");
    assert_eq!(r.new_line_number, 4);
    assert_eq!(r.orig_line_number, 2);
}

#[test]
fn parses_a_minimal_line() {
    let r = GitBlameResult::new_from_line("abc 5 (x 3) z").unwrap();
    assert_eq!(r.revision, "abc");
    assert_eq!(r.new_line_number, 5);
    assert_eq!(r.orig_line_number, 3);
}

#[test]
fn orig_number_is_last_numeric_group_before_paren() {
    let r = GitBlameResult::new_from_line("deadbeef 7 (a 2020-05-05 10 42) text 9)").unwrap();
    assert_eq!(r.revision, "deadbeef");
    assert_eq!(r.new_line_number, 7);
    assert_eq!(r.orig_line_number, 42);
}

#[test]
fn new_number_may_carry_a_sign() {
    let r = GitBlameResult::new_from_line("abc -5 (x 3) z").unwrap();
    assert_eq!(r.new_line_number, -5);
    let r = GitBlameResult::new_from_line("abc +7 (x 3) z").unwrap();
    assert_eq!(r.new_line_number, 7);
}

#[test]
fn missing_revision_token_fails() {
    let e = GitBlameResult::new_from_line(" 5 (a 3) x").unwrap_err();
    assert_eq!(e.line, " 5 (a 3) x");
}

#[test]
fn empty_line_fails() {
    assert!(GitBlameResult::new_from_line("").is_err());
}

#[test]
fn line_without_paren_fails() {
    assert!(GitBlameResult::new_from_line("abc 5 no paren here").is_err());
}

#[test]
fn non_numeric_orig_group_fails() {
    assert!(GitBlameResult::new_from_line("abc 5 (x y) z").is_err());
}

#[test]
fn paren_right_after_tokens_fails() {
    // No character stands between the second token and the space before the
    // digits, so the line does not match.
    assert!(GitBlameResult::new_from_line("abc 5 (3) z").is_err());
}

#[test]
fn non_numeric_new_token_fails() {
    assert!(GitBlameResult::new_from_line("abc xyz (a 3) z").is_err());
}

#[test]
fn overflowing_new_number_fails() {
    assert!(GitBlameResult::new_from_line("abc 2147483648 (x 3) z").is_err());
}

#[test]
fn largest_new_number_parses() {
    let r = GitBlameResult::new_from_line("abc 2147483647 (x 3) z").unwrap();
    assert_eq!(r.new_line_number, 2147483647);
}

#[test]
fn most_negative_new_number_parses() {
    let r = GitBlameResult::new_from_line("abc -2147483648 (x 3) z").unwrap();
    assert_eq!(r.new_line_number, -2147483648);
}

#[test]
fn overflowing_orig_number_fails() {
    assert!(GitBlameResult::new_from_line("abc 5 (x 2147483648) z").is_err());
}

#[test]
fn output_splits_into_ordered_records() {
    let text = "abc123 1 (a 1) x\ndef456 5 (a 2) y\n";
    let records = parse_blame_output(text).unwrap();
    assert_eq!(records.len(), 2);
    assert_eq!(records[0].revision, "abc123");
    assert_eq!(records[0].new_line_number, 1);
    assert_eq!(records[0].orig_line_number, 1);
    assert_eq!(records[1].revision, "def456");
    assert_eq!(records[1].new_line_number, 5);
    assert_eq!(records[1].orig_line_number, 2);
}

#[test]
fn output_without_final_newline_parses() {
    let records = parse_blame_output("abc 5 (x 3) z").unwrap();
    assert_eq!(records.len(), 1);
    assert_eq!(records[0].revision, "abc");
}

#[test]
fn empty_output_gives_no_records() {
    let records = parse_blame_output("").unwrap();
    assert_eq!(records.len(), 0);
}

#[test]
fn carriage_return_line_endings_are_stripped() {
    let records = parse_blame_output("abc 5 (x 3) z\r\ndef 6 (x 4) w\r\n").unwrap();
    assert_eq!(records.len(), 2);
    assert_eq!(records[0].revision, "abc");
    assert_eq!(records[1].revision, "def");
}

#[test]
fn first_malformed_line_aborts_with_that_line() {
    let e = parse_blame_output("abc 5 (x 3) z\nbroken line\ndef 6 (x 4) w").unwrap_err();
    assert_eq!(e.line, "broken line");
}
