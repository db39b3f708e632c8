use comment_reloc::blame::blame_results_from_output;
use comment_reloc::errors::RelocError;
use comment_reloc::model::Comment;
use comment_reloc::model::CommentTag;
use comment_reloc::model::TagStatus;
use comment_reloc::parse::GitBlameResult;
use comment_reloc::relocate::TagState;
use comment_reloc::relocate::apply_tag_outcome;
use comment_reloc::relocate::initial_tag_state;
use comment_reloc::relocate::relocate_tag;
use comment_reloc::relocate::state_after_ancestry;
use comment_reloc::relocate::tag_state_after_trace;

fn tag(revision: &str, line: i32) -> CommentTag {
    CommentTag { revision: revision.to_string(), line, status: TagStatus::Normal }
}

fn record(revision: &str, orig: i32, new: i32) -> GitBlameResult {
    GitBlameResult { revision: revision.to_string(), orig_line_number: orig, new_line_number: new }
}

#[test]
fn tag_at_current_revision_is_skipped() {
    let t = tag("xyz789", 3);
    let st = initial_tag_state(&t, &"xyz789".to_string());
    assert_eq!(st, TagState::Skip);
}

#[test]
fn tag_at_other_revision_needs_ancestry_check() {
    let t = tag("abc123", 3);
    let st = initial_tag_state(&t, &"xyz789".to_string());
    assert_eq!(st, TagState::NeedsAncestryCheck);
}

#[test]
fn non_ancestor_is_skipped() {
    assert_eq!(state_after_ancestry(false), TagState::Skip);
    assert_eq!(state_after_ancestry(true), TagState::NeedsTrace);
}

#[test]
fn in_range_lines_pick_each_record_in_turn() {
    let records = vec![record("r1", 1, 10), record("r2", 2, 20), record("r3", 3, 30)];
    for k in 1..=3 {
        let new_tag = relocate_tag(&tag("old", k), &records).unwrap();
        let expect = &records[(k - 1) as usize];
        assert_eq!(new_tag.revision, expect.revision);
        assert_eq!(new_tag.line, expect.new_line_number);
        assert_eq!(new_tag.status, TagStatus::Normal);
    }
}

#[test]
fn out_of_range_lines_append_nothing() {
    let records = vec![record("r1", 1, 10), record("r2", 2, 20)];
    assert_eq!(relocate_tag(&tag("old", 0), &records), None);
    assert_eq!(relocate_tag(&tag("old", -4), &records), None);
    assert_eq!(relocate_tag(&tag("old", 3), &records), None);
    let mut comment = Comment { text: "c".to_string(), tags: vec![tag("old", 3)] };
    let st = tag_state_after_trace(&tag("old", 3), &records);
    assert_eq!(st, TagState::OutOfRange);
    apply_tag_outcome(&mut comment, st);
    assert_eq!(comment.tags, vec![tag("old", 3)]);
}

#[test]
fn apply_outcome_appends_only_on_relocation() {
    let mut comment = Comment { text: "c".to_string(), tags: vec![tag("a", 1)] };
    apply_tag_outcome(&mut comment, TagState::Skip);
    assert_eq!(comment.tags.len(), 1);
    apply_tag_outcome(&mut comment, TagState::Relocated(tag("b", 2)));
    assert_eq!(comment.tags, vec![tag("a", 1), tag("b", 2)]);
}

#[test]
fn ancestor_tag_relocates_through_a_two_record_trace() {
    // A comment tagged at line 2 of revision abc123; the present revision is
    // xyz789 and abc123 is an ancestor, so the trace over abc123..xyz789 runs.
    let t = tag("abc123", 2);
    let current = "xyz789".to_string();
    assert_eq!(initial_tag_state(&t, &current), TagState::NeedsAncestryCheck);
    assert_eq!(state_after_ancestry(true), TagState::NeedsTrace);
    let trace_text = "abc123 1 (a 1) x\ndef456 5 (a 2) y\n";
    let records = blame_results_from_output(0, trace_text, String::new()).unwrap();
    assert_eq!(records.len(), 2);
    let st = tag_state_after_trace(&t, &records);
    let mut comment = Comment { text: "c".to_string(), tags: vec![t] };
    apply_tag_outcome(&mut comment, st);
    assert_eq!(comment.tags.len(), 2);
    assert_eq!(comment.tags[1], tag("def456", 5));
}

#[test]
fn malformed_trace_aborts_the_pass() {
    let trace_text = " 5 (a 3) x\n";
    let e = blame_results_from_output(0, trace_text, String::new()).unwrap_err();
    match e {
        RelocError::Parse(p) => assert_eq!(p.line, " 5 (a 3) x"),
        RelocError::Oracle(_) => panic!("expected a parse failure"),
    }
}

#[test]
fn oracle_failure_surfaces_exit_code_and_stderr() {
    let e = blame_results_from_output(128, "", "fatal: bad revision".to_string()).unwrap_err();
    match e {
        RelocError::Oracle(o) => {
            assert_eq!(o.exit_code, 128);
            assert_eq!(o.stderr, "fatal: bad revision");
        }
        RelocError::Parse(_) => panic!("expected an oracle failure"),
    }
}
