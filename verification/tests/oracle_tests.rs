use comment_reloc::blame::GitBlameOption;
use comment_reloc::blame::relocation_blame_option;
use comment_reloc::blame::revision_range;
use comment_reloc::model::CommentTag;
use comment_reloc::model::TagStatus;
use comment_reloc::oracle::ancestor_from_exit_code;
use comment_reloc::oracle::revision_from_output;

#[test]
fn current_revision_is_output_without_line_ending() {
    let r = revision_from_output(0, "39690ed\n", String::new()).unwrap();
    assert_eq!(r, "39690ed");
    let r = revision_from_output(0, "39690ed\r\n", String::new()).unwrap();
    assert_eq!(r, "39690ed");
    let r = revision_from_output(0, "39690ed", String::new()).unwrap();
    assert_eq!(r, "39690ed");
}

#[test]
fn failed_revision_query_carries_stderr() {
    let e = revision_from_output(128, "", "fatal: not a git repository".to_string()).unwrap_err();
    assert_eq!(e.exit_code, 128);
    assert_eq!(e.stderr, "fatal: not a git repository");
}

#[test]
fn ancestry_exit_codes_decode_to_booleans() {
    assert_eq!(ancestor_from_exit_code(0, String::new()).unwrap(), true);
    assert_eq!(ancestor_from_exit_code(1, String::new()).unwrap(), false);
    let e = ancestor_from_exit_code(129, "usage: git merge-base".to_string()).unwrap_err();
    assert_eq!(e.exit_code, 129);
    assert_eq!(e.stderr, "usage: git merge-base");
}

#[test]
fn full_blame_args_in_order() {
    let o = GitBlameOption {
        file: "src/a.rs".to_string(),
        repo_path: Some("./repo".to_string()),
        reverse: true,
        line_number: true,
        revision: "abc..HEAD".to_string(),
    };
    let args = o.build_args();
    assert_eq!(args, vec!["-C", "./repo", "blame", "--reverse", "-n", "abc..HEAD", "src/a.rs"]);
}

#[test]
fn minimal_blame_args_leave_out_options() {
    let o = GitBlameOption {
        file: "a.txt".to_string(),
        repo_path: None,
        reverse: false,
        line_number: false,
        revision: "HEAD".to_string(),
    };
    let args = o.build_args();
    assert_eq!(args, vec!["blame", "HEAD", "a.txt"]);
}

#[test]
fn revision_range_reaches_the_present() {
    assert_eq!(revision_range(&"abc123".to_string()), "abc123..HEAD");
}

#[test]
fn relocation_trace_is_reverse_and_numbered() {
    let t = CommentTag { revision: "abc123".to_string(), line: 2, status: TagStatus::Normal };
    let o = relocation_blame_option(&"./README.md".to_string(), &"./example-repo".to_string(), &t);
    assert_eq!(o.file, "./README.md");
    assert_eq!(o.repo_path, Some("./example-repo".to_string()));
    assert!(o.reverse);
    assert!(o.line_number);
    assert_eq!(o.revision, "abc123..HEAD");
    let args = o.build_args();
    assert_eq!(
        args,
        vec!["-C", "./example-repo", "blame", "--reverse", "-n", "abc123..HEAD", "./README.md"]
    );
}
