use thrustr::commit_lint::{first_line, is_valid_commit_message, is_valid_first_line, VALID_TYPES};

#[test]
fn valid_types_and_scopes_pass() {
    for (t, _) in VALID_TYPES {
        assert!(is_valid_commit_message(&format!("{t}: change")));
        assert!(is_valid_commit_message(&format!("{t}(ui): change")));
    }
    assert!(is_valid_commit_message("  feat: padded\nbody"));
    assert!(is_valid_commit_message("fix:\r\n"));
}

#[test]
fn anything_else_fails() {
    assert!(!is_valid_commit_message(""));
    assert!(!is_valid_commit_message("feature: x"));
    assert!(!is_valid_commit_message("Feat: x"));
    assert!(!is_valid_commit_message("feat x"));
    assert!(!is_valid_commit_message("\nfeat: second line"));
    assert!(!is_valid_first_line("ci"));
}

#[test]
fn first_line_is_trimmed() {
    assert_eq!(first_line("  hello world \r\nmore"), "hello world");
    assert_eq!(first_line(""), "");
    assert_eq!(first_line("\tx"), "x");
    assert_eq!(VALID_TYPES.len(), 8);
}
