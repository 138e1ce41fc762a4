use aprz::workflow::{is_workflow_extension, note_workflow_line, within_workflow_limit, GitHubWorkflowInfo};

#[test]
fn test_github_workflow_info_clone() {
    let info1 = GitHubWorkflowInfo { workflows_detected: true, clippy_detected: true, miri_detected: false };

    let info2 = info1.clone();

    assert_eq!(info1.workflows_detected, info2.workflows_detected);
    assert_eq!(info1.clippy_detected, info2.clippy_detected);
    assert_eq!(info1.miri_detected, info2.miri_detected);
}

#[test]
fn test_github_workflow_info_default() {
    let info = GitHubWorkflowInfo::default();
    assert!(!info.workflows_detected);
    assert!(!info.clippy_detected);
    assert!(!info.miri_detected);
}

#[test]
fn workflow_lines_are_matched_case_insensitively() {
    let mut info = GitHubWorkflowInfo { workflows_detected: true, ..GitHubWorkflowInfo::default() };
    assert!(!note_workflow_line(&mut info, "    run: cargo CLIPPY -- -D warnings"));
    assert!(info.clippy_detected);
    assert!(!info.miri_detected);
    assert!(note_workflow_line(&mut info, "  - run: cargo +nightly Miri test"));
    assert!(info.miri_detected);
    assert!(info.workflows_detected);
}

#[test]
fn unrelated_lines_change_nothing() {
    let mut info = GitHubWorkflowInfo::default();
    assert!(!note_workflow_line(&mut info, "name: CI"));
    assert!(!info.clippy_detected && !info.miri_detected);
}

#[test]
fn workflow_extensions_and_limit() {
    assert!(is_workflow_extension(Some("yml")));
    assert!(is_workflow_extension(Some("yaml")));
    assert!(!is_workflow_extension(Some("YML")));
    assert!(!is_workflow_extension(Some("json")));
    assert!(!is_workflow_extension(None));
    assert!(within_workflow_limit(100));
    assert!(!within_workflow_limit(101));
}
