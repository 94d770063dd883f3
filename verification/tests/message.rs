use commitizen::conventional_changelog::{
    commit_types, create_message, filter_subject, header_len, max_summary_len, Draft,
};
use commitizen::staging_is_clean;

fn draft(tag: &str, scope: &str, subject: &str, body: &str, breaking: bool, breaking_body: &str, issues: &str) -> Draft {
    Draft {
        tag: tag.to_string(),
        scope: scope.to_string(),
        subject: subject.to_string(),
        body: body.to_string(),
        breaking,
        breaking_body: breaking_body.to_string(),
        issues: issues.to_string(),
    }
}

#[test]
fn subject_filter_lowercases_and_strips_dots() {
    assert_eq!(filter_subject(&"Add Feature.".to_string()), "add Feature");
}

#[test]
fn subject_filter_strips_all_trailing_dots() {
    assert_eq!(filter_subject(&"Done...".to_string()), "done");
    assert_eq!(filter_subject(&"...".to_string()), "");
    assert_eq!(filter_subject(&"".to_string()), "");
}

#[test]
fn subject_filter_is_unicode_aware() {
    assert_eq!(filter_subject(&"Ärger mit Umlauten".to_string()), "ärger mit Umlauten");
}

#[test]
fn render_header_only() {
    let d = draft("feat", "api", "Add new login endpoint", "", false, "", "");
    assert_eq!(create_message(&d), "feat(api): add new login endpoint");
}

#[test]
fn render_with_body() {
    let d = draft(
        "fix",
        "",
        "Null pointer on empty input.",
        "Fixes a crash when input is empty.",
        false,
        "",
        "",
    );
    assert_eq!(
        create_message(&d),
        "fix: null pointer on empty input\n\nFixes a crash when input is empty."
    );
}

#[test]
fn render_wraps_long_body() {
    let first = "a".repeat(60);
    let second = "b".repeat(60);
    let body = format!("{} {}", first, second);
    let d = draft("fix", "", "Long", &body, false, "", "");
    assert_eq!(
        create_message(&d),
        format!("fix: long\n\n{}\n{}", first, second)
    );
}

#[test]
fn render_breaking_adds_single_label() {
    let d = draft(
        "feat",
        "",
        "New api",
        "It all changed",
        true,
        "BREAKING CHANGE: the old api is gone",
        "",
    );
    let msg = create_message(&d);
    assert_eq!(
        msg,
        "feat: new api\n\nIt all changed\n\nBREAKING CHANGE: the old api is gone"
    );
    assert_eq!(msg.matches("BREAKING CHANGE: ").count(), 1);
}

#[test]
fn render_breaking_without_preexisting_label() {
    let d = draft("feat", "", "New api", "Body", true, "the old api is gone", "");
    assert_eq!(
        create_message(&d),
        "feat: new api\n\nBody\n\nBREAKING CHANGE: the old api is gone"
    );
}

#[test]
fn render_with_issues() {
    let d = draft("fix", "core", "Crash", "", false, "", "fix #123");
    assert_eq!(create_message(&d), "fix(core): crash\n\nfix #123");
}

#[test]
fn header_len_counts_tag_separator_and_scope() {
    let d = draft("feat", "api", "s", "", false, "", "");
    assert_eq!(header_len(&d), 11);
    assert_eq!(max_summary_len(&d), 89);
}

#[test]
fn header_len_ignores_blank_scope() {
    let d = draft("fix", "   ", "s", "", false, "", "");
    assert_eq!(header_len(&d), 5);
    assert_eq!(max_summary_len(&d), 95);
}

#[test]
fn commit_types_are_fixed_and_ordered() {
    let types = commit_types();
    assert_eq!(types.len(), 11);
    assert_eq!(types[0].tag, "feat");
    assert_eq!(types[0].description, "A new feature");
    assert_eq!(types[1].tag, "fix");
    assert_eq!(types[2].tag, "docs");
    assert_eq!(types[10].tag, "revert");
    assert_eq!(types[10].description, "Reverts a previous commit");
}

#[test]
fn staging_output_empty_means_clean() {
    assert!(staging_is_clean(&Vec::new()));
    assert!(!staging_is_clean(&b"src/main.rs\n".to_vec()));
}
