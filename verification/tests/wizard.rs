use commitizen::adapters::{get_by_name, Adapter, AdapterId, Error};
use commitizen::conventional_changelog::{commit_types, Stage, Wizard};

#[test]
fn happy_path_renders_header_only_message() {
    let types = commit_types();
    let mut w = Wizard::new();
    assert_eq!(w.stage, Stage::ChooseType);
    w.select_type(Some(0), &types).unwrap();
    assert_eq!(w.stage, Stage::AskScope);
    w.text(" api ".to_string());
    assert_eq!(w.stage, Stage::AskSubject);
    w.text("Add new login endpoint".to_string());
    assert_eq!(w.stage, Stage::AskBody);
    w.text("".to_string());
    assert_eq!(w.stage, Stage::ConfirmBreaking);
    w.confirm(false);
    assert_eq!(w.stage, Stage::ConfirmIssues);
    w.confirm(false);
    assert_eq!(w.stage, Stage::Complete);
    assert_eq!(w.finish(), "feat(api): add new login endpoint");
}

#[test]
fn aborting_the_type_selection_fails_the_session() {
    let types = commit_types();
    let mut w = Wizard::new();
    let r = w.select_type(None, &types);
    match r {
        Err(Error::UserError(m)) => assert_eq!(m, "User quit, aborting."),
        _ => panic!("expected a user abort"),
    }
    assert_eq!(w.stage, Stage::ChooseType);
}

#[test]
fn subject_is_required_and_bounded() {
    let types = commit_types();
    let mut w = Wizard::new();
    w.select_type(Some(0), &types).unwrap();
    w.text("api".to_string());
    assert_eq!(w.subject_limit(), 89);

    w.text("   ".to_string());
    assert_eq!(w.stage, Stage::AskSubject);
    assert_eq!(w.last_subject_len, 0);

    let long = "s".repeat(90);
    w.text(long);
    assert_eq!(w.stage, Stage::AskSubject);
    assert_eq!(w.last_subject_len, 90);

    let fits = "s".repeat(89);
    w.text(fits.clone());
    assert_eq!(w.stage, Stage::AskBody);
    assert_eq!(w.draft.subject, fits);
}

#[test]
fn breaking_change_requires_a_body() {
    let types = commit_types();
    let mut w = Wizard::new();
    w.select_type(Some(1), &types).unwrap();
    w.text("".to_string());
    w.text("Oops".to_string());
    w.text("".to_string());
    w.confirm(true);
    assert_eq!(w.stage, Stage::AskBodyForBreaking);
    w.text("   ".to_string());
    assert_eq!(w.stage, Stage::AskBodyForBreaking);
    w.text("It broke".to_string());
    assert_eq!(w.stage, Stage::AskBreakingBody);
    w.text("BREAKING CHANGE: drops the old API".to_string());
    assert_eq!(w.stage, Stage::ConfirmIssues);
    w.confirm(true);
    assert_eq!(w.stage, Stage::AskIssues);
    w.text("fix #1".to_string());
    assert_eq!(w.stage, Stage::Complete);
    assert_eq!(
        w.finish(),
        "fix: oops\n\nIt broke\n\nBREAKING CHANGE: drops the old API\n\nfix #1"
    );
}

#[test]
fn issues_without_any_body_ask_for_one_once() {
    let types = commit_types();
    let mut w = Wizard::new();
    w.select_type(Some(2), &types).unwrap();
    w.text("".to_string());
    w.text("Document the API".to_string());
    w.text("".to_string());
    w.confirm(false);
    assert_eq!(w.stage, Stage::ConfirmIssues);
    w.confirm(true);
    assert_eq!(w.stage, Stage::AskBodyForIssues);
    w.text("Explains things".to_string());
    assert_eq!(w.stage, Stage::AskIssues);
    w.text("re #2".to_string());
    assert_eq!(w.stage, Stage::Complete);
    assert_eq!(
        w.finish(),
        "docs: document the API\n\nExplains things\n\nre #2"
    );
}

#[test]
fn issues_with_a_body_at_hand_skip_the_extra_question() {
    let types = commit_types();
    let mut w = Wizard::new();
    w.select_type(Some(1), &types).unwrap();
    w.text("".to_string());
    w.text("Crash".to_string());
    w.text("Some body".to_string());
    w.confirm(false);
    w.confirm(true);
    assert_eq!(w.stage, Stage::AskIssues);
    w.text("fix #3".to_string());
    assert_eq!(w.finish(), "fix: crash\n\nSome body\n\nfix #3");
}

#[test]
fn subject_limit_shrinks_with_the_scope() {
    let mut w = Wizard::new();
    assert_eq!(w.subject_limit(), 98);
    let types = commit_types();
    w.select_type(Some(0), &types).unwrap();
    assert_eq!(w.subject_limit(), 94);
    w.text("api".to_string());
    assert_eq!(w.subject_limit(), 89);
}

struct CannedAdapter;

impl Adapter for CannedAdapter {
    fn prompt(&self) -> Result<String, Error> {
        Ok("chore: nothing".to_string())
    }
}

#[test]
fn adapters_are_found_by_name() {
    let id = get_by_name(&"cz-conventional-changelog".to_string());
    assert_eq!(id, Some(AdapterId::ConventionalChangelog));
    let canned = CannedAdapter;
    assert_eq!(canned.prompt().unwrap(), "chore: nothing");
}

#[test]
fn error_variants_carry_their_payloads() {
    let e = Error::CommitizenError("no configuration");
    match e {
        Error::CommitizenError(m) => assert_eq!(m, "no configuration"),
        _ => panic!("wrong variant"),
    }
    let io = Error::Io(std::io::Error::from(std::io::ErrorKind::UnexpectedEof));
    match io {
        Error::Io(inner) => assert_eq!(inner.kind(), std::io::ErrorKind::UnexpectedEof),
        _ => panic!("wrong variant"),
    }
}
