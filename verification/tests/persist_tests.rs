use rule_namer::RuleDocument;
use rule_namer::RuleError;
use rule_namer::Selection;
use rule_namer::Session;
use rule_namer::TokenValue;
use rule_namer::load_rule_document;
use rule_namer::persist_decision;
use rule_namer::plan_rename;
use rule_namer::plan_save;

fn sel(pairs: &[(&str, &str)]) -> Selection {
    let mut s = Selection::new();
    for (k, v) in pairs {
        s.push(k.to_string(), TokenValue::Single(v.to_string()));
    }
    s
}

#[test]
fn a_free_destination_may_be_written() {
    assert_eq!(persist_decision("r.pdf", false), Ok(()));
}

#[test]
fn an_existing_destination_is_never_overwritten() {
    // first write succeeds, a second one against the now existing file fails
    assert_eq!(persist_decision("r.pdf", false), Ok(()));
    let e = persist_decision("r.pdf", true).unwrap_err();
    assert_eq!(e, RuleError::FileAlreadyExists("r.pdf".to_string()));
    assert!(e.message().contains("r.pdf"));
}

#[test]
fn plan_save_joins_name_and_directory() {
    let mut session = Session::new();
    let doc = RuleDocument { rule: "{n}".to_string(), selection: None };
    load_rule_document(&mut session, "/data/cfg.json", &doc).unwrap();
    let s = sel(&[("rule", "{n}"), ("n", "x"), ("extension", "md")]);
    let plan = plan_save(&session, &s, false).unwrap();
    assert_eq!(plan.file_name, "x.md");
    assert_eq!(plan.directory, "/data");
    assert_eq!(plan.full_path, "/data/x.md");
}

#[test]
fn plan_save_without_a_rule_fails() {
    let session = Session::new();
    let s = sel(&[("n", "x"), ("extension", "md")]);
    let e = plan_save(&session, &s, false).unwrap_err();
    assert_eq!(e, RuleError::MissingSelectionValue("rule".to_string()));
}

#[test]
fn plan_save_reports_the_selection_before_the_destination() {
    // the name is unresolvable and no desktop could exist: the token wins
    let session = Session::new();
    let s = sel(&[("rule", "{n}"), ("extension", "md")]);
    let e = plan_save(&session, &s, false).unwrap_err();
    assert_eq!(e, RuleError::MissingSelectionValue("n".to_string()));
}

#[test]
fn plan_rename_keeps_the_file_in_its_directory() {
    let s = sel(&[("rule", "{n}"), ("n", "new"), ("extension", "txt")]);
    assert_eq!(plan_rename("/docs/old.txt", &s).unwrap(), "/docs/new.txt");
}

#[test]
fn plan_rename_of_a_bare_name_yields_a_bare_name() {
    let s = sel(&[("rule", "{n}"), ("n", "new"), ("extension", "txt")]);
    assert_eq!(plan_rename("old.txt", &s).unwrap(), "new.txt");
}

#[test]
fn every_error_has_a_message() {
    let errors = vec![
        RuleError::InvalidExtension,
        RuleError::FileNotFound,
        RuleError::ReadError,
        RuleError::MalformedConfig,
        RuleError::MissingSelectionValue("t".to_string()),
        RuleError::MissingExtension,
        RuleError::DesktopDirUnavailable,
        RuleError::FileAlreadyExists("n".to_string()),
        RuleError::WriteError,
        RuleError::RenameError,
    ];
    let mut seen: Vec<String> = Vec::new();
    for e in errors {
        let m = e.message();
        assert!(!m.is_empty());
        assert!(!seen.contains(&m));
        seen.push(m);
    }
}
