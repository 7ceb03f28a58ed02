use rule_namer::RuleDocument;
use rule_namer::RuleError;
use rule_namer::Session;
use rule_namer::choose_destination;
use rule_namer::load_rule_document;
use rule_namer::resolve_destination_directory;

fn doc(rule: &str) -> RuleDocument {
    RuleDocument { rule: rule.to_string(), selection: None }
}

#[test]
fn wrong_extension_is_rejected_before_anything_else() {
    let mut session = Session::new();
    let e = load_rule_document(&mut session, "rules.txt", &doc("{a}")).unwrap_err();
    assert_eq!(e, RuleError::InvalidExtension);
    assert!(session.last_loaded.is_none());
}

#[test]
fn loading_records_the_path_and_extracts_keys() {
    let mut session = Session::new();
    let loaded = load_rule_document(&mut session, "/data/rules/config.json", &doc("{a}_{b}"))
        .unwrap();
    assert_eq!(loaded.rule, "{a}_{b}");
    assert_eq!(loaded.keys, vec!["a".to_string(), "b".to_string()]);
    assert_eq!(session.last_loaded, Some("/data/rules/config.json".to_string()));
}

#[test]
fn a_new_load_overwrites_the_remembered_path() {
    let mut session = Session::new();
    load_rule_document(&mut session, "/one/a.json", &doc("{x}")).unwrap();
    load_rule_document(&mut session, "/two/b.json", &doc("{y}")).unwrap();
    assert_eq!(session.last_loaded, Some("/two/b.json".to_string()));
}

#[test]
fn desktop_flag_takes_the_desktop() {
    let mut session = Session::new();
    load_rule_document(&mut session, "/data/config.json", &doc("{x}")).unwrap();
    let r = choose_destination(true, &session, Some("/home/u/Desktop".to_string()));
    assert_eq!(r.unwrap(), "/home/u/Desktop");
}

#[test]
fn desktop_flag_without_a_desktop_fails() {
    let session = Session::new();
    let e = choose_destination(true, &session, None).unwrap_err();
    assert_eq!(e, RuleError::DesktopDirUnavailable);
}

#[test]
fn fresh_session_falls_back_to_the_desktop() {
    let session = Session::new();
    let r = choose_destination(false, &session, Some("/home/u/Desktop".to_string()));
    assert_eq!(r.unwrap(), "/home/u/Desktop");
    let e = choose_destination(false, &session, None).unwrap_err();
    assert_eq!(e, RuleError::DesktopDirUnavailable);
}

#[test]
fn loaded_document_directory_is_preferred() {
    let mut session = Session::new();
    load_rule_document(&mut session, "/data/rules/config.json", &doc("{x}")).unwrap();
    // the desktop is not consulted at all
    let r = choose_destination(false, &session, None);
    assert_eq!(r.unwrap(), "/data/rules");
    let r2 = resolve_destination_directory(&session, false);
    assert_eq!(r2.unwrap(), "/data/rules");
}

#[test]
fn pathless_document_name_falls_back_to_the_desktop() {
    let mut session = Session::new();
    load_rule_document(&mut session, "config.json", &doc("{x}")).unwrap();
    let r = choose_destination(false, &session, Some("/desk".to_string()));
    assert_eq!(r.unwrap(), "/desk");
}
