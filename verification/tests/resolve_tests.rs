use rule_namer::RuleError;
use rule_namer::Selection;
use rule_namer::TokenValue;
use rule_namer::extract_tokens;
use rule_namer::resolve_file_name;

fn sel(pairs: &[(&str, &str)]) -> Selection {
    let mut s = Selection::new();
    for (k, v) in pairs {
        s.push(k.to_string(), TokenValue::Single(v.to_string()));
    }
    s
}

#[test]
fn resolves_year_name_pdf() {
    let s = sel(&[("year", "2024"), ("name", "report"), ("extension", "pdf")]);
    let r = resolve_file_name("{year}-{name}", &s).unwrap();
    assert_eq!(r, "2024-report.pdf");
}

#[test]
fn missing_token_fails_with_its_name() {
    let s = sel(&[("year", "2024"), ("extension", "pdf")]);
    let e = resolve_file_name("{year}-{name}", &s).unwrap_err();
    assert_eq!(e, RuleError::MissingSelectionValue("name".to_string()));
}

#[test]
fn first_missing_token_is_reported() {
    let s = sel(&[("extension", "pdf")]);
    let e = resolve_file_name("{b}{a}", &s).unwrap_err();
    assert_eq!(e, RuleError::MissingSelectionValue("b".to_string()));
}

#[test]
fn list_valued_token_does_not_substitute() {
    let mut s = sel(&[("extension", "pdf")]);
    s.push(
        "name".to_string(),
        TokenValue::Multiple(vec!["one".to_string(), "two".to_string()]),
    );
    let e = resolve_file_name("{name}", &s).unwrap_err();
    assert_eq!(e, RuleError::MissingSelectionValue("name".to_string()));
}

#[test]
fn missing_extension_fails() {
    let s = sel(&[("year", "2024")]);
    let e = resolve_file_name("{year}", &s).unwrap_err();
    assert_eq!(e, RuleError::MissingExtension);
}

#[test]
fn legacy_extends_key_supplies_the_extension() {
    let s = sel(&[("n", "x"), ("extends", "txt")]);
    assert_eq!(resolve_file_name("{n}", &s).unwrap(), "x.txt");
}

#[test]
fn extension_key_wins_over_extends() {
    let s = sel(&[("n", "x"), ("extension", "pdf"), ("extends", "txt")]);
    assert_eq!(resolve_file_name("{n}", &s).unwrap(), "x.pdf");
}

#[test]
fn repeated_token_gets_the_same_value() {
    let s = sel(&[("a", "x"), ("extension", "md")]);
    assert_eq!(resolve_file_name("{a}_{a}", &s).unwrap(), "x_x.md");
}

#[test]
fn template_without_tokens_just_gets_the_extension() {
    let s = sel(&[("extension", "log")]);
    assert_eq!(resolve_file_name("output", &s).unwrap(), "output.log");
}

#[test]
fn substitution_leaves_no_tokens_behind() {
    let s = sel(&[("a", "hello"), ("b", "world"), ("extension", "txt")]);
    let name = resolve_file_name("{a}-{b}", &s).unwrap();
    assert_eq!(name, "hello-world.txt");
    assert_eq!(extract_tokens(&name), Vec::<String>::new());
}

#[test]
fn the_first_binding_of_a_key_wins() {
    let mut s = Selection::new();
    s.push("a".to_string(), TokenValue::Single("one".to_string()));
    s.push("a".to_string(), TokenValue::Single("two".to_string()));
    s.push("extension".to_string(), TokenValue::Single("md".to_string()));
    assert_eq!(resolve_file_name("{a}", &s).unwrap(), "one.md");
}

#[test]
fn braces_in_values_stay_literal() {
    // replacement never rescans what it inserted, so a brace-carrying
    // value can itself read like a placeholder in the result
    let s = sel(&[("a", "{b}"), ("extension", "x")]);
    let name = resolve_file_name("{a}", &s).unwrap();
    assert_eq!(name, "{b}.x");
    assert_eq!(extract_tokens(&name), vec!["b".to_string()]);
}
