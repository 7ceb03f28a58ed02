use rule_namer::extract_tokens;

fn toks(template: &str) -> Vec<String> {
    extract_tokens(template)
}

#[test]
fn extracts_tokens_in_order() {
    assert_eq!(toks("{a}_{b}.{c}"), vec!["a".to_string(), "b".to_string(), "c".to_string()]);
}

#[test]
fn keeps_duplicates() {
    assert_eq!(toks("{a}_{a}"), vec!["a".to_string(), "a".to_string()]);
}

#[test]
fn no_placeholders_yields_empty() {
    assert_eq!(toks("plain file name"), Vec::<String>::new());
    assert_eq!(toks(""), Vec::<String>::new());
}

#[test]
fn stray_braces_are_skipped() {
    assert_eq!(toks("{a{b}"), vec!["b".to_string()]);
    assert_eq!(toks("{{a}}"), vec!["a".to_string()]);
    assert_eq!(toks("{}"), Vec::<String>::new());
    assert_eq!(toks("{a b}"), Vec::<String>::new());
}

#[test]
fn token_names_are_word_runs() {
    assert_eq!(toks("{_}"), vec!["_".to_string()]);
    assert_eq!(toks("{a1_B9}"), vec!["a1_B9".to_string()]);
    assert_eq!(toks("x{year}-{month}y"), vec!["year".to_string(), "month".to_string()]);
}

#[test]
fn agrees_with_a_regex_scan() {
    let re = regex::Regex::new(r"\{(\w+)\}").unwrap();
    let templates = [
        "{a}_{b}.{c}",
        "{a}_{a}",
        "plain file name",
        "",
        "{a{b}",
        "{{a}}",
        "{}",
        "{a b}",
        "{_}{x}{_}",
        "report-{year}{month}{day}.v{rev}",
        "}{left}over{",
    ];
    for t in templates {
        let expected: Vec<String> = re.captures_iter(t).map(|c| c[1].to_string()).collect();
        assert_eq!(extract_tokens(t), expected, "template: {t:?}");
    }
}
