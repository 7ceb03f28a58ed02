use rule_namer::paths::extension_of;
use rule_namer::paths::has_config_extension;
use rule_namer::paths::join_path;
use rule_namer::paths::parent_of;

#[test]
fn parent_is_the_part_before_the_last_separator() {
    assert_eq!(parent_of("/a/b/c.json"), Some("/a/b".to_string()));
    assert_eq!(parent_of("a/b.json"), Some("a".to_string()));
    assert_eq!(parent_of("c.json"), None);
    assert_eq!(parent_of(""), None);
}

#[test]
fn parent_of_a_root_entry_is_the_root() {
    assert_eq!(parent_of("/c.json"), Some("/".to_string()));
}

#[test]
fn backslash_separators_count_too() {
    assert_eq!(parent_of("a\\b\\c.json"), Some("a\\b".to_string()));
}

#[test]
fn extension_is_what_follows_the_last_dot() {
    assert_eq!(extension_of("a.json"), Some("json".to_string()));
    assert_eq!(extension_of("a.tar.gz"), Some("gz".to_string()));
    assert_eq!(extension_of("/x/y/report.pdf"), Some("pdf".to_string()));
    assert_eq!(extension_of("a."), Some("".to_string()));
}

#[test]
fn hidden_files_and_dotless_names_have_no_extension() {
    assert_eq!(extension_of(".json"), None);
    assert_eq!(extension_of("/x/.json"), None);
    assert_eq!(extension_of("plain"), None);
    assert_eq!(extension_of("dir.d/file"), None);
}

#[test]
fn config_extension_check() {
    assert!(has_config_extension("rules.json"));
    assert!(has_config_extension("/a/b.json"));
    assert!(!has_config_extension("rules.txt"));
    assert!(!has_config_extension(".json"));
    assert!(!has_config_extension("rules.JSON"));
}

#[test]
fn join_inserts_one_separator() {
    assert_eq!(join_path("/a", "b.txt"), "/a/b.txt");
    assert_eq!(join_path("/a/", "b.txt"), "/a/b.txt");
    assert_eq!(join_path("", "b.txt"), "b.txt");
    assert_eq!(join_path("c:\\dir\\", "b.txt"), "c:\\dir\\b.txt");
}
