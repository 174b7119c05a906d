use config_chain::flat::{
    detect_format, ends_with_extension, entry_value, flat_value, scalar_entries, FileFormat,
};

fn entries(pairs: Vec<(&str, &str)>) -> Vec<(String, String)> {
    pairs.into_iter().map(|(k, v)| (k.to_string(), v.to_string())).collect()
}

#[test]
fn format_follows_the_extension() {
    assert_eq!(detect_format("settings.toml"), Some(FileFormat::Toml));
    assert_eq!(detect_format("/etc/app/settings.json"), Some(FileFormat::Json));
    assert_eq!(detect_format("/tmp/.tmpAbC123.yaml"), Some(FileFormat::Yaml));
    assert_eq!(detect_format("settings.yml"), Some(FileFormat::Yaml));
    assert_eq!(detect_format("archive.tar.toml"), Some(FileFormat::Toml));
    assert_eq!(detect_format("..toml"), Some(FileFormat::Toml));
}

#[test]
fn format_is_unknown_without_a_known_extension() {
    assert_eq!(detect_format(""), None);
    assert_eq!(detect_format("settings"), None);
    assert_eq!(detect_format("settings.ini"), None);
    assert_eq!(detect_format("settings.YAML"), None);
    assert_eq!(detect_format("settings.yaml.bak"), None);
    assert_eq!(detect_format("toml"), None);
    assert_eq!(detect_format(".toml"), None);
    assert_eq!(detect_format("dir/.json"), None);
    assert_eq!(detect_format("settings.toml/"), None);
    assert_eq!(detect_format("yaml."), None);
}

#[test]
fn extension_is_compared_by_characters() {
    assert!(ends_with_extension("a.b", "b"));
    assert!(ends_with_extension("\u{e9}t\u{e9}.json", "json"));
    assert!(ends_with_extension("x.\u{e9}", "\u{e9}"));
    assert!(!ends_with_extension("a.b", "c"));
    assert!(!ends_with_extension("ab", "b"));
    assert!(!ends_with_extension(".b", "b"));
    assert!(!ends_with_extension("/.b", "b"));
    assert!(!ends_with_extension("b", "long_extension"));
    assert!(ends_with_extension("a.", ""));
    assert!(!ends_with_extension("a", ""));
}

#[test]
fn entry_value_takes_the_first_entry_of_the_name() {
    let table = entries(vec![("a", "1"), ("b", "2"), ("a", "3")]);
    assert_eq!(entry_value(&table, "a"), Some("1".to_string()));
    assert_eq!(entry_value(&table, "b"), Some("2".to_string()));
    assert_eq!(entry_value(&table, "c"), None);
    assert_eq!(entry_value(&table, "A"), None);
    assert_eq!(entry_value(&entries(vec![]), "a"), None);
}

#[test]
fn yaml_table_is_read_as_strings() {
    let text = "---\ntest_key: 123\nname: \"example\"\nflag: true\n";
    assert_eq!(flat_value(text, FileFormat::Yaml, "test_key"), Some("123".to_string()));
    assert_eq!(flat_value(text, FileFormat::Yaml, "name"), Some("example".to_string()));
    assert_eq!(flat_value(text, FileFormat::Yaml, "flag"), Some("true".to_string()));
    assert_eq!(flat_value(text, FileFormat::Yaml, "absent"), None);
}

#[test]
fn toml_table_is_read_as_strings() {
    let text = "address = \"0.0.0.0\"\nport = 9000\n";
    assert_eq!(flat_value(text, FileFormat::Toml, "address"), Some("0.0.0.0".to_string()));
    assert_eq!(flat_value(text, FileFormat::Toml, "port"), Some("9000".to_string()));
    assert_eq!(flat_value(text, FileFormat::Toml, "verbose"), None);
}

#[test]
fn json_table_is_read_as_strings() {
    let text = "{\"address\": \"0.0.0.0\", \"port\": 9000}";
    assert_eq!(flat_value(text, FileFormat::Json, "address"), Some("0.0.0.0".to_string()));
    assert_eq!(flat_value(text, FileFormat::Json, "port"), Some("9000".to_string()));
    assert_eq!(flat_value(text, FileFormat::Json, "verbose"), None);
}

#[test]
fn a_table_with_a_nested_value_is_no_flat_table() {
    let text = "---\ntop: 1\ntest_obj:\n    test_key: \"test_val\"\n";
    assert_eq!(flat_value(text, FileFormat::Yaml, "test_key"), None);
    assert_eq!(flat_value(text, FileFormat::Yaml, "top"), None);
    let text = "top = 1\n[test_obj]\ntest_key = \"test_val\"\n";
    assert_eq!(flat_value(text, FileFormat::Toml, "test_key"), None);
}

#[test]
fn text_of_another_format_is_no_table() {
    assert_eq!(flat_value("address = \"0.0.0.0\"\n", FileFormat::Json, "address"), None);
    assert_eq!(flat_value("{\"address\": ", FileFormat::Json, "address"), None);
    assert_eq!(flat_value("a: b: c: [", FileFormat::Yaml, "a"), None);
    assert_eq!(flat_value("= broken", FileFormat::Toml, "a"), None);
}

#[test]
fn a_key_is_a_name_and_never_a_path() {
    assert_eq!(flat_value("{\"a[-1]\": \"x\"}", FileFormat::Json, "a[-1]"), Some("x".to_string()));
    assert_eq!(flat_value("{\"a[-1]\": \"x\"}", FileFormat::Json, "a"), None);
    assert_eq!(flat_value("{\"a[0]\": \"x\", \"b\": 1}", FileFormat::Json, "b"), Some("1".to_string()));
    let text = "a.b: dotted\na: plain\n";
    assert_eq!(flat_value(text, FileFormat::Yaml, "a"), Some("plain".to_string()));
    assert_eq!(flat_value(text, FileFormat::Yaml, "a.b"), Some("dotted".to_string()));
    assert_eq!(flat_value(text, FileFormat::Yaml, "b"), None);
    let text = "a: plain\na.b: dotted\n";
    assert_eq!(flat_value(text, FileFormat::Yaml, "a"), Some("plain".to_string()));
    assert_eq!(flat_value(text, FileFormat::Yaml, "a.b"), Some("dotted".to_string()));
    assert_eq!(flat_value("\"a.b\" = 1\n", FileFormat::Toml, "a.b"), Some("1".to_string()));
}

#[test]
fn a_value_that_is_no_scalar_leaves_no_flat_table() {
    assert_eq!(flat_value("{\"a\": null, \"b\": 1}", FileFormat::Json, "b"), None);
    assert_eq!(flat_value("{\"a\": [1, 2], \"b\": 1}", FileFormat::Json, "b"), None);
    assert_eq!(flat_value("a: ~\nb: 1\n", FileFormat::Yaml, "b"), None);
    assert_eq!(flat_value("a = [1, 2]\nb = 1\n", FileFormat::Toml, "b"), None);
}

#[test]
fn a_document_that_is_no_table_is_an_empty_table() {
    assert_eq!(flat_value("[1, 2]", FileFormat::Json, "a"), None);
    assert_eq!(flat_value("\"text\"", FileFormat::Json, "a"), None);
    assert_eq!(flat_value("", FileFormat::Yaml, "a"), None);
    assert_eq!(flat_value("", FileFormat::Toml, "a"), None);
}

#[test]
fn scalars_of_every_kind_read_as_strings() {
    let text = "{\"s\": \"text\", \"i\": -7, \"f\": 1.5, \"t\": true, \"n\": false}";
    assert_eq!(flat_value(text, FileFormat::Json, "s"), Some("text".to_string()));
    assert_eq!(flat_value(text, FileFormat::Json, "i"), Some("-7".to_string()));
    assert_eq!(flat_value(text, FileFormat::Json, "f"), Some("1.5".to_string()));
    assert_eq!(flat_value(text, FileFormat::Json, "t"), Some("true".to_string()));
    assert_eq!(flat_value(text, FileFormat::Json, "n"), Some("false".to_string()));
}

#[test]
fn scalar_entries_asks_for_every_value() {
    let parsed = vec![
        ("a".to_string(), Some("1".to_string())),
        ("b".to_string(), Some("2".to_string())),
    ];
    assert_eq!(scalar_entries(&parsed), Some(entries(vec![("a", "1"), ("b", "2")])));
    let parsed = vec![("a".to_string(), Some("1".to_string())), ("b".to_string(), None)];
    assert_eq!(scalar_entries(&parsed), None);
    assert_eq!(scalar_entries(&vec![]), Some(vec![]));
}
