use config_chain::cli::JSONFileHandler;
use config_chain::json::JsonValue;

fn find(text: &str, key: &str) -> Option<String> {
    let doc = JsonValue::parse(text).expect("the text is a JSON document");
    JSONFileHandler::find_key_recursive(&doc, key)
}

fn string(s: &str) -> JsonValue {
    JsonValue::String(s.to_string())
}

fn number(s: &str) -> JsonValue {
    JsonValue::Number(s.to_string())
}

fn object(members: Vec<(&str, JsonValue)>, text: &str) -> JsonValue {
    JsonValue::Object {
        members: members.into_iter().map(|(k, v)| (k.to_string(), v)).collect(),
        text: text.to_string(),
    }
}

fn array(items: Vec<JsonValue>, text: &str) -> JsonValue {
    JsonValue::Array { items, text: text.to_string() }
}

#[test]
fn parse_rejects_what_is_no_json() {
    assert!(JsonValue::parse("").is_none());
    assert!(JsonValue::parse("{\"test_key\": ").is_none());
    assert!(JsonValue::parse("DEFAULT_VALUE").is_none());
    assert!(JsonValue::parse("{\"a\": 1} trailing").is_none());
}

#[test]
fn parse_builds_the_tree_of_the_document() {
    let doc = JsonValue::parse(" {\"b\": [1, \"two\", null, true], \"a\": {\"c\": 2.5}} ").unwrap();
    match doc {
        JsonValue::Object { members, text } => {
            assert_eq!(text, "{\"a\":{\"c\":2.5},\"b\":[1,\"two\",null,true]}");
            assert_eq!(members.len(), 2);
            assert_eq!(members[0].0, "a");
            assert_eq!(members[1].0, "b");
            match &members[0].1 {
                JsonValue::Object { members, text } => {
                    assert_eq!(text, "{\"c\":2.5}");
                    assert_eq!(members.len(), 1);
                    assert_eq!(members[0].0, "c");
                    assert!(matches!(&members[0].1, JsonValue::Number(n) if n == "2.5"));
                }
                _ => panic!("\"a\" is an object"),
            }
            match &members[1].1 {
                JsonValue::Array { items, text } => {
                    assert_eq!(text, "[1,\"two\",null,true]");
                    assert_eq!(items.len(), 4);
                    assert!(matches!(&items[0], JsonValue::Number(n) if n == "1"));
                    assert!(matches!(&items[1], JsonValue::String(s) if s == "two"));
                    assert!(matches!(&items[2], JsonValue::Null));
                    assert!(matches!(&items[3], JsonValue::Bool(true)));
                }
                _ => panic!("\"b\" is an array"),
            }
        }
        _ => panic!("the document is an object"),
    }
}

#[test]
fn matched_string_is_handed_out_without_quotes() {
    assert_eq!(find("{\"test_key\": \"example\"}", "test_key"), Some("example".to_string()));
    assert_eq!(find("{\"k\": \"a \\\"b\\\"\\n\"}", "k"), Some("a \"b\"\n".to_string()));
    assert_eq!(find("{\"k\": \"\"}", "k"), Some(String::new()));
}

#[test]
fn matched_scalar_is_handed_out_as_json_text() {
    assert_eq!(find("{\"test_key\": 123}", "test_key"), Some("123".to_string()));
    assert_eq!(find("{\"k\": -1.5e3}", "k"), Some("-1500.0".to_string()));
    assert_eq!(find("{\"k\": true}", "k"), Some("true".to_string()));
    assert_eq!(find("{\"k\": false}", "k"), Some("false".to_string()));
    assert_eq!(find("{\"k\": null}", "k"), Some("null".to_string()));
}

#[test]
fn matched_compound_is_handed_out_as_compact_json() {
    assert_eq!(
        find("{\"k\": {\"b\": [1, 2], \"a\": \"x y\"}}", "k"),
        Some("{\"a\":\"x y\",\"b\":[1,2]}".to_string())
    );
    assert_eq!(find("{\"k\": [ ]}", "k"), Some("[]".to_string()));
    assert_eq!(find("{\"k\": { }}", "k"), Some("{}".to_string()));
}

#[test]
fn search_descends_into_objects_and_arrays() {
    assert_eq!(
        find("{\"test_obj\": {\"test_key\": \"example\"} }", "test_key"),
        Some("example".to_string())
    );
    assert_eq!(find("[{\"test_key\": \"example\"}]", "test_key"), Some("example".to_string()));
    assert_eq!(find("[[1, [{\"deep\": 7}]], 2]", "deep"), Some("7".to_string()));
}

#[test]
fn a_direct_member_shadows_a_nested_one() {
    // "a" sorts before "k": the nested match would come first in a plain
    // depth-first walk.
    assert_eq!(find("{\"a\": {\"k\": \"nested\"}, \"k\": \"top\"}", "k"), Some("top".to_string()));
}

#[test]
fn children_are_searched_in_order() {
    assert_eq!(find("[{\"k\": 1}, {\"k\": 2}]", "k"), Some("1".to_string()));
    assert_eq!(find("{\"b\": {\"k\": \"second\"}, \"a\": {\"k\": \"first\"}}", "k"), Some("first".to_string()));
}

#[test]
fn leaves_and_missing_keys_give_nothing() {
    assert_eq!(find("\"k\"", "k"), None);
    assert_eq!(find("12", "k"), None);
    assert_eq!(find("true", "k"), None);
    assert_eq!(find("null", "k"), None);
    assert_eq!(find("[]", "k"), None);
    assert_eq!(find("{}", "k"), None);
    assert_eq!(find("{\"a\": {\"b\": [1, {\"c\": 2}]}}", "k"), None);
    assert_eq!(find("{\"K\": 1}", "k"), None);
}

#[test]
fn search_works_on_a_value_written_by_hand() {
    let doc = object(
        vec![
            ("list", array(vec![number("1"), object(vec![("inner", string("found"))], "{\"inner\":\"found\"}")], "[1,{\"inner\":\"found\"}]")),
            ("name", string("top")),
        ],
        "{\"list\":[1,{\"inner\":\"found\"}],\"name\":\"top\"}",
    );
    assert_eq!(JSONFileHandler::find_key_recursive(&doc, "inner"), Some("found".to_string()));
    assert_eq!(JSONFileHandler::find_key_recursive(&doc, "name"), Some("top".to_string()));
    assert_eq!(
        JSONFileHandler::find_key_recursive(&doc, "list"),
        Some("[1,{\"inner\":\"found\"}]".to_string())
    );
    assert_eq!(JSONFileHandler::find_key_recursive(&doc, "absent"), None);
}

#[test]
fn the_first_of_two_members_of_one_name_answers() {
    let doc = object(vec![("k", number("1")), ("k", number("2"))], "{\"k\":2}");
    assert_eq!(JSONFileHandler::find_key_recursive(&doc, "k"), Some("1".to_string()));
}

#[test]
fn text_of_each_kind_of_value() {
    assert_eq!(JsonValue::Null.text(), "null");
    assert_eq!(JsonValue::Bool(true).text(), "true");
    assert_eq!(JsonValue::Bool(false).text(), "false");
    assert_eq!(number("42").text(), "42");
    assert_eq!(string("raw \"text\"").text(), "raw \"text\"");
    assert_eq!(array(vec![], "[]").text(), "[]");
    assert_eq!(object(vec![], "{}").text(), "{}");
}
