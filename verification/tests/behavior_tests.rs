use snippets::ParseError;
use snippets::parse;

#[test]
fn round_trip_lookup() {
    let json = r##"{"function":{"prefix":"fn","body":"fn some() {}","description":"creates a function"},"test":{"prefix":"test","body":"#[test]\nfn x(){}"}}"##;
    let store = parse(json).unwrap();
    assert_eq!(store.get_body("fn"), "fn some() {}");
    assert_eq!(store.get_body("test"), "#[test]\nfn x(){}".to_string());
    assert_eq!(store.get_body("missing"), "");
}

#[test]
fn empty_object_is_valid_and_lookup_is_total() {
    let store = parse("{}").unwrap();
    assert_eq!(store.get_body("anything"), "");
    assert_eq!(store.get_body(""), "");
}

#[test]
fn body_array_joined_with_single_spaces_in_order() {
    let json = r#"{"a":{"prefix":"p","body":["fn", "some()", "{ }"]}}"#;
    let store = parse(json).unwrap();
    assert_eq!(store.get_body("p"), "fn some() { }");
}

#[test]
fn body_empty_array_yields_empty_body() {
    let json = r#"{"a":{"prefix":"p","body":[]}}"#;
    let store = parse(json).unwrap();
    assert_eq!(store.get_body("p"), "");
}

#[test]
fn body_string_passes_through_unchanged() {
    let json = r#"{"a":{"prefix":"p","body":"fn some() {}"}}"#;
    let store = parse(json).unwrap();
    assert_eq!(store.get_body("p"), "fn some() {}");
}

#[test]
fn duplicate_prefix_last_entry_wins() {
    let json = r#"{"first":{"prefix":"fn","body":"early"},"second":{"prefix":"fn","body":"late"}}"#;
    let store = parse(json).unwrap();
    assert_eq!(store.get_body("fn"), "late");
}

#[test]
fn missing_description_defaults_to_empty() {
    let json = r#"{"a":{"prefix":"p","body":"text"}}"#;
    let store = parse(json).unwrap();
    assert_eq!(store.get_body("p"), "text");
    let record = store.get("p");
    assert_eq!(record.description, "");
    assert_eq!(record.name, "a");
    assert_eq!(record.prefix, "p");
    assert_eq!(record.body, "text");
}

#[test]
fn strict_accessor_returns_the_record() {
    let json = r#"{"function":{"prefix":"fn","body":"b","description":"d"}}"#;
    let store = parse(json).unwrap();
    let record = store.get("fn");
    assert_eq!(record.name, "function");
    assert_eq!(record.description, "d");
    assert_eq!(record.body, "b");
}

#[test]
fn invalid_json_is_malformed_input() {
    assert_eq!(parse("not json").unwrap_err(), ParseError::MalformedInput);
    assert_eq!(parse("").unwrap_err(), ParseError::MalformedInput);
}

#[test]
fn non_object_top_level_is_malformed_input() {
    assert_eq!(parse("[1, 2]").unwrap_err(), ParseError::MalformedInput);
    assert_eq!(parse("\"text\"").unwrap_err(), ParseError::MalformedInput);
    assert_eq!(parse("3").unwrap_err(), ParseError::MalformedInput);
}

#[test]
fn missing_prefix_is_missing_field() {
    let json = r#"{"a":{"body":"text"}}"#;
    assert_eq!(parse(json).unwrap_err(), ParseError::MissingField);
}

#[test]
fn non_string_prefix_is_missing_field() {
    let json = r#"{"a":{"prefix":5,"body":"text"}}"#;
    assert_eq!(parse(json).unwrap_err(), ParseError::MissingField);
}

#[test]
fn missing_body_is_missing_field() {
    let json = r#"{"a":{"prefix":"p"}}"#;
    assert_eq!(parse(json).unwrap_err(), ParseError::MissingField);
}

#[test]
fn non_object_entry_is_missing_field() {
    let json = r#"{"a":"just a string"}"#;
    assert_eq!(parse(json).unwrap_err(), ParseError::MissingField);
}

#[test]
fn non_string_non_array_body_is_invalid_body_type() {
    assert_eq!(
        parse(r#"{"a":{"prefix":"p","body":42}}"#).unwrap_err(),
        ParseError::InvalidBodyType
    );
    assert_eq!(
        parse(r#"{"a":{"prefix":"p","body":null}}"#).unwrap_err(),
        ParseError::InvalidBodyType
    );
    assert_eq!(
        parse(r#"{"a":{"prefix":"p","body":true}}"#).unwrap_err(),
        ParseError::InvalidBodyType
    );
    assert_eq!(
        parse(r#"{"a":{"prefix":"p","body":{"x":1}}}"#).unwrap_err(),
        ParseError::InvalidBodyType
    );
}

#[test]
fn non_string_array_element_is_invalid_body_element() {
    let json = r#"{"a":{"prefix":"p","body":["fine", 3]}}"#;
    assert_eq!(parse(json).unwrap_err(), ParseError::InvalidBodyElement);
}

#[test]
fn non_string_description_defaults_to_empty() {
    let json = r#"{"a":{"prefix":"p","body":"text","description":7}}"#;
    let store = parse(json).unwrap();
    assert_eq!(store.get("p").description, "");
    assert_eq!(store.get_body("p"), "text");
}
