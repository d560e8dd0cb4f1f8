use std::collections::HashMap;

use snippets::Snippet;
use snippets::parse;

#[test]
fn should_add_a_function() {
    let snippet: Snippet = Snippet {
        name: "function".to_string(),
        prefix: "fn".to_string(),
        description: "creates a function".to_string(),
        body: "fn name() {\n\t\n}".to_string(),
    };
    let mut snippets: HashMap<String, Snippet> = HashMap::new();

    snippets.insert(snippet.prefix.to_string(), snippet);
    println!("{}", snippets.get("fn").unwrap().body);
    assert_eq!(snippets.get("fn").unwrap().body, "fn name() {\n\t\n}");
}

#[test]
fn should_convert_snippet_from_json() {
    let json = r#"{
        "function": {
          "prefix": "fn",
          "body": "fn some() {}",
          "description": "creates a function"
        },
        "test": {
          "prefix": "test",
          "body": "\\#[test]\nfn should_do_something() {}"
        }
        }"#;

    let result = parse(&json).unwrap();
    assert_eq!(result.get_body("fn"), "fn some() {}".to_string());
}

#[test]
fn should_parse_body_when_is_an_array() {
    let json = r#"{
        "function": {
          "prefix": "fn",
          "body": ["fn some() {}"],
          "description": "creates a function"
        },
        "test": {
          "prefix": "test",
          "body": "\\#[test]\nfn should_do_something() {}"
        }
        }"#;

    let result = parse(&json).unwrap();
    assert_eq!(result.get_body("fn"), "fn some() {}".to_string());
}

#[test]
fn should_print_all_body_containing_more_than_one_string() {
    let json = r#"{
        "function": {
          "prefix": "fn",
          "body": ["fn", "some()", "{ }"],
          "description": "creates a function"
        },
        "test": {
          "prefix": "test",
          "body": "\\#[test]\nfn should_do_something() {}"
        }
        }"#;

    let result = parse(&json).unwrap();
    assert_eq!(result.get_body("fn"), "fn some() { }".to_string());
}

#[test]
fn should_return_empty_string_when_cant_find_the_prefix() {
    let json = r#"{
        "function": {
          "prefix": "fn",
          "body": ["fn", "some()", "{ }"],
          "description": "creates a function"
        },
        "test": {
          "prefix": "test",
          "body": "\\#[test]\nfn should_do_something() {}"
        }
        }"#;

    let result = parse(&json).unwrap();
    assert_eq!(result.get_body("not_found"), "".to_string());
}
