use agw::error::ErrorKind;
use agw::json::Member;
use agw::template::{expand, placeholder_names, resolve, substitute_variables};

fn json(text: &str) -> serde_json::Value {
    serde_json::from_str(text).unwrap()
}

#[test]
fn test_substitute_variables_single_field() {
    let input = json(r#"{"path": "/tmp/test.txt"}"#);
    let result = substitute_variables("cat {{input.path}}", &input).unwrap();
    assert_eq!(result, "cat /tmp/test.txt");
}

#[test]
fn test_substitute_variables_multiple_fields() {
    let input = json(r#"{"src": "/tmp/source", "dest": "/tmp/dest"}"#);
    let result = substitute_variables("cp {{input.src}} {{input.dest}}", &input).unwrap();
    assert_eq!(result, "cp /tmp/source /tmp/dest");
}

#[test]
fn test_substitute_variables_same_field_multiple_times() {
    let input = json(r#"{"file": "test.txt"}"#);
    let result =
        substitute_variables("echo {{input.file}} && cat {{input.file}}", &input).unwrap();
    assert_eq!(result, "echo test.txt && cat test.txt");
}

#[test]
fn test_substitute_variables_number_value() {
    let input = json(r#"{"count": 42}"#);
    let result = substitute_variables("head -n {{input.count}}", &input).unwrap();
    assert_eq!(result, "head -n 42");
}

#[test]
fn test_substitute_variables_boolean_value() {
    let input = json(r#"{"verbose": true}"#);
    let result = substitute_variables("flag={{input.verbose}}", &input).unwrap();
    assert_eq!(result, "flag=true");
}

#[test]
fn test_substitute_variables_null_value() {
    let input = json(r#"{"optional": null}"#);
    let result = substitute_variables("value={{input.optional}}", &input).unwrap();
    assert_eq!(result, "value=");
}

#[test]
fn test_substitute_variables_missing_field() {
    let input = json(r#"{"path": "/tmp/test"}"#);
    let result = substitute_variables("cat {{input.missing_field}}", &input);
    assert!(result.is_err());
    assert!(result.unwrap_err().to_string().contains("missing_field"));
}

#[test]
fn test_substitute_variables_multiple_missing_fields() {
    let input = json(r#"{"path": "/tmp/test"}"#);
    let result = substitute_variables("cmd {{input.field1}} {{input.field2}}", &input);
    assert!(result.is_err());
    let err_msg = result.unwrap_err().to_string();
    assert!(err_msg.contains("field1"));
    assert!(err_msg.contains("field2"));
}

#[test]
fn test_substitute_variables_unsupported_type_array() {
    let input = json(r#"{"items": [1, 2, 3]}"#);
    let result = substitute_variables("process {{input.items}}", &input);
    assert!(result.is_err());
    assert!(result.unwrap_err().to_string().contains("unsupported type"));
}

#[test]
fn test_substitute_variables_unsupported_type_object() {
    let input = json(r#"{"config": {"key": "value"}}"#);
    let result = substitute_variables("load {{input.config}}", &input);
    assert!(result.is_err());
    assert!(result.unwrap_err().to_string().contains("unsupported type"));
}

#[test]
fn test_substitute_variables_no_substitutions() {
    let input = json(r#"{"path": "/tmp/test"}"#);
    let result = substitute_variables("echo hello world", &input).unwrap();
    assert_eq!(result, "echo hello world");
}

#[test]
fn test_substitute_variables_empty_string() {
    let input = json(r#"{"path": "/tmp/test"}"#);
    let result = substitute_variables("", &input).unwrap();
    assert_eq!(result, "");
}

#[test]
fn test_substitute_variables_field_name_with_numbers() {
    let input = json(r#"{"file123": "test.txt"}"#);
    let result = substitute_variables("cat {{input.file123}}", &input).unwrap();
    assert_eq!(result, "cat test.txt");
}

#[test]
fn test_substitute_variables_field_name_with_underscores() {
    let input = json(r#"{"source_file": "input.txt"}"#);
    let result = substitute_variables("cat {{input.source_file}}", &input).unwrap();
    assert_eq!(result, "cat input.txt");
}

#[test]
fn substitute_variables_reports_exact_messages() {
    let input = json(r#"{"path": "/tmp/test", "items": [1], "config": {}}"#);
    let e = substitute_variables("cmd {{input.field1}} {{input.path}} {{input.field2}}", &input)
        .unwrap_err();
    assert_eq!(e.kind(), ErrorKind::Worker);
    assert_eq!(e.message(), "Missing required input fields: field1, field2");
    assert_eq!(
        e.to_string(),
        "Worker error: Missing required input fields: field1, field2"
    );

    let e = substitute_variables("{{input.gone}} {{input.config}} {{input.items}}", &input)
        .unwrap_err();
    assert_eq!(
        e.message(),
        "Input field 'config' has unsupported type (must be string, number, or boolean)"
    );

    let e = substitute_variables("{{input.gone}} {{input.gone}}", &input).unwrap_err();
    assert_eq!(e.message(), "Missing required input fields: gone, gone");
}

#[test]
fn substitute_variables_writes_each_kind_of_value() {
    let input = json(
        r#"{"s": "text", "i": -7, "u": 18446744073709551615, "f": 1.5, "t": true, "n": false, "z": null}"#,
    );
    assert_eq!(
        substitute_variables(
            "{{input.s}}|{{input.i}}|{{input.u}}|{{input.f}}|{{input.t}}|{{input.n}}|{{input.z}}|",
            &input
        )
        .unwrap(),
        "text|-7|18446744073709551615|1.5|true|false||"
    );
}

#[test]
fn substitute_variables_needs_an_object() {
    for input in ["[1, 2]", "\"path\"", "7", "null", "true"] {
        let e = substitute_variables("cat {{input.path}}", &json(input)).unwrap_err();
        assert_eq!(e.message(), "Missing required input fields: path");
        assert_eq!(
            substitute_variables("no placeholder", &json(input)).unwrap(),
            "no placeholder"
        );
    }
}

#[test]
fn substitute_variables_does_not_look_at_what_it_wrote() {
    let input = json(r#"{"a": "{{input.b}}", "b": "x"}"#);
    assert_eq!(
        substitute_variables("{{input.a}} {{input.b}}", &input).unwrap(),
        "{{input.b}} x"
    );
}

#[test]
fn placeholders_follow_the_grammar() {
    let names = |text: &str| placeholder_names(text);
    assert_eq!(names("{{input.path}}"), vec!["path".to_string()]);
    assert_eq!(
        names("a{{input.A_1}}b{{input.z9}}{{input._}}"),
        vec!["A_1".to_string(), "z9".to_string(), "_".to_string()]
    );
    assert!(names("").is_empty());
    assert!(names("{{input.}}").is_empty());
    assert!(names("{{input.a-b}}").is_empty());
    assert!(names("{{input.a b}}").is_empty());
    assert!(names("{{input.a}").is_empty());
    assert!(names("{input.a}}").is_empty());
    assert!(names("{{ input.a }}").is_empty());
    assert!(names("{{Input.a}}").is_empty());
    assert!(names("{{output.a}}").is_empty());
    assert!(names("{{input.a").is_empty());
    assert!(names("{{input.caf\u{00e9}}}").is_empty());
    assert_eq!(names("{{{input.a}}}"), vec!["a".to_string()]);
    assert_eq!(names("{{input.{{input.a}}}}"), vec!["a".to_string()]);
    assert_eq!(names("\u{00e9}{{input.a}}\u{65e5}"), vec!["a".to_string()]);
}

#[test]
fn expand_replaces_placeholders_in_order() {
    let members = vec![
        Member::Text("one".to_string()),
        Member::Number("2".to_string()),
        Member::Bool(false),
        Member::Null,
    ];
    assert_eq!(
        expand(
            "<{{input.a}}> <{{input.b}}> <{{input.c}}> <{{input.d}}>",
            &members
        )
        .unwrap(),
        "<one> <2> <false> <>"
    );
    assert_eq!(expand("{{{input.a}}}", &members).unwrap(), "{one}");
    assert_eq!(
        expand("\u{00e9}{{input.a}}\u{65e5}", &members).unwrap(),
        "\u{00e9}one\u{65e5}"
    );
    assert_eq!(expand("plain", &vec![]).unwrap(), "plain");
    assert_eq!(expand("{{input.}}", &vec![]).unwrap(), "{{input.}}");
}

#[test]
fn expand_reports_what_it_lacks() {
    let e = expand("{{input.a}} {{input.b}}", &vec![Member::Text("x".to_string())]).unwrap_err();
    assert_eq!(e.message(), "Missing required input fields: b");
    let e = expand(
        "{{input.a}} {{input.b}} {{input.c}}",
        &vec![Member::Missing, Member::Null, Member::Missing],
    )
    .unwrap_err();
    assert_eq!(e.message(), "Missing required input fields: a, c");
    let e = expand(
        "{{input.a}} {{input.b}}",
        &vec![Member::Missing, Member::Unsupported],
    )
    .unwrap_err();
    assert_eq!(
        e.message(),
        "Input field 'b' has unsupported type (must be string, number, or boolean)"
    );
}

#[test]
fn resolve_looks_up_each_name() {
    let input = json(r#"{"s": "text", "n": 42, "b": true, "z": null, "a": [], "o": {}}"#);
    let names: Vec<String> = ["s", "n", "b", "z", "a", "o", "gone", "s"]
        .iter()
        .map(|n| n.to_string())
        .collect();
    assert_eq!(
        resolve(&names, &input),
        vec![
            Member::Text("text".to_string()),
            Member::Number("42".to_string()),
            Member::Bool(true),
            Member::Null,
            Member::Unsupported,
            Member::Unsupported,
            Member::Missing,
            Member::Text("text".to_string()),
        ]
    );
    assert_eq!(
        resolve(&names[..1].to_vec(), &json("[true]")),
        vec![Member::Missing]
    );
}
