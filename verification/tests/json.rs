use acolors::json::{add_tab, check_is_default_and_delete, clone_json, is_default, to_string_ignore_default, JsonNumber, JsonValue};

fn s(t: &str) -> JsonValue {
    JsonValue::String(t.to_string())
}

fn john() -> JsonValue {
    JsonValue::Object(vec![
        ("age".to_string(), JsonValue::Number(JsonNumber::PosInt(43))),
        ("name".to_string(), s("John Doe")),
        ("phones".to_string(), JsonValue::Array(vec![s("+44 1234567"), s("+44 2345678")])),
        ("testnull".to_string(), JsonValue::Null),
        ("testnullarray".to_string(), JsonValue::Array(vec![])),
    ])
}

#[test]
fn ignore_default_rendering() {
    assert_eq!(
        to_string_ignore_default(&john()),
        "{\n \"age\": 43,\n \"name\": \"John Doe\",\n \"phones\": [\n  \"+44 1234567\",\n  \"+44 2345678\"\n ]\n}"
    );
    assert_eq!(to_string_ignore_default(&JsonValue::Object(vec![])), "{\n}");
    assert_eq!(to_string_ignore_default(&JsonValue::Bool(false)), "false");
}

#[test]
fn add_tab_indents_each_line() {
    assert_eq!(add_tab("a\nb".to_string()), " a\n b\n");
    assert_eq!(add_tab(String::new()), "");
}

#[test]
fn defaults() {
    assert!(is_default(&JsonValue::Null));
    assert!(is_default(&JsonValue::Number(JsonNumber::Float("0.0".to_string()))));
    assert!(!is_default(&JsonValue::Number(JsonNumber::NegInt(-1))));
    assert!(is_default(&JsonValue::Object(vec![("a".to_string(), s(""))])));
    assert!(!is_default(&john()));
}

#[test]
fn delete_defaults_twice_is_once() {
    let mut v = JsonValue::Object(vec![
        ("keep".to_string(), JsonValue::Object(vec![("x".to_string(), JsonValue::Bool(true)), ("y".to_string(), s(""))])),
        ("drop".to_string(), JsonValue::Object(vec![("z".to_string(), JsonValue::Null)])),
    ]);
    check_is_default_and_delete(&mut v);
    let once = clone_json(&v);
    check_is_default_and_delete(&mut v);
    assert_eq!(v, once);
    assert_eq!(
        v,
        JsonValue::Object(vec![(
            "keep".to_string(),
            JsonValue::Object(vec![("x".to_string(), JsonValue::Bool(true))])
        )])
    );
}

#[test]
fn rendering_ignores_what_deletion_removes() {
    let v = john();
    let mut stripped = clone_json(&v);
    check_is_default_and_delete(&mut stripped);
    assert_eq!(to_string_ignore_default(&v), to_string_ignore_default(&stripped));
    assert!(!is_default(&stripped));
}
