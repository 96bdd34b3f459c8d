use tusk::ora::{describe_spec, spec_line, Context, Pin};

#[test]
fn context_starts_empty() {
    let context = Context::new();
    assert_eq!(format!("{:?}", context), "Context { lines: [], controls: [] }");
}

#[test]
fn every_pin_is_known_under_index_zero() {
    assert_eq!(Context::add_line(Pin { name: "brake".to_string(), pin: 4 }), 0);
    assert_eq!(Context::add_line(Pin { name: "horn".to_string(), pin: 5 }), 0);
    assert_eq!(Context::add_control(Pin { name: "led_bar".to_string(), pin: 9 }), 0);
}

#[test]
fn line_of_a_rendered_description() {
    assert_eq!(spec_line("Null"), "Spec: Null");
    assert_eq!(spec_line(""), "Spec: ");
}

#[test]
fn describe_scalars() {
    assert_eq!(describe_spec("null"), Some("Spec: Null".to_string()));
    assert_eq!(describe_spec(" true "), Some("Spec: Bool(true)".to_string()));
    assert_eq!(describe_spec("12"), Some("Spec: Number(12)".to_string()));
    assert_eq!(describe_spec("\"can\""), Some("Spec: String(\"can\")".to_string()));
}

#[test]
fn describe_object() {
    let text = "{\"name\": \"back\", \"can_id\": 3, \"lines\": [\"a\", \"b\"]}";
    let expected = "Spec: Object {\n    \"can_id\": Number(3),\n    \"lines\": Array [\n        String(\"a\"),\n        String(\"b\"),\n    ],\n    \"name\": String(\"back\"),\n}";
    assert_eq!(describe_spec(text), Some(expected.to_string()));
}

#[test]
fn describe_what_is_no_json() {
    assert_eq!(describe_spec(""), None);
    assert_eq!(describe_spec("{"), None);
    assert_eq!(describe_spec("{\"a\": }"), None);
    assert_eq!(describe_spec("[1, 2,]"), None);
    assert_eq!(describe_spec("null null"), None);
    assert_eq!(describe_spec("spec"), None);
}
