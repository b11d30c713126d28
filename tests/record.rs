use selective_assertions::{Record, Value};

#[test]
fn record_refuses_duplicate_name() {
    let mut r = Record::new();
    assert!(r.push_field("id", Value::Int(1)));
    assert!(!r.push_field("id", Value::Int(2)));
    assert_eq!(r.len(), 1);
    assert_eq!(r.get("id"), Some(&Value::Int(1)));
}

#[test]
fn record_set_and_get() {
    let mut r = Record::new().with("id", Value::Int(1)).with("ok", Value::Bool(true));
    assert!(r.set("ok", Value::Bool(false)));
    assert!(!r.set("missing", Value::Int(0)));
    assert_eq!(r.get("ok"), Some(&Value::Bool(false)));
    assert_eq!(r.get("missing"), None);
    assert_eq!(r.position("ok"), Some(1));
    assert_eq!(r.name_at(0), "id");
}

#[test]
fn value_neutral_and_equality() {
    assert_eq!(Value::Text("x".to_string()).neutral(), Value::Text(String::new()));
    assert_eq!(Value::Int(5).neutral(), Value::Int(0));
    assert!(!Value::Int(0).equals(&Value::Bool(false)));
    let r = Record::new().with("n", Value::Text("x".to_string()));
    assert!(r.duplicate().equals(&r));
}
