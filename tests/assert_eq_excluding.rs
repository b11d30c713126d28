use selective_assertions::impls::assert_eq_excluding::description as excluding_description;
use selective_assertions::{assert_eq_excluding, AssertionFailure, Record, Value};

fn user(id: i64, name: &str, age: i64) -> Record {
    Record::new()
        .with("id", Value::Int(id))
        .with("name", Value::Text(name.to_string()))
        .with("age", Value::Int(age))
}

#[test]
fn excluding_passes_when_only_excluded_field_differs() {
    let a = user(1, "Alice", 7);
    let b = user(1, "Alice", 8);
    assert_eq!(assert_eq_excluding(&a, &b, vec!["age"]), Ok(()));
}

#[test]
fn excluding_fails_when_different_field_is_left() {
    let a = user(1, "Alice", 7);
    let b = user(1, "Bob", 8);
    assert_eq!(
        assert_eq_excluding(&a, &b, vec!["age"]),
        Err(AssertionFailure::NotEqual("(Fields `age` is updated by default)".to_string()))
    );
    assert_eq!(assert_eq_excluding(&a, &b, vec!["name", "age"]), Ok(()));
}

#[test]
fn excluding_reports_unknown_field() {
    let a = user(1, "Alice", 7);
    let b = user(1, "Alice", 8);
    assert_eq!(
        assert_eq_excluding(&a, &b, vec!["nickname", "age"]),
        Err(AssertionFailure::UnknownField("nickname".to_string()))
    );
}

#[test]
fn excluding_with_repeated_name_has_same_outcome() {
    let a = user(1, "Alice", 7);
    let b = user(1, "Alice", 8);
    assert_eq!(assert_eq_excluding(&a, &b, vec!["age", "age"]), Ok(()));
    assert!(assert_eq_excluding(&a, &b, vec!["name", "name"]).is_err());
}

#[test]
fn excluding_description_matches_formatter() {
    assert_eq!(
        excluding_description(None, vec!["id", "name"]),
        "(Fields `id` and `name` are updated by default)"
    );
}
