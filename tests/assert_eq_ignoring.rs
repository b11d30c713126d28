use selective_assertions::{assert_eq_ignoring, assert_eq_ignoring_in_case, AssertionFailure, Record, Value};

fn user(id: i64, name: &str, age: i64) -> Record {
    Record::new()
        .with("id", Value::Int(id))
        .with("name", Value::Text(name.to_string()))
        .with("age", Value::Int(age))
}

fn check(r: Result<(), AssertionFailure>) {
    if let Err(failure) = r {
        panic!("{:?}", failure);
    }
}

#[test]
fn test_assert_eq_ignoring_should_pass_when_one_different_field_is_excluded() {
    let alice_in_wonder_land = user(1, "Alice", 7);
    let alice_in_looking_glass_land = user(1, "Alice", 8);

    check(assert_eq_ignoring(&alice_in_wonder_land, &alice_in_looking_glass_land, vec!["age"]));
}

#[test]
fn test_assert_eq_ignoring_should_pass_when_multiple_different_fields_are_excluded() {
    let classmate1 = user(1, "Alice", 16);
    let classmate2 = user(2, "Bob", 16);

    check(assert_eq_ignoring(&classmate1, &classmate2, vec!["id", "name"]));
}

#[should_panic]
#[test]
fn test_assert_eq_ignoring_should_fail_when_different_fields_are_left() {
    let alice_in_wonder_land = user(1, "Alice", 7);
    let alice_in_looking_glass_land = user(1, "Alice", 8);

    check(assert_eq_ignoring(&alice_in_wonder_land, &alice_in_looking_glass_land, vec!["id", "name"]));
}

#[test]
fn ignoring_reports_description_of_ignored_fields() {
    let a = user(1, "Alice", 7);
    let b = user(1, "Alice", 8);
    assert_eq!(
        assert_eq_ignoring(&a, &b, vec!["id", "name"]),
        Err(AssertionFailure::NotEqual("(Fields `id` and `name` are updated by default)".to_string()))
    );
}

#[test]
fn ignoring_in_case_puts_label_in_front() {
    let a = user(1, "Alice", 7);
    let b = user(2, "Alice", 8);
    assert_eq!(
        assert_eq_ignoring_in_case(&a, &b, vec!["id"], Some("case A")),
        Err(AssertionFailure::NotEqual("case A (Fields `id` is updated by default)".to_string()))
    );
    assert_eq!(assert_eq_ignoring_in_case(&a, &b, vec!["id", "age"], Some("case A")), Ok(()));
    assert_eq!(assert_eq_ignoring_in_case(&a, &b, vec!["id", "age"], None), Ok(()));
}

#[test]
fn ignoring_disregards_values_that_are_both_non_default_and_different() {
    let a = Record::new().with("flag", Value::Bool(true)).with("note", Value::Text("x".to_string()));
    let b = Record::new().with("flag", Value::Bool(false)).with("note", Value::Text("y".to_string()));
    assert_eq!(assert_eq_ignoring(&a, &b, vec!["note"]), Err(AssertionFailure::NotEqual(
        "(Fields `note` is updated by default)".to_string()
    )));
    assert_eq!(assert_eq_ignoring(&a, &b, vec!["note", "flag"]), Ok(()));
}

#[test]
fn ignoring_reports_unknown_field_before_comparing() {
    let a = user(1, "Alice", 7);
    let b = user(2, "Bob", 8);
    assert_eq!(
        assert_eq_ignoring(&a, &b, vec!["age", "height", "weight"]),
        Err(AssertionFailure::UnknownField("height".to_string()))
    );
}

#[test]
fn ignoring_with_repeated_name_has_same_outcome() {
    let a = user(1, "Alice", 7);
    let b = user(1, "Alice", 8);
    assert_eq!(assert_eq_ignoring(&a, &b, vec!["age", "age"]), Ok(()));
    assert!(assert_eq_ignoring(&a, &b, vec!["id", "id"]).is_err());
}
