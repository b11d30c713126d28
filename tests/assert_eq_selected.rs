use selective_assertions::{assert_eq_only, assert_eq_selected, AssertionFailure, Record, Value};

fn user(id: i64, name: &str, age: i64) -> Record {
    Record::new()
        .with("id", Value::Int(id))
        .with("name", Value::Text(name.to_string()))
        .with("age", Value::Int(age))
}

fn check_selected(r: Result<(), AssertionFailure>) {
    if let Err(failure) = r {
        panic!("{:?}", failure);
    }
}

#[test]
fn test_assert_eq_selected_should_pass_when_selects_same_one_field() {
    let alice_in_wonder_land = user(1, "Alice", 7);
    let alice_in_looking_glass_land = user(1, "Alice", 8);

    check_selected(assert_eq_selected(&alice_in_wonder_land, &alice_in_looking_glass_land, vec!["id"]));
}

#[test]
fn test_assert_eq_selected_should_pass_when_selects_same_some_fields() {
    let alice_in_wonder_land = user(1, "Alice", 7);
    let alice_in_looking_glass_land = user(1, "Alice", 8);

    check_selected(assert_eq_selected(
        &alice_in_wonder_land,
        &alice_in_looking_glass_land,
        vec!["id", "name"],
    ));
}

#[should_panic]
#[test]
fn test_assert_eq_selected_should_fail_when_selects_fields_has_with_some_different_values() {
    let alice_in_wonder_land = user(1, "Alice", 7);
    let alice_in_looking_glass_land = user(1, "Alice", 8);

    check_selected(assert_eq_selected(
        &alice_in_wonder_land,
        &alice_in_looking_glass_land,
        vec!["id", "name", "age"],
    ));
}

#[test]
fn selected_names_first_differing_field_in_selection_order() {
    let a = user(1, "Alice", 7);
    let b = user(2, "Alice", 8);
    assert_eq!(
        assert_eq_selected(&a, &b, vec!["name", "age", "id"]),
        Err(AssertionFailure::NotEqual("Field `age` does not match".to_string()))
    );
    assert_eq!(
        assert_eq_selected(&a, &b, vec!["id", "age"]),
        Err(AssertionFailure::NotEqual("Field `id` does not match".to_string()))
    );
}

#[test]
fn selected_reports_unknown_field() {
    let a = user(1, "Alice", 7);
    let b = user(1, "Alice", 7);
    assert_eq!(
        assert_eq_selected(&a, &b, vec!["id", "email"]),
        Err(AssertionFailure::UnknownField("email".to_string()))
    );
}

#[test]
fn only_matches_selected() {
    let a = user(1, "Alice", 7);
    let b = user(1, "Alice", 8);
    assert_eq!(assert_eq_only(&a, &b, vec!["id", "name"]), Ok(()));
    assert_eq!(
        assert_eq_only(&a, &b, vec!["id", "name", "age"]),
        Err(AssertionFailure::NotEqual("Field `age` does not match".to_string()))
    );
    assert_eq!(assert_eq_only(&a, &b, vec!["name", "name"]), Ok(()));
}
