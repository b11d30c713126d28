//! Equality on the selected fields alone, field by field.
use vstd::prelude::*;
use crate::description::names_of;
use crate::record::{has_field, same_shape, Record, RecordModel};
use crate::selection::{
    agree_inside, all_known, field_agrees, field_message, field_mismatch_message, find_unknown,
    is_first_unknown, AssertionFailure,
};

verus! {

/// Whether the comparison of the fields `names` holds: every name is a field
/// of `a`, and `a` and `b` agree on each of them.
pub open spec fn selected_passes(a: RecordModel, b: RecordModel, names: Seq<Seq<char>>) -> bool {
    all_known(a, names) && agree_inside(a, b, names)
}

/// Whether `names[k]` is the first selected field on which `a` and `b` differ.
pub open spec fn is_first_mismatch(a: RecordModel, b: RecordModel, names: Seq<Seq<char>>, k: int) -> bool {
    &&& 0 <= k < names.len()
    &&& !field_agrees(a, b, names[k])
    &&& forall|j: int| 0 <= j < k ==> field_agrees(a, b, #[trigger] names[j])
}

/// Compares `actual` with `expected` on `fields` only, in the order given, and
/// stops at the first field whose values differ; its message names that field.
/// Other fields are never read.
///
/// A name that the record lacks is reported before anything is compared.
pub fn assert_eq_selected(actual: &Record, expected: &Record, fields: Vec<&str>) -> (r: Result<
    (),
    AssertionFailure,
>)
    requires
        actual.wf(),
        same_shape(actual@, expected@),
        fields.len() > 0,
    ensures
        r is Ok <==> selected_passes(actual@, expected@, names_of(fields@)),
        !all_known(actual@, names_of(fields@)) <==> r matches Err(AssertionFailure::UnknownField(_)),
        r matches Err(AssertionFailure::UnknownField(n)) ==> exists|k: int|
            is_first_unknown(actual@, names_of(fields@), k) && n@ == names_of(fields@)[k],
        r matches Err(AssertionFailure::NotEqual(m)) ==> exists|k: int|
            is_first_mismatch(actual@, expected@, names_of(fields@), k) && m@ == field_message(
                names_of(fields@)[k],
            ),
{
    let ghost names = names_of(fields@);
    if let Some(k) = find_unknown(actual, &fields) {
        return Err(AssertionFailure::UnknownField(String::from_str(fields[k])));
    }
    let mut k: usize = 0;
    while k < fields.len()
        invariant
            k <= fields.len(),
            names == names_of(fields@),
            actual.wf(),
            same_shape(actual@, expected@),
            all_known(actual@, names),
            forall|j: int| 0 <= j < k ==> field_agrees(actual@, expected@, #[trigger] names[j]),
        decreases fields.len() - k,
    {
        match actual.position(fields[k]) {
            Some(i) => {
                if !actual.value_at(i).equals(expected.value_at(i)) {
                    let message = field_mismatch_message(fields[k]);
                    assert(is_first_mismatch(actual@, expected@, names, k as int));
                    return Err(AssertionFailure::NotEqual(message));
                }
                assert(field_agrees(actual@, expected@, names[k as int])) by {
                    assert forall|j: int|
                        0 <= j < actual@.len() && #[trigger] actual@[j].0 == names[k as int] implies actual@[j].1
                            == expected@[j].1 by {
                        if j != i {
                            assert(actual@[j].0 != actual@[i as int].0);
                        }
                    }
                }
            },
            None => {
                assert(has_field(actual@, names[k as int]));
            },
        }
        k += 1;
    }
    Ok(())
}

} // verus!
