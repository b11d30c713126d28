//! Equality that leaves out the selected fields by resetting them to neutral
//! values on both sides.
use vstd::prelude::*;
use crate::description::{description, label_of, names_of, spec_description};
use crate::record::{same_shape, Record, RecordModel};
use crate::selection::{
    agree_outside, all_known, find_unknown, is_first_unknown, lemma_neutralized_equal,
    reset_fields, AssertionFailure,
};

verus! {

/// Whether the comparison that ignores `names` holds: every name is a field of
/// `a`, and `a` and `b` agree on every other field.
pub open spec fn ignoring_passes(a: RecordModel, b: RecordModel, names: Seq<Seq<char>>) -> bool {
    all_known(a, names) && agree_outside(a, b, names)
}

/// Compares `actual` with `expected`, ignoring `fields`: copies of both records
/// have those fields reset to the neutral value of their kind, and must then be
/// equal as a whole. On a difference the message names the case, if one is
/// given, and the ignored fields.
///
/// A name that the record lacks is reported before anything is compared.
pub fn assert_eq_ignoring_in_case(
    actual: &Record,
    expected: &Record,
    fields: Vec<&str>,
    case_name: Option<&str>,
) -> (r: Result<(), AssertionFailure>)
    requires
        actual.wf(),
        same_shape(actual@, expected@),
        fields.len() > 0,
    ensures
        r is Ok <==> ignoring_passes(actual@, expected@, names_of(fields@)),
        !all_known(actual@, names_of(fields@)) <==> r matches Err(AssertionFailure::UnknownField(_)),
        r matches Err(AssertionFailure::UnknownField(n)) ==> exists|k: int|
            is_first_unknown(actual@, names_of(fields@), k) && n@ == names_of(fields@)[k],
        all_known(actual@, names_of(fields@)) && !agree_outside(
            actual@,
            expected@,
            names_of(fields@),
        ) ==> (r matches Err(AssertionFailure::NotEqual(m)) && m@ == spec_description(
            label_of(case_name),
            names_of(fields@),
        )),
{
    let ghost names = names_of(fields@);
    if let Some(k) = find_unknown(actual, &fields) {
        return Err(AssertionFailure::UnknownField(String::from_str(fields[k])));
    }
    proof {
        assert forall|i: int, j: int|
            0 <= i < j < expected@.len() implies expected@[i].0 != expected@[j].0 by {
            assert(actual@[i].0 != actual@[j].0);
        }
    }
    let actual_copy = reset_fields(actual, &fields);
    let expected_copy = reset_fields(expected, &fields);
    proof {
        lemma_neutralized_equal(actual@, expected@, names);
    }
    if actual_copy.equals(&expected_copy) {
        Ok(())
    } else {
        let message = description(case_name, fields);
        Err(AssertionFailure::NotEqual(message))
    }
}

/// [`assert_eq_ignoring_in_case`] without a case label.
pub fn assert_eq_ignoring(actual: &Record, expected: &Record, fields: Vec<&str>) -> (r: Result<
    (),
    AssertionFailure,
>)
    requires
        actual.wf(),
        same_shape(actual@, expected@),
        fields.len() > 0,
    ensures
        r is Ok <==> ignoring_passes(actual@, expected@, names_of(fields@)),
        !all_known(actual@, names_of(fields@)) <==> r matches Err(AssertionFailure::UnknownField(_)),
        r matches Err(AssertionFailure::UnknownField(n)) ==> exists|k: int|
            is_first_unknown(actual@, names_of(fields@), k) && n@ == names_of(fields@)[k],
        all_known(actual@, names_of(fields@)) && !agree_outside(
            actual@,
            expected@,
            names_of(fields@),
        ) ==> (r matches Err(AssertionFailure::NotEqual(m)) && m@ == spec_description(
            None,
            names_of(fields@),
        )),
{
    assert_eq_ignoring_in_case(actual, expected, fields, None)
}

} // verus!
