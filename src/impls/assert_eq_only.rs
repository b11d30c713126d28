//! Equality on the selected fields alone, under its second name.
use vstd::prelude::*;
use crate::description::names_of;
use crate::impls::assert_eq_selected::{assert_eq_selected, is_first_mismatch, selected_passes};
use crate::record::{same_shape, Record};
use crate::selection::{all_known, field_message, is_first_unknown, AssertionFailure};

verus! {

/// The same comparison as [`assert_eq_selected`]: `fields` only, in order,
/// stopping at the first field whose values differ.
pub fn assert_eq_only(actual: &Record, expected: &Record, fields: Vec<&str>) -> (r: Result<
    (),
    AssertionFailure,
>)
    requires
        actual.wf(),
        same_shape(actual@, expected@),
        fields.len() > 0,
    ensures
        r is Ok <==> selected_passes(actual@, expected@, names_of(fields@)),
        !all_known(actual@, names_of(fields@)) <==> r matches Err(AssertionFailure::UnknownField(_)),
        r matches Err(AssertionFailure::UnknownField(n)) ==> exists|k: int|
            is_first_unknown(actual@, names_of(fields@), k) && n@ == names_of(fields@)[k],
        r matches Err(AssertionFailure::NotEqual(m)) ==> exists|k: int|
            is_first_mismatch(actual@, expected@, names_of(fields@), k) && m@ == field_message(
                names_of(fields@)[k],
            ),
{
    assert_eq_selected(actual, expected, fields)
}

} // verus!
