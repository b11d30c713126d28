//! Equality that leaves out the selected fields by copying them from the
//! expected record.
use vstd::prelude::*;
use crate::description::{label_of, names_of, spec_description};
use crate::record::{same_shape, Record, RecordModel};
use crate::selection::{
    agree_outside, all_known, find_unknown, is_first_unknown, lemma_overwritten_is_expected,
    overwrite_fields, AssertionFailure,
};

verus! {

/// Whether the comparison that leaves out `names` holds: every name is a
/// field of `a`, and `a` and `b` agree on every other field.
pub open spec fn excluding_passes(a: RecordModel, b: RecordModel, names: Seq<Seq<char>>) -> bool {
    all_known(a, names) && agree_outside(a, b, names)
}

/// Compares `actual` with `expected`, leaving out `fields`: a copy of `actual`
/// takes the values of `expected` in those fields, and must then equal
/// `expected` as a whole.
///
/// A name that the record lacks is reported before anything is compared.
pub fn assert_eq_excluding(actual: &Record, expected: &Record, fields: Vec<&str>) -> (r: Result<
    (),
    AssertionFailure,
>)
    requires
        actual.wf(),
        same_shape(actual@, expected@),
        fields.len() > 0,
    ensures
        r is Ok <==> excluding_passes(actual@, expected@, names_of(fields@)),
        !all_known(actual@, names_of(fields@)) <==> r matches Err(AssertionFailure::UnknownField(_)),
        r matches Err(AssertionFailure::UnknownField(n)) ==> exists|k: int|
            is_first_unknown(actual@, names_of(fields@), k) && n@ == names_of(fields@)[k],
        all_known(actual@, names_of(fields@)) && !agree_outside(
            actual@,
            expected@,
            names_of(fields@),
        ) ==> (r matches Err(AssertionFailure::NotEqual(m)) && m@ == spec_description(
            None,
            names_of(fields@),
        )),
{
    let ghost names = names_of(fields@);
    if let Some(k) = find_unknown(actual, &fields) {
        return Err(AssertionFailure::UnknownField(String::from_str(fields[k])));
    }
    let copy = overwrite_fields(actual, expected, &fields);
    proof {
        lemma_overwritten_is_expected(actual@, expected@, names);
    }
    if copy.equals(expected) {
        Ok(())
    } else {
        let message = description(None, fields);
        Err(AssertionFailure::NotEqual(message))
    }
}

/// Renders the message for a comparison that left out `fields`.
pub fn description(case_name: Option<&str>, fields: Vec<&str>) -> (r: String)
    ensures
        r@ == spec_description(label_of(case_name), names_of(fields@)),
{
    crate::description::description(case_name, fields)
}

} // verus!
