//! Field selections: resolving names against a record, and the field-scoped
//! copies that the comparison strategies compare.
use vstd::prelude::*;
use vstd::string::*;
use crate::description::{names_of, quoted};
use crate::record::{has_field, neutral, same_shape, unique_names, Record, RecordModel, Value, ValueModel};

verus! {

/// Why a selective assertion did not hold.
#[derive(Debug, PartialEq, Eq)]
pub enum AssertionFailure {
    /// A selected name that the record has no field for.
    UnknownField(String),
    /// The records differ under the comparison; the message says how.
    NotEqual(String),
}

/// Whether the record has a field for every selected name.
pub open spec fn all_known(r: RecordModel, names: Seq<Seq<char>>) -> bool {
    forall|k: int| 0 <= k < names.len() ==> has_field(r, #[trigger] names[k])
}

/// Whether `names[k]` is the first selected name that the record lacks.
pub open spec fn is_first_unknown(r: RecordModel, names: Seq<Seq<char>>, k: int) -> bool {
    &&& 0 <= k < names.len()
    &&& !has_field(r, names[k])
    &&& forall|j: int| 0 <= j < k ==> has_field(r, #[trigger] names[j])
}

/// Whether `a` and `b` agree on every field whose name is not selected.
pub open spec fn agree_outside(a: RecordModel, b: RecordModel, names: Seq<Seq<char>>) -> bool {
    forall|i: int| 0 <= i < a.len() && !names.contains(#[trigger] a[i].0) ==> a[i].1 == b[i].1
}

/// Whether `a` and `b` agree on the field called `name`.
pub open spec fn field_agrees(a: RecordModel, b: RecordModel, name: Seq<char>) -> bool {
    forall|i: int| 0 <= i < a.len() && #[trigger] a[i].0 == name ==> a[i].1 == b[i].1
}

/// Whether `a` and `b` agree on every selected field.
pub open spec fn agree_inside(a: RecordModel, b: RecordModel, names: Seq<Seq<char>>) -> bool {
    forall|k: int| 0 <= k < names.len() ==> field_agrees(a, b, #[trigger] names[k])
}

/// `a` with every selected field holding the value that `b` has there.
pub open spec fn overwritten(a: RecordModel, b: RecordModel, names: Seq<Seq<char>>) -> RecordModel {
    Seq::new(
        a.len(),
        |i: int|
            if names.contains(a[i].0) {
                (a[i].0, b[i].1)
            } else {
                a[i]
            },
    )
}

/// `a` with every selected field holding the neutral value of its kind.
pub open spec fn neutralized(a: RecordModel, names: Seq<Seq<char>>) -> RecordModel {
    Seq::new(
        a.len(),
        |i: int|
            if names.contains(a[i].0) {
                (a[i].0, neutral(a[i].1))
            } else {
                a[i]
            },
    )
}

/// The message of a selected field whose values differ.
pub open spec fn field_message(name: Seq<char>) -> Seq<char> {
    "Field "@ + quoted(name) + " does not match"@
}

/// Overwriting the selected fields of `a` with those of `b` gives `b` exactly
/// when the two records agree outside the selection.
pub proof fn lemma_overwritten_is_expected(a: RecordModel, b: RecordModel, names: Seq<Seq<char>>)
    requires
        same_shape(a, b),
    ensures
        (overwritten(a, b, names) == b) <==> agree_outside(a, b, names),
{
    if agree_outside(a, b, names) {
        assert(overwritten(a, b, names) =~= b);
    }
    if overwritten(a, b, names) == b {
        assert forall|i: int| 0 <= i < a.len() && !names.contains(#[trigger] a[i].0) implies a[i].1
            == b[i].1 by {
            assert(overwritten(a, b, names)[i] == b[i]);
        }
    }
}

/// Neutralizing the selected fields of both records gives equal records exactly
/// when the two agree outside the selection.
pub proof fn lemma_neutralized_equal(a: RecordModel, b: RecordModel, names: Seq<Seq<char>>)
    requires
        same_shape(a, b),
    ensures
        (neutralized(a, names) == neutralized(b, names)) <==> agree_outside(a, b, names),
{
    if agree_outside(a, b, names) {
        assert(neutralized(a, names) =~= neutralized(b, names));
    }
    if neutralized(a, names) == neutralized(b, names) {
        assert forall|i: int| 0 <= i < a.len() && !names.contains(#[trigger] a[i].0) implies a[i].1
            == b[i].1 by {
            assert(neutralized(a, names)[i] == neutralized(b, names)[i]);
        }
    }
}

proof fn lemma_take_contains(names: Seq<Seq<char>>, k: int, x: Seq<char>)
    requires
        0 <= k < names.len(),
    ensures
        names.take(k + 1).contains(x) <==> (names.take(k).contains(x) || x == names[k]),
{
    if names.take(k + 1).contains(x) {
        let j = choose|j: int| 0 <= j < k + 1 && #[trigger] names.take(k + 1)[j] == x;
        if j < k {
            assert(names.take(k)[j] == x);
        }
    }
    if names.take(k).contains(x) {
        let j = choose|j: int| 0 <= j < k && #[trigger] names.take(k)[j] == x;
        assert(names.take(k + 1)[j] == x);
    }
    if x == names[k] {
        assert(names.take(k + 1)[k] == x);
    }
}

/// The position of the first selected name that the record lacks, if any.
pub fn find_unknown(record: &Record, fields: &Vec<&str>) -> (r: Option<usize>)
    ensures
        match r {
            Some(k) => is_first_unknown(record@, names_of(fields@), k as int),
            None => all_known(record@, names_of(fields@)),
        },
{
    let ghost names = names_of(fields@);
    let mut k: usize = 0;
    while k < fields.len()
        invariant
            k <= fields.len(),
            names == names_of(fields@),
            forall|j: int| 0 <= j < k ==> has_field(record@, #[trigger] names[j]),
        decreases fields.len() - k,
    {
        match record.position(fields[k]) {
            Some(_) => {},
            None => {
                return Some(k);
            },
        }
        k += 1;
    }
    None
}

/// A copy of `actual` whose selected fields hold the values of `expected`.
pub fn overwrite_fields(actual: &Record, expected: &Record, fields: &Vec<&str>) -> (r: Record)
    requires
        actual.wf(),
        same_shape(actual@, expected@),
    ensures
        r@ == overwritten(actual@, expected@, names_of(fields@)),
{
    let ghost names = names_of(fields@);
    let ghost a = actual@;
    let ghost b = expected@;
    let mut copy = actual.duplicate();
    proof {
        assert(copy@ =~= overwritten(a, b, names.take(0)));
    }
    let mut k: usize = 0;
    while k < fields.len()
        invariant
            k <= fields.len(),
            names == names_of(fields@),
            a == actual@,
            b == expected@,
            unique_names(a),
            same_shape(a, b),
            copy@ == overwritten(a, b, names.take(k as int)),
        decreases fields.len() - k,
    {
        match actual.position(fields[k]) {
            Some(i) => {
                let v = expected.value_at(i).duplicate();
                copy.set_at(i, v);
            },
            None => {},
        }
        proof {
            assert forall|x: Seq<char>|
                names.take(k + 1).contains(x) <==> (names.take(k as int).contains(x) || x
                    == names[k as int]) by {
                lemma_take_contains(names, k as int, x);
            }
            assert(copy@ =~= overwritten(a, b, names.take(k + 1)));
        }
        k += 1;
    }
    proof {
        assert(names.take(fields.len() as int) =~= names);
    }
    copy
}

/// A copy of `record` whose selected fields hold the neutral value of their
/// kind.
pub fn reset_fields(record: &Record, fields: &Vec<&str>) -> (r: Record)
    requires
        record.wf(),
    ensures
        r@ == neutralized(record@, names_of(fields@)),
{
    let ghost names = names_of(fields@);
    let ghost a = record@;
    let mut copy = record.duplicate();
    proof {
        assert(copy@ =~= neutralized(a, names.take(0)));
    }
    let mut k: usize = 0;
    while k < fields.len()
        invariant
            k <= fields.len(),
            names == names_of(fields@),
            a == record@,
            unique_names(a),
            copy@ == neutralized(a, names.take(k as int)),
        decreases fields.len() - k,
    {
        match record.position(fields[k]) {
            Some(i) => {
                let v = record.value_at(i).neutral();
                copy.set_at(i, v);
            },
            None => {},
        }
        proof {
            assert forall|x: Seq<char>|
                names.take(k + 1).contains(x) <==> (names.take(k as int).contains(x) || x
                    == names[k as int]) by {
                lemma_take_contains(names, k as int, x);
            }
            assert(copy@ =~= neutralized(a, names.take(k + 1)));
        }
        k += 1;
    }
    proof {
        assert(names.take(fields.len() as int) =~= names);
    }
    copy
}

/// The message for a selected field whose values differ.
pub fn field_mismatch_message(name: &str) -> (r: String)
    ensures
        r@ == field_message(name@),
{
    let mut r = String::from_str("Field `");
    r.append(name);
    r.append("` does not match");
    assert(r@ =~= field_message(name@)) by {
        reveal_strlit("Field `");
        reveal_strlit("Field ");
        reveal_strlit("`");
        reveal_strlit("` does not match");
        reveal_strlit(" does not match");
    }
    r
}

} // verus!
