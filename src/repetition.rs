//! Naming a field more than once in a selection changes no outcome.
use vstd::prelude::*;
use crate::impls::assert_eq_excluding::excluding_passes;
use crate::impls::assert_eq_ignoring::ignoring_passes;
use crate::impls::assert_eq_selected::selected_passes;
use crate::record::{has_field, RecordModel};
use crate::selection::{agree_inside, agree_outside, all_known, field_agrees};

verus! {

/// A selection with its `k`-th name given a second time, right beside the first.
pub open spec fn repeat_name(names: Seq<Seq<char>>, k: int) -> Seq<Seq<char>> {
    names.insert(k, names[k])
}

proof fn lemma_repeat_same_names(names: Seq<Seq<char>>, k: int)
    requires
        0 <= k < names.len(),
    ensures
        forall|x: Seq<char>| #[trigger] repeat_name(names, k).contains(x) <==> names.contains(x),
        forall|j: int|
            0 <= j < repeat_name(names, k).len() ==> names.contains(
                #[trigger] repeat_name(names, k)[j],
            ),
        forall|j: int|
            0 <= j < names.len() ==> repeat_name(names, k).contains(#[trigger] names[j]),
{
    let g = repeat_name(names, k);
    assert forall|j: int| 0 <= j < g.len() implies names.contains(#[trigger] g[j]) by {
        if j <= k {
            assert(g[j] == names[j]);
        } else {
            assert(g[j] == names[j - 1]);
        }
    }
    assert forall|j: int| 0 <= j < names.len() implies g.contains(#[trigger] names[j]) by {
        if j < k {
            assert(g[j] == names[j]);
        } else {
            assert(g[j + 1] == names[j]);
        }
    }
    assert forall|x: Seq<char>| #[trigger] g.contains(x) <==> names.contains(x) by {
        if g.contains(x) {
            let j = choose|j: int| 0 <= j < g.len() && #[trigger] g[j] == x;
            assert(names.contains(g[j]));
        }
        if names.contains(x) {
            let j = choose|j: int| 0 <= j < names.len() && #[trigger] names[j] == x;
            assert(g.contains(names[j]));
        }
    }
}

/// Listing a selected name twice gives each comparison the same pass or fail
/// outcome as listing it once: leaving fields out by copying, leaving them out
/// by resetting, and comparing the selected fields alone.
pub proof fn lemma_repeated_name_same_outcome(
    a: RecordModel,
    b: RecordModel,
    names: Seq<Seq<char>>,
    k: int,
)
    requires
        0 <= k < names.len(),
    ensures
        excluding_passes(a, b, repeat_name(names, k)) == excluding_passes(a, b, names),
        ignoring_passes(a, b, repeat_name(names, k)) == ignoring_passes(a, b, names),
        selected_passes(a, b, repeat_name(names, k)) == selected_passes(a, b, names),
{
    let g = repeat_name(names, k);
    lemma_repeat_same_names(names, k);
    assert(all_known(a, g) == all_known(a, names)) by {
        if all_known(a, names) {
            assert forall|j: int| 0 <= j < g.len() implies has_field(a, #[trigger] g[j]) by {
                let i = choose|i: int| 0 <= i < names.len() && #[trigger] names[i] == g[j];
            }
        }
        if all_known(a, g) {
            assert forall|j: int| 0 <= j < names.len() implies has_field(a, #[trigger] names[j]) by {
                let i = choose|i: int| 0 <= i < g.len() && #[trigger] g[i] == names[j];
            }
        }
    }
    assert(agree_outside(a, b, g) == agree_outside(a, b, names));
    assert(agree_inside(a, b, g) == agree_inside(a, b, names)) by {
        if agree_inside(a, b, names) {
            assert forall|j: int| 0 <= j < g.len() implies field_agrees(a, b, #[trigger] g[j]) by {
                let i = choose|i: int| 0 <= i < names.len() && #[trigger] names[i] == g[j];
            }
        }
        if agree_inside(a, b, g) {
            assert forall|j: int| 0 <= j < names.len() implies field_agrees(
                a,
                b,
                #[trigger] names[j],
            ) by {
                let i = choose|i: int| 0 <= i < g.len() && #[trigger] g[i] == names[j];
            }
        }
    }
}

} // verus!
