//! Selective structural-equality assertions over records of named fields:
//! equality that leaves some fields out, or that looks at some fields only,
//! with a message that names the fields concerned.
pub mod description;
pub mod impls;
pub mod record;
pub mod repetition;
pub mod selection;

pub use impls::assert_eq_excluding::assert_eq_excluding;
pub use impls::assert_eq_ignoring::{assert_eq_ignoring, assert_eq_ignoring_in_case};
pub use impls::assert_eq_only::assert_eq_only;
pub use impls::assert_eq_selected::assert_eq_selected;
pub use record::{Record, Value};
pub use selection::AssertionFailure;

use vstd::prelude::*;

verus! {

} // verus!
