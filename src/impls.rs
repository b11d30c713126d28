//! The selective assertions, one module each.
pub mod assert_eq_excluding;
pub mod assert_eq_ignoring;
pub mod assert_eq_only;
pub mod assert_eq_selected;
