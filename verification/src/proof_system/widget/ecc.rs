//! Widgets for arithmetic on a twisted Edwards curve whose base field is the
//! scalar field of this crate.

pub mod curve_addition;
