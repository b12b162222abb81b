//! The widget that adds two points of the curve.

pub mod verifierkey;
