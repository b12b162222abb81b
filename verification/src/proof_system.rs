//! The pieces of the proof system that the widgets share, and the
//! widgets themselves.

pub mod linearisation_poly;
pub mod widget;
