//! The data that the lookup argument is built from.

pub mod multiset;
