//! The errors of this crate.

use vstd::prelude::*;

verus! {

/// What can go wrong before any per-point work begins.
#[derive(Clone, Copy, Debug, PartialEq, Eq)]
pub enum Error {
    /// No evaluation domain of the needed size exists in the field: the
    /// size's logarithm exceeds the two-adicity of the field.
    InvalidEvalDomainSize {
        /// The logarithm, to base two, of the size that was asked for.
        log_size_of_group: u32,
        /// The two-adicity of the field.
        adicity: u32,
    },
}

} // verus!
