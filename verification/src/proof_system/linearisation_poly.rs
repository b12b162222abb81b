//! The evaluations that a proof carries.

use crate::field::BlsScalar;
use vstd::prelude::*;

verus! {

/// The evaluations, at the verifier's challenge point, that a proof supplies
/// and that the widgets read. A name that ends in `next_eval` is an
/// evaluation at the challenge point shifted by one row.
#[derive(Clone, Copy, Debug, PartialEq, Eq)]
pub struct ProofEvaluations {
    /// Evaluation of the left wire polynomial.
    pub a_eval: BlsScalar,
    /// Evaluation of the right wire polynomial.
    pub b_eval: BlsScalar,
    /// Evaluation of the output wire polynomial.
    pub c_eval: BlsScalar,
    /// Evaluation of the fourth wire polynomial.
    pub d_eval: BlsScalar,
    /// Evaluation of the left wire polynomial at the next row.
    pub a_next_eval: BlsScalar,
    /// Evaluation of the right wire polynomial at the next row.
    pub b_next_eval: BlsScalar,
    /// Evaluation of the fourth wire polynomial at the next row.
    pub d_next_eval: BlsScalar,
    /// Evaluation of the compressed lookup query polynomial.
    pub f_eval: BlsScalar,
    /// Evaluation of the compressed table polynomial.
    pub table_eval: BlsScalar,
    /// Evaluation of the compressed table polynomial at the next row.
    pub table_next_eval: BlsScalar,
    /// Evaluation of the first half of the sorted concatenation.
    pub h1_eval: BlsScalar,
    /// Evaluation of the second half of the sorted concatenation.
    pub h2_eval: BlsScalar,
    /// Evaluation of the lookup accumulator at the next row.
    pub z2_next_eval: BlsScalar,
    /// The value by which the lookup widget separates its identities.
    pub q_lookup_eval: BlsScalar,
}

} // verus!
