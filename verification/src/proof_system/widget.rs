//! Gate widgets. Each one offers the same three operations: a quotient term
//! per domain point, a contribution to the linearisation polynomial, and the
//! scalars and commitments that stand for that contribution in the
//! verifier's batched check.

pub mod lookup;
pub mod ecc;
