//! Gate widgets of a PLONK-style proof system over the scalar field of
//! BLS12-381: the lookup (Plookup) widget and the twisted-Edwards
//! point-addition widget, together with the multisets, polynomials and
//! evaluation domains they work on.
//!
//! Every contract is stated over mathematical integers reduced modulo the
//! field's prime; see [`field::modulus`] and [`field::reduce`].

pub mod domain;
pub mod error;
pub mod field;
pub mod lookup;
pub mod polynomial;
pub mod util;
pub mod proof_system;
