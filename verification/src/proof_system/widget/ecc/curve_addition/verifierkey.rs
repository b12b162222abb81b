//! The verifier's side of the point-addition widget.

use crate::field::{
    congruent, lemma_add_step, lemma_congruent_add, lemma_congruent_mul, lemma_mul_step,
    lemma_sub_step, reduce, BlsScalar,
};
use crate::proof_system::linearisation_poly::ProofEvaluations;
use vstd::prelude::*;

verus! {

/// How far `x1y2` is from the product of `x1` and `y2`.
pub open spec fn xy_consistency(x1: int, y2: int, x1y2: int) -> int {
    x1 * y2 - x1y2
}

/// How far `x3` is from the first coordinate of the sum of `(x1, y1)` and
/// `(x2, y2)`, with the denominator of the addition law multiplied out:
/// `x3 * (1 + d * x1y2 * y1 * x2)` should be `x1y2 + y1 * x2`.
pub open spec fn x3_consistency(y1: int, x2: int, x3: int, x1y2: int, d: int) -> int {
    (x1y2 + y1 * x2) - (x3 + x3 * (d * x1y2 * (y1 * x2)))
}

/// How far `y3` is from the second coordinate of the sum, with the
/// denominator multiplied out: `y3 * (1 - d * x1y2 * y1 * x2)` should be
/// `y1 * y2 + x1 * x2`.
pub open spec fn y3_consistency(
    x1: int,
    y1: int,
    x2: int,
    y2: int,
    y3: int,
    x1y2: int,
    d: int,
) -> int {
    (y1 * y2 + x1 * x2) - (y3 - y3 * d * x1y2 * (y1 * x2))
}

/// The three checks of the addition law, batched by the powers of `kappa`.
pub open spec fn addition_identity(
    x1: int,
    y1: int,
    x2: int,
    y2: int,
    x3: int,
    y3: int,
    x1y2: int,
    d: int,
    kappa: int,
) -> int {
    xy_consistency(x1, y2, x1y2) + x3_consistency(y1, x2, x3, x1y2, d) * kappa + y3_consistency(
        x1,
        y1,
        x2,
        y2,
        y3,
        x1y2,
        d,
    ) * (kappa * kappa)
}

/// The scalar that the verifier pairs with the commitment to the widget's
/// selector. The first point is `(a_eval, b_eval)`, the second
/// `(c_eval, d_eval)`, their sum `(a_next_eval, b_next_eval)`, and
/// `d_next_eval` is the auxiliary product `x1 * y2`.
pub open spec fn linearisation_scalar(evaluations: ProofEvaluations, d: int, challenge: int) -> int {
    reduce(
        addition_identity(
            evaluations.a_eval@,
            evaluations.b_eval@,
            evaluations.c_eval@,
            evaluations.d_eval@,
            evaluations.a_next_eval@,
            evaluations.b_next_eval@,
            evaluations.d_next_eval@,
            d,
            challenge * challenge,
        ) * challenge,
    )
}

/// Point-addition verifier key, for the twisted Edwards curve
/// `-x^2 + y^2 = 1 + d * x^2 * y^2`.
#[derive(Clone, Copy, Debug, PartialEq, Eq)]
pub struct VerifierKey<G> {
    /// Commitment to the widget's selector.
    pub q_variable_group_add: G,
    /// The coefficient `d` of the curve.
    pub coeff_d: BlsScalar,
}

impl<G: Copy> VerifierKey<G> {
    /// Extends the scalars and the commitments of the verifier's batched
    /// check by this widget's pair.
    pub fn compute_linearisation_commitment(
        &self,
        curve_add_separation_challenge: &BlsScalar,
        scalars: &mut Vec<BlsScalar>,
        points: &mut Vec<G>,
        evaluations: &ProofEvaluations,
    )
        ensures
            final(points)@ == old(points)@.push(self.q_variable_group_add),
            final(scalars)@.len() == old(scalars)@.len() + 1,
            final(scalars)@.subrange(0, old(scalars)@.len() as int) == old(scalars)@,
            final(scalars)@.last()@ == linearisation_scalar(
                *evaluations,
                self.coeff_d@,
                curve_add_separation_challenge@,
            ),
    {
        let challenge = *curve_add_separation_challenge;
        let coeff_d = self.coeff_d;
        let kappa = challenge.square();
        let ghost ch = challenge@;
        let ghost k = ch * ch;
        let ghost d = coeff_d@;

        let x_1 = evaluations.a_eval;
        let x_3 = evaluations.a_next_eval;
        let y_1 = evaluations.b_eval;
        let y_3 = evaluations.b_next_eval;
        let x_2 = evaluations.c_eval;
        let y_2 = evaluations.d_eval;
        let x1_y2 = evaluations.d_next_eval;
        let ghost x1 = x_1@;
        let ghost y1 = y_1@;
        let ghost x2 = x_2@;
        let ghost y2 = y_2@;
        let ghost x1y2 = x1_y2@;

        let xy_0 = x_1.mul(y_2);
        let xy = xy_0.sub(x1_y2);
        let y1_x2 = y_1.mul(x_2);
        let y1_y2 = y_1.mul(y_2);
        let x1_x2 = x_1.mul(x_2);
        proof {
            lemma_mul_step(kappa@, ch, ch, ch, ch);
            lemma_mul_step(xy_0@, x1, x1, y2, y2);
            lemma_sub_step(xy@, xy_0@, x1 * y2, x1y2, x1y2);
            lemma_mul_step(y1_x2@, y1, y1, x2, x2);
            lemma_mul_step(y1_y2@, y1, y1, y2, y2);
            lemma_mul_step(x1_x2@, x1, x1, x2, x2);
        }

        let x3_lhs = x1_y2.add(y1_x2);
        let x3_0 = coeff_d.mul(x1_y2);
        let x3_1 = x3_0.mul(y1_x2);
        let x3_2 = x_3.mul(x3_1);
        let x3_rhs = x_3.add(x3_2);
        let x3_3 = x3_lhs.sub(x3_rhs);
        let x3_term = x3_3.mul(kappa);
        proof {
            lemma_add_step(x3_lhs@, x1y2, x1y2, y1_x2@, y1 * x2);
            lemma_mul_step(x3_0@, d, d, x1y2, x1y2);
            lemma_mul_step(x3_1@, x3_0@, d * x1y2, y1_x2@, y1 * x2);
            lemma_mul_step(x3_2@, x_3@, x_3@, x3_1@, d * x1y2 * (y1 * x2));
            lemma_add_step(x3_rhs@, x_3@, x_3@, x3_2@, x_3@ * (d * x1y2 * (y1 * x2)));
            lemma_sub_step(
                x3_3@,
                x3_lhs@,
                x1y2 + y1 * x2,
                x3_rhs@,
                x_3@ + x_3@ * (d * x1y2 * (y1 * x2)),
            );
            lemma_mul_step(
                x3_term@,
                x3_3@,
                (x1y2 + y1 * x2) - (x_3@ + x_3@ * (d * x1y2 * (y1 * x2))),
                kappa@,
                k,
            );
        }

        let y3_lhs = y1_y2.add(x1_x2);
        let y3_0 = y_3.mul(coeff_d);
        let y3_1 = y3_0.mul(x1_y2);
        let y3_2 = y3_1.mul(y1_x2);
        let y3_rhs = y_3.sub(y3_2);
        let y3_3 = y3_lhs.sub(y3_rhs);
        let kappa_sq = kappa.square();
        let y3_term = y3_3.mul(kappa_sq);
        proof {
            lemma_add_step(y3_lhs@, y1_y2@, y1 * y2, x1_x2@, x1 * x2);
            lemma_mul_step(y3_0@, y_3@, y_3@, d, d);
            lemma_mul_step(y3_1@, y3_0@, y_3@ * d, x1y2, x1y2);
            lemma_mul_step(y3_2@, y3_1@, y_3@ * d * x1y2, y1_x2@, y1 * x2);
            lemma_sub_step(y3_rhs@, y_3@, y_3@, y3_2@, y_3@ * d * x1y2 * (y1 * x2));
            lemma_sub_step(
                y3_3@,
                y3_lhs@,
                y1 * y2 + x1 * x2,
                y3_rhs@,
                y_3@ - y_3@ * d * x1y2 * (y1 * x2),
            );
            lemma_mul_step(kappa_sq@, kappa@, k, kappa@, k);
            lemma_mul_step(
                y3_term@,
                y3_3@,
                (y1 * y2 + x1 * x2) - (y_3@ - y_3@ * d * x1y2 * (y1 * x2)),
                kappa_sq@,
                k * k,
            );
        }

        let id_0 = xy.add(x3_term);
        let identity = id_0.add(y3_term);
        let scalar = identity.mul(challenge);
        proof {
            let sx = (x1 * y2 - x1y2);
            let s3 = ((x1y2 + y1 * x2) - (x_3@ + x_3@ * (d * x1y2 * (y1 * x2)))) * k;
            let sy = ((y1 * y2 + x1 * x2) - (y_3@ - y_3@ * d * x1y2 * (y1 * x2))) * (k * k);
            lemma_add_step(id_0@, xy@, sx, x3_term@, s3);
            lemma_add_step(identity@, id_0@, sx + s3, y3_term@, sy);
            lemma_mul_step(scalar@, identity@, sx + s3 + sy, ch, ch);
        }
        scalars.push(scalar);
        points.push(self.q_variable_group_add);
    }
}

/// Where the addition law holds, the scalar is zero: if `d_next_eval` is
/// the product `x1 * y2`, and `(a_next_eval, b_next_eval)` is the sum of
/// the two points, the three checks cancel whatever the challenge.
pub proof fn lemma_linearisation_scalar_vanishes(
    evaluations: ProofEvaluations,
    d: int,
    challenge: int,
)
    requires
        congruent(xy_consistency(evaluations.a_eval@, evaluations.d_eval@, evaluations.d_next_eval@), 0),
        congruent(
            x3_consistency(
                evaluations.b_eval@,
                evaluations.c_eval@,
                evaluations.a_next_eval@,
                evaluations.d_next_eval@,
                d,
            ),
            0,
        ),
        congruent(
            y3_consistency(
                evaluations.a_eval@,
                evaluations.b_eval@,
                evaluations.c_eval@,
                evaluations.d_eval@,
                evaluations.b_next_eval@,
                evaluations.d_next_eval@,
                d,
            ),
            0,
        ),
    ensures
        linearisation_scalar(evaluations, d, challenge) == 0,
{
    let kappa = challenge * challenge;
    let xy = xy_consistency(evaluations.a_eval@, evaluations.d_eval@, evaluations.d_next_eval@);
    let x3 = x3_consistency(
        evaluations.b_eval@,
        evaluations.c_eval@,
        evaluations.a_next_eval@,
        evaluations.d_next_eval@,
        d,
    );
    let y3 = y3_consistency(
        evaluations.a_eval@,
        evaluations.b_eval@,
        evaluations.c_eval@,
        evaluations.d_eval@,
        evaluations.b_next_eval@,
        evaluations.d_next_eval@,
        d,
    );
    lemma_congruent_mul(x3, 0, kappa, kappa);
    lemma_congruent_mul(y3, 0, kappa * kappa, kappa * kappa);
    assert(0 * kappa == 0);
    assert(0 * (kappa * kappa) == 0);
    lemma_congruent_add(xy, 0, x3 * kappa, 0);
    lemma_congruent_add(xy + x3 * kappa, 0, y3 * (kappa * kappa), 0);
    lemma_congruent_mul(xy + x3 * kappa + y3 * (kappa * kappa), 0, challenge, challenge);
    assert(0 * challenge == 0);
}

} // verus!
