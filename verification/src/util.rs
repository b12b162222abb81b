//! Random linear combinations of field elements.

use crate::field::{
    congruent, lemma_add_step, lemma_congruent_add, lemma_congruent_mul, lemma_mul_step,
    lemma_reduce_range, reduce, scalar_values, BlsScalar,
};
use vstd::prelude::*;

verus! {

/// The sum of `values[i] * challenge^i` over all positions, as an integer.
pub open spec fn linear_combination(values: Seq<int>, challenge: int) -> int
    decreases values.len(),
{
    if values.len() == 0 {
        0
    } else {
        values[0] + challenge * linear_combination(values.drop_first(), challenge)
    }
}

/// The combination `w_l + zeta * w_r + zeta^2 * w_o + zeta^3 * w_4` of one
/// four-wide row, as an integer.
pub open spec fn row_combination(w_l: int, w_r: int, w_o: int, w_4: int, zeta: int) -> int {
    w_l + zeta * w_r + zeta * zeta * w_o + zeta * zeta * zeta * w_4
}

/// A combination from position `i` on is the value there plus the challenge
/// times the combination from the next position on.
pub proof fn lemma_linear_combination_unfold(values: Seq<int>, i: int, challenge: int)
    requires
        0 <= i < values.len(),
    ensures
        linear_combination(values.subrange(i, values.len() as int), challenge) == values[i]
            + challenge * linear_combination(
            values.subrange(i + 1, values.len() as int),
            challenge,
        ),
{
    let tail = values.subrange(i, values.len() as int);
    assert(tail.drop_first() =~= values.subrange(i + 1, values.len() as int));
}

/// The combination of four values is the row combination of them.
pub proof fn lemma_linear_combination_of_row(w_l: int, w_r: int, w_o: int, w_4: int, zeta: int)
    ensures
        linear_combination(seq![w_l, w_r, w_o, w_4], zeta) == row_combination(
            w_l,
            w_r,
            w_o,
            w_4,
            zeta,
        ),
{
    let s = seq![w_l, w_r, w_o, w_4];
    lemma_linear_combination_unfold(s, 0, zeta);
    lemma_linear_combination_unfold(s, 1, zeta);
    lemma_linear_combination_unfold(s, 2, zeta);
    lemma_linear_combination_unfold(s, 3, zeta);
    assert(s.subrange(0, 4) =~= s);
    assert(s.subrange(4, 4).len() == 0);
    let t3 = linear_combination(s.subrange(3, 4), zeta);
    let t2 = linear_combination(s.subrange(2, 4), zeta);
    let t1 = linear_combination(s.subrange(1, 4), zeta);
    assert(t3 == w_4) by (nonlinear_arith)
        requires
            t3 == w_4 + zeta * 0,
    ;
    assert(w_l + zeta * (w_r + zeta * (w_o + zeta * w_4)) == w_l + zeta * w_r + zeta * zeta * w_o
        + zeta * zeta * zeta * w_4) by (nonlinear_arith);
}

/// Compression is affine in each of the four values: adding `x` to one of
/// them adds `x` times that value's power of `zeta` to the result.
pub proof fn lemma_compress_affine(w_l: int, w_r: int, w_o: int, w_4: int, zeta: int, x: int)
    ensures
        reduce(row_combination(reduce(w_l + x), w_r, w_o, w_4, zeta)) == reduce(
            reduce(row_combination(w_l, w_r, w_o, w_4, zeta)) + x,
        ),
        reduce(row_combination(w_l, reduce(w_r + x), w_o, w_4, zeta)) == reduce(
            reduce(row_combination(w_l, w_r, w_o, w_4, zeta)) + zeta * x,
        ),
        reduce(row_combination(w_l, w_r, reduce(w_o + x), w_4, zeta)) == reduce(
            reduce(row_combination(w_l, w_r, w_o, w_4, zeta)) + zeta * zeta * x,
        ),
        reduce(row_combination(w_l, w_r, w_o, reduce(w_4 + x), zeta)) == reduce(
            reduce(row_combination(w_l, w_r, w_o, w_4, zeta)) + zeta * zeta * zeta * x,
        ),
{
    let base = row_combination(w_l, w_r, w_o, w_4, zeta);
    lemma_reduce_range(base);
    lemma_reduce_range(w_l + x);
    lemma_reduce_range(w_r + x);
    lemma_reduce_range(w_o + x);
    lemma_reduce_range(w_4 + x);
    assert(congruent(reduce(base) + x, base + x)) by {
        lemma_congruent_add(reduce(base), base, x, x);
    }
    assert(congruent(reduce(base) + zeta * x, base + zeta * x)) by {
        lemma_congruent_add(reduce(base), base, zeta * x, zeta * x);
    }
    assert(congruent(reduce(base) + zeta * zeta * x, base + zeta * zeta * x)) by {
        lemma_congruent_add(reduce(base), base, zeta * zeta * x, zeta * zeta * x);
    }
    assert(congruent(reduce(base) + zeta * zeta * zeta * x, base + zeta * zeta * zeta * x)) by {
        lemma_congruent_add(reduce(base), base, zeta * zeta * zeta * x, zeta * zeta * zeta * x);
    }
    assert(congruent(row_combination(reduce(w_l + x), w_r, w_o, w_4, zeta), base + x)) by {
        let rest = zeta * w_r + zeta * zeta * w_o + zeta * zeta * zeta * w_4;
        lemma_congruent_add(reduce(w_l + x), w_l + x, rest, rest);
    }
    assert(congruent(row_combination(w_l, reduce(w_r + x), w_o, w_4, zeta), base + zeta * x)) by {
        let rest = w_l + zeta * zeta * w_o + zeta * zeta * zeta * w_4;
        lemma_congruent_mul(zeta, zeta, reduce(w_r + x), w_r + x);
        lemma_congruent_add(zeta * reduce(w_r + x), zeta * (w_r + x), rest, rest);
        assert(zeta * (w_r + x) == zeta * w_r + zeta * x) by (nonlinear_arith);
    }
    assert(congruent(
        row_combination(w_l, w_r, reduce(w_o + x), w_4, zeta),
        base + zeta * zeta * x,
    )) by {
        let rest = w_l + zeta * w_r + zeta * zeta * zeta * w_4;
        lemma_congruent_mul(zeta * zeta, zeta * zeta, reduce(w_o + x), w_o + x);
        lemma_congruent_add(zeta * zeta * reduce(w_o + x), zeta * zeta * (w_o + x), rest, rest);
        assert(zeta * zeta * (w_o + x) == zeta * zeta * w_o + zeta * zeta * x)
            by (nonlinear_arith);
    }
    assert(congruent(
        row_combination(w_l, w_r, w_o, reduce(w_4 + x), zeta),
        base + zeta * zeta * zeta * x,
    )) by {
        let rest = w_l + zeta * w_r + zeta * zeta * w_o;
        lemma_congruent_mul(zeta * zeta * zeta, zeta * zeta * zeta, reduce(w_4 + x), w_4 + x);
        lemma_congruent_add(
            zeta * zeta * zeta * reduce(w_4 + x),
            zeta * zeta * zeta * (w_4 + x),
            rest,
            rest,
        );
        assert(zeta * zeta * zeta * (w_4 + x) == zeta * zeta * zeta * w_4 + zeta * zeta * zeta
            * x) by (nonlinear_arith);
    }
}

/// With the challenge zero, compression keeps the first value alone.
pub proof fn lemma_compress_at_zero(w_l: int, w_r: int, w_o: int, w_4: int)
    ensures
        reduce(row_combination(w_l, w_r, w_o, w_4, 0)) == reduce(w_l),
{
    assert(row_combination(w_l, w_r, w_o, w_4, 0) == w_l) by (nonlinear_arith)
        requires
            row_combination(w_l, w_r, w_o, w_4, 0) == w_l + 0 * w_r + 0 * 0 * w_o + 0 * 0 * 0
                * w_4,
    ;
}

/// The linear combination of `values` in the powers of `challenge`:
/// `values[0] + challenge * values[1] + challenge^2 * values[2] + ...`.
pub fn lc(values: &Vec<BlsScalar>, challenge: BlsScalar) -> (r: BlsScalar)
    ensures
        r@ == reduce(linear_combination(scalar_values(values@), challenge@)),
{
    let n: usize = values.len();
    let ghost vals = scalar_values(values@);
    if n == 0 {
        return BlsScalar::zero();
    }
    let mut acc: BlsScalar = values[n - 1];
    let mut i: usize = n - 1;
    proof {
        lemma_linear_combination_unfold(vals, n - 1, challenge@);
        assert(vals.subrange(n as int, n as int).len() == 0);
        assert(challenge@ * 0 == 0) by (nonlinear_arith);
        acc.lemma_view_range();
    }
    while i > 0
        invariant
            0 <= i < n,
            n == values.len(),
            vals == scalar_values(values@),
            acc@ == reduce(linear_combination(vals.subrange(i as int, n as int), challenge@)),
        decreases i,
    {
        i = i - 1;
        let ghost tail = linear_combination(vals.subrange(i + 1, n as int), challenge@);
        let shifted = acc.mul(challenge);
        let head: BlsScalar = values[i];
        let next = shifted.add(head);
        proof {
            lemma_mul_step(shifted@, acc@, tail, challenge@, challenge@);
            lemma_add_step(next@, shifted@, tail * challenge@, head@, head@);
            lemma_linear_combination_unfold(vals, i as int, challenge@);
            assert(tail * challenge@ + head@ == head@ + challenge@ * tail) by (nonlinear_arith);
        }
        acc = next;
    }
    proof {
        assert(vals.subrange(0, n as int) =~= vals);
    }
    acc
}

/// Compresses a row of four values into one field element by a random
/// linear combination in the powers of `zeta`.
pub fn compress(
    w_l: BlsScalar,
    w_r: BlsScalar,
    w_o: BlsScalar,
    w_4: BlsScalar,
    zeta: BlsScalar,
) -> (r: BlsScalar)
    ensures
        r@ == reduce(row_combination(w_l@, w_r@, w_o@, w_4@, zeta@)),
{
    let row = vec![w_l, w_r, w_o, w_4];
    proof {
        assert(scalar_values(row@) =~= seq![w_l@, w_r@, w_o@, w_4@]);
        lemma_linear_combination_of_row(w_l@, w_r@, w_o@, w_4@, zeta@);
    }
    lc(&row, zeta)
}

} // verus!
