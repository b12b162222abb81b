//! The lookup widget: a Plookup-style argument that every compressed row of
//! wire values occurs in a fixed table.

use crate::domain::{
    domain_constructible, lemma_ceil_log2_of_pow2, EvaluationDomain, TWO_ADICITY,
};
use crate::error::Error;
use crate::field::{
    clone_scalars, congruent, lemma_add_step, lemma_congruent_add, lemma_congruent_mul,
    lemma_congruent_sub, lemma_reduce_range, lemma_mul_step, lemma_neg_step, lemma_sub_step, reduce, BlsScalar,
};
use crate::lookup::multiset::MultiSet;
use crate::polynomial::{
    coefficient_of, evaluation, is_normalised, lemma_evaluation_of_combination, Polynomial,
};
use crate::proof_system::linearisation_poly::ProofEvaluations;
use crate::util::{compress, linear_combination, row_combination};
use vstd::arithmetic::power2::{lemma_pow2_unfold, pow2};
use vstd::prelude::*;

verus! {

/// The first summand of the quotient term: the selector times the gap
/// between the compressed row and the query value.
pub open spec fn selector_summand(
    q_lookup: int,
    w_l: int,
    w_r: int,
    w_o: int,
    w_4: int,
    f: int,
    zeta: int,
    sep: int,
) -> int {
    q_lookup * (row_combination(w_l, w_r, w_o, w_4, zeta) - f) * sep
}

/// The accumulator times the step of the grand product over the query and
/// the table.
pub open spec fn product_over_table(
    z2: int,
    f: int,
    table: int,
    table_next: int,
    delta: int,
    epsilon: int,
) -> int {
    z2 * (1 + delta) * (epsilon + f) * (epsilon * (1 + delta) + table + delta * table_next)
}

/// The next accumulator times the step of the grand product over the two
/// sorted halves.
pub open spec fn product_over_sorted(
    z2_next: int,
    h1: int,
    h1_next: int,
    h2: int,
    delta: int,
    epsilon: int,
) -> int {
    z2_next * (epsilon * (1 + delta) + h1 + delta * h2) * (epsilon * (1 + delta) + h2 + delta
        * h1_next)
}

/// The second summand of the quotient term: the accumulator times the
/// grand product's numerator over the query and the table.
pub open spec fn table_summand(
    z2: int,
    f: int,
    table: int,
    table_next: int,
    delta: int,
    epsilon: int,
    sep: int,
) -> int {
    product_over_table(z2, f, table, table_next, delta, epsilon) * (sep * sep)
}

/// The third summand of the quotient term, which is subtracted: the next
/// accumulator times the grand product's denominator over the sorted halves.
pub open spec fn sorted_summand(
    z2_next: int,
    h1: int,
    h1_next: int,
    h2: int,
    delta: int,
    epsilon: int,
    sep: int,
) -> int {
    product_over_sorted(z2_next, h1, h1_next, h2, delta, epsilon) * (sep * sep)
}

/// The fourth summand of the quotient term: the accumulator starts at one.
pub open spec fn boundary_summand(z2: int, l1: int, sep: int) -> int {
    (z2 - 1) * l1 * (sep * sep * sep)
}

/// The lookup widget's contribution to the quotient polynomial at one point
/// of the evaluation domain.
pub open spec fn quotient_term(
    q_lookup: int,
    w_l: int,
    w_r: int,
    w_o: int,
    w_4: int,
    f: int,
    table: int,
    table_next: int,
    h1: int,
    h1_next: int,
    h2: int,
    z2: int,
    z2_next: int,
    l1: int,
    delta: int,
    epsilon: int,
    zeta: int,
    sep: int,
) -> int {
    reduce(
        selector_summand(q_lookup, w_l, w_r, w_o, w_4, f, zeta, sep) + table_summand(
            z2,
            f,
            table,
            table_next,
            delta,
            epsilon,
            sep,
        ) - sorted_summand(z2_next, h1, h1_next, h2, delta, epsilon, sep) + boundary_summand(
            z2,
            l1,
            sep,
        ),
    )
}

/// The quotient term at point `i` of the extended domain, read off the
/// evaluation tables. The next row of point `i` stands four places on:
/// the extended domain is four times as fine as the one the rows live on.
pub open spec fn quotient_term_at(
    i: int,
    q_lookup: Seq<BlsScalar>,
    wl: Seq<BlsScalar>,
    wr: Seq<BlsScalar>,
    wo: Seq<BlsScalar>,
    w4: Seq<BlsScalar>,
    f: Seq<BlsScalar>,
    table: Seq<BlsScalar>,
    h1: Seq<BlsScalar>,
    h2: Seq<BlsScalar>,
    z2: Seq<BlsScalar>,
    l1: Seq<BlsScalar>,
    delta: int,
    epsilon: int,
    zeta: int,
    sep: int,
) -> int {
    quotient_term(
        q_lookup[i]@,
        wl[i]@,
        wr[i]@,
        wo[i]@,
        w4[i]@,
        f[i]@,
        table[i]@,
        table[i + 4]@,
        h1[i]@,
        h1[i + 4]@,
        h2[i]@,
        z2[i]@,
        z2[i + 4]@,
        l1[i]@,
        delta,
        epsilon,
        zeta,
        sep,
    )
}

/// Every coefficient of `r` is the weighted sum, reduced, of the
/// coefficients of the selector, the accumulator and the first sorted half.
pub open spec fn is_combination(
    r: Seq<int>,
    q_lookup: Seq<int>,
    z2: Seq<int>,
    h1: Seq<int>,
    selector_weight: int,
    accumulator_weight: int,
    sorted_weight: int,
) -> bool {
    forall|k: int| #[trigger]
        coefficient_of(r, k) == reduce(
            selector_weight * coefficient_of(q_lookup, k) + accumulator_weight * coefficient_of(
                z2,
                k,
            ) + sorted_weight * coefficient_of(h1, k),
        )
}

/// The coefficient of the selector polynomial in the linearisation: the
/// compressed row less the query value, times the separation challenge.
pub open spec fn selector_scalar(
    a: int,
    b: int,
    c: int,
    d: int,
    f: int,
    zeta: int,
    sep: int,
) -> int {
    (row_combination(a, b, c, d, zeta) - f) * sep
}

/// The coefficient of the accumulator polynomial in the linearisation: the
/// numerator of the grand product, times the square of the separation
/// challenge, plus the first Lagrange evaluation times its cube.
pub open spec fn accumulator_scalar(
    f: int,
    table: int,
    table_next: int,
    l1: int,
    delta: int,
    epsilon: int,
    sep: int,
) -> int {
    (1 + delta) * (epsilon + f) * (epsilon * (1 + delta) + table + delta * table_next) * (sep
        * sep) + l1 * (sep * sep * sep)
}

/// The coefficient of the first sorted half in the linearisation.
pub open spec fn sorted_scalar(
    z2_next: int,
    h1: int,
    h2: int,
    delta: int,
    epsilon: int,
    sep: int,
) -> int {
    -(z2_next * (sep * sep)) * (epsilon * (1 + delta) + h2 + delta * h1)
}

/// The three scalars that the verifier pairs with the commitments to the
/// selector, the accumulator and the first sorted half. The separation
/// challenge is the value that the proof carries in `q_lookup_eval`.
pub open spec fn linearisation_scalars(
    evaluations: ProofEvaluations,
    delta: int,
    epsilon: int,
    zeta: int,
    l1: int,
) -> Seq<int> {
    let sep = evaluations.q_lookup_eval@;
    seq![
        reduce(
            selector_scalar(
                evaluations.a_eval@,
                evaluations.b_eval@,
                evaluations.c_eval@,
                evaluations.d_eval@,
                evaluations.f_eval@,
                zeta,
                sep,
            ),
        ),
        reduce(
            accumulator_scalar(
                evaluations.f_eval@,
                evaluations.table_eval@,
                evaluations.table_next_eval@,
                l1,
                delta,
                epsilon,
                sep,
            ),
        ),
        reduce(
            sorted_scalar(
                evaluations.z2_next_eval@,
                evaluations.h1_eval@,
                evaluations.h2_eval@,
                delta,
                epsilon,
                sep,
            ),
        ),
    ]
}

/// Lookup gates prover key.
#[derive(Debug, PartialEq, Eq)]
pub struct ProverKey {
    /// The lookup selector: its coefficient form, and its evaluations over
    /// the extended domain.
    pub q_lookup: (Polynomial, Vec<BlsScalar>),
    /// Column 1 of the lookup table.
    pub table_1: MultiSet,
    /// Column 2 of the lookup table.
    pub table_2: MultiSet,
    /// Column 3 of the lookup table.
    pub table_3: MultiSet,
    /// Column 4 of the lookup table.
    pub table_4: MultiSet,
}

impl Clone for ProverKey {
    fn clone(&self) -> (r: Self)
        ensures
            r.q_lookup.0@ == self.q_lookup.0@,
            r.q_lookup.1@ == self.q_lookup.1@,
            r.table_1@ == self.table_1@,
            r.table_2@ == self.table_2@,
            r.table_3@ == self.table_3@,
            r.table_4@ == self.table_4@,
    {
        ProverKey {
            q_lookup: (self.q_lookup.0.clone(), clone_scalars(&self.q_lookup.1)),
            table_1: self.table_1.clone(),
            table_2: self.table_2.clone(),
            table_3: self.table_3.clone(),
            table_4: self.table_4.clone(),
        }
    }
}

impl ProverKey {
    /// The lookup widget's contribution to the quotient polynomial at every
    /// point of the domain four times the size of `domain`. The tables hold
    /// evaluations over that extended domain; those that are read at the
    /// next row hold four more.
    pub fn compute_lookup_quotient_term(
        &self,
        domain: &EvaluationDomain,
        wl_eval_4n: &[BlsScalar],
        wr_eval_4n: &[BlsScalar],
        wo_eval_4n: &[BlsScalar],
        w4_eval_4n: &[BlsScalar],
        f_eval_4n: &[BlsScalar],
        table_eval_4n: &[BlsScalar],
        h1_eval_4n: &[BlsScalar],
        h2_eval_4n: &[BlsScalar],
        z2_eval_4n: &[BlsScalar],
        l1_eval_4n: &[BlsScalar],
        delta: BlsScalar,
        epsilon: BlsScalar,
        zeta: BlsScalar,
        lookup_sep: BlsScalar,
    ) -> (r: Result<Vec<BlsScalar>, Error>)
        requires
            domain_constructible(4 * domain.spec_size()) ==> {
                &&& self.q_lookup.1@.len() >= 4 * domain.spec_size()
                &&& wl_eval_4n@.len() >= 4 * domain.spec_size()
                &&& wr_eval_4n@.len() >= 4 * domain.spec_size()
                &&& wo_eval_4n@.len() >= 4 * domain.spec_size()
                &&& w4_eval_4n@.len() >= 4 * domain.spec_size()
                &&& f_eval_4n@.len() >= 4 * domain.spec_size()
                &&& table_eval_4n@.len() >= 4 * domain.spec_size() + 4
                &&& h1_eval_4n@.len() >= 4 * domain.spec_size() + 4
                &&& h2_eval_4n@.len() >= 4 * domain.spec_size()
                &&& z2_eval_4n@.len() >= 4 * domain.spec_size() + 4
                &&& l1_eval_4n@.len() >= 4 * domain.spec_size()
            },
        ensures
            r is Ok <==> domain_constructible(4 * domain.spec_size()),
            r matches Err(e) ==> e == (Error::InvalidEvalDomainSize {
                log_size_of_group: (domain.spec_log_size_of_group() + 2) as u32,
                adicity: TWO_ADICITY,
            }),
            r matches Ok(v) ==> {
                &&& v@.len() == 4 * domain.spec_size()
                &&& forall|i: int|
                    0 <= i < v@.len() ==> (#[trigger] v@[i])@ == quotient_term_at(
                        i,
                        self.q_lookup.1@,
                        wl_eval_4n@,
                        wr_eval_4n@,
                        wo_eval_4n@,
                        w4_eval_4n@,
                        f_eval_4n@,
                        table_eval_4n@,
                        h1_eval_4n@,
                        h2_eval_4n@,
                        z2_eval_4n@,
                        l1_eval_4n@,
                        delta@,
                        epsilon@,
                        zeta@,
                        lookup_sep@,
                    )
            },
    {
        let n: usize = domain.size();
        let log: u32 = domain.log_size_of_group();
        proof {
            lemma_pow2_unfold((log + 1) as nat);
            lemma_pow2_unfold((log + 2) as nat);
            lemma_ceil_log2_of_pow2((log + 2) as nat);
            assert(4 * domain.spec_size() == pow2((log + 2) as nat));
        }
        let extended = match n.checked_mul(4) {
            Some(n4) => EvaluationDomain::new(n4),
            None => None,
        };
        let domain_4n = match extended {
            Some(d) => d,
            None => {
                return Err(
                    Error::InvalidEvalDomainSize {
                        log_size_of_group: log + 2,
                        adicity: TWO_ADICITY,
                    },
                );
            },
        };
        let size: usize = domain_4n.size();
        let mut quotient: Vec<BlsScalar> = Vec::new();
        let mut i: usize = 0;
        while i < size
            invariant
                0 <= i <= size,
                size == 4 * domain.spec_size(),
                quotient@.len() == i,
                self.q_lookup.1@.len() >= size,
                wl_eval_4n@.len() >= size,
                wr_eval_4n@.len() >= size,
                wo_eval_4n@.len() >= size,
                w4_eval_4n@.len() >= size,
                f_eval_4n@.len() >= size,
                table_eval_4n@.len() >= size + 4,
                h1_eval_4n@.len() >= size + 4,
                h2_eval_4n@.len() >= size,
                z2_eval_4n@.len() >= size + 4,
                l1_eval_4n@.len() >= size,
                forall|j: int|
                    0 <= j < i ==> (#[trigger] quotient@[j])@ == quotient_term_at(
                        j,
                        self.q_lookup.1@,
                        wl_eval_4n@,
                        wr_eval_4n@,
                        wo_eval_4n@,
                        w4_eval_4n@,
                        f_eval_4n@,
                        table_eval_4n@,
                        h1_eval_4n@,
                        h2_eval_4n@,
                        z2_eval_4n@,
                        l1_eval_4n@,
                        delta@,
                        epsilon@,
                        zeta@,
                        lookup_sep@,
                    ),
            decreases size - i,
        {
            let term = self.compute_quotient_i(
                i,
                wl_eval_4n[i],
                wr_eval_4n[i],
                wo_eval_4n[i],
                w4_eval_4n[i],
                f_eval_4n[i],
                table_eval_4n[i],
                table_eval_4n[i + 4],
                h1_eval_4n[i],
                h1_eval_4n[i + 4],
                h2_eval_4n[i],
                z2_eval_4n[i],
                z2_eval_4n[i + 4],
                l1_eval_4n[i],
                delta,
                epsilon,
                zeta,
                lookup_sep,
            );
            quotient.push(term);
            i = i + 1;
        }
        Ok(quotient)
    }

    /// The lookup widget's contribution to the quotient polynomial at the
    /// domain point `index`, from the evaluations there and at the next row.
    pub fn compute_quotient_i(
        &self,
        index: usize,
        w_l_i: BlsScalar,
        w_r_i: BlsScalar,
        w_o_i: BlsScalar,
        w_4_i: BlsScalar,
        f_i: BlsScalar,
        table_i: BlsScalar,
        table_i_next: BlsScalar,
        h1_i: BlsScalar,
        h1_i_next: BlsScalar,
        h2_i: BlsScalar,
        z2_i: BlsScalar,
        z2_i_next: BlsScalar,
        l1_i: BlsScalar,
        delta: BlsScalar,
        epsilon: BlsScalar,
        zeta: BlsScalar,
        lookup_sep: BlsScalar,
    ) -> (r: BlsScalar)
        requires
            index < self.q_lookup.1@.len(),
        ensures
            r@ == quotient_term(
                self.q_lookup.1@[index as int]@,
                w_l_i@,
                w_r_i@,
                w_o_i@,
                w_4_i@,
                f_i@,
                table_i@,
                table_i_next@,
                h1_i@,
                h1_i_next@,
                h2_i@,
                z2_i@,
                z2_i_next@,
                l1_i@,
                delta@,
                epsilon@,
                zeta@,
                lookup_sep@,
            ),
    {
        let q_lookup_i: BlsScalar = self.q_lookup.1[index];
        let ghost q = q_lookup_i@;
        let ghost rc = row_combination(w_l_i@, w_r_i@, w_o_i@, w_4_i@, zeta@);
        let ghost opd = 1 + delta@;
        let ghost eopd = epsilon@ * (1 + delta@);
        let ghost sep = lookup_sep@;
        let ghost sq = sep * sep;
        let ghost cu = sep * sep * sep;

        let compressed_tuple = compress(w_l_i, w_r_i, w_o_i, w_4_i, zeta);
        let lookup_sep_sq = lookup_sep.square();
        let lookup_sep_cu = lookup_sep_sq.mul(lookup_sep);
        let one_plus_delta = delta.add(BlsScalar::one());
        let epsilon_one_plus_delta = epsilon.mul(one_plus_delta);
        proof {
            lemma_mul_step(lookup_sep_sq@, sep, sep, sep, sep);
            lemma_mul_step(lookup_sep_cu@, lookup_sep_sq@, sq, sep, sep);
            lemma_add_step(one_plus_delta@, delta@, delta@, 1, 1);
            lemma_mul_step(epsilon_one_plus_delta@, epsilon@, epsilon@, one_plus_delta@, opd);
        }

        let gap = compressed_tuple.sub(f_i);
        let a_0 = q_lookup_i.mul(gap);
        let a = a_0.mul(lookup_sep);
        proof {
            lemma_sub_step(gap@, compressed_tuple@, rc, f_i@, f_i@);
            lemma_mul_step(a_0@, q, q, gap@, rc - f_i@);
            lemma_mul_step(a@, a_0@, q * (rc - f_i@), sep, sep);
        }

        let b_1 = epsilon.add(f_i);
        let b_2a = epsilon_one_plus_delta.add(table_i);
        let b_2b = delta.mul(table_i_next);
        let b_2 = b_2a.add(b_2b);
        let b_3 = z2_i.mul(one_plus_delta);
        let b_4 = b_3.mul(b_1);
        let b_5 = b_4.mul(b_2);
        let b = b_5.mul(lookup_sep_sq);
        let ghost b1 = epsilon@ + f_i@;
        let ghost b2 = eopd + table_i@ + delta@ * table_i_next@;
        proof {
            lemma_add_step(b_1@, epsilon@, epsilon@, f_i@, f_i@);
            lemma_add_step(b_2a@, epsilon_one_plus_delta@, eopd, table_i@, table_i@);
            lemma_mul_step(b_2b@, delta@, delta@, table_i_next@, table_i_next@);
            lemma_add_step(b_2@, b_2a@, eopd + table_i@, b_2b@, delta@ * table_i_next@);
            lemma_mul_step(b_3@, z2_i@, z2_i@, one_plus_delta@, opd);
            lemma_mul_step(b_4@, b_3@, z2_i@ * opd, b_1@, b1);
            lemma_mul_step(b_5@, b_4@, z2_i@ * opd * b1, b_2@, b2);
            lemma_mul_step(b@, b_5@, z2_i@ * opd * b1 * b2, lookup_sep_sq@, sq);
        }

        let c_1a = epsilon_one_plus_delta.add(h1_i);
        let c_1b = delta.mul(h2_i);
        let c_1 = c_1a.add(c_1b);
        let c_2a = epsilon_one_plus_delta.add(h2_i);
        let c_2b = delta.mul(h1_i_next);
        let c_2 = c_2a.add(c_2b);
        let c_3 = z2_i_next.neg();
        let c_4 = c_3.mul(c_1);
        let c_5 = c_4.mul(c_2);
        let c = c_5.mul(lookup_sep_sq);
        let ghost c1 = eopd + h1_i@ + delta@ * h2_i@;
        let ghost c2 = eopd + h2_i@ + delta@ * h1_i_next@;
        proof {
            lemma_add_step(c_1a@, epsilon_one_plus_delta@, eopd, h1_i@, h1_i@);
            lemma_mul_step(c_1b@, delta@, delta@, h2_i@, h2_i@);
            lemma_add_step(c_1@, c_1a@, eopd + h1_i@, c_1b@, delta@ * h2_i@);
            lemma_add_step(c_2a@, epsilon_one_plus_delta@, eopd, h2_i@, h2_i@);
            lemma_mul_step(c_2b@, delta@, delta@, h1_i_next@, h1_i_next@);
            lemma_add_step(c_2@, c_2a@, eopd + h2_i@, c_2b@, delta@ * h1_i_next@);
            lemma_neg_step(c_3@, z2_i_next@, z2_i_next@);
            lemma_mul_step(c_4@, c_3@, -z2_i_next@, c_1@, c1);
            lemma_mul_step(c_5@, c_4@, (-z2_i_next@) * c1, c_2@, c2);
            lemma_mul_step(c@, c_5@, (-z2_i_next@) * c1 * c2, lookup_sep_sq@, sq);
        }

        let d_0 = z2_i.sub(BlsScalar::one());
        let d_1 = d_0.mul(l1_i);
        let d = d_1.mul(lookup_sep_cu);
        proof {
            lemma_sub_step(d_0@, z2_i@, z2_i@, 1, 1);
            lemma_mul_step(d_1@, d_0@, z2_i@ - 1, l1_i@, l1_i@);
            lemma_mul_step(d@, d_1@, (z2_i@ - 1) * l1_i@, lookup_sep_cu@, cu);
        }

        let ab = a.add(b);
        let abc = ab.add(c);
        let r = abc.add(d);
        proof {
            let sa = q * (rc - f_i@) * sep;
            let sb = z2_i@ * opd * b1 * b2 * sq;
            let sc = (-z2_i_next@) * c1 * c2 * sq;
            let sd = (z2_i@ - 1) * l1_i@ * cu;
            lemma_add_step(ab@, a@, sa, b@, sb);
            lemma_add_step(abc@, ab@, sa + sb, c@, sc);
            lemma_add_step(r@, abc@, sa + sb + sc, d@, sd);
            assert(sc == -(z2_i_next@ * c1 * c2 * sq)) by (nonlinear_arith)
                requires
                    sc == (-z2_i_next@) * c1 * c2 * sq,
            ;
        }
        r
    }

    /// The lookup widget's contribution to the linearisation polynomial:
    /// the selector, the accumulator and the first sorted half stay
    /// polynomials, weighted by scalars built from the evaluations of
    /// everything else.
    pub fn compute_linearisation(
        &self,
        l1_eval: BlsScalar,
        a_eval: BlsScalar,
        b_eval: BlsScalar,
        c_eval: BlsScalar,
        d_eval: BlsScalar,
        f_eval: BlsScalar,
        table_eval: BlsScalar,
        table_next_eval: BlsScalar,
        h1_eval: BlsScalar,
        h2_eval: BlsScalar,
        z2_next_eval: BlsScalar,
        delta: BlsScalar,
        epsilon: BlsScalar,
        zeta: BlsScalar,
        z2_poly: &Polynomial,
        h1_poly: &Polynomial,
        lookup_separation_challenge: BlsScalar,
    ) -> (r: Polynomial)
        ensures
            is_normalised(r@),
            is_combination(
                r@,
                self.q_lookup.0@,
                z2_poly@,
                h1_poly@,
                selector_scalar(
                    a_eval@,
                    b_eval@,
                    c_eval@,
                    d_eval@,
                    f_eval@,
                    zeta@,
                    lookup_separation_challenge@,
                ),
                accumulator_scalar(
                    f_eval@,
                    table_eval@,
                    table_next_eval@,
                    l1_eval@,
                    delta@,
                    epsilon@,
                    lookup_separation_challenge@,
                ),
                sorted_scalar(
                    z2_next_eval@,
                    h1_eval@,
                    h2_eval@,
                    delta@,
                    epsilon@,
                    lookup_separation_challenge@,
                ),
            ),
    {
        let ghost rc = row_combination(a_eval@, b_eval@, c_eval@, d_eval@, zeta@);
        let ghost opd = 1 + delta@;
        let ghost eopd = epsilon@ * (1 + delta@);
        let ghost sep = lookup_separation_challenge@;
        let ghost sq = sep * sep;
        let ghost cu = sep * sep * sep;

        let a_0 = compress(a_eval, b_eval, c_eval, d_eval, zeta);
        let a_1 = a_0.sub(f_eval);
        let a_2 = a_1.mul(lookup_separation_challenge);
        let a = self.q_lookup.0.scale(a_2);
        let ghost wa = (rc - f_eval@) * sep;
        proof {
            lemma_sub_step(a_1@, a_0@, rc, f_eval@, f_eval@);
            lemma_mul_step(a_2@, a_1@, rc - f_eval@, sep, sep);
        }

        let lookup_sep_sq = lookup_separation_challenge.square();
        let lookup_sep_cu = lookup_separation_challenge.mul(lookup_sep_sq);
        let one_plus_delta = delta.add(BlsScalar::one());
        let epsilon_one_plus_delta = epsilon.mul(one_plus_delta);
        proof {
            lemma_mul_step(lookup_sep_sq@, sep, sep, sep, sep);
            lemma_mul_step(lookup_sep_cu@, sep, sep, lookup_sep_sq@, sq);
            assert(sep * sq == cu) by (nonlinear_arith)
                requires
                    sq == sep * sep,
                    cu == sep * sep * sep,
            ;
            lemma_add_step(one_plus_delta@, delta@, delta@, 1, 1);
            lemma_mul_step(epsilon_one_plus_delta@, epsilon@, epsilon@, one_plus_delta@, opd);
        }

        let b_0 = epsilon.add(f_eval);
        let b_1a = epsilon_one_plus_delta.add(table_eval);
        let b_1b = delta.mul(table_next_eval);
        let b_1 = b_1a.add(b_1b);
        let b_2 = one_plus_delta.mul(b_0);
        let b_3 = b_2.mul(b_1);
        let b_4 = b_3.mul(lookup_sep_sq);
        let b = z2_poly.scale(b_4);
        let ghost b0 = epsilon@ + f_eval@;
        let ghost b1 = eopd + table_eval@ + delta@ * table_next_eval@;
        let ghost wb = opd * b0 * b1 * sq;
        proof {
            lemma_add_step(b_0@, epsilon@, epsilon@, f_eval@, f_eval@);
            lemma_add_step(b_1a@, epsilon_one_plus_delta@, eopd, table_eval@, table_eval@);
            lemma_mul_step(b_1b@, delta@, delta@, table_next_eval@, table_next_eval@);
            lemma_add_step(b_1@, b_1a@, eopd + table_eval@, b_1b@, delta@ * table_next_eval@);
            lemma_mul_step(b_2@, one_plus_delta@, opd, b_0@, b0);
            lemma_mul_step(b_3@, b_2@, opd * b0, b_1@, b1);
            lemma_mul_step(b_4@, b_3@, opd * b0 * b1, lookup_sep_sq@, sq);
        }

        let c_0a = z2_next_eval.neg();
        let c_0 = c_0a.mul(lookup_sep_sq);
        let c_1a = epsilon_one_plus_delta.add(h2_eval);
        let c_1b = delta.mul(h1_eval);
        let c_1 = c_1a.add(c_1b);
        let c_2 = c_0.mul(c_1);
        let c = h1_poly.scale(c_2);
        let ghost c1 = eopd + h2_eval@ + delta@ * h1_eval@;
        let ghost wc = -(z2_next_eval@ * sq) * c1;
        proof {
            lemma_neg_step(c_0a@, z2_next_eval@, z2_next_eval@);
            lemma_mul_step(c_0@, c_0a@, -z2_next_eval@, lookup_sep_sq@, sq);
            assert((-z2_next_eval@) * sq == -(z2_next_eval@ * sq)) by (nonlinear_arith);
            lemma_add_step(c_1a@, epsilon_one_plus_delta@, eopd, h2_eval@, h2_eval@);
            lemma_mul_step(c_1b@, delta@, delta@, h1_eval@, h1_eval@);
            lemma_add_step(c_1@, c_1a@, eopd + h2_eval@, c_1b@, delta@ * h1_eval@);
            lemma_mul_step(c_2@, c_0@, -(z2_next_eval@ * sq), c_1@, c1);
        }

        let d_0 = l1_eval.mul(lookup_sep_cu);
        let d = z2_poly.scale(d_0);
        let ghost wd = l1_eval@ * cu;
        proof {
            lemma_mul_step(d_0@, l1_eval@, l1_eval@, lookup_sep_cu@, cu);
        }

        let ab = a.add(&b);
        let abc = ab.add(&c);
        let r = abc.add(&d);
        proof {
            let q = self.q_lookup.0@;
            let z = z2_poly@;
            let h = h1_poly@;
            assert forall|k: int| #[trigger]
                coefficient_of(r@, k) == reduce(
                    wa * coefficient_of(q, k) + (wb + wd) * coefficient_of(z, k) + wc
                        * coefficient_of(h, k),
                ) by {
                let qk = coefficient_of(q, k);
                let zk = coefficient_of(z, k);
                let hk = coefficient_of(h, k);
                assert(a.coefficient(k) == reduce(qk * a_2@));
                assert(b.coefficient(k) == reduce(zk * b_4@));
                assert(c.coefficient(k) == reduce(hk * c_2@));
                assert(d.coefficient(k) == reduce(zk * d_0@));
                assert(ab.coefficient(k) == reduce(a.coefficient(k) + b.coefficient(k)));
                assert(abc.coefficient(k) == reduce(ab.coefficient(k) + c.coefficient(k)));
                assert(r.coefficient(k) == reduce(abc.coefficient(k) + d.coefficient(k)));
                lemma_mul_step(a.coefficient(k), qk, qk, a_2@, wa);
                lemma_mul_step(b.coefficient(k), zk, zk, b_4@, wb);
                lemma_mul_step(c.coefficient(k), hk, hk, c_2@, wc);
                lemma_mul_step(d.coefficient(k), zk, zk, d_0@, wd);
                lemma_add_step(
                    ab.coefficient(k),
                    a.coefficient(k),
                    qk * wa,
                    b.coefficient(k),
                    zk * wb,
                );
                lemma_add_step(
                    abc.coefficient(k),
                    ab.coefficient(k),
                    qk * wa + zk * wb,
                    c.coefficient(k),
                    hk * wc,
                );
                lemma_add_step(
                    r.coefficient(k),
                    abc.coefficient(k),
                    qk * wa + zk * wb + hk * wc,
                    d.coefficient(k),
                    zk * wd,
                );
                assert(qk * wa + zk * wb + hk * wc + zk * wd == wa * qk + (wb + wd) * zk + wc
                    * hk) by (nonlinear_arith);
            }
        }
        r
    }
}

/// Lookup gates verifier key.
#[derive(Clone, Copy, Debug, PartialEq, Eq)]
pub struct VerifierKey<C> {
    /// Commitment to the lookup selector.
    pub q_lookup: C,
}

impl<C: Copy> VerifierKey<C> {
    /// Extends the scalars and the commitments of the verifier's batched
    /// check by this widget's three pairs: the selector's, the
    /// accumulator's and the first sorted half's, in that order.
    pub fn compute_linearisation_commitment(
        &self,
        scalars: &mut Vec<BlsScalar>,
        points: &mut Vec<C>,
        evaluations: &ProofEvaluations,
        challenges: (BlsScalar, BlsScalar, BlsScalar),
        l1_eval: BlsScalar,
        z2_comm: C,
        h1_comm: C,
    )
        ensures
            final(points)@ == old(points)@ + seq![self.q_lookup, z2_comm, h1_comm],
            final(scalars)@.len() == old(scalars)@.len() + 3,
            final(scalars)@.subrange(0, old(scalars)@.len() as int) == old(scalars)@,
            forall|k: int|
                0 <= k < 3 ==> (#[trigger] final(scalars)@[old(scalars)@.len() + k])@
                    == linearisation_scalars(
                    *evaluations,
                    challenges.0@,
                    challenges.1@,
                    challenges.2@,
                    l1_eval@,
                )[k],
    {
        let delta = challenges.0;
        let epsilon = challenges.1;
        let zeta = challenges.2;
        let sep = evaluations.q_lookup_eval;
        let f_eval = evaluations.f_eval;
        let ghost rc = row_combination(
            evaluations.a_eval@,
            evaluations.b_eval@,
            evaluations.c_eval@,
            evaluations.d_eval@,
            zeta@,
        );
        let ghost opd = 1 + delta@;
        let ghost eopd = epsilon@ * (1 + delta@);
        let ghost sq = sep@ * sep@;
        let ghost cu = sep@ * sep@ * sep@;

        let row = compress(
            evaluations.a_eval,
            evaluations.b_eval,
            evaluations.c_eval,
            evaluations.d_eval,
            zeta,
        );
        let gap = row.sub(f_eval);
        let f = sep.mul(gap);
        proof {
            lemma_sub_step(gap@, row@, rc, f_eval@, f_eval@);
            lemma_mul_step(f@, sep@, sep@, gap@, rc - f_eval@);
            assert(sep@ * (rc - f_eval@) == (rc - f_eval@) * sep@) by (nonlinear_arith);
        }
        scalars.push(f);
        points.push(self.q_lookup);

        let one_plus_delta = BlsScalar::one().add(delta);
        let epsilon_one_plus_delta = epsilon.mul(one_plus_delta);
        let sep_sq = sep.square();
        let sep_cu = sep_sq.mul(sep);
        proof {
            lemma_add_step(one_plus_delta@, 1, 1, delta@, delta@);
            lemma_mul_step(epsilon_one_plus_delta@, epsilon@, epsilon@, one_plus_delta@, opd);
            lemma_mul_step(sep_sq@, sep@, sep@, sep@, sep@);
            lemma_mul_step(sep_cu@, sep_sq@, sq, sep@, sep@);
        }
        let z_0 = epsilon.add(f_eval);
        let z_1a = epsilon_one_plus_delta.add(evaluations.table_eval);
        let z_1b = delta.mul(evaluations.table_next_eval);
        let z_1 = z_1a.add(z_1b);
        let z_2 = l1_eval.mul(sep_cu);
        let z_3 = one_plus_delta.mul(z_0);
        let z_4 = z_3.mul(z_1);
        let z_5 = z_4.mul(sep_sq);
        let z = z_5.add(z_2);
        proof {
            let t = evaluations.table_eval@;
            let tn = evaluations.table_next_eval@;
            lemma_add_step(z_0@, epsilon@, epsilon@, f_eval@, f_eval@);
            lemma_add_step(z_1a@, epsilon_one_plus_delta@, eopd, t, t);
            lemma_mul_step(z_1b@, delta@, delta@, tn, tn);
            lemma_add_step(z_1@, z_1a@, eopd + t, z_1b@, delta@ * tn);
            lemma_mul_step(z_2@, l1_eval@, l1_eval@, sep_cu@, cu);
            lemma_mul_step(z_3@, one_plus_delta@, opd, z_0@, epsilon@ + f_eval@);
            lemma_mul_step(z_4@, z_3@, opd * (epsilon@ + f_eval@), z_1@, eopd + t + delta@ * tn);
            lemma_mul_step(
                z_5@,
                z_4@,
                opd * (epsilon@ + f_eval@) * (eopd + t + delta@ * tn),
                sep_sq@,
                sq,
            );
            lemma_add_step(
                z@,
                z_5@,
                opd * (epsilon@ + f_eval@) * (eopd + t + delta@ * tn) * sq,
                z_2@,
                l1_eval@ * cu,
            );
        }
        scalars.push(z);
        points.push(z2_comm);

        let w_0a = evaluations.z2_next_eval.neg();
        let w_0 = w_0a.mul(sep_sq);
        let w_1a = epsilon_one_plus_delta.add(evaluations.h2_eval);
        let w_1b = delta.mul(evaluations.h1_eval);
        let w_1 = w_1a.add(w_1b);
        let w = w_0.mul(w_1);
        proof {
            let zn = evaluations.z2_next_eval@;
            let h1 = evaluations.h1_eval@;
            let h2 = evaluations.h2_eval@;
            lemma_neg_step(w_0a@, zn, zn);
            lemma_mul_step(w_0@, w_0a@, -zn, sep_sq@, sq);
            lemma_add_step(w_1a@, epsilon_one_plus_delta@, eopd, h2, h2);
            lemma_mul_step(w_1b@, delta@, delta@, h1, h1);
            lemma_add_step(w_1@, w_1a@, eopd + h2, w_1b@, delta@ * h1);
            lemma_mul_step(w@, w_0@, (-zn) * sq, w_1@, eopd + h2 + delta@ * h1);
            assert((-zn) * sq == -(zn * sq)) by (nonlinear_arith);
        }
        scalars.push(w);
        points.push(h1_comm);
    }
}

/// Where the constraint holds, the quotient term is zero: if the selector
/// is off or the compressed row is the query value, if the accumulator
/// steps by the ratio of the grand product, and if the accumulator is one
/// wherever the first Lagrange polynomial is not zero, the four summands
/// cancel.
pub proof fn lemma_quotient_term_vanishes(
    q_lookup: int,
    w_l: int,
    w_r: int,
    w_o: int,
    w_4: int,
    f: int,
    table: int,
    table_next: int,
    h1: int,
    h1_next: int,
    h2: int,
    z2: int,
    z2_next: int,
    l1: int,
    delta: int,
    epsilon: int,
    zeta: int,
    sep: int,
)
    requires
        congruent(q_lookup * (row_combination(w_l, w_r, w_o, w_4, zeta) - f), 0),
        congruent(
            product_over_table(z2, f, table, table_next, delta, epsilon),
            product_over_sorted(z2_next, h1, h1_next, h2, delta, epsilon),
        ),
        congruent((z2 - 1) * l1, 0),
    ensures
        quotient_term(
            q_lookup,
            w_l,
            w_r,
            w_o,
            w_4,
            f,
            table,
            table_next,
            h1,
            h1_next,
            h2,
            z2,
            z2_next,
            l1,
            delta,
            epsilon,
            zeta,
            sep,
        ) == 0,
{
    lemma_quotient_term_isolates_selector(
        q_lookup,
        w_l,
        w_r,
        w_o,
        w_4,
        f,
        table,
        table_next,
        h1,
        h1_next,
        h2,
        z2,
        z2_next,
        l1,
        delta,
        epsilon,
        zeta,
        sep,
    );
    lemma_congruent_mul(q_lookup * (row_combination(w_l, w_r, w_o, w_4, zeta) - f), 0, sep, sep);
    assert(0 * sep == 0);
}

/// Where the grand product and the boundary condition hold, the quotient
/// term is the first summand alone: it is zero exactly when the selector
/// times the gap between the compressed row and the query value, times the
/// separation challenge, is a multiple of the field's prime.
pub proof fn lemma_quotient_term_isolates_selector(
    q_lookup: int,
    w_l: int,
    w_r: int,
    w_o: int,
    w_4: int,
    f: int,
    table: int,
    table_next: int,
    h1: int,
    h1_next: int,
    h2: int,
    z2: int,
    z2_next: int,
    l1: int,
    delta: int,
    epsilon: int,
    zeta: int,
    sep: int,
)
    requires
        congruent(
            product_over_table(z2, f, table, table_next, delta, epsilon),
            product_over_sorted(z2_next, h1, h1_next, h2, delta, epsilon),
        ),
        congruent((z2 - 1) * l1, 0),
    ensures
        quotient_term(
            q_lookup,
            w_l,
            w_r,
            w_o,
            w_4,
            f,
            table,
            table_next,
            h1,
            h1_next,
            h2,
            z2,
            z2_next,
            l1,
            delta,
            epsilon,
            zeta,
            sep,
        ) == reduce(selector_summand(q_lookup, w_l, w_r, w_o, w_4, f, zeta, sep)),
{
    let s = selector_summand(q_lookup, w_l, w_r, w_o, w_4, f, zeta, sep);
    let t = table_summand(z2, f, table, table_next, delta, epsilon, sep);
    let o = sorted_summand(z2_next, h1, h1_next, h2, delta, epsilon, sep);
    let b = boundary_summand(z2, l1, sep);
    lemma_congruent_mul(
        product_over_table(z2, f, table, table_next, delta, epsilon),
        product_over_sorted(z2_next, h1, h1_next, h2, delta, epsilon),
        sep * sep,
        sep * sep,
    );
    lemma_congruent_sub(t, o, o, o);
    lemma_congruent_mul((z2 - 1) * l1, 0, sep * sep * sep, sep * sep * sep);
    assert(0 * (sep * sep * sep) == 0);
    lemma_congruent_add(s, s, t - o, 0);
    lemma_congruent_add(s + (t - o), s, b, 0);
}

/// Where a wire leaves the table while everything else stays as it was, the
/// quotient term is not zero: if the grand product and the boundary
/// condition hold, the selector and the separation challenge have inverses
/// in the field, as every element but zero has, and the compressed row is
/// not the query value, then the first summand does not vanish.
pub proof fn lemma_quotient_term_nonzero_on_violation(
    q_lookup: int,
    q_lookup_inverse: int,
    w_l: int,
    w_r: int,
    w_o: int,
    w_4: int,
    f: int,
    table: int,
    table_next: int,
    h1: int,
    h1_next: int,
    h2: int,
    z2: int,
    z2_next: int,
    l1: int,
    delta: int,
    epsilon: int,
    zeta: int,
    sep: int,
    sep_inverse: int,
)
    requires
        congruent(
            product_over_table(z2, f, table, table_next, delta, epsilon),
            product_over_sorted(z2_next, h1, h1_next, h2, delta, epsilon),
        ),
        congruent((z2 - 1) * l1, 0),
        congruent(q_lookup * q_lookup_inverse, 1),
        congruent(sep * sep_inverse, 1),
        !congruent(row_combination(w_l, w_r, w_o, w_4, zeta), f),
    ensures
        quotient_term(
            q_lookup,
            w_l,
            w_r,
            w_o,
            w_4,
            f,
            table,
            table_next,
            h1,
            h1_next,
            h2,
            z2,
            z2_next,
            l1,
            delta,
            epsilon,
            zeta,
            sep,
        ) != 0,
{
    lemma_quotient_term_isolates_selector(
        q_lookup,
        w_l,
        w_r,
        w_o,
        w_4,
        f,
        table,
        table_next,
        h1,
        h1_next,
        h2,
        z2,
        z2_next,
        l1,
        delta,
        epsilon,
        zeta,
        sep,
    );
    let gap = row_combination(w_l, w_r, w_o, w_4, zeta) - f;
    let s = selector_summand(q_lookup, w_l, w_r, w_o, w_4, f, zeta, sep);
    if congruent(s, 0) {
        let undo = q_lookup_inverse * sep_inverse;
        let qq = q_lookup * q_lookup_inverse;
        let ss = sep * sep_inverse;
        lemma_congruent_mul(s, 0, undo, undo);
        assert(0 * undo == 0);
        assert(s * undo == gap * (qq * ss)) by (nonlinear_arith)
            requires
                s == q_lookup * gap * sep,
                undo == q_lookup_inverse * sep_inverse,
                qq == q_lookup * q_lookup_inverse,
                ss == sep * sep_inverse,
        ;
        lemma_congruent_mul(qq, 1, ss, 1);
        lemma_congruent_mul(gap, gap, qq * ss, 1);
        assert(gap * 1 == gap);
        lemma_congruent_add(gap, 0, f, f);
    }
}

/// The fourth summand of the quotient term is zero wherever the first
/// Lagrange polynomial is, and wherever the accumulator is one.
pub proof fn lemma_boundary_summand_vanishes(z2: int, l1: int, sep: int)
    ensures
        congruent(l1, 0) ==> congruent(boundary_summand(z2, l1, sep), 0),
        congruent(z2, 1) ==> congruent(boundary_summand(z2, l1, sep), 0),
{
    if congruent(l1, 0) {
        lemma_congruent_mul(z2 - 1, z2 - 1, l1, 0);
        assert((z2 - 1) * 0 == 0);
        lemma_congruent_mul((z2 - 1) * l1, 0, sep * sep * sep, sep * sep * sep);
        assert(0 * (sep * sep * sep) == 0);
    }
    if congruent(z2, 1) {
        lemma_congruent_sub(z2, 1, 1, 1);
        lemma_congruent_mul(z2 - 1, 0, l1, l1);
        assert(0 * l1 == 0);
        lemma_congruent_mul((z2 - 1) * l1, 0, sep * sep * sep, sep * sep * sep);
        assert(0 * (sep * sep * sep) == 0);
    }
}

/// Over a domain on which the first Lagrange polynomial is zero at every
/// point but the first, the fourth summand of the quotient term is zero at
/// every point but the first; and there too, if the accumulator starts at
/// one.
pub proof fn lemma_boundary_condition(z2: Seq<int>, l1: Seq<int>, sep: int)
    requires
        z2.len() == l1.len(),
        forall|i: int| 0 < i < l1.len() ==> congruent(#[trigger] l1[i], 0),
    ensures
        forall|i: int|
            0 < i < l1.len() ==> reduce(boundary_summand(#[trigger] z2[i], l1[i], sep)) == 0,
        l1.len() > 0 && congruent(z2[0], 1) ==> reduce(boundary_summand(z2[0], l1[0], sep)) == 0,
{
    assert forall|i: int| 0 < i < l1.len() implies reduce(
        boundary_summand(#[trigger] z2[i], l1[i], sep),
    ) == 0 by {
        lemma_boundary_summand_vanishes(z2[i], l1[i], sep);
    }
    if l1.len() > 0 && congruent(z2[0], 1) {
        lemma_boundary_summand_vanishes(z2[0], l1[0], sep);
    }
}

/// The prover's and the verifier's side agree: at every point, the value of
/// the linearisation polynomial is the sum of the verifier's three scalars,
/// each times the value there of the polynomial whose commitment it is
/// paired with. The prover's separation challenge is the value that the
/// proof carries in `q_lookup_eval`.
pub proof fn lemma_linearisation_agrees_with_commitment(
    linearisation: Seq<int>,
    q_lookup: Seq<int>,
    z2: Seq<int>,
    h1: Seq<int>,
    evaluations: ProofEvaluations,
    delta: int,
    epsilon: int,
    zeta: int,
    l1: int,
    point: int,
)
    requires
        is_combination(
            linearisation,
            q_lookup,
            z2,
            h1,
            selector_scalar(
                evaluations.a_eval@,
                evaluations.b_eval@,
                evaluations.c_eval@,
                evaluations.d_eval@,
                evaluations.f_eval@,
                zeta,
                evaluations.q_lookup_eval@,
            ),
            accumulator_scalar(
                evaluations.f_eval@,
                evaluations.table_eval@,
                evaluations.table_next_eval@,
                l1,
                delta,
                epsilon,
                evaluations.q_lookup_eval@,
            ),
            sorted_scalar(
                evaluations.z2_next_eval@,
                evaluations.h1_eval@,
                evaluations.h2_eval@,
                delta,
                epsilon,
                evaluations.q_lookup_eval@,
            ),
        ),
    ensures
        ({
            let s = linearisation_scalars(evaluations, delta, epsilon, zeta, l1);
            evaluation(linearisation, point) == reduce(
                s[0] * evaluation(q_lookup, point) + s[1] * evaluation(z2, point) + s[2]
                    * evaluation(h1, point),
            )
        }),
{
    let sep = evaluations.q_lookup_eval@;
    let wq = selector_scalar(
        evaluations.a_eval@,
        evaluations.b_eval@,
        evaluations.c_eval@,
        evaluations.d_eval@,
        evaluations.f_eval@,
        zeta,
        sep,
    );
    let wz = accumulator_scalar(
        evaluations.f_eval@,
        evaluations.table_eval@,
        evaluations.table_next_eval@,
        l1,
        delta,
        epsilon,
        sep,
    );
    let wh = sorted_scalar(
        evaluations.z2_next_eval@,
        evaluations.h1_eval@,
        evaluations.h2_eval@,
        delta,
        epsilon,
        sep,
    );
    let eq = linear_combination(q_lookup, point);
    let ez = linear_combination(z2, point);
    let eh = linear_combination(h1, point);
    lemma_evaluation_of_combination(linearisation, q_lookup, z2, h1, wq, wz, wh, point);
    lemma_reduce_range(wq);
    lemma_reduce_range(wz);
    lemma_reduce_range(wh);
    lemma_reduce_range(eq);
    lemma_reduce_range(ez);
    lemma_reduce_range(eh);
    lemma_congruent_mul(reduce(wq), wq, reduce(eq), eq);
    lemma_congruent_mul(reduce(wz), wz, reduce(ez), ez);
    lemma_congruent_mul(reduce(wh), wh, reduce(eh), eh);
    lemma_congruent_add(reduce(wq) * reduce(eq), wq * eq, reduce(wz) * reduce(ez), wz * ez);
    lemma_congruent_add(
        reduce(wq) * reduce(eq) + reduce(wz) * reduce(ez),
        wq * eq + wz * ez,
        reduce(wh) * reduce(eh),
        wh * eh,
    );
}

} // verus!
