use ark_ff::{BigInteger256, Field, PrimeField};
use plonk_core::domain::EvaluationDomain;
use plonk_core::error::Error;
use plonk_core::field::BlsScalar;
use plonk_core::lookup::multiset::MultiSet;
use plonk_core::polynomial::Polynomial;
use plonk_core::proof_system::linearisation_poly::ProofEvaluations;
use plonk_core::proof_system::widget::lookup::{ProverKey, VerifierKey};

fn s(x: u64) -> BlsScalar {
    BlsScalar::from_u64(x)
}

fn scalars(values: &[u64]) -> Vec<BlsScalar> {
    values.iter().map(|x| s(*x)).collect()
}

fn ms(values: &[u64]) -> MultiSet {
    MultiSet {
        elements: scalars(values),
    }
}

fn invert(x: BlsScalar) -> BlsScalar {
    let ark = ark_bls12_381::Fr::from_repr(BigInteger256(x.to_limbs())).unwrap();
    BlsScalar::from_limbs(ark.inverse().unwrap().into_repr().0).unwrap()
}

fn prover_key(q_lookup_poly: &[u64], q_lookup_evals: &[u64]) -> ProverKey {
    ProverKey {
        q_lookup: (
            Polynomial::from_coefficients_vec(scalars(q_lookup_poly)),
            scalars(q_lookup_evals),
        ),
        table_1: ms(&[1, 2, 3, 4]),
        table_2: ms(&[0, 0, 0, 0]),
        table_3: ms(&[0, 0, 0, 0]),
        table_4: ms(&[0, 0, 0, 0]),
    }
}

fn evaluations() -> ProofEvaluations {
    ProofEvaluations {
        a_eval: s(1),
        b_eval: s(2),
        c_eval: s(3),
        d_eval: s(4),
        a_next_eval: s(0),
        b_next_eval: s(0),
        d_next_eval: s(0),
        f_eval: s(40),
        table_eval: s(7),
        table_next_eval: s(1),
        h1_eval: s(2),
        h2_eval: s(3),
        z2_next_eval: s(6),
        q_lookup_eval: s(2),
    }
}

/// The step of the grand product over the first row of the table `{1, 2, 3, 4}`
/// and the query `{2}`: the next value of an accumulator that starts at one.
fn accumulator_step(
    f: BlsScalar,
    table: &MultiSet,
    h1: &MultiSet,
    h2: &MultiSet,
    delta: BlsScalar,
    epsilon: BlsScalar,
) -> BlsScalar {
    let one_plus_delta = s(1).add(delta);
    let shift = epsilon.mul(one_plus_delta);
    let t = table.get(0).unwrap();
    let t_next = table.get(1).unwrap();
    let numerator = one_plus_delta
        .mul(epsilon.add(f))
        .mul(shift.add(t).add(delta.mul(t_next)));
    let denominator = shift
        .add(h1.get(0).unwrap())
        .add(delta.mul(h2.get(0).unwrap()))
        .mul(
            shift
                .add(h2.get(0).unwrap())
                .add(delta.mul(h1.get(1).unwrap())),
        );
    numerator.mul(invert(denominator))
}

#[test]
fn quotient_term_has_the_value_of_the_formula() {
    let pk = prover_key(&[1], &[0, 1]);
    // selector: 1 * (49 - 40) * 2 = 18
    // table: 5 * 2 * 43 * 14 * 4 = 24080
    // sorted: 6 * 11 * 13 * 4 = 3432
    // boundary: (5 - 1) * 1 * 8 = 32
    let term = pk.compute_quotient_i(
        1,
        s(1),
        s(2),
        s(3),
        s(4),
        s(40),
        s(7),
        s(1),
        s(2),
        s(4),
        s(3),
        s(5),
        s(6),
        s(1),
        s(1),
        s(3),
        s(2),
        s(2),
    );
    assert_eq!(term, s(18 + 24080 - 3432 + 32));
}

#[test]
fn quotient_term_reads_the_selector_at_the_index() {
    let pk = prover_key(&[1], &[0, 1]);
    let term = pk.compute_quotient_i(
        0,
        s(1),
        s(2),
        s(3),
        s(4),
        s(40),
        s(7),
        s(1),
        s(2),
        s(4),
        s(3),
        s(5),
        s(6),
        s(1),
        s(1),
        s(3),
        s(2),
        s(2),
    );
    assert_eq!(term, s(24080 - 3432 + 32));
}

#[test]
fn quotient_term_can_be_negative() {
    let pk = prover_key(&[1], &[1]);
    // selector: 1 * (1 - 2) * 3 = -3; all else zero
    let term = pk.compute_quotient_i(
        0,
        s(1),
        s(0),
        s(0),
        s(0),
        s(2),
        s(0),
        s(0),
        s(0),
        s(0),
        s(0),
        s(0),
        s(0),
        s(0),
        s(0),
        s(0),
        s(5),
        s(3),
    );
    assert_eq!(term, s(3).neg());
}

#[test]
fn quotient_term_is_zero_on_a_satisfying_row() {
    let mut table = ms(&[1, 2, 3, 4]);
    table.pad(4);
    assert_eq!(table, ms(&[1, 2, 3, 4]));
    let query = ms(&[2]);
    assert!(table.contains_all(&query));
    let (h1, h2) = table.combine_split(&query);
    let (delta, epsilon, zeta, sep) = (s(11), s(13), s(17), s(19));
    let f = plonk_core::util::compress(s(2), s(0), s(0), s(0), zeta);
    assert_eq!(f, query.get(0).unwrap());
    let z2 = s(1);
    let z2_next = accumulator_step(f, &table, &h1, &h2, delta, epsilon);
    let pk = prover_key(&[1], &[1]);
    let term = pk.compute_quotient_i(
        0,
        s(2),
        s(0),
        s(0),
        s(0),
        f,
        table.get(0).unwrap(),
        table.get(1).unwrap(),
        h1.get(0).unwrap(),
        h1.get(1).unwrap(),
        h2.get(0).unwrap(),
        z2,
        z2_next,
        s(1),
        delta,
        epsilon,
        zeta,
        sep,
    );
    assert_eq!(term, s(0));
}

#[test]
fn quotient_term_is_not_zero_when_the_query_is_not_in_the_table() {
    let table = ms(&[1, 2, 3, 4]);
    let query = ms(&[2]);
    let (h1, h2) = table.combine_split(&query);
    let (delta, epsilon, zeta, sep) = (s(11), s(13), s(17), s(19));
    let z2_next = accumulator_step(s(2), &table, &h1, &h2, delta, epsilon);
    let pk = prover_key(&[1], &[1]);
    assert!(!table.contains(s(5)));
    let term = pk.compute_quotient_i(
        0,
        s(2),
        s(0),
        s(0),
        s(0),
        s(5),
        table.get(0).unwrap(),
        table.get(1).unwrap(),
        h1.get(0).unwrap(),
        h1.get(1).unwrap(),
        h2.get(0).unwrap(),
        s(1),
        z2_next,
        s(1),
        delta,
        epsilon,
        zeta,
        sep,
    );
    assert_ne!(term, s(0));
}

#[test]
fn quotient_term_is_not_zero_when_a_wire_leaves_the_table() {
    let table = ms(&[1, 2, 3, 4]);
    let query = ms(&[2]);
    let (h1, h2) = table.combine_split(&query);
    let (delta, epsilon, zeta, sep) = (s(11), s(13), s(17), s(19));
    let z2_next = accumulator_step(s(2), &table, &h1, &h2, delta, epsilon);
    let pk = prover_key(&[1], &[1]);
    // the left wire holds 5 where the query says 2: only the first summand
    // is left, 1 * (5 - 2) * 19
    let term = pk.compute_quotient_i(
        0,
        s(5),
        s(0),
        s(0),
        s(0),
        s(2),
        table.get(0).unwrap(),
        table.get(1).unwrap(),
        h1.get(0).unwrap(),
        h1.get(1).unwrap(),
        h2.get(0).unwrap(),
        s(1),
        z2_next,
        s(1),
        delta,
        epsilon,
        zeta,
        sep,
    );
    assert_eq!(term, s(57));
}

#[test]
fn boundary_summand_shows_only_where_the_first_lagrange_polynomial_is_not_zero() {
    let pk = prover_key(&[1], &[0, 0, 0, 0]);
    let l1 = [1u64, 0, 0, 0];
    let z2 = [1u64, 8, 9, 10];
    for i in 0..4 {
        // every evaluation zero but the accumulator and the first Lagrange
        // polynomial: the fourth summand is all that is left
        let term = pk.compute_quotient_i(
            i,
            s(0),
            s(0),
            s(0),
            s(0),
            s(0),
            s(0),
            s(0),
            s(0),
            s(0),
            s(0),
            s(z2[i]),
            s(0),
            s(l1[i]),
            s(1).neg(),
            s(0),
            s(3),
            s(5),
        );
        assert_eq!(term, s(0));
    }
    // an accumulator that does not start at one shows at the first point:
    // (4 - 1) * 1 * 125
    let term = pk.compute_quotient_i(
        0,
        s(0),
        s(0),
        s(0),
        s(0),
        s(0),
        s(0),
        s(0),
        s(0),
        s(0),
        s(0),
        s(4),
        s(0),
        s(1),
        s(1).neg(),
        s(0),
        s(3),
        s(5),
    );
    assert_eq!(term, s(375));
}

#[test]
fn lookup_quotient_term_covers_the_extended_domain() {
    let domain = EvaluationDomain::new(2).unwrap();
    let pk = prover_key(&[1], &[1, 0, 1, 0, 1, 0, 1, 0]);
    let wl = scalars(&[1, 2, 3, 4, 5, 6, 7, 8]);
    let wr = scalars(&[2, 3, 4, 5, 6, 7, 8, 9]);
    let wo = scalars(&[3, 4, 5, 6, 7, 8, 9, 10]);
    let w4 = scalars(&[4, 5, 6, 7, 8, 9, 10, 11]);
    let f = scalars(&[40, 41, 42, 43, 44, 45, 46, 47]);
    let table = scalars(&[7, 8, 9, 10, 11, 12, 13, 14, 7, 8, 9, 10]);
    let h1 = scalars(&[2, 3, 4, 5, 6, 7, 8, 9, 2, 3, 4, 5]);
    let h2 = scalars(&[3, 4, 5, 6, 7, 8, 9, 10]);
    let z2 = scalars(&[5, 6, 7, 8, 9, 10, 11, 12, 5, 6, 7, 8]);
    let l1 = scalars(&[1, 0, 3, 0, 5, 0, 7, 0]);
    let quotient = pk
        .compute_lookup_quotient_term(
            &domain, &wl, &wr, &wo, &w4, &f, &table, &h1, &h2, &z2, &l1, s(1), s(3), s(2), s(2),
        )
        .unwrap();
    assert_eq!(quotient.len(), 8);
    for i in 0..8 {
        let expected = pk.compute_quotient_i(
            i,
            wl[i],
            wr[i],
            wo[i],
            w4[i],
            f[i],
            table[i],
            table[i + 4],
            h1[i],
            h1[i + 4],
            h2[i],
            z2[i],
            z2[i + 4],
            l1[i],
            s(1),
            s(3),
            s(2),
            s(2),
        );
        assert_eq!(quotient[i], expected);
    }
    // the first point by hand: the next row of point 0 is point 4
    // selector: 1 * (49 - 40) * 2 = 18
    // table: 5 * 2 * 43 * (6 + 7 + 11) * 4 = 41280
    // sorted: 9 * (6 + 2 + 3) * (6 + 3 + 6) * 4 = 5940
    // boundary: (5 - 1) * 1 * 8 = 32
    assert_eq!(quotient[0], s(18 + 41280 - 5940 + 32));
}

#[test]
fn lookup_quotient_term_fails_beyond_the_two_adicity() {
    let domain = EvaluationDomain::new(1usize << 31).unwrap();
    let pk = prover_key(&[1], &[]);
    let none: Vec<BlsScalar> = Vec::new();
    let r = pk.compute_lookup_quotient_term(
        &domain, &none, &none, &none, &none, &none, &none, &none, &none, &none, &none, s(1), s(3),
        s(2), s(2),
    );
    assert_eq!(
        r,
        Err(Error::InvalidEvalDomainSize {
            log_size_of_group: 33,
            adicity: 32,
        })
    );
    let domain = EvaluationDomain::new(1usize << 32).unwrap();
    let r = pk.compute_lookup_quotient_term(
        &domain, &none, &none, &none, &none, &none, &none, &none, &none, &none, &none, s(1), s(3),
        s(2), s(2),
    );
    assert_eq!(
        r,
        Err(Error::InvalidEvalDomainSize {
            log_size_of_group: 34,
            adicity: 32,
        })
    );
}

#[test]
fn linearisation_weighs_the_open_polynomials() {
    let pk = prover_key(&[1, 2], &[]);
    let z2_poly = Polynomial::from_coefficients_vec(scalars(&[3]));
    let h1_poly = Polynomial::from_coefficients_vec(scalars(&[0, 1]));
    let lin = pk.compute_linearisation(
        s(1),
        s(1),
        s(2),
        s(3),
        s(4),
        s(40),
        s(7),
        s(1),
        s(2),
        s(3),
        s(6),
        s(1),
        s(3),
        s(2),
        &z2_poly,
        &h1_poly,
        s(2),
    );
    // selector weight: (49 - 40) * 2 = 18
    // accumulator weight: 2 * 43 * 14 * 4 + 1 * 8 = 4824
    // sorted weight: -(6 * 4) * (6 + 3 + 2) = -264
    // 18 * (1 + 2x) + 4824 * 3 - 264 * x
    assert_eq!(lin.coeffs(), &vec![s(18 + 14472), s(228).neg()]);
}

#[test]
fn linearisation_commitment_appends_three_pairs() {
    let vk = VerifierKey { q_lookup: 'q' };
    let mut scalars_out = vec![s(99)];
    let mut points = vec!['p'];
    vk.compute_linearisation_commitment(
        &mut scalars_out,
        &mut points,
        &evaluations(),
        (s(1), s(3), s(2)),
        s(1),
        'z',
        'h',
    );
    assert_eq!(points, vec!['p', 'q', 'z', 'h']);
    assert_eq!(
        scalars_out,
        vec![s(99), s(18), s(4824), s(264).neg()]
    );
}

#[test]
fn linearisation_and_commitment_agree_at_a_point() {
    let pk = prover_key(&[5, 0, 7, 1], &[]);
    let z2_poly = Polynomial::from_coefficients_vec(scalars(&[3, 1, 4, 1, 5, 9]));
    let h1_poly = Polynomial::from_coefficients_vec(scalars(&[2, 7, 1, 8]));
    let e = ProofEvaluations {
        a_eval: s(101),
        b_eval: s(102).neg(),
        c_eval: s(103),
        d_eval: s(104),
        a_next_eval: s(0),
        b_next_eval: s(0),
        d_next_eval: s(0),
        f_eval: s(105),
        table_eval: s(106).neg(),
        table_next_eval: s(107),
        h1_eval: s(108),
        h2_eval: s(109),
        z2_next_eval: s(110),
        q_lookup_eval: s(111),
    };
    let (delta, epsilon, zeta, l1) = (s(21), s(22).neg(), s(23), s(24));
    let lin = pk.compute_linearisation(
        l1,
        e.a_eval,
        e.b_eval,
        e.c_eval,
        e.d_eval,
        e.f_eval,
        e.table_eval,
        e.table_next_eval,
        e.h1_eval,
        e.h2_eval,
        e.z2_next_eval,
        delta,
        epsilon,
        zeta,
        &z2_poly,
        &h1_poly,
        e.q_lookup_eval,
    );
    let vk = VerifierKey { q_lookup: 0u8 };
    let mut scalars_out = Vec::new();
    let mut points = Vec::new();
    vk.compute_linearisation_commitment(
        &mut scalars_out,
        &mut points,
        &e,
        (delta, epsilon, zeta),
        l1,
        1u8,
        2u8,
    );
    assert_eq!(points, vec![0u8, 1, 2]);
    for point in [s(0), s(1), s(31337), s(5).neg()] {
        let opened = scalars_out[0]
            .mul(pk.q_lookup.0.evaluate(point))
            .add(scalars_out[1].mul(z2_poly.evaluate(point)))
            .add(scalars_out[2].mul(h1_poly.evaluate(point)));
        assert_eq!(lin.evaluate(point), opened);
    }
}

#[test]
fn prover_key_clone_is_equal() {
    let pk = prover_key(&[1, 2], &[3, 4]);
    assert_eq!(pk.clone(), pk);
}
