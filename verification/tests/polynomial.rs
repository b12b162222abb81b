use ark_ff::{BigInteger256, PrimeField};
use ark_poly::univariate::DensePolynomial;
use ark_poly::{Polynomial as ArkPolynomial, UVPolynomial};
use plonk_core::domain::{EvaluationDomain, TWO_ADICITY};
use plonk_core::field::BlsScalar;
use plonk_core::polynomial::Polynomial;

fn s(x: u64) -> BlsScalar {
    BlsScalar::from_u64(x)
}

fn poly(values: &[u64]) -> Polynomial {
    Polynomial::from_coefficients_vec(values.iter().map(|x| s(*x)).collect())
}

fn to_ark(x: BlsScalar) -> ark_bls12_381::Fr {
    ark_bls12_381::Fr::from_repr(BigInteger256(x.to_limbs())).unwrap()
}

#[test]
fn from_coefficients_vec_drops_zeros_at_the_end() {
    assert_eq!(poly(&[1, 0, 2, 0, 0]).coeffs(), &vec![s(1), s(0), s(2)]);
    assert_eq!(poly(&[0, 0, 0]).coeffs(), &Vec::<BlsScalar>::new());
    assert_eq!(poly(&[]).coeffs(), &Vec::<BlsScalar>::new());
    assert_eq!(poly(&[0, 5]).coeffs(), &vec![s(0), s(5)]);
    assert!(poly(&[0, 0]).is_zero());
    assert!(!poly(&[0, 1]).is_zero());
    assert!(Polynomial::zero().is_zero());
    assert_eq!(Polynomial::zero(), poly(&[0]));
}

#[test]
fn clone_keeps_the_coefficients() {
    let p = poly(&[4, 5, 6]);
    assert_eq!(p.clone(), p);
}

#[test]
fn scale_multiplies_every_coefficient() {
    assert_eq!(poly(&[1, 2, 3]).scale(s(5)), poly(&[5, 10, 15]));
    assert_eq!(poly(&[1, 2, 3]).scale(s(0)), Polynomial::zero());
    assert_eq!(Polynomial::zero().scale(s(5)), Polynomial::zero());
    let negated = poly(&[1, 2]).scale(s(1).neg());
    assert_eq!(negated.coeffs(), &vec![s(1).neg(), s(2).neg()]);
}

#[test]
fn add_sums_coefficient_by_coefficient() {
    assert_eq!(poly(&[1, 2, 3]).add(&poly(&[10, 20])), poly(&[11, 22, 3]));
    assert_eq!(poly(&[10, 20]).add(&poly(&[1, 2, 3])), poly(&[11, 22, 3]));
    assert_eq!(poly(&[1, 2]).add(&Polynomial::zero()), poly(&[1, 2]));
    assert_eq!(Polynomial::zero().add(&poly(&[1, 2])), poly(&[1, 2]));
}

#[test]
fn add_drops_the_coefficients_that_cancel() {
    let p = poly(&[1, 2, 3]);
    let q = Polynomial::from_coefficients_vec(vec![s(4), s(2).neg(), s(3).neg()]);
    assert_eq!(p.add(&q), poly(&[5]));
    assert_eq!(p.add(&p.scale(s(1).neg())), Polynomial::zero());
}

#[test]
fn evaluate_is_the_value_at_the_point() {
    // 1 + 2*3 + 3*9 = 34
    assert_eq!(poly(&[1, 2, 3]).evaluate(s(3)), s(34));
    assert_eq!(poly(&[1, 2, 3]).evaluate(s(0)), s(1));
    assert_eq!(Polynomial::zero().evaluate(s(3)), s(0));
}

#[test]
fn polynomial_operations_agree_with_dense_polynomials() {
    let a = vec![s(3), s(1).neg(), s(7), s(9)];
    let b = vec![s(5), s(2), s(7).neg(), s(9).neg()];
    let dense_a = DensePolynomial::from_coefficients_vec(a.iter().map(|c| to_ark(*c)).collect());
    let dense_b = DensePolynomial::from_coefficients_vec(b.iter().map(|c| to_ark(*c)).collect());
    let pa = Polynomial::from_coefficients_vec(a);
    let pb = Polynomial::from_coefficients_vec(b);
    let sum = pa.add(&pb);
    let expected_sum = &dense_a + &dense_b;
    assert_eq!(
        sum.coeffs().iter().map(|c| to_ark(*c)).collect::<Vec<_>>(),
        expected_sum.coeffs
    );
    assert_eq!(sum.coeffs().len(), 2);
    let factor = s(123456789);
    let scaled = pa.scale(factor);
    let expected_scaled = &dense_a * to_ark(factor);
    assert_eq!(
        scaled.coeffs().iter().map(|c| to_ark(*c)).collect::<Vec<_>>(),
        expected_scaled.coeffs
    );
    let point = s(987654321);
    assert_eq!(to_ark(pa.evaluate(point)), dense_a.evaluate(&to_ark(point)));
}

#[test]
fn domain_size_is_the_next_power_of_two() {
    let sizes = [(0usize, 1usize, 0u32), (1, 1, 0), (2, 2, 1), (3, 4, 2), (4, 4, 2), (5, 8, 3), (1000, 1024, 10)];
    for (num_coeffs, size, log) in sizes {
        let d = EvaluationDomain::new(num_coeffs).unwrap();
        assert_eq!(d.size(), size);
        assert_eq!(d.log_size_of_group(), log);
    }
}

#[test]
fn domain_exists_up_to_the_two_adicity() {
    assert_eq!(TWO_ADICITY, 32);
    let largest = EvaluationDomain::new(1usize << 32).unwrap();
    assert_eq!(largest.size(), 1usize << 32);
    assert_eq!(largest.log_size_of_group(), 32);
    assert_eq!(EvaluationDomain::new((1usize << 31) + 1).unwrap().size(), 1usize << 32);
    assert!(EvaluationDomain::new((1usize << 32) + 1).is_none());
    assert!(EvaluationDomain::new(1usize << 33).is_none());
    assert!(EvaluationDomain::new(usize::MAX).is_none());
    assert!(EvaluationDomain::new(usize::MAX / 2 + 1).is_none());
    assert!(EvaluationDomain::new(usize::MAX / 2 + 2).is_none());
}
