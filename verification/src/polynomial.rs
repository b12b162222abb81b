//! Univariate polynomials over the scalar field, in coefficient form.

use crate::field::{
    clone_scalars, congruent, lemma_congruent_add, lemma_congruent_mul, lemma_reduce_range, reduce,
    scalar_values, BlsScalar,
};
use crate::util::{lc, linear_combination};
use ark_ff::BigInteger256;
use ark_ff::PrimeField;
use ark_poly::univariate::DensePolynomial;
use ark_poly::UVPolynomial;
use vstd::prelude::*;

verus! {

/// The coefficient of `x^k` in the polynomial that `coeffs` spells: zero
/// beyond its end.
pub open spec fn coefficient_of(coeffs: Seq<int>, k: int) -> int {
    if 0 <= k < coeffs.len() {
        coeffs[k]
    } else {
        0
    }
}

/// The last coefficient, if there is one, is not zero.
pub open spec fn is_normalised(coeffs: Seq<int>) -> bool {
    coeffs.len() == 0 || coeffs.last() != 0
}

/// The value at `point` of the polynomial that `coeffs` spells.
pub open spec fn evaluation(coeffs: Seq<int>, point: int) -> int {
    reduce(linear_combination(coeffs, point))
}

/// The coefficients from the second on; nothing, if there is none.
pub open spec fn tail(coeffs: Seq<int>) -> Seq<int> {
    if coeffs.len() == 0 {
        coeffs
    } else {
        coeffs.drop_first()
    }
}

/// The value of a polynomial is its constant coefficient plus the point
/// times the value of its tail.
pub proof fn lemma_evaluation_unfold(coeffs: Seq<int>, point: int)
    ensures
        linear_combination(coeffs, point) == coefficient_of(coeffs, 0) + point
            * linear_combination(tail(coeffs), point),
        forall|k: int| 0 <= k ==> coefficient_of(tail(coeffs), k) == coefficient_of(coeffs, k + 1),
        forall|k: int| k < 0 ==> coefficient_of(tail(coeffs), k) == 0,
{
    if coeffs.len() == 0 {
        assert(point * 0 == 0) by (nonlinear_arith);
    }
}

/// Evaluation is linear: a polynomial whose every coefficient is congruent
/// to a weighted sum of the coefficients of three others takes, at every
/// point, a value congruent to the same weighted sum of their values.
pub proof fn lemma_evaluation_of_combination(
    r: Seq<int>,
    a: Seq<int>,
    b: Seq<int>,
    c: Seq<int>,
    wa: int,
    wb: int,
    wc: int,
    point: int,
)
    requires
        forall|k: int| #[trigger]
            coefficient_of(r, k) == reduce(
                wa * coefficient_of(a, k) + wb * coefficient_of(b, k) + wc * coefficient_of(c, k),
            ),
    ensures
        congruent(
            linear_combination(r, point),
            wa * linear_combination(a, point) + wb * linear_combination(b, point) + wc
                * linear_combination(c, point),
        ),
    decreases r.len() + a.len() + b.len() + c.len(),
{
    if r.len() == 0 && a.len() == 0 && b.len() == 0 && c.len() == 0 {
        assert(wa * 0 + wb * 0 + wc * 0 == 0) by (nonlinear_arith);
    } else {
        let tr = tail(r);
        let ta = tail(a);
        let tb = tail(b);
        let tc = tail(c);
        lemma_evaluation_unfold(r, point);
        lemma_evaluation_unfold(a, point);
        lemma_evaluation_unfold(b, point);
        lemma_evaluation_unfold(c, point);
        assert forall|k: int| #[trigger]
            coefficient_of(tr, k) == reduce(
                wa * coefficient_of(ta, k) + wb * coefficient_of(tb, k) + wc * coefficient_of(
                    tc,
                    k,
                ),
            ) by {
            if k >= 0 {
                assert(coefficient_of(tr, k) == coefficient_of(r, k + 1));
            } else {
                assert(coefficient_of(r, k) == 0);
            }
        }
        lemma_evaluation_of_combination(tr, ta, tb, tc, wa, wb, wc, point);
        let r0 = coefficient_of(r, 0);
        let a0 = coefficient_of(a, 0);
        let b0 = coefficient_of(b, 0);
        let c0 = coefficient_of(c, 0);
        let er = linear_combination(tr, point);
        let ea = linear_combination(ta, point);
        let eb = linear_combination(tb, point);
        let ec = linear_combination(tc, point);
        lemma_reduce_range(wa * a0 + wb * b0 + wc * c0);
        lemma_congruent_mul(point, point, er, wa * ea + wb * eb + wc * ec);
        lemma_congruent_add(
            r0,
            wa * a0 + wb * b0 + wc * c0,
            point * er,
            point * (wa * ea + wb * eb + wc * ec),
        );
        let pa = point * ea;
        let pb = point * eb;
        let pc = point * ec;
        let xa = wa * ea;
        let xb = wb * eb;
        let xc = wc * ec;
        assert(point * (xa + xb + xc) == point * xa + point * xb + point * xc)
            by (nonlinear_arith);
        assert(point * xa == wa * pa) by (nonlinear_arith)
            requires
                xa == wa * ea,
                pa == point * ea,
        ;
        assert(point * xb == wb * pb) by (nonlinear_arith)
            requires
                xb == wb * eb,
                pb == point * eb,
        ;
        assert(point * xc == wc * pc) by (nonlinear_arith)
            requires
                xc == wc * ec,
                pc == point * ec,
        ;
        assert(wa * (a0 + pa) == wa * a0 + wa * pa) by (nonlinear_arith);
        assert(wb * (b0 + pb) == wb * b0 + wb * pb) by (nonlinear_arith);
        assert(wc * (c0 + pc) == wc * c0 + wc * pc) by (nonlinear_arith);
    }
}

/// A polynomial in coefficient form: the coefficient of `x^i` stands at
/// position `i`, and the last coefficient is not zero.
#[derive(Debug, PartialEq, Eq)]
pub struct Polynomial {
    coeffs: Vec<BlsScalar>,
}

impl View for Polynomial {
    type V = Seq<int>;

    closed spec fn view(&self) -> Seq<int> {
        scalar_values(self.coeffs@)
    }
}

impl Clone for Polynomial {
    fn clone(&self) -> (r: Self)
        ensures
            r@ == self@,
    {
        proof {
            use_type_invariant(self);
        }
        Polynomial { coeffs: clone_scalars(&self.coeffs) }
    }
}

impl Polynomial {
    #[verifier::type_invariant]
    spec fn normalised(self) -> bool {
        is_normalised(scalar_values(self.coeffs@))
    }

    /// The coefficient of `x^k`.
    pub open spec fn coefficient(self, k: int) -> int {
        coefficient_of(self@, k)
    }

    /// The zero polynomial.
    pub fn zero() -> (r: Self)
        ensures
            r@.len() == 0,
    {
        Polynomial { coeffs: Vec::new() }
    }

    /// The polynomial with the given coefficients, lowest degree first.
    /// Zeros at the end are dropped.
    pub fn from_coefficients_vec(coeffs: Vec<BlsScalar>) -> (r: Self)
        ensures
            is_normalised(r@),
            r@.len() <= coeffs@.len(),
            r@ == scalar_values(coeffs@).subrange(0, r@.len() as int),
            forall|k: int| r@.len() <= k < coeffs@.len() ==> (#[trigger] coeffs@[k])@ == 0,
    {
        let mut coeffs = coeffs;
        let ghost given = coeffs@;
        while coeffs.len() > 0 && coeffs[coeffs.len() - 1].is_zero()
            invariant
                coeffs@.len() <= given.len(),
                coeffs@ == given.subrange(0, coeffs@.len() as int),
                forall|k: int| coeffs@.len() <= k < given.len() ==> (#[trigger] given[k])@ == 0,
            decreases coeffs.len(),
        {
            coeffs.pop();
        }
        proof {
            assert(scalar_values(coeffs@) =~= scalar_values(given).subrange(
                0,
                coeffs@.len() as int,
            ));
        }
        Polynomial { coeffs }
    }

    /// The coefficients, lowest degree first.
    pub fn coeffs(&self) -> (r: &Vec<BlsScalar>)
        ensures
            scalar_values(r@) == self@,
            is_normalised(self@),
    {
        proof {
            use_type_invariant(self);
        }
        &self.coeffs
    }

    /// Whether this is the zero polynomial.
    pub fn is_zero(&self) -> (r: bool)
        ensures
            r == (self@.len() == 0),
    {
        self.coeffs.len() == 0
    }

    /// The value of the polynomial at `point`.
    pub fn evaluate(&self, point: BlsScalar) -> (r: BlsScalar)
        ensures
            r@ == evaluation(self@, point@),
    {
        lc(&self.coeffs, point)
    }

    /// The polynomial with every coefficient multiplied by `factor`.
    pub fn scale(&self, factor: BlsScalar) -> (r: Self)
        ensures
            is_normalised(r@),
            forall|k: int| #[trigger] r.coefficient(k) == reduce(self.coefficient(k) * factor@),
    {
        let r = dense_scale(self, factor);
        proof {
            use_type_invariant(&r);
        }
        r
    }

    /// The sum of two polynomials.
    pub fn add(&self, rhs: &Self) -> (r: Self)
        ensures
            is_normalised(r@),
            forall|k: int|
                #[trigger] r.coefficient(k) == reduce(self.coefficient(k) + rhs.coefficient(k)),
    {
        let r = dense_add(self, rhs);
        proof {
            use_type_invariant(&r);
        }
        r
    }
}

/// `&DensePolynomial<Fr> * Fr` of `ark_poly`: every coefficient of the
/// result is the product of the polynomial's coefficient and the factor,
/// reduced modulo the field's prime, and the result has no zero at its end.
#[verifier::external_body]
fn dense_scale(p: &Polynomial, factor: BlsScalar) -> (r: Polynomial)
    ensures
        forall|k: int| #[trigger] r.coefficient(k) == reduce(p.coefficient(k) * factor@),
{
    let dense = DensePolynomial::from_coefficients_vec(
        p.coeffs.iter().map(|c| ark_bls12_381::Fr::from_repr(BigInteger256(c.limbs)).unwrap()).collect(),
    );
    let scaled = &dense * ark_bls12_381::Fr::from_repr(BigInteger256(factor.limbs)).unwrap();
    Polynomial { coeffs: scaled.coeffs.iter().map(|c| BlsScalar { limbs: c.into_repr().0 }).collect() }
}

/// `&DensePolynomial<Fr> + &DensePolynomial<Fr>` of `ark_poly`: every
/// coefficient of the result is the sum of the two polynomials'
/// coefficients, reduced modulo the field's prime, and the result has no
/// zero at its end.
#[verifier::external_body]
fn dense_add(p: &Polynomial, q: &Polynomial) -> (r: Polynomial)
    ensures
        forall|k: int| #[trigger] r.coefficient(k) == reduce(p.coefficient(k) + q.coefficient(k)),
{
    let a = DensePolynomial::from_coefficients_vec(
        p.coeffs.iter().map(|c| ark_bls12_381::Fr::from_repr(BigInteger256(c.limbs)).unwrap()).collect(),
    );
    let b = DensePolynomial::from_coefficients_vec(
        q.coeffs.iter().map(|c| ark_bls12_381::Fr::from_repr(BigInteger256(c.limbs)).unwrap()).collect(),
    );
    Polynomial { coeffs: (&a + &b).coeffs.iter().map(|c| BlsScalar { limbs: c.into_repr().0 }).collect() }
}

} // verus!
