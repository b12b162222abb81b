//! The scalar field of BLS12-381 and its elements.
//!
//! A [`BlsScalar`] holds the canonical representative of a residue class as
//! four little-endian 64-bit limbs. Its view is that representative as a
//! mathematical integer, so every contract in this crate reads as ordinary
//! arithmetic followed by [`reduce`].

use ark_ff::BigInteger256;
use ark_ff::Field;
use ark_ff::PrimeField;
use vstd::arithmetic::div_mod::*;
use vstd::prelude::*;

verus! {

/// The prime order of the scalar field.
pub open spec fn modulus() -> int {
    0x73eda753299d7d483339d80809a1d80553bda402fffe5bfeffffffff00000001int
}

/// The canonical representative of `x` modulo the field's prime.
pub open spec fn reduce(x: int) -> int {
    x % modulus()
}

/// Two integers name the same field element.
pub open spec fn congruent(a: int, b: int) -> bool {
    reduce(a) == reduce(b)
}

/// The integer that four little-endian 64-bit limbs spell.
pub open spec fn limbs_value(l: Seq<u64>) -> int {
    l[0] + l[1] * 0x1_0000_0000_0000_0000int + l[2]
        * 0x1_0000_0000_0000_0000_0000_0000_0000_0000int + l[3]
        * 0x1_0000_0000_0000_0000_0000_0000_0000_0000_0000_0000_0000_0000int
}

/// Limbs that spell the same integer are the same limbs.
pub proof fn lemma_limbs_injective(a: Seq<u64>, b: Seq<u64>)
    requires
        a.len() == 4,
        b.len() == 4,
        limbs_value(a) == limbs_value(b),
    ensures
        a[0] == b[0],
        a[1] == b[1],
        a[2] == b[2],
        a[3] == b[3],
{
    let w = 0x1_0000_0000_0000_0000int;
    let k2 = b[3] - a[3];
    let k1 = (b[2] - a[2]) + w * k2;
    let k0 = (b[1] - a[1]) + w * k1;
    assert(a[0] - b[0] == w * k0);
    assert(k0 == 0);
    assert(a[1] - b[1] == w * k1);
    assert(k1 == 0);
    assert(a[2] - b[2] == w * k2);
    assert(k2 == 0);
}

/// A reduced value is its own representative.
pub proof fn lemma_reduce_range(x: int)
    ensures
        0 <= reduce(x) < modulus(),
        reduce(reduce(x)) == reduce(x),
        0 <= x < modulus() ==> reduce(x) == x,
{
}

/// Multiplication respects congruence.
pub proof fn lemma_congruent_mul(a: int, x: int, b: int, y: int)
    requires
        congruent(a, x),
        congruent(b, y),
    ensures
        congruent(a * b, x * y),
{
    lemma_mul_mod_noop_general(a, b, modulus());
    lemma_mul_mod_noop_general(x, y, modulus());
}

/// Addition respects congruence.
pub proof fn lemma_congruent_add(a: int, x: int, b: int, y: int)
    requires
        congruent(a, x),
        congruent(b, y),
    ensures
        congruent(a + b, x + y),
{
    lemma_add_mod_noop(a, b, modulus());
    lemma_add_mod_noop(x, y, modulus());
}

/// Subtraction respects congruence.
pub proof fn lemma_congruent_sub(a: int, x: int, b: int, y: int)
    requires
        congruent(a, x),
        congruent(b, y),
    ensures
        congruent(a - b, x - y),
{
    lemma_sub_mod_noop(a, b, modulus());
    lemma_sub_mod_noop(x, y, modulus());
}

/// Negation respects congruence.
pub proof fn lemma_congruent_neg(a: int, x: int)
    requires
        congruent(a, x),
    ensures
        congruent(-a, -x),
{
    lemma_congruent_sub(0, 0, a, x);
}

/// What one field operation yields, given what its operands stand for: if
/// `a` and `b` are congruent to `x` and `y`, the reduced product of `a` and
/// `b` is the reduced product of `x` and `y`.
pub proof fn lemma_mul_step(r: int, a: int, x: int, b: int, y: int)
    requires
        r == reduce(a * b),
        congruent(a, x),
        congruent(b, y),
    ensures
        r == reduce(x * y),
        congruent(r, x * y),
{
    lemma_congruent_mul(a, x, b, y);
}

/// As [`lemma_mul_step`], for a sum.
pub proof fn lemma_add_step(r: int, a: int, x: int, b: int, y: int)
    requires
        r == reduce(a + b),
        congruent(a, x),
        congruent(b, y),
    ensures
        r == reduce(x + y),
        congruent(r, x + y),
{
    lemma_congruent_add(a, x, b, y);
}

/// As [`lemma_mul_step`], for a difference.
pub proof fn lemma_sub_step(r: int, a: int, x: int, b: int, y: int)
    requires
        r == reduce(a - b),
        congruent(a, x),
        congruent(b, y),
    ensures
        r == reduce(x - y),
        congruent(r, x - y),
{
    lemma_congruent_sub(a, x, b, y);
}

/// As [`lemma_mul_step`], for a negation.
pub proof fn lemma_neg_step(r: int, a: int, x: int)
    requires
        r == reduce(-a),
        congruent(a, x),
    ensures
        r == reduce(-x),
        congruent(r, -x),
{
    lemma_congruent_neg(a, x);
}

/// The integers that a sequence of field elements stands for.
pub open spec fn scalar_values(s: Seq<BlsScalar>) -> Seq<int> {
    s.map_values(|x: BlsScalar| x@)
}

/// An element of the scalar field of BLS12-381.
#[derive(Clone, Copy, Debug, PartialEq, Eq, Hash)]
pub struct BlsScalar {
    pub(crate) limbs: [u64; 4],
}

impl View for BlsScalar {
    type V = int;

    closed spec fn view(&self) -> int {
        reduce(limbs_value(self.limbs@))
    }
}

impl BlsScalar {
    #[verifier::type_invariant]
    spec fn canonical(self) -> bool {
        limbs_value(self.limbs@) < modulus()
    }

    /// The view of an element whose limbs are below the prime is the
    /// integer that the limbs spell.
    proof fn lemma_canonical_view(self)
        requires
            self.canonical(),
        ensures
            self@ == limbs_value(self.limbs@),
    {
        lemma_small_mod(limbs_value(self.limbs@) as nat, modulus() as nat);
    }

    /// The view of an element is always its canonical representative.
    pub proof fn lemma_view_range(self)
        ensures
            0 <= self@ < modulus(),
            reduce(self@) == self@,
    {
    }

    /// The additive identity.
    pub fn zero() -> (r: Self)
        ensures
            r@ == 0,
    {
        let r = BlsScalar { limbs: [0, 0, 0, 0] };
        proof {
            r.lemma_canonical_view();
        }
        r
    }

    /// The multiplicative identity.
    pub fn one() -> (r: Self)
        ensures
            r@ == 1,
    {
        let r = BlsScalar { limbs: [1, 0, 0, 0] };
        proof {
            r.lemma_canonical_view();
        }
        r
    }

    /// The element that a machine word names.
    pub fn from_u64(x: u64) -> (r: Self)
        ensures
            r@ == x,
    {
        let r = BlsScalar { limbs: [x, 0, 0, 0] };
        proof {
            r.lemma_canonical_view();
        }
        r
    }

    /// The element that four little-endian limbs spell, if they spell a
    /// canonical representative.
    pub fn from_limbs(limbs: [u64; 4]) -> (r: Option<Self>)
        ensures
            r is Some <==> limbs_value(limbs@) < modulus(),
            r matches Some(x) ==> x@ == limbs_value(limbs@),
    {
        let m: [u64; 4] = modulus_limbs();
        if limbs_less_than(&limbs, &m) {
            let r = BlsScalar { limbs };
            proof {
                r.lemma_canonical_view();
            }
            Some(r)
        } else {
            None
        }
    }

    /// The four little-endian limbs of the canonical representative.
    pub fn to_limbs(&self) -> (r: [u64; 4])
        ensures
            limbs_value(r@) == self@,
    {
        proof {
            use_type_invariant(self);
            self.lemma_canonical_view();
        }
        self.limbs
    }

    /// Whether this is the additive identity.
    pub fn is_zero(&self) -> (r: bool)
        ensures
            r == (self@ == 0),
    {
        proof {
            use_type_invariant(self);
            self.lemma_canonical_view();
        }
        self.limbs[0] == 0 && self.limbs[1] == 0 && self.limbs[2] == 0 && self.limbs[3] == 0
    }

    /// Whether two elements are the same.
    pub fn equals(&self, rhs: &Self) -> (r: bool)
        ensures
            r == (self@ == rhs@),
    {
        let r = self.limbs[0] == rhs.limbs[0] && self.limbs[1] == rhs.limbs[1] && self.limbs[2]
            == rhs.limbs[2] && self.limbs[3] == rhs.limbs[3];
        proof {
            use_type_invariant(self);
            use_type_invariant(rhs);
            self.lemma_canonical_view();
            rhs.lemma_canonical_view();
            if limbs_value(self.limbs@) == limbs_value(rhs.limbs@) {
                lemma_limbs_injective(self.limbs@, rhs.limbs@);
            }
        }
        r
    }

    /// Whether this element's representative is the smaller one.
    pub fn less_than(&self, rhs: &Self) -> (r: bool)
        ensures
            r == (self@ < rhs@),
    {
        proof {
            use_type_invariant(self);
            use_type_invariant(rhs);
            self.lemma_canonical_view();
            rhs.lemma_canonical_view();
        }
        limbs_less_than(&self.limbs, &rhs.limbs)
    }

    /// The sum of two elements.
    pub fn add(self, rhs: Self) -> (r: Self)
        ensures
            r@ == reduce(self@ + rhs@),
    {
        field_add(&self, &rhs)
    }

    /// The difference of two elements.
    pub fn sub(self, rhs: Self) -> (r: Self)
        ensures
            r@ == reduce(self@ - rhs@),
    {
        field_sub(&self, &rhs)
    }

    /// The product of two elements.
    pub fn mul(self, rhs: Self) -> (r: Self)
        ensures
            r@ == reduce(self@ * rhs@),
    {
        field_mul(&self, &rhs)
    }

    /// The additive inverse.
    pub fn neg(self) -> (r: Self)
        ensures
            r@ == reduce(-self@),
    {
        field_neg(&self)
    }

    /// The product of an element with itself.
    pub fn square(self) -> (r: Self)
        ensures
            r@ == reduce(self@ * self@),
    {
        field_square(&self)
    }
}

/// A copy of a vector of field elements.
pub fn clone_scalars(v: &Vec<BlsScalar>) -> (r: Vec<BlsScalar>)
    ensures
        r@ == v@,
{
    let mut r: Vec<BlsScalar> = Vec::new();
    let mut i: usize = 0;
    while i < v.len()
        invariant
            0 <= i <= v@.len(),
            r@ == v@.subrange(0, i as int),
        decreases v@.len() - i,
    {
        r.push(v[i]);
        i = i + 1;
    }
    proof {
        assert(r@ =~= v@);
    }
    r
}

/// The limbs of the field's prime.
fn modulus_limbs() -> (r: [u64; 4])
    ensures
        limbs_value(r@) == modulus(),
{
    [0xffffffff00000001, 0x53bda402fffe5bfe, 0x3339d80809a1d805, 0x73eda753299d7d48]
}

/// Compares two four-limb integers, most significant limb first.
fn limbs_less_than(a: &[u64; 4], b: &[u64; 4]) -> (r: bool)
    ensures
        r == (limbs_value(a@) < limbs_value(b@)),
{
    if a[3] != b[3] {
        a[3] < b[3]
    } else if a[2] != b[2] {
        a[2] < b[2]
    } else if a[1] != b[1] {
        a[1] < b[1]
    } else {
        a[0] < b[0]
    }
}

/// Addition in `ark_bls12_381::Fr`, between `from_repr` and `into_repr`:
/// the canonical representative of the sum of the two elements. The limbs
/// of a scalar are below the prime, so `from_repr` accepts them.
#[verifier::external_body]
fn field_add(a: &BlsScalar, b: &BlsScalar) -> (r: BlsScalar)
    ensures
        r@ == reduce(a@ + b@),
{
    let x = ark_bls12_381::Fr::from_repr(BigInteger256(a.limbs)).unwrap();
    let y = ark_bls12_381::Fr::from_repr(BigInteger256(b.limbs)).unwrap();
    BlsScalar { limbs: (x + y).into_repr().0 }
}

/// Multiplication in `ark_bls12_381::Fr`, between `from_repr` and
/// `into_repr`: the canonical representative of the product of the two
/// elements.
#[verifier::external_body]
fn field_mul(a: &BlsScalar, b: &BlsScalar) -> (r: BlsScalar)
    ensures
        r@ == reduce(a@ * b@),
{
    let x = ark_bls12_381::Fr::from_repr(BigInteger256(a.limbs)).unwrap();
    let y = ark_bls12_381::Fr::from_repr(BigInteger256(b.limbs)).unwrap();
    BlsScalar { limbs: (x * y).into_repr().0 }
}

/// Subtraction in `ark_bls12_381::Fr`, between `from_repr` and
/// `into_repr`: the canonical representative of the difference of the two
/// elements.
#[verifier::external_body]
fn field_sub(a: &BlsScalar, b: &BlsScalar) -> (r: BlsScalar)
    ensures
        r@ == reduce(a@ - b@),
{
    let x = ark_bls12_381::Fr::from_repr(BigInteger256(a.limbs)).unwrap();
    let y = ark_bls12_381::Fr::from_repr(BigInteger256(b.limbs)).unwrap();
    BlsScalar { limbs: (x - y).into_repr().0 }
}

/// Negation in `ark_bls12_381::Fr`, between `from_repr` and `into_repr`:
/// the canonical representative of the additive inverse of the element.
#[verifier::external_body]
fn field_neg(a: &BlsScalar) -> (r: BlsScalar)
    ensures
        r@ == reduce(-a@),
{
    let x = ark_bls12_381::Fr::from_repr(BigInteger256(a.limbs)).unwrap();
    BlsScalar { limbs: (-x).into_repr().0 }
}

/// `Field::square` of `ark_bls12_381::Fr`, between `from_repr` and
/// `into_repr`: the canonical representative of the product of the element
/// with itself.
#[verifier::external_body]
fn field_square(a: &BlsScalar) -> (r: BlsScalar)
    ensures
        r@ == reduce(a@ * a@),
{
    let x = ark_bls12_381::Fr::from_repr(BigInteger256(a.limbs)).unwrap();
    BlsScalar { limbs: x.square().into_repr().0 }
}

} // verus!
