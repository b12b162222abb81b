//! Evaluation domains: multiplicative subgroups of the field whose size is
//! a power of two.

use ark_poly::GeneralEvaluationDomain;
use vstd::arithmetic::power2::{
    lemma2_to64, lemma2_to64_rest, lemma_pow2_strictly_increases, lemma_pow2_unfold, pow2,
};
use vstd::prelude::*;

verus! {

/// The largest `k` such that the field holds a subgroup of size `2^k`.
pub const TWO_ADICITY: u32 = 32;

/// The least `k` with `n <= 2^k`.
pub open spec fn ceil_log2(n: nat) -> nat
    decreases n,
{
    if n <= 1 {
        0
    } else {
        1 + ceil_log2((n + 1) / 2)
    }
}

/// The least power of two that is at least `n`.
pub open spec fn next_power_of_two(n: nat) -> nat {
    pow2(ceil_log2(n))
}

/// Whether a domain that holds `num_coeffs` points exists: its size must be
/// within the field's two-adicity, and within the machine's word.
pub open spec fn domain_constructible(num_coeffs: nat) -> bool {
    ceil_log2(num_coeffs) <= TWO_ADICITY && next_power_of_two(num_coeffs) <= usize::MAX
}

/// `next_power_of_two(n)` is at least `n`, and less than twice `n` unless
/// `n` is zero.
pub proof fn lemma_next_power_of_two_bounds(n: nat)
    ensures
        n <= next_power_of_two(n),
        n >= 1 ==> next_power_of_two(n) < 2 * n,
        n >= 2 ==> next_power_of_two(n) <= 2 * n - 2,
    decreases n,
{
    lemma2_to64();
    if n > 1 {
        lemma_next_power_of_two_bounds((n + 1) / 2);
        lemma_pow2_unfold(ceil_log2(n));
    }
}

/// A number that is at most `2^k` has `ceil_log2` at most `k`.
pub proof fn lemma_ceil_log2_upper(n: nat, k: nat)
    requires
        n <= pow2(k),
    ensures
        ceil_log2(n) <= k,
    decreases n,
{
    lemma2_to64();
    if n > 1 {
        lemma_pow2_unfold(k);
        if k == 0 {
        } else {
            lemma_ceil_log2_upper((n + 1) / 2, (k - 1) as nat);
        }
    }
}

/// A number above `2^k` has `ceil_log2` above `k`.
pub proof fn lemma_ceil_log2_lower(n: nat, k: nat)
    requires
        n > pow2(k),
    ensures
        ceil_log2(n) > k,
{
    lemma_next_power_of_two_bounds(n);
    if ceil_log2(n) < k {
        lemma_pow2_strictly_increases(ceil_log2(n), k);
    }
}

/// The `ceil_log2` of `2^k` is `k`.
pub proof fn lemma_ceil_log2_of_pow2(k: nat)
    ensures
        ceil_log2(pow2(k)) == k,
        next_power_of_two(pow2(k)) == pow2(k),
{
    lemma_ceil_log2_upper(pow2(k), k);
    if k > 0 {
        lemma_pow2_strictly_increases((k - 1) as nat, k);
        lemma_ceil_log2_lower(pow2(k), (k - 1) as nat);
    }
}

/// An evaluation domain of the scalar field: its size is a power of two
/// within the field's two-adicity.
#[derive(Clone, Copy, Debug, PartialEq, Eq)]
pub struct EvaluationDomain {
    size: usize,
    log_size_of_group: u32,
}

impl EvaluationDomain {
    #[verifier::type_invariant]
    spec fn well_formed(self) -> bool {
        self.size == pow2(self.log_size_of_group as nat) && self.log_size_of_group <= TWO_ADICITY
    }

    /// The number of points of the domain.
    pub closed spec fn spec_size(&self) -> nat {
        self.size as nat
    }

    /// The logarithm, to base two, of the number of points.
    pub closed spec fn spec_log_size_of_group(&self) -> nat {
        self.log_size_of_group as nat
    }

    /// The smallest domain that holds `num_coeffs` points, if the field has
    /// one.
    pub fn new(num_coeffs: usize) -> (r: Option<Self>)
        ensures
            r is Some <==> domain_constructible(num_coeffs as nat),
            r matches Some(d) ==> d.spec_size() == next_power_of_two(num_coeffs as nat)
                && d.spec_log_size_of_group() == ceil_log2(num_coeffs as nat),
    {
        let ghost k = ceil_log2(num_coeffs as nat);
        proof {
            lemma2_to64();
            lemma2_to64_rest();
            lemma_next_power_of_two_bounds(num_coeffs as nat);
        }
        if num_coeffs > usize::MAX / 2 + 1 {
            proof {
                if usize::MAX == 0xffff_ffff {
                    if k <= 31 {
                        if k < 31 {
                            lemma_pow2_strictly_increases(k, 31);
                        }
                    }
                    if k >= 32 {
                        if k > 32 {
                            lemma_pow2_strictly_increases(32, k);
                        }
                    }
                } else {
                    if k <= 32 {
                        if k < 32 {
                            lemma_pow2_strictly_increases(k, 32);
                        }
                    }
                }
            }
            return None;
        }
        proof {
            if usize::MAX == 0xffff_ffff {
                lemma_ceil_log2_upper(num_coeffs as nat, 31);
                if k < 31 {
                    lemma_pow2_strictly_increases(k, 31);
                }
            } else {
                lemma_ceil_log2_upper(num_coeffs as nat, 63);
                if k < 63 {
                    lemma_pow2_strictly_increases(k, 63);
                }
            }
        }
        match radix2_domain_size(num_coeffs) {
            None => None,
            Some(size) => {
                let mut log: u32 = 0;
                let mut m: usize = 1;
                while m < size
                    invariant
                        m == pow2(log as nat),
                        m >= 1,
                        size == pow2(k),
                        k <= 32,
                        log <= k,
                    decreases size - m,
                {
                    proof {
                        if log == k {
                        } else {
                            lemma_pow2_unfold((log + 1) as nat);
                            if log + 1 < k {
                                lemma_pow2_strictly_increases((log + 1) as nat, k);
                            }
                        }
                    }
                    m = m * 2;
                    log = log + 1;
                }
                proof {
                    if log < k {
                        lemma_pow2_strictly_increases(log as nat, k);
                    }
                }
                Some(EvaluationDomain { size, log_size_of_group: log })
            },
        }
    }

    /// The number of points of the domain.
    pub fn size(&self) -> (r: usize)
        ensures
            r == self.spec_size(),
            r == pow2(self.spec_log_size_of_group()),
    {
        proof {
            use_type_invariant(self);
        }
        self.size
    }

    /// The logarithm, to base two, of the number of points.
    pub fn log_size_of_group(&self) -> (r: u32)
        ensures
            r == self.spec_log_size_of_group(),
            r <= TWO_ADICITY,
            self.spec_size() == pow2(r as nat),
    {
        proof {
            use_type_invariant(self);
        }
        self.log_size_of_group
    }
}

/// `GeneralEvaluationDomain::<ark_bls12_381::Fr>::new` and the `size` of
/// what it returns. The field has no mixed-radix subgroup, so the domain is
/// the radix-2 one: its size is the least power of two that holds
/// `num_coeffs`, and there is none when that size's logarithm exceeds the
/// field's two-adicity.
#[verifier::external_body]
fn radix2_domain_size(num_coeffs: usize) -> (r: Option<usize>)
    requires
        next_power_of_two(num_coeffs as nat) <= usize::MAX,
    ensures
        r is Some <==> ceil_log2(num_coeffs as nat) <= TWO_ADICITY,
        r matches Some(size) ==> size == next_power_of_two(num_coeffs as nat),
{
    let domain: Option<GeneralEvaluationDomain<ark_bls12_381::Fr>> =
        ark_poly::EvaluationDomain::new(num_coeffs);
    domain.map(|d| ark_poly::EvaluationDomain::size(&d))
}

} // verus!
