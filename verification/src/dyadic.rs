//! Exact dyadic-rational arithmetic.
//!
//! Every quantity the rate controller manipulates — the smoothing weight `g`,
//! the congestion estimate `alpha`, the rates — is a non-negative dyadic
//! rational, a number of the form `num / 2^exp`, and all of the update rules
//! (convex combinations with dyadic weights, halving, addition, clamping)
//! keep them so.  Representing values this way keeps every update law an
//! exact equation instead of an approximation; where a result would no
//! longer fit the representation, the operations report that instead of
//! rounding.

use vstd::prelude::*;
use vstd::arithmetic::power2::{
    pow2, lemma_pow2_adds, lemma_pow2_strictly_increases, lemma2_to64, lemma2_to64_rest,
};
use vstd::arithmetic::mul::lemma_mul_upper_bound;

verus! {

/// A non-negative dyadic rational: the value `num / 2^exp`.
#[derive(Clone, Copy, Debug, PartialEq, Eq, Structural)]
pub struct Dyadic {
    pub num: u64,
    pub exp: u32,
}

/// A representable dyadic: the exponent is small enough that any two such
/// values can be compared exactly inside `u128` arithmetic.
pub open spec fn dy_wf(d: Dyadic) -> bool {
    d.exp <= 63
}

/// The value of `a` is at most the value of `b`, in cross-multiplied form:
/// `a.num / 2^a.exp <= b.num / 2^b.exp`.
pub open spec fn dy_le(a: Dyadic, b: Dyadic) -> bool {
    a.num * pow2(b.exp as nat) <= b.num * pow2(a.exp as nat)
}

/// The value of `a` equals the value of `b` (the representation is not
/// unique: `4/2^1` and `2/2^0` denote the same number).
pub open spec fn dy_eq(a: Dyadic, b: Dyadic) -> bool {
    a.num * pow2(b.exp as nat) == b.num * pow2(a.exp as nat)
}

/// The sum of two dyadics, aligned to the larger exponent.  Exact whenever
/// the aligned numerator fits `u64`, which `dy_add_fits` states.
pub open spec fn dy_add(a: Dyadic, b: Dyadic) -> Dyadic {
    if a.exp >= b.exp {
        Dyadic { num: (a.num + b.num * pow2((a.exp - b.exp) as nat)) as u64, exp: a.exp }
    } else {
        Dyadic { num: (a.num * pow2((b.exp - a.exp) as nat) + b.num) as u64, exp: b.exp }
    }
}

/// The aligned numerator of `a + b` fits the representation.
pub open spec fn dy_add_fits(a: Dyadic, b: Dyadic) -> bool {
    if a.exp >= b.exp {
        a.num + b.num * pow2((a.exp - b.exp) as nat) <= u64::MAX
    } else {
        a.num * pow2((b.exp - a.exp) as nat) + b.num <= u64::MAX
    }
}

/// Half of `a`: an even numerator is divided in place, an odd one pushes the
/// exponent up by one.
pub open spec fn dy_half(a: Dyadic) -> Dyadic {
    if a.num % 2 == 0 {
        Dyadic { num: (a.num / 2) as u64, exp: a.exp }
    } else {
        Dyadic { num: a.num, exp: (a.exp + 1) as u32 }
    }
}

/// Halving stays representable (only an odd numerator needs exponent room).
pub open spec fn dy_half_fits(a: Dyadic) -> bool {
    a.num % 2 == 0 || a.exp + 1 <= 63
}

/// `a` clamped from above to `bound`.
pub open spec fn dy_clamp(a: Dyadic, bound: Dyadic) -> Dyadic {
    if dy_le(a, bound) {
        a
    } else {
        bound
    }
}

/// `2^e`, computed by repeated doubling.
pub fn pow2_u128(e: u32) -> (r: u128)
    requires
        e <= 64,
    ensures
        r == pow2(e as nat),
{
    proof {
        lemma2_to64();
        lemma2_to64_rest();
    }
    let mut r: u128 = 1;
    let mut i: u32 = 0;
    while i < e
        invariant
            i <= e,
            e <= 64,
            r == pow2(i as nat),
        decreases e - i,
    {
        proof {
            lemma_pow2_adds(i as nat, 1);
            lemma2_to64();
            if (i as nat) + 1 < 64 {
                lemma_pow2_strictly_increases((i as nat) + 1, 64);
            }
            lemma2_to64_rest();
        }
        r = r * 2;
        i = i + 1;
    }
    r
}

/// `dy_add` really is addition: over the common denominator
/// `2^a.exp * 2^b.exp`, the numerator of the sum is the sum of the aligned
/// numerators.
pub proof fn lemma_add_is_sum(a: Dyadic, b: Dyadic)
    requires
        dy_add_fits(a, b),
    ensures
        dy_add(a, b).num * (pow2(a.exp as nat) * pow2(b.exp as nat)) == (a.num * pow2(
            b.exp as nat,
        ) + b.num * pow2(a.exp as nat)) * pow2(dy_add(a, b).exp as nat),
{
    if a.exp >= b.exp {
        lemma_pow2_adds((a.exp - b.exp) as nat, b.exp as nat);
        let d = pow2((a.exp - b.exp) as nat) as int;
        let pa = pow2(a.exp as nat) as int;
        let pb = pow2(b.exp as nat) as int;
        let an = a.num as int;
        let bn = b.num as int;
        assert((an + bn * d) * (pa * pb) == (an * pb + bn * (d * pb)) * pa) by (nonlinear_arith);
    } else {
        lemma_pow2_adds((b.exp - a.exp) as nat, a.exp as nat);
        let d = pow2((b.exp - a.exp) as nat) as int;
        let pa = pow2(a.exp as nat) as int;
        let pb = pow2(b.exp as nat) as int;
        let an = a.num as int;
        let bn = b.num as int;
        assert((an * d + bn) * (pa * pb) == (an * (d * pa) + bn * pa) * pb) by (nonlinear_arith);
    }
}

/// `dy_half` really is halving: twice the half equals the original value.
pub proof fn lemma_half_is_half(a: Dyadic)
    requires
        dy_half_fits(a),
    ensures
        2 * dy_half(a).num * pow2(a.exp as nat) == a.num * pow2(dy_half(a).exp as nat),
{
    if a.num % 2 == 0 {
        assert(2 * (a.num / 2) == a.num);
        assert(2 * ((a.num / 2) as int) * pow2(a.exp as nat) == a.num * pow2(a.exp as nat))
            by (nonlinear_arith)
            requires
                2 * (a.num / 2) == a.num,
        ;
    } else {
        lemma_pow2_adds(a.exp as nat, 1);
        lemma2_to64();
        assert(2 * a.num * pow2(a.exp as nat) == a.num * (pow2(a.exp as nat) * 2))
            by (nonlinear_arith);
    }
}

/// Both cross products of two representable dyadics fit `u128`.
proof fn lemma_cross_product_fits(a: Dyadic, b: Dyadic)
    requires
        dy_wf(a),
        dy_wf(b),
    ensures
        a.num * pow2(b.exp as nat) <= u128::MAX,
        b.num * pow2(a.exp as nat) <= u128::MAX,
{
    lemma2_to64();
    lemma2_to64_rest();
    if (b.exp as nat) < 63 {
        lemma_pow2_strictly_increases(b.exp as nat, 63);
    }
    if (a.exp as nat) < 63 {
        lemma_pow2_strictly_increases(a.exp as nat, 63);
    }
    lemma_mul_upper_bound(a.num as int, u64::MAX as int, pow2(b.exp as nat) as int, pow2(63) as int);
    lemma_mul_upper_bound(b.num as int, u64::MAX as int, pow2(a.exp as nat) as int, pow2(63) as int);
}

impl Dyadic {
    /// The dyadic with the value of a plain integer.
    pub fn from_int(n: u64) -> (r: Dyadic)
        ensures
            r == (Dyadic { num: n, exp: 0 }),
    {
        Dyadic { num: n, exp: 0 }
    }

    /// Exact comparison: is `self <= other` as a number?
    pub fn le(&self, other: &Dyadic) -> (r: bool)
        requires
            dy_wf(*self),
            dy_wf(*other),
        ensures
            r == dy_le(*self, *other),
    {
        proof {
            lemma_cross_product_fits(*self, *other);
        }
        let lhs: u128 = (self.num as u128) * pow2_u128(other.exp);
        let rhs: u128 = (other.num as u128) * pow2_u128(self.exp);
        lhs <= rhs
    }

    /// Exact value equality, indifferent to the representation chosen.
    pub fn eq_value(&self, other: &Dyadic) -> (r: bool)
        requires
            dy_wf(*self),
            dy_wf(*other),
        ensures
            r == dy_eq(*self, *other),
    {
        proof {
            lemma_cross_product_fits(*self, *other);
        }
        let lhs: u128 = (self.num as u128) * pow2_u128(other.exp);
        let rhs: u128 = (other.num as u128) * pow2_u128(self.exp);
        lhs == rhs
    }

    /// Exact sum, or `None` where the aligned numerator leaves `u64`.
    pub fn checked_add(&self, other: &Dyadic) -> (r: Option<Dyadic>)
        requires
            dy_wf(*self),
            dy_wf(*other),
        ensures
            r is Some <==> dy_add_fits(*self, *other),
            r is Some ==> r == Some(dy_add(*self, *other)),
            r is Some ==> dy_wf(r->Some_0),
    {
        if self.exp >= other.exp {
            let diff: u32 = self.exp - other.exp;
            proof {
                lemma2_to64();
                lemma2_to64_rest();
                if (diff as nat) < 63 {
                    lemma_pow2_strictly_increases(diff as nat, 63);
                }
                lemma_mul_upper_bound(
                    other.num as int,
                    u64::MAX as int,
                    pow2(diff as nat) as int,
                    pow2(63) as int,
                );
            }
            let shifted: u128 = (other.num as u128) * pow2_u128(diff);
            let sum: u128 = (self.num as u128) + shifted;
            if sum <= u64::MAX as u128 {
                Some(Dyadic { num: sum as u64, exp: self.exp })
            } else {
                None
            }
        } else {
            let diff: u32 = other.exp - self.exp;
            proof {
                lemma2_to64();
                lemma2_to64_rest();
                if (diff as nat) < 63 {
                    lemma_pow2_strictly_increases(diff as nat, 63);
                }
                lemma_mul_upper_bound(
                    self.num as int,
                    u64::MAX as int,
                    pow2(diff as nat) as int,
                    pow2(63) as int,
                );
            }
            let shifted: u128 = (self.num as u128) * pow2_u128(diff);
            let sum: u128 = shifted + (other.num as u128);
            if sum <= u64::MAX as u128 {
                Some(Dyadic { num: sum as u64, exp: other.exp })
            } else {
                None
            }
        }
    }

    /// Exact half, or `None` where the exponent would leave the
    /// representable range.
    pub fn checked_half(&self) -> (r: Option<Dyadic>)
        requires
            dy_wf(*self),
        ensures
            r is Some <==> dy_half_fits(*self),
            r is Some ==> r == Some(dy_half(*self)),
            r is Some ==> dy_wf(r->Some_0),
    {
        if self.num % 2 == 0 {
            Some(Dyadic { num: self.num / 2, exp: self.exp })
        } else if self.exp + 1 <= 63 {
            Some(Dyadic { num: self.num, exp: self.exp + 1 })
        } else {
            None
        }
    }

    /// `self` clamped from above to `bound`.
    pub fn clamp_to(&self, bound: &Dyadic) -> (r: Dyadic)
        requires
            dy_wf(*self),
            dy_wf(*bound),
        ensures
            r == dy_clamp(*self, *bound),
            dy_wf(r),
            dy_le(r, *bound),
    {
        if self.le(bound) {
            *self
        } else {
            *bound
        }
    }
}

} // verus!
