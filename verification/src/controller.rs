//! The rate controller: the full adaptation state and the operations that
//! mutate it.
//!
//! A congestion notification cuts the rate and raises the congestion
//! estimate `alpha`; absent notifications, a periodic timer decays `alpha`
//! and a second periodic timer advances the recovery stage, which selects
//! among fast recovery, additive increase and hyper increase.  All update
//! rules are exact dyadic-rational equations; where a result would leave the
//! representation, an operation reports `Overflow` instead of rounding.

use vstd::prelude::*;
use vstd::arithmetic::power2::{
    pow2, lemma_pow2_adds, lemma_pow2_strictly_increases, lemma2_to64, lemma2_to64_rest,
};
use vstd::arithmetic::power::{pow, lemma_pow0, lemma_pow1, lemma_pow_adds};
use vstd::arithmetic::mul::{
    lemma_mul_upper_bound, lemma_mul_inequality, lemma_mul_is_associative,
};
use crate::dyadic::{
    Dyadic, dy_wf, dy_le, dy_add, dy_add_fits, dy_half, dy_half_fits, dy_clamp, pow2_u128,
};
use crate::error::SimError;

verus! {

/// The adaptation state of one flow.
///
/// `g` is the smoothing weight in (0,1), fixed at construction; `alpha` is
/// the congestion-estimate weight in [0,1]; `current_rate` is bounded to
/// `[0, bandwidth]`; `target_rate` is the rate being converged toward;
/// `recovery_stage` counts increase-phase firings since start and is never
/// reset by a cut.
#[derive(Clone, Copy, Debug, PartialEq, Eq, Structural)]
pub struct Dcqcn {
    pub g: Dyadic,
    pub alpha: Dyadic,
    pub alpha_timer: u64,
    pub alpha_time_counter: u64,
    pub current_rate: Dyadic,
    pub target_rate: Dyadic,
    pub increase_timer: u64,
    pub increase_time_counter: u64,
    pub recovery_stage: u64,
    pub recovery_threshold: u64,
    pub additive_increase_rate: Dyadic,
    pub hyper_increase_rate: Dyadic,
    pub bandwidth: Dyadic,
}

/// The documented ranges of the configuration surface: `0 < g < 1`,
/// `bandwidth > 0`, every dyadic representable, and timer thresholds with
/// room for their counters to pass them.
pub open spec fn valid_config(
    g: Dyadic,
    alpha_timer: u64,
    increase_timer: u64,
    recovery_threshold: u64,
    additive_increase_rate: Dyadic,
    hyper_increase_rate: Dyadic,
    bandwidth: Dyadic,
) -> bool {
    &&& dy_wf(g)
    &&& dy_wf(additive_increase_rate)
    &&& dy_wf(hyper_increase_rate)
    &&& dy_wf(bandwidth)
    &&& 1 <= g.num
    &&& (g.num as nat) < pow2(g.exp as nat)
    &&& 1 <= bandwidth.num
    &&& alpha_timer < u64::MAX
    &&& increase_timer < u64::MAX
}

impl Dcqcn {
    /// The state invariant: every dyadic is representable, `0 < g < 1`,
    /// `0 <= alpha <= 1`, `bandwidth > 0` and
    /// `0 <= current_rate <= bandwidth` (the lower bounds are carried by the
    /// unsigned numerators).
    pub open spec fn wf(self) -> bool {
        &&& dy_wf(self.g)
        &&& dy_wf(self.alpha)
        &&& dy_wf(self.current_rate)
        &&& dy_wf(self.target_rate)
        &&& dy_wf(self.additive_increase_rate)
        &&& dy_wf(self.hyper_increase_rate)
        &&& dy_wf(self.bandwidth)
        &&& 1 <= self.g.num
        &&& (self.g.num as nat) < pow2(self.g.exp as nat)
        &&& (self.alpha.num as nat) <= pow2(self.alpha.exp as nat)
        &&& 1 <= self.bandwidth.num
        &&& dy_le(self.current_rate, self.bandwidth)
        &&& self.alpha_timer < u64::MAX
        &&& self.increase_timer < u64::MAX
    }
}

// --- the congestion cut -------------------------------------------------

/// Numerator of `current_rate * (1 - alpha/2)`: since
/// `1 - alpha/2 == (2*2^ae - an) / 2^(ae+1)`, the new rate numerator is the
/// old one times `2*2^ae - an`.
pub open spec fn cut_current_num(s: Dcqcn) -> int {
    s.current_rate.num * (2 * pow2(s.alpha.exp as nat) - s.alpha.num)
}

/// Numerator of `(1 - g) * alpha + g` over the exponent `ae + ge`.
pub open spec fn cut_alpha_num(s: Dcqcn) -> int {
    (pow2(s.g.exp as nat) - s.g.num) * s.alpha.num + s.g.num * pow2(s.alpha.exp as nat)
}

/// The exact cut stays representable.
pub open spec fn cut_fits(s: Dcqcn) -> bool {
    &&& cut_current_num(s) <= u64::MAX
    &&& s.current_rate.exp + s.alpha.exp + 1 <= 63
    &&& s.alpha.exp + s.g.exp <= 63
}

/// The state after a congestion notification:
/// `target_rate = current_rate`, `current_rate *= (1 - alpha/2)`,
/// `alpha = (1 - g) * alpha + g`, both periodic counters restart, and the
/// recovery stage is untouched.
pub open spec fn spec_cut(s: Dcqcn) -> Dcqcn {
    Dcqcn {
        target_rate: s.current_rate,
        current_rate: Dyadic {
            num: cut_current_num(s) as u64,
            exp: (s.current_rate.exp + s.alpha.exp + 1) as u32,
        },
        alpha: Dyadic { num: cut_alpha_num(s) as u64, exp: (s.alpha.exp + s.g.exp) as u32 },
        alpha_time_counter: 0,
        increase_time_counter: 0,
        ..s
    }
}

/// A representable cut preserves the state invariant: the new alpha is a
/// convex combination of `alpha` and 1, and the new rate is the old rate
/// scaled by a factor in [1/2, 1].
pub proof fn lemma_cut_preserves_wf(s: Dcqcn)
    requires
        s.wf(),
        cut_fits(s),
    ensures
        spec_cut(s).wf(),
        0 <= cut_current_num(s),
        0 <= cut_alpha_num(s),
        cut_alpha_num(s) <= pow2((s.alpha.exp + s.g.exp) as nat),
{
    lemma2_to64();
    lemma2_to64_rest();
    let pg = pow2(s.g.exp as nat) as int;
    let pa = pow2(s.alpha.exp as nat) as int;
    let gn = s.g.num as int;
    let an = s.alpha.num as int;
    let cn = s.current_rate.num as int;
    let bn = s.bandwidth.num as int;
    let pb = pow2(s.bandwidth.exp as nat) as int;
    let pc = pow2(s.current_rate.exp as nat) as int;
    // alpha' stays in [0, 1]
    assert(0 <= (pg - gn) * an + gn * pa && (pg - gn) * an + gn * pa <= pg * pa)
        by (nonlinear_arith)
        requires
            0 <= an,
            an <= pa,
            1 <= gn,
            gn <= pg,
            0 <= pa,
    ;
    lemma_pow2_adds(s.alpha.exp as nat, s.g.exp as nat);
    // current' stays within [0, bandwidth]
    assert(0 <= cn * (2 * pa - an) && cn * (2 * pa - an) * pb <= (bn * pc) * (2 * pa))
        by (nonlinear_arith)
        requires
            cn * pb <= bn * pc,
            0 <= an,
            an <= pa,
            0 <= cn,
            0 <= bn,
            0 <= pb,
            0 <= pc,
            0 <= pa,
    ;
    lemma_pow2_adds(s.current_rate.exp as nat, (s.alpha.exp + 1) as nat);
    lemma_pow2_adds(s.alpha.exp as nat, 1);
    assert((bn * pc) * (2 * pa) == bn * (pc * (pa * 2))) by (nonlinear_arith);
    if ((s.alpha.exp + s.g.exp) as nat) < 63 {
        lemma_pow2_strictly_increases((s.alpha.exp + s.g.exp) as nat, 63);
    }
}

// --- the periodic alpha decay -------------------------------------------

/// Numerator of `(1 - g) * alpha` over the exponent `ae + ge`.
pub open spec fn decay_alpha_num(s: Dcqcn) -> int {
    (pow2(s.g.exp as nat) - s.g.num) * s.alpha.num
}

/// The exact decay stays representable.
pub open spec fn decay_fits(s: Dcqcn) -> bool {
    s.alpha.exp + s.g.exp <= 63
}

/// The state after one decay step: `alpha = (1 - g) * alpha`, everything
/// else untouched.
pub open spec fn spec_decay(s: Dcqcn) -> Dcqcn {
    Dcqcn {
        alpha: Dyadic { num: decay_alpha_num(s) as u64, exp: (s.alpha.exp + s.g.exp) as u32 },
        ..s
    }
}

/// A representable decay preserves the state invariant.
pub proof fn lemma_decay_preserves_wf(s: Dcqcn)
    requires
        s.wf(),
        decay_fits(s),
    ensures
        spec_decay(s).wf(),
        0 <= decay_alpha_num(s),
        decay_alpha_num(s) <= pow2((s.alpha.exp + s.g.exp) as nat),
{
    lemma2_to64();
    lemma2_to64_rest();
    let pg = pow2(s.g.exp as nat) as int;
    let pa = pow2(s.alpha.exp as nat) as int;
    let gn = s.g.num as int;
    let an = s.alpha.num as int;
    assert(0 <= (pg - gn) * an && (pg - gn) * an <= pg * pa) by (nonlinear_arith)
        requires
            0 <= an,
            an <= pa,
            1 <= gn,
            gn <= pg,
            0 <= pa,
    ;
    lemma_pow2_adds(s.alpha.exp as nat, s.g.exp as nat);
    if ((s.alpha.exp + s.g.exp) as nat) < 63 {
        lemma_pow2_strictly_increases((s.alpha.exp + s.g.exp) as nat, 63);
    }
}

// --- the three increase regimes -----------------------------------------

/// Fast recovery: the target is untouched and the rate moves halfway toward
/// it, clamped to the bandwidth.
pub open spec fn spec_fast(s: Dcqcn) -> Dcqcn {
    Dcqcn {
        current_rate: dy_clamp(
            dy_half(dy_add(s.current_rate, s.target_rate)),
            s.bandwidth,
        ),
        ..s
    }
}

/// The fast-recovery step stays representable.
pub open spec fn fast_fits(s: Dcqcn) -> bool {
    &&& dy_add_fits(s.current_rate, s.target_rate)
    &&& dy_half_fits(dy_add(s.current_rate, s.target_rate))
}

/// Additive increase: the target grows by the additive increment, then the
/// rate moves halfway toward it, clamped.
pub open spec fn spec_additive(s: Dcqcn) -> Dcqcn {
    spec_fast(
        Dcqcn { target_rate: dy_add(s.target_rate, s.additive_increase_rate), ..s },
    )
}

/// The additive-increase step stays representable.
pub open spec fn additive_fits(s: Dcqcn) -> bool {
    &&& dy_add_fits(s.target_rate, s.additive_increase_rate)
    &&& fast_fits(
        Dcqcn { target_rate: dy_add(s.target_rate, s.additive_increase_rate), ..s },
    )
}

/// Hyper increase: as additive increase, with the hyper increment.
pub open spec fn spec_hyper(s: Dcqcn) -> Dcqcn {
    spec_fast(Dcqcn { target_rate: dy_add(s.target_rate, s.hyper_increase_rate), ..s })
}

/// The hyper-increase step stays representable.
pub open spec fn hyper_fits(s: Dcqcn) -> bool {
    &&& dy_add_fits(s.target_rate, s.hyper_increase_rate)
    &&& fast_fits(Dcqcn { target_rate: dy_add(s.target_rate, s.hyper_increase_rate), ..s })
}

// --- the stage dispatch -------------------------------------------------

/// The recovery stage after an increase-timer firing.
pub open spec fn advanced_stage(s: Dcqcn) -> u64 {
    (s.recovery_stage + 1) as u64
}

/// The whole increase-timer firing stays representable.
pub open spec fn advance_fits(s: Dcqcn) -> bool {
    &&& s.recovery_stage < u64::MAX
    &&& if advanced_stage(s) < s.recovery_threshold {
        fast_fits(s)
    } else if advanced_stage(s) == s.recovery_threshold {
        additive_fits(s)
    } else {
        hyper_fits(s)
    }
}

/// The state after an increase-timer firing: the stage advances by one and
/// the regime chosen by comparing the new stage to the threshold is applied.
pub open spec fn spec_advance(s: Dcqcn) -> Dcqcn {
    let s1 = Dcqcn { recovery_stage: advanced_stage(s), ..s };
    if s1.recovery_stage < s1.recovery_threshold {
        spec_fast(s1)
    } else if s1.recovery_stage == s1.recovery_threshold {
        spec_additive(s1)
    } else {
        spec_hyper(s1)
    }
}

/// A representable increase-timer firing preserves the state invariant: in
/// every regime the clamp keeps the rate within the bandwidth, whatever the
/// inputs.
pub proof fn lemma_advance_preserves_wf(s: Dcqcn)
    requires
        s.wf(),
        advance_fits(s),
    ensures
        spec_advance(s).wf(),
        dy_le(spec_advance(s).current_rate, s.bandwidth),
        spec_advance(s).recovery_stage == s.recovery_stage + 1,
{
}

// --- laws ----------------------------------------------------------------

/// `k` successive decay steps.
pub open spec fn iter_decay(s: Dcqcn, k: nat) -> Dcqcn
    decreases k,
{
    if k == 0 {
        s
    } else {
        spec_decay(iter_decay(s, (k - 1) as nat))
    }
}

/// Decay law: absent any cut, `k` decay steps in sequence multiply `alpha`
/// by exactly `(1 - g)^k` — the numerator by `(2^ge - gn)^k`, the exponent
/// up by `k * ge` — and touch nothing else; `alpha` stays in `[0, 1]`.
pub proof fn lemma_decay_law(s: Dcqcn, k: nat)
    requires
        s.wf(),
        s.alpha.exp + k * s.g.exp <= 63,
    ensures
        iter_decay(s, k) == (Dcqcn {
            alpha: Dyadic {
                num: (pow(pow2(s.g.exp as nat) - s.g.num, k) * s.alpha.num) as u64,
                exp: (s.alpha.exp + k * s.g.exp) as u32,
            },
            ..s
        }),
        iter_decay(s, k).wf(),
        0 <= pow(pow2(s.g.exp as nat) - s.g.num, k) * s.alpha.num,
        pow(pow2(s.g.exp as nat) - s.g.num, k) * s.alpha.num <= pow2(
            (s.alpha.exp + k * s.g.exp) as nat,
        ),
    decreases k,
{
    let b = pow2(s.g.exp as nat) - s.g.num;
    let ge = s.g.exp as int;
    if k == 0 {
        lemma_pow0(b);
        assert(k * s.g.exp == 0) by (nonlinear_arith)
            requires
                k == 0,
        ;
    } else {
        let km1 = (k - 1) as nat;
        lemma_mul_inequality(km1 as int, k as int, ge);
        assert(k * ge == km1 * ge + ge) by (nonlinear_arith)
            requires
                km1 == k - 1,
        ;
        lemma_decay_law(s, km1);
        let sp = iter_decay(s, km1);
        lemma_decay_preserves_wf(sp);
        lemma2_to64();
        lemma2_to64_rest();
        if ((s.alpha.exp + km1 * s.g.exp) as nat) < 63 {
            lemma_pow2_strictly_increases((s.alpha.exp + km1 * s.g.exp) as nat, 63);
        }
        lemma_pow1(b);
        lemma_pow_adds(b, 1, km1);
        assert(b * (pow(b, km1) * s.alpha.num) == (b * pow(b, km1)) * s.alpha.num) by {
            lemma_mul_is_associative(b, pow(b, km1), s.alpha.num as int);
        }
        assert(pow(b, k) * s.alpha.num == decay_alpha_num(sp));
        assert(pow2((sp.alpha.exp + sp.g.exp) as nat) == pow2((s.alpha.exp + k * s.g.exp) as nat));
    }
}

/// Cut law, explicit form: after a congestion notification the target takes
/// the old rate, the new rate is exactly the old rate times `1 - alpha/2`,
/// the new alpha is exactly `(1 - g) * alpha + g`, both periodic counters
/// restart, and the recovery stage is untouched.
pub proof fn lemma_cut_law(s: Dcqcn)
    requires
        s.wf(),
        cut_fits(s),
    ensures
        spec_cut(s).target_rate == s.current_rate,
        spec_cut(s).current_rate.num == cut_current_num(s),
        spec_cut(s).current_rate.exp == s.current_rate.exp + s.alpha.exp + 1,
        spec_cut(s).alpha.num == cut_alpha_num(s),
        spec_cut(s).alpha.exp == s.alpha.exp + s.g.exp,
        spec_cut(s).alpha_time_counter == 0,
        spec_cut(s).increase_time_counter == 0,
        spec_cut(s).recovery_stage == s.recovery_stage,
{
    lemma_cut_preserves_wf(s);
    lemma2_to64_rest();
    if ((s.alpha.exp + s.g.exp) as nat) < 63 {
        lemma_pow2_strictly_increases((s.alpha.exp + s.g.exp) as nat, 63);
    }
}

/// Monotonic stage: no operation lowers the recovery stage; in particular a
/// congestion cut never resets it, and an increase-timer firing raises it by
/// exactly one.
pub proof fn lemma_stage_monotonic(s: Dcqcn)
    ensures
        spec_cut(s).recovery_stage == s.recovery_stage,
        spec_decay(s).recovery_stage == s.recovery_stage,
        spec_fast(s).recovery_stage == s.recovery_stage,
        spec_additive(s).recovery_stage == s.recovery_stage,
        spec_hyper(s).recovery_stage == s.recovery_stage,
        s.recovery_stage < u64::MAX ==> spec_advance(s).recovery_stage == s.recovery_stage + 1,
{
}

impl Dcqcn {
    /// A controller with the given configuration: `alpha` starts at 1, the
    /// rate starts at the full bandwidth, the target at 0, all counters and
    /// the recovery stage at 0.
    pub fn new(
        g: Dyadic,
        alpha_timer: u64,
        increase_timer: u64,
        recovery_threshold: u64,
        additive_increase_rate: Dyadic,
        hyper_increase_rate: Dyadic,
        bandwidth: Dyadic,
    ) -> (r: Dcqcn)
        requires
            valid_config(
                g,
                alpha_timer,
                increase_timer,
                recovery_threshold,
                additive_increase_rate,
                hyper_increase_rate,
                bandwidth,
            ),
        ensures
            r == (Dcqcn {
                g,
                alpha: Dyadic { num: 1, exp: 0 },
                alpha_timer,
                alpha_time_counter: 0,
                current_rate: bandwidth,
                target_rate: Dyadic { num: 0, exp: 0 },
                increase_timer,
                increase_time_counter: 0,
                recovery_stage: 0,
                recovery_threshold,
                additive_increase_rate,
                hyper_increase_rate,
                bandwidth,
            }),
            r.wf(),
    {
        proof {
            lemma2_to64();
        }
        Dcqcn {
            g,
            alpha: Dyadic { num: 1, exp: 0 },
            alpha_timer,
            alpha_time_counter: 0,
            current_rate: bandwidth,
            target_rate: Dyadic { num: 0, exp: 0 },
            increase_timer,
            increase_time_counter: 0,
            recovery_stage: 0,
            recovery_threshold,
            additive_increase_rate,
            hyper_increase_rate,
            bandwidth,
        }
    }

    /// Validated construction: `Some` exactly when the configuration lies in
    /// its documented ranges.
    pub fn try_new(
        g: Dyadic,
        alpha_timer: u64,
        increase_timer: u64,
        recovery_threshold: u64,
        additive_increase_rate: Dyadic,
        hyper_increase_rate: Dyadic,
        bandwidth: Dyadic,
    ) -> (r: Option<Dcqcn>)
        ensures
            r is Some <==> valid_config(
                g,
                alpha_timer,
                increase_timer,
                recovery_threshold,
                additive_increase_rate,
                hyper_increase_rate,
                bandwidth,
            ),
            r is Some ==> r->Some_0 == (Dcqcn {
                g,
                alpha: Dyadic { num: 1, exp: 0 },
                alpha_timer,
                alpha_time_counter: 0,
                current_rate: bandwidth,
                target_rate: Dyadic { num: 0, exp: 0 },
                increase_timer,
                increase_time_counter: 0,
                recovery_stage: 0,
                recovery_threshold,
                additive_increase_rate,
                hyper_increase_rate,
                bandwidth,
            }),
            r is Some ==> r->Some_0.wf(),
    {
        if g.exp > 63 || additive_increase_rate.exp > 63 || hyper_increase_rate.exp > 63
            || bandwidth.exp > 63 {
            return None;
        }
        if g.num < 1 || (g.num as u128) >= pow2_u128(g.exp) {
            return None;
        }
        if bandwidth.num < 1 || alpha_timer == u64::MAX || increase_timer == u64::MAX {
            return None;
        }
        Some(
            Dcqcn::new(
                g,
                alpha_timer,
                increase_timer,
                recovery_threshold,
                additive_increase_rate,
                hyper_increase_rate,
                bandwidth,
            ),
        )
    }

    /// The congestion cut.  `Ok` exactly when the cut stays representable;
    /// on `Ok` the state is exactly `spec_cut` of the old one; on `Err` the
    /// state is untouched.
    pub fn on_congestion_notification(&mut self) -> (r: Result<(), SimError>)
        requires
            old(self).wf(),
        ensures
            final(self).wf(),
            r is Ok <==> cut_fits(*old(self)),
            r is Ok ==> *final(self) == spec_cut(*old(self)),
            r is Err ==> *final(self) == *old(self) && r == Err::<(), SimError>(
                SimError::Overflow,
            ),
            final(self).recovery_stage == old(self).recovery_stage,
    {
        let ae = self.alpha.exp;
        let ce = self.current_rate.exp;
        let ge = self.g.exp;
        if ce + ae + 1 > 63 || ae + ge > 63 {
            return Err(SimError::Overflow);
        }
        proof {
            lemma2_to64();
            lemma2_to64_rest();
            if (ae as nat) < 63 {
                lemma_pow2_strictly_increases(ae as nat, 63);
            }
            if (ge as nat) < 63 {
                lemma_pow2_strictly_increases(ge as nat, 63);
            }
        }
        let pa: u128 = pow2_u128(ae);
        let pg: u128 = pow2_u128(ge);
        proof {
            lemma_mul_upper_bound(
                self.current_rate.num as int,
                u64::MAX as int,
                2 * pow2(ae as nat) - self.alpha.num,
                pow2(64) as int,
            );
        }
        let factor: u128 = 2 * pa - (self.alpha.num as u128);
        let cnew: u128 = (self.current_rate.num as u128) * factor;
        if cnew > u64::MAX as u128 {
            return Err(SimError::Overflow);
        }
        proof {
            lemma_cut_preserves_wf(*self);
            lemma_mul_upper_bound(
                pow2(ge as nat) - self.g.num,
                pow2(63) as int,
                self.alpha.num as int,
                u64::MAX as int,
            );
            lemma_mul_upper_bound(
                self.g.num as int,
                pow2(63) as int,
                pow2(ae as nat) as int,
                pow2(63) as int,
            );
        }
        let anew: u128 = (pg - (self.g.num as u128)) * (self.alpha.num as u128) + (self.g.num
            as u128) * pa;
        self.target_rate = self.current_rate;
        self.current_rate = Dyadic { num: cnew as u64, exp: ce + ae + 1 };
        self.alpha = Dyadic { num: anew as u64, exp: ae + ge };
        self.alpha_time_counter = 0;
        self.increase_time_counter = 0;
        Ok(())
    }

    /// The periodic alpha decay: `alpha` shrinks by the factor `1 - g`.
    /// The caller resets its own firing counter.
    pub fn decay_alpha(&mut self) -> (r: Result<(), SimError>)
        requires
            old(self).wf(),
        ensures
            final(self).wf(),
            r is Ok <==> decay_fits(*old(self)),
            r is Ok ==> *final(self) == spec_decay(*old(self)),
            r is Err ==> *final(self) == *old(self) && r == Err::<(), SimError>(
                SimError::Overflow,
            ),
            final(self).recovery_stage == old(self).recovery_stage,
    {
        let ae = self.alpha.exp;
        let ge = self.g.exp;
        if ae + ge > 63 {
            return Err(SimError::Overflow);
        }
        proof {
            lemma2_to64();
            lemma2_to64_rest();
            if (ge as nat) < 63 {
                lemma_pow2_strictly_increases(ge as nat, 63);
            }
            lemma_decay_preserves_wf(*self);
            lemma_mul_upper_bound(
                pow2(ge as nat) - self.g.num,
                pow2(63) as int,
                self.alpha.num as int,
                u64::MAX as int,
            );
        }
        let pg: u128 = pow2_u128(ge);
        let anew: u128 = (pg - (self.g.num as u128)) * (self.alpha.num as u128);
        self.alpha = Dyadic { num: anew as u64, exp: ae + ge };
        Ok(())
    }

    /// Fast recovery: `current_rate = (current_rate + target_rate) / 2`,
    /// clamped to the bandwidth.
    pub fn fast_recovery(&mut self) -> (r: Result<(), SimError>)
        requires
            old(self).wf(),
        ensures
            final(self).wf(),
            r is Ok <==> fast_fits(*old(self)),
            r is Ok ==> *final(self) == spec_fast(*old(self)),
            r is Err ==> *final(self) == *old(self) && r == Err::<(), SimError>(
                SimError::Overflow,
            ),
            dy_le(final(self).current_rate, final(self).bandwidth),
    {
        let sum = match self.current_rate.checked_add(&self.target_rate) {
            Some(d) => d,
            None => {
                return Err(SimError::Overflow);
            },
        };
        let halved = match sum.checked_half() {
            Some(d) => d,
            None => {
                return Err(SimError::Overflow);
            },
        };
        self.current_rate = halved.clamp_to(&self.bandwidth);
        Ok(())
    }

    /// Additive increase: the target grows by `additive_increase_rate`, then
    /// the rate moves halfway toward it, clamped to the bandwidth.
    pub fn additive_increase(&mut self) -> (r: Result<(), SimError>)
        requires
            old(self).wf(),
        ensures
            final(self).wf(),
            r is Ok <==> additive_fits(*old(self)),
            r is Ok ==> *final(self) == spec_additive(*old(self)),
            r is Err ==> *final(self) == *old(self) && r == Err::<(), SimError>(
                SimError::Overflow,
            ),
            dy_le(final(self).current_rate, final(self).bandwidth),
    {
        let t2 = match self.target_rate.checked_add(&self.additive_increase_rate) {
            Some(d) => d,
            None => {
                return Err(SimError::Overflow);
            },
        };
        let sum = match self.current_rate.checked_add(&t2) {
            Some(d) => d,
            None => {
                return Err(SimError::Overflow);
            },
        };
        let halved = match sum.checked_half() {
            Some(d) => d,
            None => {
                return Err(SimError::Overflow);
            },
        };
        self.target_rate = t2;
        self.current_rate = halved.clamp_to(&self.bandwidth);
        Ok(())
    }

    /// Hyper increase: as additive increase, with `hyper_increase_rate`.
    pub fn hyper_increase(&mut self) -> (r: Result<(), SimError>)
        requires
            old(self).wf(),
        ensures
            final(self).wf(),
            r is Ok <==> hyper_fits(*old(self)),
            r is Ok ==> *final(self) == spec_hyper(*old(self)),
            r is Err ==> *final(self) == *old(self) && r == Err::<(), SimError>(
                SimError::Overflow,
            ),
            dy_le(final(self).current_rate, final(self).bandwidth),
    {
        let t2 = match self.target_rate.checked_add(&self.hyper_increase_rate) {
            Some(d) => d,
            None => {
                return Err(SimError::Overflow);
            },
        };
        let sum = match self.current_rate.checked_add(&t2) {
            Some(d) => d,
            None => {
                return Err(SimError::Overflow);
            },
        };
        let halved = match sum.checked_half() {
            Some(d) => d,
            None => {
                return Err(SimError::Overflow);
            },
        };
        self.target_rate = t2;
        self.current_rate = halved.clamp_to(&self.bandwidth);
        Ok(())
    }

    /// The increase-timer firing: the stage advances by one, then the
    /// regime selected by the new stage against the threshold is applied.
    /// The caller resets its own firing counter.
    pub fn advance_recovery(&mut self) -> (r: Result<(), SimError>)
        requires
            old(self).wf(),
        ensures
            final(self).wf(),
            r is Ok <==> advance_fits(*old(self)),
            r is Ok ==> *final(self) == spec_advance(*old(self)),
            r is Ok ==> final(self).recovery_stage == old(self).recovery_stage + 1,
            r is Err ==> *final(self) == *old(self) && r == Err::<(), SimError>(
                SimError::Overflow,
            ),
            dy_le(final(self).current_rate, final(self).bandwidth),
    {
        if self.recovery_stage == u64::MAX {
            return Err(SimError::Overflow);
        }
        let stage = self.recovery_stage + 1;
        if stage < self.recovery_threshold {
            let sum = match self.current_rate.checked_add(&self.target_rate) {
                Some(d) => d,
                None => {
                    return Err(SimError::Overflow);
                },
            };
            let halved = match sum.checked_half() {
                Some(d) => d,
                None => {
                    return Err(SimError::Overflow);
                },
            };
            self.recovery_stage = stage;
            self.current_rate = halved.clamp_to(&self.bandwidth);
            Ok(())
        } else if stage == self.recovery_threshold {
            let t2 = match self.target_rate.checked_add(&self.additive_increase_rate) {
                Some(d) => d,
                None => {
                    return Err(SimError::Overflow);
                },
            };
            let sum = match self.current_rate.checked_add(&t2) {
                Some(d) => d,
                None => {
                    return Err(SimError::Overflow);
                },
            };
            let halved = match sum.checked_half() {
                Some(d) => d,
                None => {
                    return Err(SimError::Overflow);
                },
            };
            self.recovery_stage = stage;
            self.target_rate = t2;
            self.current_rate = halved.clamp_to(&self.bandwidth);
            Ok(())
        } else {
            let t2 = match self.target_rate.checked_add(&self.hyper_increase_rate) {
                Some(d) => d,
                None => {
                    return Err(SimError::Overflow);
                },
            };
            let sum = match self.current_rate.checked_add(&t2) {
                Some(d) => d,
                None => {
                    return Err(SimError::Overflow);
                },
            };
            let halved = match sum.checked_half() {
                Some(d) => d,
                None => {
                    return Err(SimError::Overflow);
                },
            };
            self.recovery_stage = stage;
            self.target_rate = t2;
            self.current_rate = halved.clamp_to(&self.bandwidth);
            Ok(())
        }
    }
}

} // verus!
