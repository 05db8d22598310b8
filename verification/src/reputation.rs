//! Directed trust modelled as a Beta(alpha, beta) distribution.
//!
//! `alpha` and `beta` are kept in thousandths of a unit (milli), so the
//! uniform prior Beta(1, 1) is stored as (1000, 1000).  Scores are reported
//! in parts per million (ppm): a score of 0.5 is 500_000 ppm.  Temporal decay
//! compounds a per-tick retention of `1_000_000 - decay_rate_ppm` ppm, the
//! fixed-point counterpart of exponential decay toward the neutral score.

use vstd::prelude::*;

verus! {

use vstd::arithmetic::power::pow;
use vstd::arithmetic::mul::lemma_mul_upper_bound;
use vstd::arithmetic::div_mod::lemma_div_multiples_vanish;

/// One whole unit in milli fixed point.
pub const UNIT_MILLI: u64 = 1_000;

/// One whole unit in ppm fixed point; also the scale of decay factors.
pub const UNIT_PPM: u64 = 1_000_000;

/// The neutral score (0.5) in ppm.
pub const NEUTRAL_SCORE_PPM: u32 = 500_000;

/// Upper bound (2^62 milli) that alpha and beta saturate at.  Keeping the
/// parameters below it lets exact rational scores be compared by
/// cross-multiplication without overflow.
pub const EVIDENCE_CAP_MILLI: u64 = 4_611_686_018_427_387_904;

/// Addition on u64 saturating at the evidence cap, as a mathematical
/// function.
pub open spec fn spec_capped_add(a: u64, b: u64) -> u64 {
    if a + b <= EVIDENCE_CAP_MILLI {
        (a + b) as u64
    } else {
        EVIDENCE_CAP_MILLI
    }
}

/// Absolute value of an i64 outcome weight, as a u64.
pub open spec fn spec_abs_i64(w: i64) -> u64 {
    if w >= 0 {
        w as u64
    } else {
        (-(w as int)) as u64
    }
}

/// The score alpha / (alpha + beta), scaled to ppm and rounded down.
pub open spec fn score_ppm_of(alpha: int, beta: int) -> int {
    alpha * 1_000_000 / (alpha + beta)
}

/// The decay factor after `elapsed` ticks, in ppm: each tick retains
/// `1_000_000 - rate` ppm of the previous factor, rounding down.
pub open spec fn spec_decay_factor(rate: int, elapsed: nat) -> int
    decreases elapsed,
{
    if elapsed == 0 {
        1_000_000
    } else {
        spec_decay_factor(rate, (elapsed - 1) as nat) * (1_000_000 - rate) / 1_000_000
    }
}

/// The decayed score in ppm: the current score pulled toward neutral (0.5)
/// by the decay factor, rounding the offset's magnitude down.
pub open spec fn spec_decayed_score_ppm(alpha: int, beta: int, rate: int, elapsed: nat) -> int {
    let s = score_ppm_of(alpha, beta);
    let f = spec_decay_factor(rate, elapsed);
    if s >= 500_000 {
        500_000 + (s - 500_000) * f / 1_000_000
    } else {
        500_000 - (500_000 - s) * f / 1_000_000
    }
}

/// Ticks elapsed since the last interaction, never negative.
pub open spec fn spec_elapsed(last: u64, current: u64) -> nat {
    if current >= last {
        (current - last) as nat
    } else {
        0
    }
}

/// Reputation view of a single agent using a Beta(alpha, beta) distribution.
///
/// The score alpha / (alpha + beta) is the expected trustworthiness.
#[derive(Debug, Clone, Copy, PartialEq, Eq, Structural)]
pub struct ReputationView {
    /// Alpha parameter in milli (evidence of positive interactions).
    pub alpha: u64,
    /// Beta parameter in milli (evidence of negative interactions).
    pub beta: u64,
    /// Tick of the last interaction, used by decay.
    pub last_interaction_tick: u64,
    /// Total number of recorded interactions.
    pub interaction_count: u32,
}

/// The view a single update leaves behind: positive weight feeds alpha,
/// negative weight feeds beta by its magnitude, zero feeds neither; the
/// interaction is always recorded.  Additions saturate at the evidence
/// cap.
pub open spec fn view_after_update(v: ReputationView, weight: i64, tick: u64) -> ReputationView {
    ReputationView {
        alpha: if weight > 0 {
            spec_capped_add(v.alpha, weight as u64)
        } else {
            v.alpha
        },
        beta: if weight < 0 {
            spec_capped_add(v.beta, spec_abs_i64(weight))
        } else {
            v.beta
        },
        last_interaction_tick: tick,
        interaction_count: if v.interaction_count < u32::MAX {
            (v.interaction_count + 1) as u32
        } else {
            u32::MAX
        },
    }
}

impl ReputationView {
    /// Both parameters are strictly positive (so the score is well defined
    /// and lies strictly between 0 and 1) and capped, so cross-multiplied
    /// score comparisons cannot overflow.
    pub open spec fn wf(&self) -> bool {
        1 <= self.alpha <= EVIDENCE_CAP_MILLI && 1 <= self.beta <= EVIDENCE_CAP_MILLI
    }

    /// Create a new reputation view with the uniform prior Beta(1, 1).
    pub fn new() -> (r: Self)
        ensures
            r == (ReputationView {
                alpha: 1000u64,
                beta: 1000u64,
                last_interaction_tick: 0u64,
                interaction_count: 0u32,
            }),
            r.wf(),
    {
        ReputationView { alpha: 1000, beta: 1000, last_interaction_tick: 0, interaction_count: 0 }
    }

    /// Create a reputation view with a custom prior of at least one whole
    /// unit of evidence on each side.
    pub fn with_prior(alpha_milli: u64, beta_milli: u64) -> (r: Self)
        requires
            UNIT_MILLI <= alpha_milli <= EVIDENCE_CAP_MILLI,
            UNIT_MILLI <= beta_milli <= EVIDENCE_CAP_MILLI,
        ensures
            r == (ReputationView {
                alpha: alpha_milli,
                beta: beta_milli,
                last_interaction_tick: 0u64,
                interaction_count: 0u32,
            }),
            r.wf(),
    {
        ReputationView {
            alpha: alpha_milli,
            beta: beta_milli,
            last_interaction_tick: 0,
            interaction_count: 0,
        }
    }

    /// The reputation score in ppm: alpha / (alpha + beta), rounded down.
    ///
    /// 1_000_000 would mean full trust, 0 full distrust; the exact rational
    /// score is always strictly between the two.
    pub fn score_ppm(&self) -> (r: u32)
        requires
            self.wf(),
        ensures
            r as int == score_ppm_of(self.alpha as int, self.beta as int),
            r < 1_000_000,
    {
        let total: u128 = self.alpha as u128 + self.beta as u128;
        let num: u128 = self.alpha as u128 * 1_000_000;
        let q: u128 = num / total;
        proof {
            let a = self.alpha as int;
            let b = self.beta as int;
            assert(a * 1_000_000 < (a + b) * 1_000_000) by (nonlinear_arith)
                requires b >= 1;
            assert(a * 1_000_000 / (a + b) < 1_000_000) by (nonlinear_arith)
                requires a >= 1 && b >= 1 && a * 1_000_000 < (a + b) * 1_000_000;
            assert(num == a * 1_000_000);
            assert(q == a * 1_000_000 / (a + b));
        }
        q as u32
    }

    /// The reputation score with temporal decay, in ppm.
    ///
    /// The score regresses toward neutral (500_000 ppm) as ticks pass with no
    /// interaction: the offset from neutral is scaled by a factor that loses
    /// `decay_rate_ppm` parts per million of itself each tick.  A current
    /// tick at or before the last interaction leaves the score unchanged.
    pub fn score_with_decay(&self, current_tick: u64, decay_rate_ppm: u32) -> (r: u32)
        requires
            self.wf(),
            decay_rate_ppm <= 1_000_000,
        ensures
            r as int == spec_decayed_score_ppm(
                self.alpha as int,
                self.beta as int,
                decay_rate_ppm as int,
                spec_elapsed(self.last_interaction_tick, current_tick),
            ),
            current_tick <= self.last_interaction_tick ==> r as int == score_ppm_of(
                self.alpha as int,
                self.beta as int,
            ),
            r <= 1_000_000,
    {
        let elapsed = current_tick.saturating_sub(self.last_interaction_tick);
        let factor = decay_factor_ppm(decay_rate_ppm, elapsed);
        let s = self.score_ppm();
        proof {
            let ghost si = score_ppm_of(self.alpha as int, self.beta as int);
            let ghost fi = spec_decay_factor(
                decay_rate_ppm as int,
                spec_elapsed(self.last_interaction_tick, current_tick),
            );
            if si >= 500_000 {
                assert((si - 500_000) * fi <= 500_000 * 1_000_000) by {
                    lemma_mul_upper_bound(si - 500_000, 500_000, fi, 1_000_000);
                }
                assert((si - 500_000) * fi >= 0) by (nonlinear_arith)
                    requires si >= 500_000 && fi >= 0;
            } else {
                assert((500_000 - si) * fi <= 500_000 * 1_000_000) by {
                    lemma_mul_upper_bound(500_000 - si, 500_000, fi, 1_000_000);
                }
                assert((500_000 - si) * fi >= 0) by (nonlinear_arith)
                    requires si < 500_000 && fi >= 0;
            }
            if current_tick <= self.last_interaction_tick {
                assert(spec_elapsed(self.last_interaction_tick, current_tick) == 0);
                assert(fi == 1_000_000);
                if si >= 500_000 {
                    lemma_div_multiples_vanish(si - 500_000, 1_000_000);
                    assert((si - 500_000) * 1_000_000 == 1_000_000 * (si - 500_000));
                    assert((si - 500_000) * fi / 1_000_000 == si - 500_000);
                } else {
                    lemma_div_multiples_vanish(500_000 - si, 1_000_000);
                    assert((500_000 - si) * 1_000_000 == 1_000_000 * (500_000 - si));
                    assert((500_000 - si) * fi / 1_000_000 == 500_000 - si);
                }
            }
        }
        if s >= 500_000 {
            let off: u64 = (s - 500_000) as u64 * factor as u64 / 1_000_000;
            500_000 + off as u32
        } else {
            let off: u64 = (500_000 - s) as u64 * factor as u64 / 1_000_000;
            500_000 - off as u32
        }
    }

    /// Record one interaction outcome: positive weight (milli) is added to
    /// alpha, the magnitude of a negative weight to beta, zero changes
    /// neither parameter; the tick and the interaction count are always
    /// updated.  Additions saturate rather than overflow.
    pub fn update(&mut self, outcome_weight_milli: i64, current_tick: u64)
        ensures
            *final(self) == view_after_update(*old(self), outcome_weight_milli, current_tick),
            old(self).wf() ==> final(self).wf(),
    {
        if outcome_weight_milli > 0 {
            let grown = self.alpha.saturating_add(outcome_weight_milli as u64);
            self.alpha = if grown > EVIDENCE_CAP_MILLI {
                EVIDENCE_CAP_MILLI
            } else {
                grown
            };
        } else if outcome_weight_milli < 0 {
            let mag: u64 = if outcome_weight_milli == i64::MIN {
                9_223_372_036_854_775_808u64
            } else {
                (-outcome_weight_milli) as u64
            };
            let grown = self.beta.saturating_add(mag);
            self.beta = if grown > EVIDENCE_CAP_MILLI {
                EVIDENCE_CAP_MILLI
            } else {
                grown
            };
        }
        self.last_interaction_tick = current_tick;
        self.interaction_count = self.interaction_count.saturating_add(1);
    }

    /// Total evidence (alpha + beta) in milli.
    ///
    /// Higher values mean more recorded evidence behind the estimate.
    pub fn confidence(&self) -> (r: u64)
        ensures
            self.wf() ==> r == self.alpha + self.beta,
            r == if self.alpha + self.beta <= u64::MAX { (self.alpha + self.beta) as u64 } else { u64::MAX },
    {
        self.alpha.saturating_add(self.beta)
    }
}

impl Default for ReputationView {
    /// Same as `ReputationView::new`.
    fn default() -> (r: Self)
        ensures
            r == (ReputationView {
                alpha: 1000u64,
                beta: 1000u64,
                last_interaction_tick: 0u64,
                interaction_count: 0u32,
            }),
    {
        ReputationView::new()
    }
}

/// Compute the decay factor in ppm after `elapsed` ticks: the per-tick
/// retention `1_000_000 - rate_ppm` compounded `elapsed` times, rounding
/// down at each tick.
pub fn decay_factor_ppm(rate_ppm: u32, elapsed: u64) -> (r: u32)
    requires
        rate_ppm <= 1_000_000,
    ensures
        r as int == spec_decay_factor(rate_ppm as int, elapsed as nat),
        r <= 1_000_000,
{
    if rate_ppm == 0 {
        proof {
            lemma_decay_factor_no_rate(elapsed as nat);
        }
        return 1_000_000;
    }
    let retained: u64 = 1_000_000 - rate_ppm as u64;
    let mut f: u32 = 1_000_000;
    let mut i: u64 = 0;
    while i < elapsed && f > 0
        invariant
            i <= elapsed,
            f as int == spec_decay_factor(rate_ppm as int, i as nat),
            f <= 1_000_000,
            retained == 1_000_000 - rate_ppm,
            rate_ppm <= 1_000_000,
        decreases elapsed - i,
    {
        proof {
            assert(f as int * retained as int <= 1_000_000 * 1_000_000) by {
                lemma_mul_upper_bound(f as int, 1_000_000, retained as int, 1_000_000);
            }
            assert(f as int * retained as int >= 0) by (nonlinear_arith)
                requires f >= 0 && retained >= 0;
        }
        let next: u64 = f as u64 * retained / 1_000_000;
        f = next as u32;
        i = i + 1;
    }
    proof {
        if f == 0 && i < elapsed {
            lemma_decay_factor_zero_stays(rate_ppm as int, i as nat, elapsed as nat);
        }
    }
    f
}

/// With a zero decay rate the factor stays at one whole unit forever.
proof fn lemma_decay_factor_no_rate(elapsed: nat)
    ensures
        spec_decay_factor(0, elapsed) == 1_000_000,
    decreases elapsed,
{
    if elapsed > 0 {
        lemma_decay_factor_no_rate((elapsed - 1) as nat);
    }
}

/// Once the factor has rounded down to zero it stays zero.
proof fn lemma_decay_factor_zero_stays(rate: int, from: nat, to: nat)
    requires
        from <= to,
        spec_decay_factor(rate, from) == 0,
    ensures
        spec_decay_factor(rate, to) == 0,
    decreases to - from,
{
    if to > from {
        lemma_decay_factor_zero_stays(rate, from, (to - 1) as nat);
    }
}

/// The decay factor never grows as more ticks elapse.
pub proof fn lemma_decay_factor_nonincreasing(rate: int, e1: nat, e2: nat)
    requires
        0 <= rate <= 1_000_000,
        e1 <= e2,
    ensures
        spec_decay_factor(rate, e2) <= spec_decay_factor(rate, e1),
        spec_decay_factor(rate, e2) >= 0,
    decreases e2 - e1,
{
    lemma_decay_factor_bounds(rate, e1);
    lemma_decay_factor_bounds(rate, e2);
    if e2 > e1 {
        lemma_decay_factor_nonincreasing(rate, e1, (e2 - 1) as nat);
        let prev = spec_decay_factor(rate, (e2 - 1) as nat);
        assert(prev * (1_000_000 - rate) <= prev * 1_000_000) by (nonlinear_arith)
            requires prev >= 0 && 0 <= rate <= 1_000_000;
        assert(prev * 1_000_000 / 1_000_000 == prev) by {
            lemma_div_multiples_vanish(prev, 1_000_000);
        }
        assert(prev * (1_000_000 - rate) / 1_000_000 <= prev * 1_000_000 / 1_000_000) by {
            vstd::arithmetic::div_mod::lemma_div_is_ordered(
                prev * (1_000_000 - rate),
                prev * 1_000_000,
                1_000_000,
            );
        }
    }
}

/// The view a decay pass leaves behind.  A view is rebalanced only when
/// more than 10_000 ticks have passed since its last interaction or its
/// total evidence exceeds 1000 whole units; rebalancing fixes the score at
/// its decayed value while cutting the total evidence down to at most 10
/// whole units, and both parameters are kept strictly positive.
pub open spec fn view_after_decay(v: ReputationView, current_tick: u64, rate: int) -> ReputationView {
    let elapsed = spec_elapsed(v.last_interaction_tick, current_tick);
    let total = v.alpha + v.beta;
    if elapsed > 10_000 || total > 1_000_000 {
        let d = spec_decayed_score_ppm(v.alpha as int, v.beta as int, rate, elapsed);
        let na = if total >= 10_000 {
            d / 100
        } else {
            d * total / 1_000_000
        };
        let nb = if total >= 10_000 {
            (1_000_000 - d) / 100
        } else {
            (1_000_000 - d) * total / 1_000_000
        };
        ReputationView {
            alpha: (if na >= 1 {
                na
            } else {
                1
            }) as u64,
            beta: (if nb >= 1 {
                nb
            } else {
                1
            }) as u64,
            last_interaction_tick: current_tick,
            interaction_count: v.interaction_count,
        }
    } else {
        v
    }
}

impl ReputationView {
    /// Decay-and-rebalance pass over this view: when enough time has passed
    /// or the evidence total has grown too large, replace (alpha, beta) so
    /// that the score equals the decayed score while the total evidence is
    /// cut down to at most 10 whole units.  Otherwise leave the view as it
    /// is.
    pub fn rebalance(&mut self, current_tick: u64, decay_rate_ppm: u32)
        requires
            old(self).wf(),
            decay_rate_ppm <= 1_000_000,
        ensures
            *final(self) == view_after_decay(*old(self), current_tick, decay_rate_ppm as int),
            final(self).wf(),
    {
        let elapsed = current_tick.saturating_sub(self.last_interaction_tick);
        let total = self.alpha + self.beta;
        if elapsed > 10_000 || total > 1_000_000 {
            let d = self.score_with_decay(current_tick, decay_rate_ppm);
            let na: u64 = if total >= 10_000 {
                d as u64 / 100
            } else {
                proof {
                    assert(d as int * total as int <= 1_000_000 * 10_000) by (nonlinear_arith)
                        requires d <= 1_000_000 && total < 10_000;
                    assert(d as int * total as int >= 0) by (nonlinear_arith)
                        requires d >= 0 && total >= 0;
                }
                d as u64 * total / 1_000_000
            };
            let rest: u64 = 1_000_000 - d as u64;
            let nb: u64 = if total >= 10_000 {
                rest / 100
            } else {
                proof {
                    assert(rest as int * total as int <= 1_000_000 * 10_000) by (nonlinear_arith)
                        requires rest <= 1_000_000 && total < 10_000;
                    assert(rest as int * total as int >= 0) by (nonlinear_arith)
                        requires rest >= 0 && total >= 0;
                }
                rest * total / 1_000_000
            };
            self.alpha = if na >= 1 {
                na
            } else {
                1
            };
            self.beta = if nb >= 1 {
                nb
            } else {
                1
            };
            self.last_interaction_tick = current_tick;
        }
    }
}

/// A rebalancing decay pass caps the total evidence at just over 10 whole
/// units (10_000 milli, plus at most 1 milli from each positivity clamp)
/// while keeping the view well formed.
pub proof fn lemma_rebalance_bounds_confidence(v: ReputationView, current_tick: u64, rate: int)
    requires
        v.wf(),
        0 <= rate <= 1_000_000,
        spec_elapsed(v.last_interaction_tick, current_tick) > 10_000 || v.alpha + v.beta
            > 1_000_000,
    ensures
        view_after_decay(v, current_tick, rate).alpha + view_after_decay(
            v,
            current_tick,
            rate,
        ).beta <= 10_002,
        view_after_decay(v, current_tick, rate).wf(),
{
    let elapsed = spec_elapsed(v.last_interaction_tick, current_tick);
    let total = v.alpha + v.beta;
    let d = spec_decayed_score_ppm(v.alpha as int, v.beta as int, rate, elapsed);
    lemma_decayed_score_bounds(v, rate, elapsed);
    if total >= 10_000 {
        assert(d / 100 + (1_000_000 - d) / 100 <= 10_000) by (nonlinear_arith)
            requires 0 <= d <= 1_000_000;
    } else {
        assert(d * total / 1_000_000 + (1_000_000 - d) * total / 1_000_000 <= 10_000)
            by (nonlinear_arith)
            requires 0 <= d <= 1_000_000 && 0 <= total < 10_000;
    }
}

/// Away from the extremes, a rebalancing decay pass keeps the score at its
/// decayed value up to rounding: the rebalanced view's score in ppm lies
/// within about one hundred ppm of the decayed score it was built from.
pub proof fn lemma_rebalance_preserves_decayed_score(v: ReputationView, current_tick: u64, rate: int)
    requires
        v.wf(),
        0 <= rate <= 1_000_000,
        spec_elapsed(v.last_interaction_tick, current_tick) > 10_000 || v.alpha + v.beta
            > 1_000_000,
        v.alpha + v.beta >= 10_000,
        100 <= spec_decayed_score_ppm(
            v.alpha as int,
            v.beta as int,
            rate,
            spec_elapsed(v.last_interaction_tick, current_tick),
        ) <= 999_900,
    ensures
        ({
            let d = spec_decayed_score_ppm(
                v.alpha as int,
                v.beta as int,
                rate,
                spec_elapsed(v.last_interaction_tick, current_tick),
            );
            let after = view_after_decay(v, current_tick, rate);
            d - 99 <= score_ppm_of(after.alpha as int, after.beta as int) <= d + 100
        }),
{
    let elapsed = spec_elapsed(v.last_interaction_tick, current_tick);
    let d = spec_decayed_score_ppm(v.alpha as int, v.beta as int, rate, elapsed);
    let after = view_after_decay(v, current_tick, rate);
    let na = d / 100;
    let nb = (1_000_000 - d) / 100;
    vstd::arithmetic::div_mod::lemma_fundamental_div_mod(d, 100);
    vstd::arithmetic::div_mod::lemma_remainder_lower(d, 100);
    vstd::arithmetic::div_mod::lemma_remainder_upper(d, 100);
    vstd::arithmetic::div_mod::lemma_fundamental_div_mod(1_000_000 - d, 100);
    vstd::arithmetic::div_mod::lemma_remainder_lower(1_000_000 - d, 100);
    vstd::arithmetic::div_mod::lemma_remainder_upper(1_000_000 - d, 100);
    assert(na >= 1 && nb >= 1);
    assert(after.alpha == na && after.beta == nb);
    let t = na + nb;
    assert(100 * na <= d < 100 * na + 100);
    assert(100 * nb <= 1_000_000 - d < 100 * nb + 100);
    assert(9999 <= t <= 10_000);
    let score = score_ppm_of(na, nb);
    assert(score == na * 1_000_000 / t);
    // Lower bound: dividing by at most 10_000 keeps at least 100 * na.
    assert(na * 1_000_000 == (na * 100) * 10_000) by (nonlinear_arith);
    vstd::arithmetic::div_mod::lemma_div_is_ordered_by_denominator(na * 1_000_000, t, 10_000);
    assert(na * 1_000_000 / 10_000 == na * 100) by {
        vstd::arithmetic::div_mod::lemma_div_by_multiple(na * 100, 10_000);
    }
    assert(score >= na * 100);
    assert(na * 100 >= d - 99);
    // Upper bound: dividing by at least 9999 stays at most d + 100.
    vstd::arithmetic::div_mod::lemma_div_is_ordered_by_denominator(na * 1_000_000, 9999, t);
    assert(na * 1_000_000 <= d * 10_000) by (nonlinear_arith)
        requires 100 * na <= d;
    vstd::arithmetic::div_mod::lemma_div_is_ordered(na * 1_000_000, d * 10_000, 9999);
    assert(d * 10_000 == 9999 * d + d) by (nonlinear_arith);
    assert(d * 10_000 / 9999 == d + d / 9999) by {
        vstd::arithmetic::div_mod::lemma_fundamental_div_mod(d, 9999);
        vstd::arithmetic::div_mod::lemma_remainder_lower(d, 9999);
        vstd::arithmetic::div_mod::lemma_remainder_upper(d, 9999);
        let q = d / 9999;
        let m = d % 9999;
        assert(9999 * d + d == 9999 * (d + q) + m) by (nonlinear_arith)
            requires d == 9999 * q + m;
        vstd::arithmetic::div_mod::lemma_div_multiples_vanish_fancy(d + q, m, 9999);
    }
    assert(d / 9999 <= 100) by {
        vstd::arithmetic::div_mod::lemma_div_is_ordered(d, 999_900, 9999);
        assert(999_900 == 9999 * 100) by (nonlinear_arith);
        vstd::arithmetic::div_mod::lemma_div_by_multiple(100, 9999);
    }
    assert(score <= d + 100);
}

/// The decayed score always lies between 0 and one whole unit.
pub proof fn lemma_decayed_score_bounds(v: ReputationView, rate: int, elapsed: nat)
    requires
        v.wf(),
        0 <= rate <= 1_000_000,
    ensures
        0 <= spec_decayed_score_ppm(v.alpha as int, v.beta as int, rate, elapsed) <= 1_000_000,
{
    let s = score_ppm_of(v.alpha as int, v.beta as int);
    let f = spec_decay_factor(rate, elapsed);
    lemma_score_strictly_within_unit(v);
    lemma_decay_factor_bounds(rate, elapsed);
    if s >= 500_000 {
        assert(0 <= (s - 500_000) * f <= 500_000 * 1_000_000) by (nonlinear_arith)
            requires 500_000 <= s <= 1_000_000 && 0 <= f <= 1_000_000;
        assert(0 <= (s - 500_000) * f / 1_000_000 <= 500_000) by (nonlinear_arith)
            requires 0 <= (s - 500_000) * f <= 500_000 * 1_000_000;
    } else {
        assert(0 <= (500_000 - s) * f <= 500_000 * 1_000_000) by (nonlinear_arith)
            requires 0 <= s < 500_000 && 0 <= f <= 1_000_000;
        assert(0 <= (500_000 - s) * f / 1_000_000 <= 500_000) by (nonlinear_arith)
            requires 0 <= (500_000 - s) * f <= 500_000 * 1_000_000;
    }
}

/// The exact rational score of `v` is strictly greater than num/den.
pub open spec fn score_exceeds_frac(v: ReputationView, num: int, den: int) -> bool {
    den > 0 && (v.alpha as int) * den > num * (v.alpha + v.beta)
}

/// The exact rational score of `v` is strictly less than num/den.
pub open spec fn score_below_frac(v: ReputationView, num: int, den: int) -> bool {
    den > 0 && (v.alpha as int) * den < num * (v.alpha + v.beta)
}

/// The exact rational score of `v` is at least num/den.
pub open spec fn score_at_least_frac(v: ReputationView, num: int, den: int) -> bool {
    den > 0 && (v.alpha as int) * den >= num * (v.alpha + v.beta)
}

/// The exact rational score of `v1` is strictly below that of `v2`
/// (cross-multiplied, denominators being positive for well-formed views).
pub open spec fn score_lt(v1: ReputationView, v2: ReputationView) -> bool {
    (v1.alpha as int) * (v2.alpha + v2.beta) < (v2.alpha as int) * (v1.alpha + v1.beta)
}

/// Absolute value of an integer.
pub open spec fn spec_abs(x: int) -> int {
    if x >= 0 {
        x
    } else {
        -x
    }
}

/// For every well-formed view the exact rational score lies strictly
/// between 0 and 1, and its ppm rounding stays below one whole unit.
pub proof fn lemma_score_strictly_within_unit(v: ReputationView)
    requires
        v.wf(),
    ensures
        score_exceeds_frac(v, 0, 1),
        score_below_frac(v, 1, 1),
        0 <= score_ppm_of(v.alpha as int, v.beta as int) < 1_000_000,
{
    let a = v.alpha as int;
    let b = v.beta as int;
    assert(a * 1_000_000 < (a + b) * 1_000_000) by (nonlinear_arith)
        requires b >= 1;
    assert(0 <= a * 1_000_000 / (a + b) < 1_000_000) by (nonlinear_arith)
        requires a >= 1 && b >= 1 && a * 1_000_000 < (a + b) * 1_000_000;
}

/// An update with strictly positive weight strictly increases the exact
/// rational score, as long as alpha does not saturate.
pub proof fn lemma_positive_update_increases_score(v: ReputationView, weight: i64, tick: u64)
    requires
        v.wf(),
        weight > 0,
        v.alpha + weight <= EVIDENCE_CAP_MILLI,
    ensures
        score_lt(v, view_after_update(v, weight, tick)),
{
    let a = v.alpha as int;
    let b = v.beta as int;
    let w = weight as int;
    assert(a * ((a + w) + b) < (a + w) * (a + b)) by (nonlinear_arith)
        requires w >= 1 && b >= 1 && a >= 0;
}

/// An update with strictly negative weight strictly decreases the exact
/// rational score, as long as beta does not saturate.
pub proof fn lemma_negative_update_decreases_score(v: ReputationView, weight: i64, tick: u64)
    requires
        v.wf(),
        weight < 0,
        v.beta + spec_abs_i64(weight) <= EVIDENCE_CAP_MILLI,
    ensures
        score_lt(view_after_update(v, weight, tick), v),
{
    let a = v.alpha as int;
    let b = v.beta as int;
    let m = spec_abs_i64(weight) as int;
    assert(m >= 1);
    assert(a * (a + b) < a * (a + (b + m))) by (nonlinear_arith)
        requires m >= 1 && a >= 1 && b >= 1;
}

/// Positive updates drive the score arbitrarily close to 1 without ever
/// reaching it: one update of weight at least (k - 1) * beta pushes the
/// score to at least (k - 1) / k, yet it stays strictly below 1.
pub proof fn lemma_positive_updates_approach_one(v: ReputationView, weight: i64, tick: u64, k: int)
    requires
        v.wf(),
        k >= 1,
        weight > 0,
        weight >= (k - 1) * (v.beta as int),
        v.alpha + weight <= EVIDENCE_CAP_MILLI,
    ensures
        score_at_least_frac(view_after_update(v, weight, tick), k - 1, k),
        score_below_frac(view_after_update(v, weight, tick), 1, 1),
{
    let a = v.alpha as int;
    let b = v.beta as int;
    let w = weight as int;
    let after = view_after_update(v, weight, tick);
    assert(after.alpha == a + w && after.beta == b);
    assert((a + w) * k >= (k - 1) * ((a + w) + b)) by (nonlinear_arith)
        requires k >= 1 && a >= 1 && b >= 1 && w >= (k - 1) * b;
    assert((a + w) * 1 < 1 * ((a + w) + b)) by (nonlinear_arith)
        requires b >= 1;
}

/// Raising a strictly smaller non-negative base to the same positive power
/// keeps it strictly smaller.
proof fn lemma_pow_base_strict(a: int, b: int, e: nat)
    requires
        0 <= a < b,
        e >= 1,
    ensures
        pow(a, e) < pow(b, e),
    decreases e,
{
    reveal(pow);
    if e == 1 {
        assert(pow(a, 1) == a * pow(a, 0));
        assert(pow(b, 1) == b * pow(b, 0));
    } else {
        lemma_pow_base_strict(a, b, (e - 1) as nat);
        vstd::arithmetic::power::lemma_pow_positive(b, (e - 1) as nat);
        if a == 0 {
            vstd::arithmetic::power::lemma0_pow((e - 1) as nat);
        } else {
            vstd::arithmetic::power::lemma_pow_positive(a, (e - 1) as nat);
        }
        assert(pow(a, e) == a * pow(a, (e - 1) as nat));
        assert(pow(b, e) == b * pow(b, (e - 1) as nat));
        assert(a * pow(a, (e - 1) as nat) < b * pow(b, (e - 1) as nat)) by (nonlinear_arith)
            requires
                0 <= a < b,
                0 <= pow(a, (e - 1) as nat) < pow(b, (e - 1) as nat),
                pow(b, (e - 1) as nat) >= 1,
        ;
    }
}

/// The ideal (infinite-precision) decayed score strictly approaches the
/// neutral score as more ticks elapse.
///
/// For retention ret = 1_000_000 - rate, the ideal decayed score after n
/// ticks sits at offset (alpha - beta) * ret^n / (2 * (alpha + beta) *
/// 1_000_000^n) from one half.  For a score away from neutral (alpha !=
/// beta) and a rate strictly between 0 and one whole unit, the offset's
/// magnitude strictly shrinks as n grows; cancelling the common positive
/// factor 2 * (alpha + beta) leaves the inequality stated here.
pub proof fn lemma_ideal_decay_strictly_approaches_neutral(
    v: ReputationView,
    rate: int,
    n1: nat,
    n2: nat,
)
    requires
        v.wf(),
        v.alpha != v.beta,
        1 <= rate < 1_000_000,
        n1 < n2,
    ensures
        spec_abs(v.alpha - v.beta) * (pow(1_000_000 - rate, n2) * pow(1_000_000, n1)) < spec_abs(
            v.alpha - v.beta,
        ) * (pow(1_000_000 - rate, n1) * pow(1_000_000, n2)),
{
    let ret = 1_000_000 - rate;
    let d = (n2 - n1) as nat;
    vstd::arithmetic::power::lemma_pow_adds(ret, n1, d);
    vstd::arithmetic::power::lemma_pow_adds(1_000_000, n1, d);
    vstd::arithmetic::power::lemma_pow_positive(ret, n1);
    vstd::arithmetic::power::lemma_pow_positive(ret, d);
    vstd::arithmetic::power::lemma_pow_positive(1_000_000, n1);
    vstd::arithmetic::power::lemma_pow_positive(1_000_000, d);
    lemma_pow_base_strict(ret, 1_000_000, d);
    let pr1 = pow(ret, n1);
    let pm1 = pow(1_000_000, n1);
    let prd = pow(ret, d);
    let pmd = pow(1_000_000, d);
    assert(pow(ret, n2) == pr1 * prd);
    assert(pow(1_000_000, n2) == pm1 * pmd);
    assert((pr1 * prd) * pm1 < pr1 * (pm1 * pmd)) by (nonlinear_arith)
        requires pr1 >= 1 && pm1 >= 1 && 0 <= prd < pmd;
    let gap = spec_abs(v.alpha - v.beta);
    assert(gap >= 1);
    assert(gap * (pow(ret, n2) * pow(1_000_000, n1)) < gap * (pow(ret, n1) * pow(
        1_000_000,
        n2,
    ))) by (nonlinear_arith)
        requires
            gap >= 1,
            pow(ret, n2) * pow(1_000_000, n1) < pow(ret, n1) * pow(1_000_000, n2),
    ;
}

/// The fixed-point decay factor never exceeds the ideal one: floored
/// compounding only loses value, so factor(n) / 1_000_000 stays at or below
/// (ret / 1_000_000)^n.
pub proof fn lemma_floored_factor_below_ideal(rate: int, n: nat)
    requires
        0 <= rate <= 1_000_000,
    ensures
        spec_decay_factor(rate, n) * pow(1_000_000, n) <= 1_000_000 * pow(1_000_000 - rate, n),
    decreases n,
{
    reveal(pow);
    let ret = 1_000_000 - rate;
    if n == 0 {
        assert(pow(1_000_000, 0) == 1 && pow(ret, 0) == 1);
    } else {
        let m = (n - 1) as nat;
        lemma_floored_factor_below_ideal(rate, m);
        lemma_decay_factor_bounds(rate, m);
        vstd::arithmetic::power::lemma_pow_positive(1_000_000, m);
        let fm = spec_decay_factor(rate, m);
        let fn_ = spec_decay_factor(rate, n);
        assert(fn_ == fm * ret / 1_000_000);
        assert(fn_ * 1_000_000 <= fm * ret) by {
            vstd::arithmetic::div_mod::lemma_fundamental_div_mod(fm * ret, 1_000_000);
            vstd::arithmetic::div_mod::lemma_remainder_lower(fm * ret, 1_000_000);
        }
        assert(pow(1_000_000, n) == 1_000_000 * pow(1_000_000, m));
        assert(pow(ret, n) == ret * pow(ret, m));
        assert(fn_ * (1_000_000 * pow(1_000_000, m)) <= 1_000_000 * (ret * pow(ret, m)))
            by (nonlinear_arith)
            requires
                fn_ * 1_000_000 <= fm * ret,
                fm * pow(1_000_000, m) <= 1_000_000 * pow(ret, m),
                pow(1_000_000, m) >= 1,
                ret >= 0,
                fm >= 0,
                fn_ >= 0,
                pow(ret, m) >= 0,
        ;
    }
}

/// The fixed-point decayed score's offset from neutral never grows as more
/// ticks elapse.
pub proof fn lemma_decayed_offset_nonincreasing(alpha: int, beta: int, rate: int, n1: nat, n2: nat)
    requires
        alpha >= 1,
        beta >= 1,
        0 <= rate <= 1_000_000,
        n1 <= n2,
    ensures
        spec_abs(spec_decayed_score_ppm(alpha, beta, rate, n2) - 500_000) <= spec_abs(
            spec_decayed_score_ppm(alpha, beta, rate, n1) - 500_000,
        ),
{
    let s = score_ppm_of(alpha, beta);
    let f1 = spec_decay_factor(rate, n1);
    let f2 = spec_decay_factor(rate, n2);
    lemma_decay_factor_nonincreasing(rate, n1, n2);
    let off = if s >= 500_000 {
        s - 500_000
    } else {
        500_000 - s
    };
    assert(off * f2 <= off * f1) by (nonlinear_arith)
        requires off >= 0 && 0 <= f2 <= f1;
    assert(off * f2 >= 0) by (nonlinear_arith)
        requires off >= 0 && f2 >= 0;
    vstd::arithmetic::div_mod::lemma_div_is_ordered(off * f2, off * f1, 1_000_000);
    vstd::arithmetic::div_mod::lemma_div_pos_is_pos(off * f2, 1_000_000);
}

/// The decay factor always lies between 0 and one whole unit.
pub proof fn lemma_decay_factor_bounds(rate: int, elapsed: nat)
    requires
        0 <= rate <= 1_000_000,
    ensures
        0 <= spec_decay_factor(rate, elapsed) <= 1_000_000,
    decreases elapsed,
{
    if elapsed > 0 {
        lemma_decay_factor_bounds(rate, (elapsed - 1) as nat);
        let prev = spec_decay_factor(rate, (elapsed - 1) as nat);
        assert(0 <= prev * (1_000_000 - rate) <= 1_000_000 * 1_000_000) by (nonlinear_arith)
            requires 0 <= prev <= 1_000_000 && 0 <= rate <= 1_000_000;
    }
}

} // verus!
