//! The warmup lifecycle shared by the seeded indicators.
//!
//! A seeded indicator (EMA, Wilder RSI, Wilder ATR) first accumulates `period`
//! inputs, turns that accumulation into its seed on the `period`-th one, and
//! from then on applies its steady-state recurrence. An indicator that works on
//! differences (RSI) first needs one extra input that only sets the baseline.
//! [`Warmup::step`] tells the caller which of these four things to do with the
//! input it has just accepted, so the indicator's arithmetic follows the exact
//! lifecycle proved here.
use vstd::prelude::*;

verus! {

/// What an indicator does with one accepted input.
#[derive(Debug, Clone, Copy, PartialEq, Eq, Structural)]
pub enum Phase {
    /// Record the input as the baseline; no output.
    Baseline,
    /// Add the input to the seed accumulation; no output yet.
    Accumulate,
    /// Add the input to the seed accumulation and emit the seed: the first value.
    Seed,
    /// Apply the steady-state recurrence and emit its value.
    Steady,
}

/// Number of accepted inputs before the first value, for a seed of `period`
/// inputs preceded by `baseline` priming inputs.
pub open spec fn warmup_len(period: nat, baseline: bool) -> nat {
    period + if baseline { 1nat } else { 0nat }
}

/// Phase of the next input when `taken` inputs have already been taken into the
/// lifecycle (`taken` never goes past the warmup length).
pub open spec fn phase_at(period: nat, baseline: bool, taken: nat) -> Phase {
    if baseline && taken == 0 {
        Phase::Baseline
    } else if period > 0 && taken >= warmup_len(period, baseline) {
        Phase::Steady
    } else if period > 0 && taken + 1 == warmup_len(period, baseline) {
        Phase::Seed
    } else {
        Phase::Accumulate
    }
}

/// Inputs taken after one more step from `taken`: a steady-state input, or a
/// seed input of a lifecycle whose seed is empty, leaves the count unchanged.
pub open spec fn taken_after_step(period: nat, baseline: bool, taken: nat) -> nat {
    match phase_at(period, baseline, taken) {
        Phase::Baseline => taken + 1,
        Phase::Seed => taken + 1,
        Phase::Steady => taken,
        Phase::Accumulate => if period == 0 {
            taken
        } else {
            taken + 1
        },
    }
}

/// Inputs taken by a fresh lifecycle after `k` steps.
pub open spec fn taken_after(period: nat, baseline: bool, k: nat) -> nat
    decreases k,
{
    if k == 0 {
        0
    } else {
        taken_after_step(period, baseline, taken_after(period, baseline, (k - 1) as nat))
    }
}

/// Whether a lifecycle with `taken` inputs has produced its first value.
pub open spec fn ready_at(period: nat, baseline: bool, taken: nat) -> bool {
    period > 0 && taken >= warmup_len(period, baseline)
}

/// Lifecycle state of one seeded indicator.
#[derive(Debug)]
pub struct Warmup {
    period: usize,
    with_baseline: bool,
    awaiting_baseline: bool,
    count: usize,
    seeded: bool,
}

impl Warmup {
    #[verifier::type_invariant]
    spec fn inv(self) -> bool {
        &&& self.count <= self.period
        &&& self.with_baseline ==> self.period < usize::MAX
        &&& !self.with_baseline ==> !self.awaiting_baseline
        &&& self.awaiting_baseline ==> self.count == 0 && !self.seeded
        &&& self.seeded <==> (self.period > 0 && self.count == self.period)
    }

    /// The configured seed length.
    pub closed spec fn seed_len(self) -> nat {
        self.period as nat
    }

    /// Whether one priming input precedes the seed.
    pub closed spec fn primes(self) -> bool {
        self.with_baseline
    }

    /// Inputs taken into the lifecycle so far (saturating at the warmup length).
    pub closed spec fn taken(self) -> nat {
        (if self.with_baseline && !self.awaiting_baseline {
            1nat
        } else {
            0nat
        }) + self.count as nat
    }

    /// A lifecycle with a seed of `period` inputs and no priming input.
    pub fn new(period: usize) -> (w: Self)
        ensures
            w.seed_len() == period,
            !w.primes(),
            w.taken() == 0,
    {
        Warmup { period, with_baseline: false, awaiting_baseline: false, count: 0, seeded: false }
    }

    /// A lifecycle with one priming input followed by a seed of `period` inputs.
    pub fn with_baseline(period: usize) -> (w: Self)
        requires
            period < usize::MAX,
        ensures
            w.seed_len() == period,
            w.primes(),
            w.taken() == 0,
    {
        Warmup { period, with_baseline: true, awaiting_baseline: true, count: 0, seeded: false }
    }

    /// The configured seed length.
    pub fn period(&self) -> (p: usize)
        ensures
            p == self.seed_len(),
    {
        self.period
    }

    /// Number of accepted inputs before the first value.
    pub fn warmup_period(&self) -> (n: usize)
        ensures
            n == self.seed_len() + (if self.primes() { 1nat } else { 0nat }),
    {
        proof {
            use_type_invariant(self);
        }
        if self.with_baseline {
            self.period + 1
        } else {
            self.period
        }
    }

    /// Whether the first value has been produced.
    pub fn is_ready(&self) -> (b: bool)
        ensures
            b == ready_at(self.seed_len(), self.primes(), self.taken()),
            b == (self.seed_len() > 0 && self.taken() >= self.seed_len() + (if self.primes() {
                1nat
            } else {
                0nat
            })),
    {
        proof {
            use_type_invariant(self);
        }
        self.seeded
    }

    /// Take one accepted input into the lifecycle and say what to do with it.
    pub fn step(&mut self) -> (ph: Phase)
        ensures
            final(self).seed_len() == old(self).seed_len(),
            final(self).primes() == old(self).primes(),
            ph == phase_at(old(self).seed_len(), old(self).primes(), old(self).taken()),
            final(self).taken() == taken_after_step(
                old(self).seed_len(),
                old(self).primes(),
                old(self).taken(),
            ),
    {
        proof {
            use_type_invariant(&*self);
        }
        if self.awaiting_baseline {
            self.awaiting_baseline = false;
            return Phase::Baseline;
        }
        if self.seeded {
            return Phase::Steady;
        }
        if self.period == 0 {
            return Phase::Accumulate;
        }
        let count = self.count + 1;
        let seeded = count == self.period;
        *self = Warmup {
            period: self.period,
            with_baseline: self.with_baseline,
            awaiting_baseline: false,
            count,
            seeded,
        };
        if seeded {
            Phase::Seed
        } else {
            Phase::Accumulate
        }
    }

    /// Clear the lifecycle back to its freshly constructed state, keeping the
    /// configuration.
    pub fn reset(&mut self)
        ensures
            final(self).seed_len() == old(self).seed_len(),
            final(self).primes() == old(self).primes(),
            final(self).taken() == 0,
    {
        proof {
            use_type_invariant(&*self);
        }
        let fresh = Warmup {
            period: self.period,
            with_baseline: self.with_baseline,
            awaiting_baseline: self.with_baseline,
            count: 0,
            seeded: false,
        };
        *self = fresh;
    }
}

impl Clone for Warmup {
    /// An independent copy in the same lifecycle state.
    fn clone(&self) -> (w: Self)
        ensures
            w.seed_len() == self.seed_len(),
            w.primes() == self.primes(),
            w.taken() == self.taken(),
    {
        proof {
            use_type_invariant(self);
        }
        Warmup {
            period: self.period,
            with_baseline: self.with_baseline,
            awaiting_baseline: self.awaiting_baseline,
            count: self.count,
            seeded: self.seeded,
        }
    }
}

/// The lifecycle of a fresh indicator: after `k` accepted inputs it has taken
/// `min(k, warmup)` of them (only the priming input when its seed is empty), and
/// the `k`-th input (from 0) is the priming input when `k == 0` and one is
/// needed, the seed input when `k == warmup - 1`, a steady-state input from then
/// on, and a seed accumulation otherwise.
pub proof fn lemma_lifecycle(period: nat, baseline: bool, k: nat)
    ensures
        taken_after(period, baseline, k) == (if period > 0 {
            if k < period + (if baseline { 1nat } else { 0nat }) {
                k
            } else {
                period + (if baseline { 1nat } else { 0nat })
            }
        } else if baseline && k > 0 {
            1nat
        } else {
            0nat
        }),
        phase_at(period, baseline, taken_after(period, baseline, k)) == (if baseline && k == 0 {
            Phase::Baseline
        } else if period > 0 && k >= period + (if baseline { 1nat } else { 0nat }) {
            Phase::Steady
        } else if period > 0 && k + 1 == period + (if baseline { 1nat } else { 0nat }) {
            Phase::Seed
        } else {
            Phase::Accumulate
        }),
    decreases k,
{
    if k > 0 {
        lemma_lifecycle(period, baseline, (k - 1) as nat);
    }
}

/// An indicator is ready after exactly its warmup length of accepted inputs:
/// not one input earlier, and (for a non-empty seed) at that input.
pub proof fn lemma_ready_exactly_at_warmup(period: nat, baseline: bool, k: nat)
    ensures
        ready_at(period, baseline, taken_after(period, baseline, k)) <==> (period > 0 && k
            >= period + (if baseline { 1nat } else { 0nat })),
{
    lemma_lifecycle(period, baseline, k);
}

/// The warmup length is the seed length, plus one when a priming input comes
/// first.
pub proof fn lemma_warmup_len(period: nat, baseline: bool)
    ensures
        baseline ==> warmup_len(period, baseline) == period + 1,
        !baseline ==> warmup_len(period, baseline) == period,
{
}

/// Without a priming input and with a seed of `p > 0` inputs, the `k`-th input
/// (from 0) is an accumulation while `k + 1 < p`, the seed when `k + 1 == p`,
/// and a steady-state input from `k == p` on; the lifecycle is ready after `k`
/// inputs exactly when `k >= p`.
pub proof fn lemma_plain_seed_phases(p: nat, k: nat)
    requires
        p > 0,
    ensures
        (phase_at(p, false, taken_after(p, false, k)) == Phase::Seed) <==> k + 1 == p,
        (phase_at(p, false, taken_after(p, false, k)) == Phase::Steady) <==> k >= p,
        (phase_at(p, false, taken_after(p, false, k)) == Phase::Accumulate) <==> k + 1 < p,
        ready_at(p, false, taken_after(p, false, k)) <==> k >= p,
{
    lemma_lifecycle(p, false, k);
}

/// With one priming input and a seed of `p > 0` inputs, input 0 is the
/// baseline, inputs `1..p` accumulate the seed, input `p` is the seed, and the
/// lifecycle is ready after `k` inputs exactly when `k >= p + 1`.
pub proof fn lemma_primed_seed_phases(p: nat, k: nat)
    requires
        p > 0,
    ensures
        (phase_at(p, true, taken_after(p, true, k)) == Phase::Baseline) <==> k == 0,
        (phase_at(p, true, taken_after(p, true, k)) == Phase::Accumulate) <==> 1 <= k < p,
        (phase_at(p, true, taken_after(p, true, k)) == Phase::Seed) <==> k == p,
        (phase_at(p, true, taken_after(p, true, k)) == Phase::Steady) <==> k >= p + 1,
        ready_at(p, true, taken_after(p, true, k)) <==> k >= p + 1,
{
    lemma_lifecycle(p, true, k);
}

/// Readiness never goes back: once ready, any further input leaves it ready.
pub proof fn lemma_ready_is_monotone(period: nat, baseline: bool, taken: nat)
    requires
        ready_at(period, baseline, taken),
    ensures
        ready_at(period, baseline, taken_after_step(period, baseline, taken)),
{
}

} // verus!
