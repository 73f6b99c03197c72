//! The reseed cadence of a rolling sum.
//!
//! A moving average keeps an incremental sum and, to bound drift, rebuilds it
//! from the live window every `RECOMPUTE_EVERY · N` accepted updates. The exact
//! cadence is part of the output contract, so it is kept here and proved.
use vstd::prelude::*;

verus! {

/// How often the incremental sum is rebuilt, as a multiple of the window length.
pub const RECOMPUTE_EVERY: usize = 16;

/// Counter of accepted updates since the last rebuild of a rolling sum.
#[derive(Debug)]
pub struct ReseedClock {
    every: usize,
    since: usize,
}

/// Whether the tick taken with `since` updates already counted is a rebuild.
pub open spec fn reseed_due(every: nat, since: nat) -> bool {
    since + 1 >= every
}

/// The count after one tick.
pub open spec fn since_after_tick(every: nat, since: nat) -> nat {
    if reseed_due(every, since) {
        0
    } else {
        since + 1
    }
}

/// The count of a fresh clock after `k` ticks.
pub open spec fn since_after(every: nat, k: nat) -> nat
    decreases k,
{
    if k == 0 {
        0
    } else {
        since_after_tick(every, since_after(every, (k - 1) as nat))
    }
}

impl ReseedClock {
    #[verifier::type_invariant]
    spec fn inv(self) -> bool {
        self.since < self.every || (self.every == 0 && self.since == 0)
    }

    /// Updates between two rebuilds.
    pub closed spec fn spec_every(self) -> nat {
        self.every as nat
    }

    /// Updates counted since the last rebuild.
    pub closed spec fn since(self) -> nat {
        self.since as nat
    }

    /// A fresh clock for a window of `window` values: a rebuild every
    /// `RECOMPUTE_EVERY · window` updates.
    pub fn new(window: usize) -> (c: Self)
        requires
            RECOMPUTE_EVERY * window <= usize::MAX,
        ensures
            c.spec_every() == RECOMPUTE_EVERY * window,
            c.since() == 0,
    {
        ReseedClock { every: RECOMPUTE_EVERY * window, since: 0 }
    }

    /// Updates between two rebuilds.
    pub fn every(&self) -> (n: usize)
        ensures
            n == self.spec_every(),
    {
        self.every
    }

    /// Count one accepted update; `true` when the sum is due for a rebuild (the
    /// count then starts again from zero).
    pub fn tick(&mut self) -> (due: bool)
        ensures
            final(self).spec_every() == old(self).spec_every(),
            due == reseed_due(old(self).spec_every(), old(self).since()),
            final(self).since() == since_after_tick(old(self).spec_every(), old(self).since()),
    {
        proof {
            use_type_invariant(&*self);
        }
        let next = self.since + 1;
        if next >= self.every {
            self.since = 0;
            true
        } else {
            self.since = next;
            false
        }
    }
}

impl Clone for ReseedClock {
    /// An independent copy with the same count.
    fn clone(&self) -> (c: Self)
        ensures
            c.spec_every() == self.spec_every(),
            c.since() == self.since(),
    {
        proof {
            use_type_invariant(self);
        }
        ReseedClock { every: self.every, since: self.since }
    }
}

/// The rebuild cadence: with a positive period `every`, a fresh clock has
/// counted `k mod every` updates after `k` ticks, and its `k`-th tick (from 1)
/// is a rebuild exactly when `every` divides `k`.
pub proof fn lemma_reseed_cadence(every: nat, k: nat)
    requires
        every > 0,
    ensures
        since_after(every, k) == k % every,
        k > 0 ==> (reseed_due(every, since_after(every, (k - 1) as nat)) <==> k % every == 0),
    decreases k,
{
    if k > 0 {
        lemma_reseed_cadence(every, (k - 1) as nat);
        let p = since_after(every, (k - 1) as nat);
        assert(p == ((k - 1) as nat) % every);
        let km1 = (k - 1) as int;
        let e = every as int;
        let d = km1 / e;
        vstd::arithmetic::div_mod::lemma_fundamental_div_mod(km1, e);
        assert(km1 == e * d + p);
        assert(e * d == d * e) by (nonlinear_arith);
        if p + 1 < every {
            vstd::arithmetic::div_mod::lemma_fundamental_div_mod_converse(k as int, e, d, p + 1int);
        } else {
            assert((d + 1) * e == d * e + e) by (nonlinear_arith);
            vstd::arithmetic::div_mod::lemma_fundamental_div_mod_converse(k as int, e, d + 1, 0int);
        }
        assert(since_after(every, k) == since_after_tick(every, p));
        assert(since_after(every, k) == (k as int) % e);
    } else {
        assert(0nat % every == 0);
    }
}

} // verus!
