//! A fixed-capacity ring window, allocation-free.
//!
//! The window holds at most `N` values. [`Ring::push`] hands back the evicted
//! oldest value once the window is full, and [`Ring::chrono_fold`] visits the
//! held values oldest-to-newest, so a caller that keeps a rolling aggregate can
//! remove the evicted value and rebuild the aggregate in arrival order.
use vstd::prelude::*;

verus! {

/// What one push does to a window of capacity `cap` holding `s` (oldest first):
/// the new contents and the value evicted, if any.
pub open spec fn push_step<T>(s: Seq<T>, cap: nat, x: T) -> (Seq<T>, Option<T>) {
    if s.len() >= cap {
        (s.drop_first().push(x), Some(s[0]))
    } else {
        (s.push(x), None)
    }
}

/// The contents of a fresh window of capacity `cap` after pushing `xs` in order.
pub open spec fn pushed_all<T>(xs: Seq<T>, cap: nat) -> Seq<T>
    decreases xs.len(),
{
    if xs.len() == 0 {
        Seq::empty()
    } else {
        push_step(pushed_all(xs.drop_last(), cap), cap, xs.last()).0
    }
}

/// `r` is a value that folding the step relation `step` over `s` from `init`,
/// front to back, can give: `step(acc, x, next)` holds when `next` may follow
/// `acc` after taking in `x`.
pub open spec fn folds_by<A, T>(step: spec_fn(A, T, A) -> bool, init: A, s: Seq<T>, r: A) -> bool
    decreases s.len(),
{
    if s.len() == 0 {
        r == init
    } else {
        exists|mid: A|
            #![trigger step(mid, s.last(), r)]
            folds_by(step, init, s.drop_last(), mid) && step(mid, s.last(), r)
    }
}

/// The step relation of an executable fold function `f`.
pub open spec fn fold_step<A, T, F: Fn(A, T) -> A>(f: F) -> spec_fn(A, T, A) -> bool {
    |acc: A, x: T, next: A| call_ensures(f, (acc, x), next)
}

/// Folding visits values front to back: folding nothing gives `init`, and
/// folding `s` followed by `x` is one step on `x` from a fold of `s`.
pub proof fn lemma_folds_by_front_to_back<A, T>(
    step: spec_fn(A, T, A) -> bool,
    init: A,
    s: Seq<T>,
    x: T,
    r: A,
)
    ensures
        folds_by(step, init, Seq::<T>::empty(), r) <==> r == init,
        folds_by(step, init, s.push(x), r) <==> exists|mid: A|
            folds_by(step, init, s, mid) && #[trigger] step(mid, x, r),
{
    let t = s.push(x);
    assert(t.drop_last() =~= s);
    assert(t.last() == x);
}

/// The step relation of `f` relates an accumulator and a value to exactly the
/// results that `f` can return on them.
pub proof fn lemma_fold_step_is_call<A, T, F: Fn(A, T) -> A>(f: F, acc: A, x: T, next: A)
    ensures
        fold_step(f)(acc, x, next) <==> call_ensures(f, (acc, x), next),
{
}

/// A ring buffer holding up to `N` values.
#[derive(Debug)]
pub struct Ring<T, const N: usize> {
    buf: [T; N],
    /// Index of the next slot to write; the oldest element once full.
    head: usize,
    /// Number of slots filled, saturating at `N`.
    count: usize,
}

impl<T, const N: usize> Ring<T, N> {
    #[verifier::type_invariant]
    spec fn inv(self) -> bool {
        &&& self.count <= N
        &&& if N == 0 {
            self.head == 0 && self.count == 0
        } else {
            self.head < N
        }
    }

    /// Physical slot of the oldest held value.
    spec fn start(self) -> int {
        if self.head >= self.count {
            self.head - self.count
        } else {
            self.head + N - self.count
        }
    }

    /// Physical slot of the `i`-th oldest held value.
    spec fn slot(self, i: int) -> int {
        if self.start() + i < N {
            self.start() + i
        } else {
            self.start() + i - N
        }
    }
}

impl<T, const N: usize> View for Ring<T, N> {
    type V = Seq<T>;

    /// The held values, oldest first.
    closed spec fn view(&self) -> Seq<T> {
        Seq::new(self.count as nat, |i: int| self.buf@[self.slot(i)])
    }
}

impl<T: Copy + Default, const N: usize> Ring<T, N> {
    /// A new, empty ring.
    pub fn new() -> (r: Self)
        ensures
            r@ == Seq::<T>::empty(),
    {
        let r = Ring { buf: [T::default(); N], head: 0, count: 0 };
        assert(r@ =~= Seq::<T>::empty());
        r
    }
}

impl<T: Copy, const N: usize> Ring<T, N> {
    /// Whether the ring holds `N` values.
    pub fn is_full(&self) -> (b: bool)
        ensures
            b == (self@.len() == N),
            self@.len() <= N,
    {
        proof {
            use_type_invariant(self);
        }
        self.count == N
    }

    /// Number of values currently held.
    pub fn len(&self) -> (n: usize)
        ensures
            n == self@.len(),
            n <= N,
    {
        proof {
            use_type_invariant(self);
        }
        self.count
    }

    /// Whether the ring holds no values.
    pub fn is_empty(&self) -> (b: bool)
        ensures
            b == (self@.len() == 0),
    {
        self.count == 0
    }

    /// Push `x`, overwriting the oldest slot once full.
    ///
    /// Returns the evicted oldest value if the ring was already full, or `None`
    /// while still filling.
    pub fn push(&mut self, x: T) -> (evicted: Option<T>)
        requires
            N > 0,
        ensures
            old(self)@.len() <= N,
            final(self)@ == push_step(old(self)@, N as nat, x).0,
            evicted == push_step(old(self)@, N as nat, x).1,
            final(self)@.len() <= N,
    {
        proof {
            use_type_invariant(&*self);
        }
        let ghost before = self@;
        let ghost old_ring = *self;
        let evicted = if self.count == N {
            Some(self.buf[self.head])
        } else {
            self.count = self.count + 1;
            None
        };
        let h = self.head;
        self.buf[h] = x;
        if h + 1 == N {
            self.head = 0;
        } else {
            self.head = h + 1;
        }
        proof {
            let after = self@;
            if old_ring.count == N {
                assert(old_ring.start() == old_ring.head);
                assert(before[0] == old_ring.buf@[old_ring.head as int]);
                assert(after =~= before.drop_first().push(x));
            } else {
                assert(after =~= before.push(x));
            }
        }
        evicted
    }

    /// Fold `f` over the held values oldest-to-newest, starting from `init`.
    ///
    /// When full this walks `buf[head..]` then `buf[..head]`, the arrival order
    /// of the window.
    pub fn chrono_fold<A, F: Fn(A, T) -> A>(&self, init: A, f: F) -> (r: A)
        requires
            forall|a: A, x: T| call_requires(f, (a, x)),
        ensures
            folds_by(fold_step(f), init, self@, r),
    {
        proof {
            use_type_invariant(self);
        }
        let mut acc = init;
        let mut idx: usize = if self.head >= self.count {
            self.head - self.count
        } else {
            self.head + (N - self.count)
        };
        let mut seen: usize = 0;
        assert(self@.take(0) =~= Seq::<T>::empty());
        while seen < self.count
            invariant
                forall|a: A, x: T| call_requires(f, (a, x)),
                self.count <= N,
                N > 0 ==> self.head < N,
                seen <= self.count,
                self.count == self@.len(),
                N > 0 ==> idx < N,
                seen < self.count ==> idx == self.slot(seen as int),
                folds_by(fold_step(f), init, self@.take(seen as int), acc),
            decreases self.count - seen,
        {
            let x = self.buf[idx];
            let ghost prev = acc;
            acc = f(acc, x);
            proof {
                let s = self@.take(seen as int + 1);
                assert(s.drop_last() =~= self@.take(seen as int));
                assert(s.last() == x);
                assert(fold_step(f)(prev, s.last(), acc));
            }
            assert(0 <= self.start() < N);
            idx = idx + 1;
            if idx == N {
                idx = 0;
            }
            seen = seen + 1;
        }
        assert(self@.take(seen as int) =~= self@);
        acc
    }
}

impl<T: Copy + Default, const N: usize> Default for Ring<T, N> {
    /// A new, empty ring.
    fn default() -> (r: Self)
        ensures
            r@ == Seq::<T>::empty(),
    {
        Self::new()
    }
}

impl<T: Copy, const N: usize> Clone for Ring<T, N> {
    /// An independent copy holding the same values.
    fn clone(&self) -> (r: Self)
        ensures
            r@ == self@,
    {
        proof {
            use_type_invariant(self);
        }
        Ring { buf: self.buf, head: self.head, count: self.count }
    }
}

/// After `k` pushes into a fresh window of capacity `cap`, it holds the last
/// `min(k, cap)` values pushed, in arrival order.
pub proof fn lemma_pushed_all_is_suffix<T>(xs: Seq<T>, cap: nat)
    requires
        cap > 0,
    ensures
        pushed_all(xs, cap) == xs.subrange(
            if xs.len() > cap { xs.len() - cap } else { 0 },
            xs.len() as int,
        ),
    decreases xs.len(),
{
    if xs.len() > 0 {
        let prefix = xs.drop_last();
        lemma_pushed_all_is_suffix(prefix, cap);
        let lo = if xs.len() > cap { xs.len() - cap } else { 0 };
        let plo = if prefix.len() > cap { prefix.len() - cap } else { 0 };
        let held = pushed_all(prefix, cap);
        assert(held =~= prefix.subrange(plo, prefix.len() as int));
        if held.len() >= cap {
            assert(held.drop_first().push(xs.last()) =~= xs.subrange(lo, xs.len() as int));
        } else {
            assert(held.push(xs.last()) =~= xs.subrange(lo, xs.len() as int));
        }
    } else {
        assert(xs.subrange(0, 0) =~= Seq::<T>::empty());
    }
}

/// The `k`-th push (counting from 0) into a fresh window of capacity `cap`
/// evicts nothing while `k < cap`, and from then on evicts exactly the value
/// pushed `cap` steps earlier.
pub proof fn lemma_push_evicts_value_from_cap_steps_ago<T>(xs: Seq<T>, cap: nat, k: int)
    requires
        cap > 0,
        0 <= k < xs.len(),
    ensures
        push_step(pushed_all(xs.take(k), cap), cap, xs[k]).1 == (if k < cap {
            None
        } else {
            Some(xs[k - cap])
        }),
{
    let prefix = xs.take(k);
    lemma_pushed_all_is_suffix(prefix, cap);
    let held = pushed_all(prefix, cap);
    if k >= cap {
        assert(held[0] == xs[k - cap]);
    }
}

/// A fresh window of capacity `cap` is full exactly once `cap` values have
/// been pushed into it.
pub proof fn lemma_full_exactly_after_cap<T>(xs: Seq<T>, cap: nat)
    requires
        cap > 0,
    ensures
        pushed_all(xs, cap).len() == (if xs.len() < cap { xs.len() } else { cap }),
        pushed_all(xs, cap).len() == cap <==> xs.len() >= cap,
{
    lemma_pushed_all_is_suffix(xs, cap);
}

/// Readiness of a window never goes back: once full, a push leaves it full.
pub proof fn lemma_full_stays_full<T>(s: Seq<T>, cap: nat, x: T)
    requires
        cap > 0,
        s.len() == cap,
    ensures
        push_step(s, cap, x).0.len() == cap,
{
}

} // verus!
