//! Streams of bits produced by a state that advances one tick at a time.

use vstd::prelude::*;

verus! {

/// The state reached from `s` after `n` ticks of `step`.
pub open spec fn after<S>(step: spec_fn(S) -> S, s: S, n: nat) -> S
    decreases n,
{
    if n == 0 {
        s
    } else {
        step(after(step, s, (n - 1) as nat))
    }
}

/// The `n` bits emitted by `n` ticks from `s`; the bit of a tick is read by
/// `bit` from the state just before that tick.
pub open spec fn emitted<S>(step: spec_fn(S) -> S, bit: spec_fn(S) -> bool, s: S, n: nat) -> Seq<
    bool,
>
    decreases n,
{
    if n == 0 {
        Seq::empty()
    } else {
        emitted(step, bit, s, (n - 1) as nat).push(bit(after(step, s, (n - 1) as nat)))
    }
}

/// `emitted` holds one bit per tick, the bit of tick `k` being read at the
/// state reached after `k` ticks.
pub proof fn lemma_emitted<S>(step: spec_fn(S) -> S, bit: spec_fn(S) -> bool, s: S, n: nat)
    ensures
        emitted(step, bit, s, n).len() == n,
        forall|k: int|
            0 <= k < n ==> #[trigger] emitted(step, bit, s, n)[k] == bit(after(step, s, k as nat)),
    decreases n,
{
    if n > 0 {
        lemma_emitted(step, bit, s, (n - 1) as nat);
    }
}

/// Ticking `a` times and then `b` times is ticking `a + b` times.
pub proof fn lemma_after_add<S>(step: spec_fn(S) -> S, s: S, a: nat, b: nat)
    ensures
        after(step, after(step, s, a), b) == after(step, s, a + b),
    decreases b,
{
    if b > 0 {
        lemma_after_add(step, s, a, (b - 1) as nat);
    }
}

} // verus!
