//! Counters of machine-word width that wrap around, as the tracer keeps them.
//!
//! A counter never traps: adding past the largest value, or taking away more
//! than is there, wraps modulo the number of values of a machine word.

use vstd::prelude::*;
use vstd::arithmetic::div_mod::{
    lemma_add_mod_noop, lemma_add_mod_noop_right, lemma_fundamental_div_mod_converse,
    lemma_mod_bound, lemma_small_mod,
};

verus! {

/// The number of values that a counter can take.
pub open spec fn word_range() -> int {
    usize::MAX + 1
}

/// The counter value that stands for the exact amount `amount`.
pub open spec fn wrapped(amount: int) -> nat {
    (amount % word_range()) as nat
}

/// A wrapped amount is a counter value: it fits in a machine word.
pub proof fn lemma_wrapped_fits(amount: int)
    ensures
        wrapped(amount) <= usize::MAX,
        wrapped(amount) == amount % word_range(),
{
    lemma_mod_bound(amount, word_range());
}

/// An amount that fits in a machine word stands for itself.
pub proof fn lemma_wrapped_exact(amount: int)
    requires
        0 <= amount <= usize::MAX,
    ensures
        wrapped(amount) == amount,
{
    lemma_small_mod(amount as nat, word_range() as nat);
}

/// Wrapping on the way changes nothing in the end: a counter that stands for
/// `amount`, moved by `change`, stands for `amount + change`.
pub proof fn lemma_wrapped_step(amount: int, change: int)
    ensures
        wrapped(wrapped(amount) + change) == wrapped(amount + change),
{
    let m = word_range();
    lemma_wrapped_fits(amount);
    lemma_add_mod_noop(amount, change, m);
    lemma_add_mod_noop_right(amount % m, change, m);
    assert((amount % m + change) % m == (amount + change) % m);
    lemma_wrapped_fits(amount % m + change);
    lemma_wrapped_fits(amount + change);
}

/// Adds `amount` to a counter.
pub fn credited(value: usize, amount: usize) -> (out: usize)
    ensures
        out == wrapped(value + amount),
{
    let out = value.wrapping_add(amount);
    proof {
        if value + amount > usize::MAX {
            lemma_fundamental_div_mod_converse(value + amount, word_range(), 1, out as int);
        } else {
            lemma_small_mod((value + amount) as nat, word_range() as nat);
        }
    }
    out
}

/// Takes `amount` away from a counter.
pub fn debited(value: usize, amount: usize) -> (out: usize)
    ensures
        out == wrapped(value - amount),
{
    let out = value.wrapping_sub(amount);
    proof {
        if value - amount < 0 {
            lemma_fundamental_div_mod_converse(value - amount, word_range(), -1, out as int);
        } else {
            lemma_small_mod((value - amount) as nat, word_range() as nat);
        }
    }
    out
}

} // verus!
