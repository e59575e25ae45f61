//! A test-and-set spin lock.
//!
//! `try_lock` makes one compare-and-swap of the held flag from `false` to
//! `true` and never waits; a blocking acquire is a loop of `try_lock` calls
//! around a CPU-relax hint, run by the caller. There is no fairness.

use vstd::prelude::*;
use std::sync::atomic::{AtomicBool, Ordering};

verus! {

/// One attempt on the held flag: the flag afterwards and whether the attempt
/// took the lock. This and the lemma below are a model of the protocol;
/// `SpinLock` keeps the flag in an atomic, whose value no contract here can
/// speak of, and is not verified against the model.
pub open spec fn try_lock_step(held: bool) -> (bool, bool) {
    (true, !held)
}

/// How many of `n` back-to-back attempts take the lock, starting from `held`,
/// with no release in between, whatever the callers' interleaving.
pub open spec fn acquisitions(held: bool, n: nat) -> nat
    decreases n,
{
    if n == 0 {
        0
    } else {
        let (after, won) = try_lock_step(held);
        (if won {
            1nat
        } else {
            0nat
        }) + acquisitions(after, (n - 1) as nat)
    }
}

/// On the model: of any number of contending attempts on a free lock, exactly one
/// succeeds; on a held lock, none does.
pub proof fn lemma_exactly_one_acquires(n: nat)
    ensures
        n >= 1 ==> acquisitions(false, n) == 1,
        acquisitions(true, n) == 0,
    decreases n,
{
    if n >= 1 {
        lemma_exactly_one_acquires((n - 1) as nat);
    }
}

pub struct SpinLock {
    locked: AtomicBool,
}

impl SpinLock {
    /// A free lock.
    pub fn new() -> SpinLock {
        SpinLock { locked: AtomicBool::new(false) }
    }

    /// One compare-and-swap of the held flag from `false` to `true`, with
    /// acquire ordering on success: `true` when this call took the lock.
    pub fn try_lock(&self) -> bool {
        match self.locked.compare_exchange(false, true, Ordering::Acquire, Ordering::Relaxed) {
            Ok(_) => true,
            Err(_) => false,
        }
    }

    /// Clears the held flag with release ordering. Only the holder calls it.
    pub fn unlock(&self) {
        self.locked.store(false, Ordering::Release);
    }
}

} // verus!
