//! The spinlock: one atomic flag, one shared counter, and the
//! acquire/critical-section/release protocol over them.
//!
//! The flag and the counter are `core::sync::atomic` values, called through
//! vstd's specifications of the atomic operations.  Those specifications
//! promise nothing about the values read or written — the contents of a
//! location shared with other threads cannot be pinned down here — so the
//! contracts on these methods are structural: a [`LockGuard`] witnesses one
//! successful acquire, can be obtained only from [`SpinLock::try_acquire`],
//! and is consumed by [`SpinLock::release`], so every release is matched to
//! exactly one prior acquire by the type system.  What the protocol
//! guarantees about the counter's *value* is stated and proved over the
//! abstract traces in [`crate::protocol`].
//!
//! The counter is an `AtomicU32` accessed only with `Relaxed` operations.
//! Relaxed accesses contribute no synchronization of their own, so whether
//! one critical section's increment is visible to the next holder still
//! depends entirely on the orderings the flag is operated with — exactly
//! the question this probe exists to expose — while the program itself
//! stays free of undefined behaviour.

use vstd::prelude::*;

use crate::policy::OrderingPolicy;
use crate::policy::store_legal;

verus! {

/// A witness that the holding thread's `try_acquire` succeeded and has not
/// been released yet.  It cannot be constructed outside this module and is
/// not `Clone`, so it is consumed exactly once, by [`SpinLock::release`].
pub struct LockGuard {
    _private: (),
}

/// Mutual exclusion over a shared counter, from a single atomic boolean
/// and busy-waiting.  `false` in the flag means unlocked, `true` locked;
/// the lock starts unlocked, is never destroyed, and has no terminal
/// state.
pub struct SpinLock {
    flag: core::sync::atomic::AtomicBool,
    counter: core::sync::atomic::AtomicU32,
    inside: core::sync::atomic::AtomicU32,
    policy: OrderingPolicy,
}

impl SpinLock {
    /// The configured ordering pair.
    pub closed spec fn policy(self) -> OrderingPolicy {
        self.policy
    }

    /// The release ordering is handed to a plain store on every release,
    /// and a store panics on `Acquire` or `AcqRel`; a constructed lock
    /// never holds such a pair.
    #[verifier::type_invariant]
    closed spec fn ordering_pair_legal(self) -> bool {
        store_legal(self.policy.release_order)
    }

    /// A fresh, unlocked lock with its counter at zero, running with the
    /// given ordering pair.
    pub fn new(policy: OrderingPolicy) -> (lock: SpinLock)
        requires
            policy.well_formed(),
        ensures
            lock.policy() == policy,
    {
        SpinLock {
            flag: core::sync::atomic::AtomicBool::new(false),
            counter: core::sync::atomic::AtomicU32::new(0),
            inside: core::sync::atomic::AtomicU32::new(0),
            policy,
        }
    }

    /// One attempt to take the lock: a single atomic compare-and-exchange
    /// of the flag from `false` to `true`, with the configured acquire
    /// ordering on success and `Relaxed` on failure.  `None` is the normal
    /// contended outcome, not an error; the caller retries.
    ///
    /// On success the auxiliary `inside` gauge is raised before the guard
    /// is handed out, so a sampled gauge value above one would expose a
    /// mutual-exclusion violation.
    pub fn try_acquire(&self) -> (r: Option<LockGuard>) {
        let outcome = self.flag.compare_exchange(
            false,
            true,
            self.policy.acquire_order.to_std(),
            core::sync::atomic::Ordering::Relaxed,
        );
        match outcome {
            Ok(_) => {
                self.inside.fetch_add(1, core::sync::atomic::Ordering::Relaxed);
                Some(LockGuard { _private: () })
            },
            Err(_) => None,
        }
    }

    /// The protected work: one increment of the shared counter, wrapping
    /// at the integer's bound.  Only a holder of a guard can enter.
    pub fn critical_section(&self, _guard: &LockGuard) {
        let seen = self.counter.load(core::sync::atomic::Ordering::Relaxed);
        let next: u32 = if seen == u32::MAX {
            0
        } else {
            seen + 1
        };
        self.counter.store(next, core::sync::atomic::Ordering::Relaxed);
    }

    /// Release the lock: lower the `inside` gauge, then store `false` into
    /// the flag with the configured release ordering.  Consuming the guard
    /// makes a release without a prior successful acquire, or a second
    /// release of the same acquire, unwritable.
    pub fn release(&self, _guard: LockGuard) {
        self.inside.fetch_sub(1, core::sync::atomic::Ordering::Relaxed);
        self.flag.store(false, self.policy.release_order.to_std());
    }

    /// The counter as currently visible to the calling thread.  The driver
    /// reads this once per round, after all workers have been joined.
    pub fn read_counter(&self) -> u32 {
        self.counter.load(core::sync::atomic::Ordering::Relaxed)
    }

    /// Start a new round: put the counter back to zero.  Called by the
    /// driver between rounds, before any worker of the next round runs.
    pub fn reset(&self) {
        self.counter.store(0, core::sync::atomic::Ordering::Relaxed);
    }

    /// The number of threads currently inside the critical section, as
    /// visible to the calling thread.  Whatever ordering pair is
    /// configured, a sample above one would falsify the atomicity of the
    /// compare-and-exchange.
    pub fn sampled_inside_count(&self) -> u32 {
        self.inside.load(core::sync::atomic::Ordering::Relaxed)
    }
}

} // verus!
