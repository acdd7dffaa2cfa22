//! What one worker does: delay, then attempt one protected increment.
//!
//! A worker's round is a sequence of delay-then-increment cycles: perturb
//! the timing with pseudo-random busy work, attempt to take the lock once,
//! and on success run the critical section and release.  A failed attempt
//! is the normal contended outcome and is simply retried.  The driver that
//! owns the threads runs the unbounded retry loop; the bounded loop
//! [`increment_shared_value`] is the same cycle under an explicit attempt
//! budget, so that its termination is provable.

use vstd::prelude::*;

use crate::spinlock::SpinLock;

verus! {

/// How many pseudo-random draws one delay makes at most.  The draw loop
/// almost always stops long before this (each draw stops it with
/// probability one in eight); the bound only keeps the delay finite.
pub const BUSY_WORK_DRAW_LIMIT: u32 = 1024;

/// Relies on `rand::random`: returns some `i32`; nothing is assumed of the
/// value.
#[verifier::external_body]
fn random_i32() -> i32 {
    rand::random()
}

/// Busy-wait for a pseudo-random, data-dependent amount of time: draw
/// numbers until one has its low three bits clear (or the draw limit is
/// reached).  The delay only perturbs scheduling and contention timing; it
/// deliberately has no semantic contract.
pub fn do_busy_work() {
    let mut fuel: u32 = BUSY_WORK_DRAW_LIMIT;
    let mut sample = random_i32();
    while (sample & 7) != 0 && fuel > 0
        decreases fuel,
    {
        sample = random_i32();
        fuel = fuel - 1;
    }
}

/// One delay-then-increment cycle: busy-wait, then attempt the lock once.
/// On success the critical section runs and the lock is released — the
/// guard returned by the acquire is consumed by the release, so the cycle
/// releases exactly once per successful acquire.  Returns whether the
/// increment happened; `false` means another worker held the lock and the
/// caller should retry.
pub fn attempt_increment(lock: &SpinLock) -> (incremented: bool) {
    do_busy_work();
    match lock.try_acquire() {
        Some(guard) => {
            lock.critical_section(&guard);
            lock.release(guard);
            true
        },
        None => false,
    }
}

/// A worker's whole round, under an attempt budget: delay-then-increment
/// cycles until `quota` increments succeeded or `max_attempts` cycles have
/// run.  Returns how many increments succeeded and how many cycles ran;
/// the round is complete exactly when the count reached the quota, and an
/// incomplete round only ever ends by exhausting the budget.
pub fn increment_shared_value(lock: &SpinLock, quota: u32, max_attempts: u64) -> (r: (u32, u64))
    ensures
        r.0 <= quota,
        r.1 <= max_attempts,
        r.0 < quota ==> r.1 == max_attempts,
{
    let mut done: u32 = 0;
    let mut attempts: u64 = 0;
    while done < quota && attempts < max_attempts
        invariant
            done <= quota,
            attempts <= max_attempts,
        decreases max_attempts - attempts,
    {
        if attempt_increment(lock) {
            done = done + 1;
        }
        attempts = attempts + 1;
    }
    (done, attempts)
}

} // verus!
