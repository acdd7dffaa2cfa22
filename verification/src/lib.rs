//! A minimal concurrency correctness probe.
//!
//! Worker threads contend for a single shared counter protected by a
//! hand-rolled spinlock built from one atomic flag.  The memory orderings
//! used by the lock's acquire and release operations are configurable, so
//! the same binary can run the protocol both with a correct
//! acquire/release pairing and with a deliberately weakened one.
//!
//! The crate is organised as:
//! - [`policy`]: the pair of ordering strengths and its soundness check;
//! - [`startup`]: the rule deciding which startup input is a thread count;
//! - [`spinlock`]: the flag, the counter, and the
//!   acquire/critical-section/release protocol;
//! - [`worker`]: the delay-then-increment cycle a worker performs;
//! - [`protocol`]: an abstract model of the protocol's traces, with the
//!   mutual-exclusion and counting theorems, and an executable replayer
//!   for concrete traces.

pub mod policy;
pub mod protocol;
pub mod spinlock;
pub mod startup;
pub mod worker;
