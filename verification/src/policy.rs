//! Memory-ordering configuration for the spinlock.
//!
//! The lock's acquire and release operations each run with one of the
//! strengths offered by `core::sync::atomic::Ordering`.  The pair is chosen
//! once at startup and never changed; whether it is a *sound* pair (one
//! that actually establishes a synchronizes-with edge across the critical
//! section) is a static property of the pair, checked here.

use vstd::prelude::*;

verus! {

/// One memory-ordering strength, mirroring `core::sync::atomic::Ordering`.
#[derive(Clone, Copy, PartialEq, Eq, Structural, Debug)]
pub enum MemOrder {
    Relaxed,
    Acquire,
    Release,
    AcqRel,
    SeqCst,
}

/// The pair of ordering strengths the spinlock runs with: one for the
/// success path of the acquiring compare-and-exchange, one for the
/// releasing store.  Immutable configuration; no side effects.
#[derive(Clone, Copy, PartialEq, Eq, Structural, Debug)]
pub struct OrderingPolicy {
    pub acquire_order: MemOrder,
    pub release_order: MemOrder,
}

/// `o` gives the success path of a compare-and-exchange acquire semantics:
/// reads and writes after it cannot be reordered before it.
pub open spec fn acquire_side_sound(o: MemOrder) -> bool {
    o == MemOrder::Acquire || o == MemOrder::AcqRel || o == MemOrder::SeqCst
}

/// `o` gives a plain store release semantics: writes before it are visible
/// to whoever later acquires the same location.  (`AcqRel` is absent
/// because a plain store refuses it; see [`store_legal`].)
pub open spec fn release_side_sound(o: MemOrder) -> bool {
    o == MemOrder::Release || o == MemOrder::SeqCst
}

/// `core::sync::atomic` panics when a plain store is given `Acquire` or
/// `AcqRel`; every other strength is accepted.
pub open spec fn store_legal(o: MemOrder) -> bool {
    o != MemOrder::Acquire && o != MemOrder::AcqRel
}

/// The `core::sync::atomic::Ordering` of the same name.
pub open spec fn std_ordering_of(o: MemOrder) -> core::sync::atomic::Ordering {
    match o {
        MemOrder::Relaxed => core::sync::atomic::Ordering::Relaxed,
        MemOrder::Acquire => core::sync::atomic::Ordering::Acquire,
        MemOrder::Release => core::sync::atomic::Ordering::Release,
        MemOrder::AcqRel => core::sync::atomic::Ordering::AcqRel,
        MemOrder::SeqCst => core::sync::atomic::Ordering::SeqCst,
    }
}

impl MemOrder {
    /// The `core::sync::atomic::Ordering` of the same name.
    pub fn to_std(self) -> (r: core::sync::atomic::Ordering)
        ensures
            r == std_ordering_of(self),
    {
        match self {
            MemOrder::Relaxed => core::sync::atomic::Ordering::Relaxed,
            MemOrder::Acquire => core::sync::atomic::Ordering::Acquire,
            MemOrder::Release => core::sync::atomic::Ordering::Release,
            MemOrder::AcqRel => core::sync::atomic::Ordering::AcqRel,
            MemOrder::SeqCst => core::sync::atomic::Ordering::SeqCst,
        }
    }
}

impl OrderingPolicy {
    /// The pair establishes mutual exclusion *with visibility*: every
    /// acquirer of the lock observes the previous holder's writes to the
    /// protected data.  A weaker pair (for instance relaxed on both sides)
    /// still leaves the compare-and-exchange itself atomic, but gives the
    /// critical section no cross-thread visibility barrier; such a pair is
    /// this probe's intended defect mode, flagged here by construction.
    pub open spec fn sound(self) -> bool {
        acquire_side_sound(self.acquire_order) && release_side_sound(self.release_order)
    }

    /// Both strengths are accepted by the atomic operations they are
    /// handed to.  The acquire side goes to the success path of a
    /// compare-and-exchange, which takes any strength; the release side
    /// goes to a plain store, which panics on `Acquire` and `AcqRel`.
    pub open spec fn well_formed(self) -> bool {
        store_legal(self.release_order)
    }

    /// Static soundness check of the configured pair.
    pub fn is_sound(&self) -> (r: bool)
        ensures
            r == self.sound(),
    {
        let acquire_ok = match self.acquire_order {
            MemOrder::Acquire => true,
            MemOrder::AcqRel => true,
            MemOrder::SeqCst => true,
            MemOrder::Relaxed => false,
            MemOrder::Release => false,
        };
        let release_ok = match self.release_order {
            MemOrder::Release => true,
            MemOrder::SeqCst => true,
            MemOrder::Relaxed => false,
            MemOrder::Acquire => false,
            MemOrder::AcqRel => false,
        };
        acquire_ok && release_ok
    }

    /// Whether the pair can be handed to the atomic operations at all.
    pub fn is_well_formed(&self) -> (r: bool)
        ensures
            r == self.well_formed(),
    {
        match self.release_order {
            MemOrder::Acquire => false,
            MemOrder::AcqRel => false,
            MemOrder::Relaxed => true,
            MemOrder::Release => true,
            MemOrder::SeqCst => true,
        }
    }

    /// The canonical correct pair: acquire on a successful
    /// compare-and-exchange, release on the unlocking store.
    pub fn acquire_release() -> (p: OrderingPolicy)
        ensures
            p.sound(),
            p.well_formed(),
            p.acquire_order == MemOrder::Acquire,
            p.release_order == MemOrder::Release,
    {
        OrderingPolicy { acquire_order: MemOrder::Acquire, release_order: MemOrder::Release }
    }

    /// The weakest pair: relaxed on both sides.  Atomicity of the
    /// compare-and-exchange is kept, but the pair is unsound — it
    /// establishes no visibility across the critical-section boundary.
    pub fn weakest() -> (p: OrderingPolicy)
        ensures
            !p.sound(),
            p.well_formed(),
            p.acquire_order == MemOrder::Relaxed,
            p.release_order == MemOrder::Relaxed,
    {
        OrderingPolicy { acquire_order: MemOrder::Relaxed, release_order: MemOrder::Relaxed }
    }
}

} // verus!
