//! An abstract model of the spinlock protocol and its guarantees.
//!
//! A run of the system is modelled as a trace: the sequence of atomic
//! transitions the workers perform on the flag, in the order the hardware
//! serialises them.  A successful compare-and-exchange is [`Event::Acquired`],
//! a failed one is [`Event::Failed`], and the releasing store is
//! [`Event::Released`].  [`step_allowed`] says which event can follow which
//! state; its three clauses hold of every execution of
//! [`crate::spinlock::SpinLock`] whatever ordering pair is configured:
//!
//! - an acquire succeeds only on an unlocked flag, and a failure happens
//!   only on a locked one, because the compare-and-exchange is a single
//!   atomic step even at the weakest ordering;
//! - a release is performed only by a thread inside the critical section,
//!   because [`crate::spinlock::SpinLock::release`] consumes a
//!   [`crate::spinlock::LockGuard`], which only a successful acquire hands
//!   out.
//!
//! The model state also carries the shared counter, credited with one
//! increment per release.  That crediting assumes the previous holder's
//! write is visible to the next acquirer — which is exactly what a *sound*
//! ordering pair provides and a weak one does not — so the counting theorem
//! [`lemma_round_total`] takes the pair's soundness as a premise, while the
//! mutual-exclusion theorems hold unconditionally.

use vstd::prelude::*;

use crate::policy::OrderingPolicy;

verus! {

broadcast use vstd::set::group_set_axioms, vstd::seq::group_seq_axioms;

/// One observable transition of the protocol, performed by worker `tid`.
#[derive(Clone, Copy, PartialEq, Eq, Structural, Debug)]
pub enum Event {
    /// A successful compare-and-exchange: `tid` took the flag from false to
    /// true and entered the critical section.
    Acquired { tid: u32 },
    /// A failed compare-and-exchange: the flag was already true.  The
    /// normal contended outcome; the worker retries.
    Failed { tid: u32 },
    /// The matching release: `tid` left the critical section, its increment
    /// credited to the counter, and stored false into the flag.
    Released { tid: u32 },
}

/// The worker that performed the event.
pub open spec fn event_tid(e: Event) -> u32 {
    match e {
        Event::Acquired { tid } => tid,
        Event::Failed { tid } => tid,
        Event::Released { tid } => tid,
    }
}

/// The abstract state after a trace: the flag, the set of workers inside
/// the critical section, and the counter with every completed critical
/// section's increment credited.
pub struct ProtocolState {
    pub flag: bool,
    pub inside: Set<u32>,
    pub counter: nat,
}

/// Unlocked, nobody inside, counter at zero: the state each round starts
/// from.
pub open spec fn init_state() -> ProtocolState {
    ProtocolState { flag: false, inside: Set::empty(), counter: 0 }
}

/// Which event may follow state `s`.
pub open spec fn step_allowed(s: ProtocolState, e: Event) -> bool {
    match e {
        Event::Acquired { tid } => !s.flag,
        Event::Failed { tid } => s.flag,
        Event::Released { tid } => s.inside.contains(tid),
    }
}

/// The state after event `e` fires in state `s`.
pub open spec fn step(s: ProtocolState, e: Event) -> ProtocolState {
    match e {
        Event::Acquired { tid } => ProtocolState {
            flag: true,
            inside: s.inside.insert(tid),
            counter: s.counter,
        },
        Event::Failed { tid } => s,
        Event::Released { tid } => ProtocolState {
            flag: false,
            inside: s.inside.remove(tid),
            counter: s.counter + 1,
        },
    }
}

/// The state a trace leaves behind, starting from [`init_state`].
pub open spec fn run(t: Seq<Event>) -> ProtocolState
    decreases t.len(),
{
    if t.len() == 0 {
        init_state()
    } else {
        step(run(t.drop_last()), t.last())
    }
}

/// Every event of the trace was allowed in the state it fired in.
pub open spec fn trace_ok(t: Seq<Event>) -> bool {
    forall|i: int| 0 <= i < t.len() ==> step_allowed(run(#[trigger] t.take(i)), t[i])
}

/// The shape every reachable state has: a locked flag means exactly one
/// worker inside, an unlocked flag means nobody inside.
pub open spec fn state_inv(s: ProtocolState) -> bool {
    &&& s.inside.finite()
    &&& (s.flag ==> s.inside.len() == 1)
    &&& (!s.flag ==> s.inside.len() == 0)
}

/// Two members of a set of at most one element coincide.
proof fn lemma_small_set_members_equal(s: Set<u32>, a: u32, b: u32)
    requires
        s.finite(),
        s.len() <= 1,
        s.contains(a),
        s.contains(b),
    ensures
        a == b,
{
    if a != b {
        assert(s.remove(a).contains(b));
        assert(s.remove(a).len() != 0);
        assert(s.len() == s.remove(a).len() + 1);
        assert(false);
    }
}

/// A valid trace stays valid when cut off.
pub proof fn lemma_trace_ok_prefix(t: Seq<Event>, n: int)
    requires
        trace_ok(t),
        0 <= n <= t.len(),
    ensures
        trace_ok(t.take(n)),
{
    assert forall|i: int| 0 <= i < n implies step_allowed(
        run(#[trigger] t.take(n).take(i)),
        t.take(n)[i],
    ) by {
        assert(t.take(n).take(i) =~= t.take(i));
        assert(t.take(n)[i] == t[i]);
    }
}

/// A valid trace stays valid when an allowed event is appended.
pub proof fn lemma_trace_ok_push(t: Seq<Event>, e: Event)
    requires
        trace_ok(t),
        step_allowed(run(t), e),
    ensures
        trace_ok(t.push(e)),
{
    let u = t.push(e);
    assert forall|i: int| 0 <= i < u.len() implies step_allowed(
        run(#[trigger] u.take(i)),
        u[i],
    ) by {
        if i < t.len() {
            assert(u.take(i) =~= t.take(i));
            assert(u[i] == t[i]);
        } else {
            assert(u.take(i) =~= t);
            assert(u[i] == e);
        }
    }
}

/// Appending an event steps the final state once.
pub proof fn lemma_run_push(t: Seq<Event>, e: Event)
    ensures
        run(t.push(e)) == step(run(t), e),
{
    assert(t.push(e).drop_last() =~= t);
    assert(t.push(e).last() == e);
}

/// Every state a valid trace reaches satisfies [`state_inv`].
pub proof fn lemma_run_inv(t: Seq<Event>)
    requires
        trace_ok(t),
    ensures
        state_inv(run(t)),
    decreases t.len(),
{
    if t.len() == 0 {
        assert(run(t) == init_state());
        assert(Set::<u32>::empty().len() == 0);
    } else {
        let t0 = t.drop_last();
        let e = t.last();
        assert(t0 =~= t.take(t.len() - 1));
        lemma_trace_ok_prefix(t, t.len() - 1);
        lemma_run_inv(t0);
        let s0 = run(t0);
        assert(step_allowed(run(t.take(t.len() - 1)), t[t.len() - 1]));
        assert(step_allowed(s0, e));
        match e {
            Event::Acquired { tid } => {
                if s0.inside.contains(tid) {
                    assert(s0.inside.len() != 0);
                }
                assert(s0.inside.insert(tid).len() == 1);
            },
            Event::Failed { tid } => {},
            Event::Released { tid } => {
                assert(s0.inside.len() != 0);
                assert(s0.flag);
                assert(s0.inside.len() == s0.inside.remove(tid).len() + 1);
            },
        }
    }
}

/// Mutual exclusion, for any ordering pair: after any prefix of a valid
/// trace, at most one worker is inside the critical section.  This needs
/// only the atomicity of the compare-and-exchange and the guard
/// discipline, not the strengths of the configured orderings.
pub proof fn lemma_mutual_exclusion(t: Seq<Event>, i: int)
    requires
        trace_ok(t),
        0 <= i <= t.len(),
    ensures
        run(t.take(i)).inside.len() <= 1,
{
    lemma_trace_ok_prefix(t, i);
    lemma_run_inv(t.take(i));
}

/// `e` moves worker `tid` in or out of the critical section.
pub open spec fn is_transition_of(e: Event, tid: u32) -> bool {
    e == (Event::Acquired { tid }) || e == (Event::Released { tid })
}

/// Position `j` holds the acquire that a release of worker `tid` at
/// position `i` matches: `tid` acquired at `j` and made no other
/// transition strictly between `j` and `i`.
pub open spec fn matching_acquire(t: Seq<Event>, tid: u32, j: int, i: int) -> bool {
    &&& 0 <= j < i <= t.len()
    &&& t[j] == (Event::Acquired { tid })
    &&& forall|k: int| j < k < i ==> !is_transition_of(#[trigger] t[k], tid)
}

/// A worker inside the critical section got there by an acquire it has not
/// yet matched with a release.
proof fn lemma_inside_has_matching_acquire(t: Seq<Event>, tid: u32)
    requires
        trace_ok(t),
        run(t).inside.contains(tid),
    ensures
        exists|j: int| matching_acquire(t, tid, j, t.len() as int),
    decreases t.len(),
{
    if t.len() == 0 {
        assert(false);
    } else {
        let t0 = t.drop_last();
        let e = t.last();
        assert(t0 =~= t.take(t.len() - 1));
        lemma_trace_ok_prefix(t, t.len() - 1);
        lemma_run_inv(t0);
        let s0 = run(t0);
        assert(step_allowed(run(t.take(t.len() - 1)), t[t.len() - 1]));
        assert(step_allowed(s0, e));
        match e {
            Event::Acquired { tid: tid2 } => {
                if s0.inside.contains(tid) {
                    assert(s0.inside.len() != 0);
                    assert(false);
                }
                assert(tid == tid2);
                assert(t[t.len() - 1] == e);
                assert(matching_acquire(t, tid, t.len() - 1, t.len() as int));
            },
            Event::Failed { tid: tid2 } => {
                lemma_inside_has_matching_acquire(t0, tid);
                let j0 = choose|j: int| matching_acquire(t0, tid, j, t0.len() as int);
                assert(t[j0] == t0[j0]);
                assert forall|k: int| j0 < k < t.len() implies !is_transition_of(
                    #[trigger] t[k],
                    tid,
                ) by {
                    if k < t.len() - 1 {
                        assert(t[k] == t0[k]);
                        assert(!is_transition_of(t0[k], tid));
                    } else {
                        assert(t[k] == e);
                    }
                }
                assert(matching_acquire(t, tid, j0, t.len() as int));
            },
            Event::Released { tid: tid2 } => {
                assert(s0.inside.contains(tid2));
                assert(s0.inside.len() != 0);
                assert(s0.flag);
                assert(run(t).inside == s0.inside.remove(tid2));
                assert(s0.inside.contains(tid));
                lemma_small_set_members_equal(s0.inside, tid, tid2);
                assert(false);
            },
        }
    }
}

/// Single acquire per release, for any ordering pair: every release in a
/// valid trace is matched by exactly one prior unmatched acquire success
/// of the same worker — no release without an acquire, and no double
/// release of one acquire.
pub proof fn lemma_single_acquire_per_release(t: Seq<Event>, i: int, tid: u32)
    requires
        trace_ok(t),
        0 <= i < t.len(),
        t[i] == (Event::Released { tid }),
    ensures
        exists|j: int| matching_acquire(t, tid, j, i),
        forall|j1: int, j2: int|
            matching_acquire(t, tid, j1, i) && matching_acquire(t, tid, j2, i) ==> j1 == j2,
{
    let p = t.take(i);
    lemma_trace_ok_prefix(t, i);
    assert(step_allowed(run(t.take(i)), t[i]));
    assert(run(p).inside.contains(tid));
    lemma_inside_has_matching_acquire(p, tid);
    let j0 = choose|j: int| matching_acquire(p, tid, j, p.len() as int);
    assert(p[j0] == t[j0]);
    assert forall|k: int| j0 < k < i implies !is_transition_of(#[trigger] t[k], tid) by {
        assert(t[k] == p[k]);
        assert(!is_transition_of(p[k], tid));
    }
    assert(matching_acquire(t, tid, j0, i));
    assert forall|j1: int, j2: int|
        matching_acquire(t, tid, j1, i) && matching_acquire(t, tid, j2, i) implies j1 == j2 by {
        if j1 < j2 {
            assert(is_transition_of(t[j2], tid));
            assert(false);
        }
        if j2 < j1 {
            assert(is_transition_of(t[j1], tid));
            assert(false);
        }
    }
}

/// How many releases the trace holds in total.
pub open spec fn released_count(t: Seq<Event>) -> nat
    decreases t.len(),
{
    if t.len() == 0 {
        0
    } else {
        released_count(t.drop_last()) + (if t.last() is Released {
            1nat
        } else {
            0nat
        })
    }
}

/// How many releases worker `tid` performed in the trace.
pub open spec fn released_by(t: Seq<Event>, tid: u32) -> nat
    decreases t.len(),
{
    if t.len() == 0 {
        0
    } else {
        released_by(t.drop_last(), tid) + (if t.last() == (Event::Released { tid }) {
            1nat
        } else {
            0nat
        })
    }
}

/// The releases of workers `0 .. threads`, summed worker by worker.
spec fn released_sum(t: Seq<Event>, threads: u32) -> nat
    decreases threads,
{
    if threads == 0 {
        0
    } else {
        released_sum(t, (threads - 1) as u32) + released_by(t, (threads - 1) as u32)
    }
}

/// Every event of the trace belongs to a worker numbered below `threads`.
pub open spec fn all_tids_below(t: Seq<Event>, threads: int) -> bool {
    forall|i: int| 0 <= i < t.len() ==> event_tid(#[trigger] t[i]) < threads
}

/// The model counter counts the releases: each one credits exactly one
/// increment.
pub proof fn lemma_counter_counts_releases(t: Seq<Event>)
    ensures
        run(t).counter == released_count(t),
    decreases t.len(),
{
    if t.len() > 0 {
        lemma_counter_counts_releases(t.drop_last());
    }
}

/// Appending one event changes each worker's release count by one exactly
/// for that worker's release, and leaves every other count alone.
pub proof fn lemma_released_by_push(t: Seq<Event>, e: Event)
    ensures
        forall|tid: u32| #[trigger] released_by(t.push(e), tid) == released_by(t, tid) + (
        if e == (Event::Released { tid }) {
            1nat
        } else {
            0nat
        }),
{
    assert(t.push(e).drop_last() =~= t);
    assert(t.push(e).last() == e);
}

/// The per-worker sum changes by one exactly when the appended event is a
/// release of a worker in range.
proof fn lemma_released_sum_push(t: Seq<Event>, e: Event, threads: u32)
    ensures
        released_sum(t.push(e), threads) == released_sum(t, threads) + (
        if e is Released && event_tid(e) < threads {
            1nat
        } else {
            0nat
        }),
    decreases threads,
{
    lemma_released_by_push(t, e);
    if threads > 0 {
        lemma_released_sum_push(t, e, (threads - 1) as u32);
    }
}

/// An empty trace sums to zero for any worker count.
proof fn lemma_released_sum_empty(t: Seq<Event>, threads: u32)
    requires
        t.len() == 0,
    ensures
        released_sum(t, threads) == 0,
    decreases threads,
{
    if threads > 0 {
        lemma_released_sum_empty(t, (threads - 1) as u32);
    }
}

/// When every event belongs to a worker below `threads`, the total release
/// count equals the per-worker sum.
proof fn lemma_count_eq_sum(t: Seq<Event>, threads: u32)
    requires
        all_tids_below(t, threads as int),
    ensures
        released_count(t) == released_sum(t, threads),
    decreases t.len(),
{
    if t.len() == 0 {
        lemma_released_sum_empty(t, threads);
    } else {
        let t0 = t.drop_last();
        let e = t.last();
        assert(all_tids_below(t0, threads as int)) by {
            assert(forall|i: int| 0 <= i < t0.len() ==> t0[i] == t[i]);
        }
        lemma_count_eq_sum(t0, threads);
        assert(t0.push(e) =~= t);
        lemma_released_sum_push(t0, e, threads);
        assert(event_tid(t[t.len() - 1]) < threads);
        if e is Released {
            assert(e == (Event::Released { tid: event_tid(e) }));
        }
    }
}

/// When each of the `threads` workers released exactly `quota` times, the
/// per-worker sum is `threads * quota`.
proof fn lemma_sum_all_quota(t: Seq<Event>, threads: u32, quota: nat)
    requires
        forall|tid: u32| tid < threads ==> #[trigger] released_by(t, tid) == quota,
    ensures
        released_sum(t, threads) == (threads as nat) * quota,
    decreases threads,
{
    if threads > 0 {
        lemma_sum_all_quota(t, (threads - 1) as u32, quota);
        assert(released_by(t, (threads - 1) as u32) == quota);
        let tm1 = (threads - 1) as nat;
        assert(tm1 * quota + quota == (tm1 + 1) * quota) by (nonlinear_arith);
        assert(tm1 + 1 == threads as nat);
    }
}

/// The round total, under a sound ordering pair: when every worker is
/// numbered below `threads` and each of those workers released the lock
/// exactly `quota` times, the counter the trace leaves behind is exactly
/// `threads * quota`.  The soundness premise is what lets the model credit
/// each release's increment to the counter: a sound pair makes every
/// holder's write visible to the next acquirer, while under a weaker pair
/// the crediting — not the mutual exclusion — is what loses its
/// justification.
pub proof fn lemma_round_total(
    policy: OrderingPolicy,
    t: Seq<Event>,
    threads: u32,
    quota: u32,
)
    requires
        policy.sound(),
        trace_ok(t),
        all_tids_below(t, threads as int),
        forall|tid: u32| tid < threads ==> #[trigger] released_by(t, tid) == quota as nat,
    ensures
        run(t).counter == (threads as nat) * (quota as nat),
{
    lemma_counter_counts_releases(t);
    lemma_count_eq_sum(t, threads);
    lemma_sum_all_quota(t, threads, quota as nat);
}

/// A disallowed event anywhere makes the whole trace invalid.
proof fn lemma_invalid_at(t: Seq<Event>, i: int)
    requires
        0 <= i < t.len(),
        !step_allowed(run(t.take(i)), t[i]),
    ensures
        !trace_ok(t),
{
    if trace_ok(t) {
        assert(step_allowed(run(t.take(i)), t[i]));
    }
}

/// The model counter never goes down along a trace, valid or not.
pub proof fn lemma_counter_monotone(t: Seq<Event>, i: int)
    requires
        0 <= i <= t.len(),
    ensures
        run(t).counter >= run(t.take(i)).counter,
    decreases t.len() - i,
{
    if i == t.len() {
        assert(t.take(i) =~= t);
    } else {
        assert(t.take(i + 1) =~= t.take(i).push(t[i]));
        lemma_run_push(t.take(i), t[i]);
        lemma_counter_monotone(t, i + 1);
    }
}

/// Check a concrete trace against the protocol and compute the counter it
/// leaves behind.  `None` means the trace breaks the protocol — an acquire
/// success while locked, a failure while unlocked, or a release by a
/// worker not inside — or that the counter would leave `u32`; `Some`
/// carries the exact counter of a valid trace.
pub fn replay(events: &Vec<Event>) -> (r: Option<u32>)
    ensures
        match r {
            Some(c) => trace_ok(events@) && c as nat == run(events@).counter,
            None => !trace_ok(events@) || run(events@).counter > u32::MAX,
        },
{
    let mut flag = false;
    let mut holder: Option<u32> = None;
    let mut counter: u32 = 0;
    let mut i: usize = 0;
    while i < events.len()
        invariant
            i <= events@.len(),
            trace_ok(events@.take(i as int)),
            run(events@.take(i as int)).flag == flag,
            run(events@.take(i as int)).counter == counter as nat,
            (holder is Some) == flag,
            (match holder {
                Some(h) => run(events@.take(i as int)).inside =~= set![h],
                None => run(events@.take(i as int)).inside =~= Set::<u32>::empty(),
            }),
        decreases events@.len() - i,
    {
        let e = events[i];
        let ghost p = events@.take(i as int);
        proof {
            assert(events@.take(i as int + 1) =~= p.push(e));
            lemma_run_push(p, e);
        }
        match e {
            Event::Acquired { tid } => {
                if flag {
                    proof {
                        lemma_invalid_at(events@, i as int);
                    }
                    return None;
                }
                flag = true;
                holder = Some(tid);
                proof {
                    lemma_trace_ok_push(p, e);
                    assert(run(p).inside.insert(tid) =~= set![tid]);
                }
            },
            Event::Failed { tid: _ } => {
                if !flag {
                    proof {
                        lemma_invalid_at(events@, i as int);
                    }
                    return None;
                }
                proof {
                    lemma_trace_ok_push(p, e);
                }
            },
            Event::Released { tid } => {
                let held = match holder {
                    Some(h) => h == tid,
                    None => false,
                };
                if !held {
                    proof {
                        assert(!run(p).inside.contains(tid));
                        lemma_invalid_at(events@, i as int);
                    }
                    return None;
                }
                if counter == u32::MAX {
                    proof {
                        assert(run(p).inside.contains(tid));
                        assert(run(events@.take(i as int + 1)).counter == counter as nat + 1);
                        lemma_counter_monotone(events@, i as int + 1);
                    }
                    return None;
                }
                counter = counter + 1;
                flag = false;
                holder = None;
                proof {
                    assert(run(p).inside.contains(tid));
                    lemma_trace_ok_push(p, e);
                    assert(run(p).inside.remove(tid) =~= Set::<u32>::empty());
                }
            },
        }
        i = i + 1;
    }
    proof {
        assert(events@.take(events@.len() as int) =~= events@);
    }
    Some(counter)
}

/// The canonical serialisation of a completed round: workers take turns,
/// and each acquires and releases exactly `quota` times, with no
/// contention.  The trace is valid, every worker is numbered below
/// `threads`, each released exactly `quota` times, and the counter it
/// leaves behind is exactly `threads * quota`.
pub fn make_round_trace(threads: u32, quota: u32) -> (t: Vec<Event>)
    ensures
        trace_ok(t@),
        all_tids_below(t@, threads as int),
        forall|tid: u32| tid < threads ==> #[trigger] released_by(t@, tid) == quota as nat,
        run(t@).flag == false,
        run(t@).counter == (threads as nat) * (quota as nat),
{
    let mut v: Vec<Event> = Vec::new();
    let mut tid: u32 = 0;
    while tid < threads
        invariant
            tid <= threads,
            trace_ok(v@),
            run(v@).flag == false,
            run(v@).inside =~= Set::<u32>::empty(),
            all_tids_below(v@, tid as int),
            forall|x: u32| x < tid ==> #[trigger] released_by(v@, x) == quota as nat,
            forall|x: u32| tid <= x ==> #[trigger] released_by(v@, x) == 0,
        decreases threads - tid,
    {
        let mut j: u32 = 0;
        while j < quota
            invariant
                tid < threads,
                j <= quota,
                trace_ok(v@),
                run(v@).flag == false,
                run(v@).inside =~= Set::<u32>::empty(),
                all_tids_below(v@, tid as int + 1),
                forall|x: u32| x < tid ==> #[trigger] released_by(v@, x) == quota as nat,
                released_by(v@, tid) == j as nat,
                forall|x: u32| tid < x ==> #[trigger] released_by(v@, x) == 0,
            decreases quota - j,
        {
            let e1 = Event::Acquired { tid };
            let ghost t0 = v@;
            proof {
                lemma_trace_ok_push(t0, e1);
                lemma_run_push(t0, e1);
                lemma_released_by_push(t0, e1);
            }
            v.push(e1);
            let e2 = Event::Released { tid };
            let ghost t1 = v@;
            proof {
                assert(run(t1).inside.contains(tid));
                lemma_trace_ok_push(t1, e2);
                lemma_run_push(t1, e2);
                lemma_released_by_push(t1, e2);
                assert(run(t1).inside.remove(tid) =~= Set::<u32>::empty());
            }
            v.push(e2);
            j = j + 1;
        }
        tid = tid + 1;
    }
    proof {
        lemma_counter_counts_releases(v@);
        lemma_count_eq_sum(v@, threads);
        lemma_sum_all_quota(v@, threads, quota as nat);
    }
    v
}

} // verus!

