use spinprobe::policy::MemOrder;
use spinprobe::policy::OrderingPolicy;
use spinprobe::protocol::Event;
use spinprobe::protocol::make_round_trace;
use spinprobe::protocol::replay;
use spinprobe::spinlock::SpinLock;
use spinprobe::startup::parse_thread_count;
use spinprobe::worker::attempt_increment;
use spinprobe::worker::do_busy_work;
use spinprobe::worker::increment_shared_value;

// --- ordering policy -----------------------------------------------------

#[test]
fn acquire_release_pair_is_sound() {
    let p = OrderingPolicy::acquire_release();
    assert!(p.is_sound());
    assert!(p.is_well_formed());
    assert_eq!(p.acquire_order, MemOrder::Acquire);
    assert_eq!(p.release_order, MemOrder::Release);
}

#[test]
fn weakest_pair_is_flagged_unsound() {
    let p = OrderingPolicy::weakest();
    assert!(!p.is_sound());
    assert!(p.is_well_formed());
    assert_eq!(p.acquire_order, MemOrder::Relaxed);
    assert_eq!(p.release_order, MemOrder::Relaxed);
}

#[test]
fn seqcst_pair_is_sound() {
    let p = OrderingPolicy { acquire_order: MemOrder::SeqCst, release_order: MemOrder::SeqCst };
    assert!(p.is_sound());
    assert!(p.is_well_formed());
}

#[test]
fn mismatched_pairs_are_unsound() {
    let weak_acquire =
        OrderingPolicy { acquire_order: MemOrder::Relaxed, release_order: MemOrder::Release };
    assert!(!weak_acquire.is_sound());
    let weak_release =
        OrderingPolicy { acquire_order: MemOrder::Acquire, release_order: MemOrder::Relaxed };
    assert!(!weak_release.is_sound());
    let release_for_acquire =
        OrderingPolicy { acquire_order: MemOrder::Release, release_order: MemOrder::Release };
    assert!(!release_for_acquire.is_sound());
}

#[test]
fn store_illegal_orderings_are_ill_formed() {
    let acquire_store =
        OrderingPolicy { acquire_order: MemOrder::Acquire, release_order: MemOrder::Acquire };
    assert!(!acquire_store.is_well_formed());
    let acqrel_store =
        OrderingPolicy { acquire_order: MemOrder::Acquire, release_order: MemOrder::AcqRel };
    assert!(!acqrel_store.is_well_formed());
    assert!(!acqrel_store.is_sound());
}

// --- protocol traces ------------------------------------------------------

#[test]
fn empty_trace_counts_zero() {
    assert_eq!(replay(&Vec::new()), Some(0));
}

#[test]
fn one_acquire_release_counts_one() {
    let t = vec![Event::Acquired { tid: 0 }, Event::Released { tid: 0 }];
    assert_eq!(replay(&t), Some(1));
}

#[test]
fn contended_trace_counts_releases() {
    let t = vec![
        Event::Acquired { tid: 0 },
        Event::Failed { tid: 1 },
        Event::Failed { tid: 2 },
        Event::Released { tid: 0 },
        Event::Acquired { tid: 2 },
        Event::Failed { tid: 0 },
        Event::Released { tid: 2 },
    ];
    assert_eq!(replay(&t), Some(2));
}

#[test]
fn second_acquire_while_locked_is_rejected() {
    let t = vec![Event::Acquired { tid: 0 }, Event::Acquired { tid: 1 }];
    assert_eq!(replay(&t), None);
}

#[test]
fn failure_while_unlocked_is_rejected() {
    let t = vec![Event::Failed { tid: 0 }];
    assert_eq!(replay(&t), None);
}

#[test]
fn release_without_acquire_is_rejected() {
    let t = vec![Event::Released { tid: 0 }];
    assert_eq!(replay(&t), None);
}

#[test]
fn release_by_non_holder_is_rejected() {
    let t = vec![Event::Acquired { tid: 0 }, Event::Released { tid: 1 }];
    assert_eq!(replay(&t), None);
}

#[test]
fn double_release_is_rejected() {
    let t = vec![
        Event::Acquired { tid: 0 },
        Event::Released { tid: 0 },
        Event::Released { tid: 0 },
    ];
    assert_eq!(replay(&t), None);
}

#[test]
fn round_trace_has_the_expected_shape() {
    let t = make_round_trace(2, 1);
    let expected = vec![
        Event::Acquired { tid: 0 },
        Event::Released { tid: 0 },
        Event::Acquired { tid: 1 },
        Event::Released { tid: 1 },
    ];
    assert_eq!(t, expected);
}

#[test]
fn round_of_one_thread_five_increments_counts_five() {
    let t = make_round_trace(1, 5);
    assert_eq!(replay(&t), Some(5));
}

#[test]
fn round_of_eight_threads_counts_eight_hundred_thousand() {
    let t = make_round_trace(8, 100_000);
    assert_eq!(replay(&t), Some(800_000));
}

#[test]
fn round_of_four_threads_counts_forty_thousand() {
    let t = make_round_trace(4, 10_000);
    assert_eq!(replay(&t), Some(40_000));
}

#[test]
fn repeated_rounds_always_count_the_same() {
    for _ in 0..1000 {
        let t = make_round_trace(4, 100);
        assert_eq!(replay(&t), Some(400));
    }
}

#[test]
fn zero_quota_round_counts_zero() {
    let t = make_round_trace(3, 0);
    assert!(t.is_empty());
    assert_eq!(replay(&t), Some(0));
}

// --- the real lock, driven deterministically from one thread --------------

#[test]
fn lock_is_exclusive_while_held() {
    let lock = SpinLock::new(OrderingPolicy::acquire_release());
    assert_eq!(lock.sampled_inside_count(), 0);
    let guard = lock.try_acquire().expect("a free lock must be acquirable");
    assert_eq!(lock.sampled_inside_count(), 1);
    assert!(lock.try_acquire().is_none());
    assert!(lock.try_acquire().is_none());
    lock.release(guard);
    assert_eq!(lock.sampled_inside_count(), 0);
    let again = lock.try_acquire();
    assert!(again.is_some());
    lock.release(again.unwrap());
}

#[test]
fn attempt_against_a_held_lock_fails_and_leaves_the_counter() {
    let lock = SpinLock::new(OrderingPolicy::acquire_release());
    let guard = lock.try_acquire().unwrap();
    assert!(!attempt_increment(&lock));
    assert_eq!(lock.read_counter(), 0);
    lock.release(guard);
    assert!(attempt_increment(&lock));
    assert_eq!(lock.read_counter(), 1);
}

#[test]
fn one_thread_five_increments_is_exactly_five_with_sound_ordering() {
    let lock = SpinLock::new(OrderingPolicy::acquire_release());
    let (done, attempts) = increment_shared_value(&lock, 5, 5);
    assert_eq!(done, 5);
    assert_eq!(attempts, 5);
    assert_eq!(lock.read_counter(), 5);
}

#[test]
fn one_thread_five_increments_is_exactly_five_with_weak_ordering() {
    let lock = SpinLock::new(OrderingPolicy::weakest());
    let (done, attempts) = increment_shared_value(&lock, 5, 5);
    assert_eq!(done, 5);
    assert_eq!(attempts, 5);
    assert_eq!(lock.read_counter(), 5);
}

#[test]
fn zero_quota_makes_no_attempt() {
    let lock = SpinLock::new(OrderingPolicy::acquire_release());
    let (done, attempts) = increment_shared_value(&lock, 0, 10);
    assert_eq!(done, 0);
    assert_eq!(attempts, 0);
    assert_eq!(lock.read_counter(), 0);
}

#[test]
fn reset_starts_the_next_round_at_zero() {
    let lock = SpinLock::new(OrderingPolicy::acquire_release());
    let (done, _) = increment_shared_value(&lock, 7, 7);
    assert_eq!(done, 7);
    assert_eq!(lock.read_counter(), 7);
    lock.reset();
    assert_eq!(lock.read_counter(), 0);
    let (done_again, _) = increment_shared_value(&lock, 7, 7);
    assert_eq!(done_again, 7);
    assert_eq!(lock.read_counter(), 7);
}

#[test]
fn busy_work_terminates() {
    for _ in 0..100 {
        do_busy_work();
    }
}

// --- startup input ---------------------------------------------------------

#[test]
fn thread_count_parses_plain_decimals() {
    assert_eq!(parse_thread_count(b"2"), Some(2));
    assert_eq!(parse_thread_count(b"0"), Some(0));
    assert_eq!(parse_thread_count(b"007"), Some(7));
    assert_eq!(parse_thread_count(b"4294967295"), Some(u32::MAX));
}

#[test]
fn thread_count_rejects_everything_else() {
    assert_eq!(parse_thread_count(b""), None);
    assert_eq!(parse_thread_count(b"12a"), None);
    assert_eq!(parse_thread_count(b"-2"), None);
    assert_eq!(parse_thread_count(b" 2"), None);
    assert_eq!(parse_thread_count(b"4294967296"), None);
    assert_eq!(parse_thread_count(b"99999999999999999999"), None);
}
