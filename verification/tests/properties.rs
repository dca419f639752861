use faultkit::rng::next_draw;
use faultkit::{
    clear, inject, inject_global, inject_scoped, inject_scoped_global, is_enabled,
    should_fail_alloc, should_fail_mmap, should_fail_read, should_fail_send, should_fail_write,
    try_inject, try_inject_global, ClearedFaults, Fault, FaultState, InjectionError, Operation,
    Registry, PROBABILITY_SCALE,
};

#[test]
fn draws_follow_the_xorshift_stream() {
    let mut seed: u64 = 1;
    assert_eq!(next_draw(&mut seed), 528452);
    assert_eq!(seed, 1082269761);
    assert_eq!(next_draw(&mut seed), 562984862711842);
    assert_eq!(seed, 1152992998833853505);
}

#[test]
fn zero_seed_draws_like_seed_one() {
    let mut zero: u64 = 0;
    let mut one: u64 = 1;
    assert_eq!(next_draw(&mut zero), next_draw(&mut one));
    assert_eq!(zero, one);
}

#[test]
fn draws_stay_below_the_scale() {
    let mut seed: u64 = 0xdead_beef;
    for _ in 0..1000 {
        assert!(next_draw(&mut seed) < PROBABILITY_SCALE);
    }
}

#[test]
fn fail_points_are_relative_to_the_current_count() {
    let mut reg = Registry::new();
    inject(&mut reg, Fault::Read { fail_after: 2 }).unwrap();
    inject(&mut reg, Fault::Read { fail_after: 5 }).unwrap();
    for _ in 0..3 {
        should_fail_read(&mut reg);
    }
    // Three checks counted (index 2 fired): offsets 0 and 2 now mean 3 and 5.
    inject(&mut reg, Fault::Multiple { op: Operation::Read, fail_points: vec![0, 2] }).unwrap_err();
    inject(&mut reg, Fault::Multiple { op: Operation::Read, fail_points: vec![0, 1] }).unwrap();
    assert!(should_fail_read(&mut reg));
    assert!(should_fail_read(&mut reg));
    assert!(should_fail_read(&mut reg));
    assert!(!should_fail_read(&mut reg));
}

#[test]
fn persistence_is_relative_and_never_stops() {
    let mut reg = Registry::new();
    inject(&mut reg, Fault::Send { fail_after: 1 }).unwrap();
    assert!(!should_fail_send(&mut reg));
    assert!(should_fail_send(&mut reg));
    inject(&mut reg, Fault::Persistent { op: Operation::Send, fail_after: 3 }).unwrap();
    for _ in 0..3 {
        assert!(!should_fail_send(&mut reg));
    }
    for _ in 0..20 {
        assert!(should_fail_send(&mut reg));
    }
}

#[test]
fn full_probability_always_fires_and_zero_draws_nothing() {
    let mut reg = Registry::new();
    inject(&mut reg, Fault::Probabilistic { op: Operation::Alloc, probability: PROBABILITY_SCALE })
        .unwrap();
    for _ in 0..50 {
        assert!(should_fail_alloc(&mut reg));
    }
    let seed = reg.seed;
    inject(&mut reg, Fault::Probabilistic { op: Operation::Alloc, probability: 0 }).unwrap();
    assert!(!should_fail_alloc(&mut reg));
    assert_eq!(reg.seed, seed);
}

#[test]
fn probabilistic_check_consumes_exactly_one_draw() {
    let mut reg = Registry::new();
    inject(&mut reg, Fault::Probabilistic { op: Operation::Write, probability: 528453 }).unwrap();
    // The first draw from seed 1 is 528452, below the probability.
    assert!(should_fail_write(&mut reg));
    assert_eq!(reg.seed, 1082269761);
    inject(&mut reg, Fault::Probabilistic { op: Operation::Write, probability: 528452 }).unwrap();
    // The second draw is far larger.
    assert!(!should_fail_write(&mut reg));
    assert_eq!(reg.seed, 1152992998833853505);
}

#[test]
fn idle_check_changes_nothing() {
    let mut reg = Registry::new();
    inject_global(&mut reg, Fault::Mmap { fail_after: 3 }).unwrap();
    let seed = reg.seed;
    for _ in 0..5 {
        assert!(!should_fail_read(&mut reg));
    }
    assert_eq!(reg.seed, seed);
    inject(&mut reg, Fault::Read { fail_after: 0 }).unwrap();
    assert!(should_fail_read(&mut reg));
}

#[test]
fn thread_injection_leaves_process_faults_alone() {
    let mut reg = Registry::new();
    try_inject(&mut reg, Fault::Alloc { fail_after: 0 }).unwrap();
    assert!(!reg.enabled);
    assert!(!reg.global.any_active());
    assert!(is_enabled(&reg));
}

#[test]
fn process_faults_fire_when_the_thread_has_none() {
    let mut reg = Registry::new();
    try_inject_global(&mut reg, Fault::Mmap { fail_after: 1 }).unwrap();
    assert!(reg.enabled);
    assert!(is_enabled(&reg));
    assert!(!should_fail_mmap(&mut reg));
    assert!(should_fail_mmap(&mut reg));
    assert!(!should_fail_mmap(&mut reg));
}

#[test]
fn thread_fault_takes_precedence_over_process_fault() {
    let mut reg = Registry::new();
    inject_global(&mut reg, Fault::Mmap { fail_after: 0 }).unwrap();
    inject(&mut reg, Fault::Mmap { fail_after: 1 }).unwrap();
    assert!(!should_fail_mmap(&mut reg));
    assert!(should_fail_mmap(&mut reg));
    // The thread's fault is used up; the process-wide one is still armed at 0.
    assert!(should_fail_mmap(&mut reg));
}

#[test]
fn clear_adds_up_both_scopes() {
    let mut reg = Registry::new();
    inject(&mut reg, Fault::Mmap { fail_after: 4 }).unwrap();
    inject_global(&mut reg, Fault::Multiple { op: Operation::Mmap, fail_points: vec![1, 2] })
        .unwrap();
    inject(&mut reg, Fault::Persistent { op: Operation::Read, fail_after: 0 }).unwrap();
    inject_global(&mut reg, Fault::Persistent { op: Operation::Send, fail_after: 7 }).unwrap();
    inject_global(&mut reg, Fault::Probabilistic { op: Operation::Write, probability: 9 }).unwrap();
    let cleared = clear(&mut reg);
    assert_eq!(
        cleared,
        ClearedFaults {
            mmap: 3,
            read: 0,
            write: 0,
            alloc: 0,
            send: 0,
            persistent: 2,
            probabilistic: 1,
        }
    );
    assert!(!is_enabled(&reg));
    assert!(!reg.enabled);
    assert_eq!(clear(&mut reg), ClearedFaults::default());
}

#[test]
fn scoped_global_guard_lowers_the_flag_again() {
    let mut reg = Registry::new();
    let guard = inject_scoped_global(&mut reg, Fault::Write { fail_after: 0 }).unwrap();
    assert!(guard.restores_global());
    assert!(is_enabled(&reg));
    guard.restore(&mut reg);
    assert!(!reg.enabled);
    assert!(!is_enabled(&reg));
    assert!(!should_fail_write(&mut reg));
}

#[test]
fn scoped_guard_restores_counts_too() {
    let mut reg = Registry::new();
    inject(&mut reg, Fault::Alloc { fail_after: 1 }).unwrap();
    let guard = inject_scoped(&mut reg, Fault::Alloc { fail_after: 0 }).unwrap();
    assert!(!guard.restores_global());
    assert!(should_fail_alloc(&mut reg));
    guard.restore(&mut reg);
    // Back to the state before the scoped fault: nothing counted, point 1 armed.
    assert!(!should_fail_alloc(&mut reg));
    assert!(should_fail_alloc(&mut reg));
}

#[test]
fn refused_scoped_injection_changes_nothing() {
    let mut reg = Registry::new();
    inject(&mut reg, Fault::Send { fail_after: 0 }).unwrap();
    let err = inject_scoped(&mut reg, Fault::Multiple { op: Operation::Send, fail_points: vec![0] });
    assert_eq!(err.unwrap_err(), InjectionError::DuplicateFailPoint);
    assert!(should_fail_send(&mut reg));
    assert!(!should_fail_send(&mut reg));
}

#[test]
fn saturated_fail_points_collide() {
    let mut reg = Registry::new();
    inject(&mut reg, Fault::Write { fail_after: 0 }).unwrap();
    assert!(should_fail_write(&mut reg));
    inject(&mut reg, Fault::Write { fail_after: u64::MAX }).unwrap();
    // One check counted: both u64::MAX and u64::MAX - 1 land on index u64::MAX.
    assert_eq!(
        inject(&mut reg, Fault::Write { fail_after: u64::MAX - 1 }),
        Err(InjectionError::DuplicateFailPoint)
    );
}

#[test]
fn fault_reports_its_operation() {
    assert_eq!(Fault::Mmap { fail_after: 0 }.operation(), Operation::Mmap);
    assert_eq!(Fault::Send { fail_after: 0 }.operation(), Operation::Send);
    assert_eq!(
        Fault::Multiple { op: Operation::Write, fail_points: vec![] }.operation(),
        Operation::Write
    );
    assert_eq!(
        Fault::Probabilistic { op: Operation::Alloc, probability: 1 }.operation(),
        Operation::Alloc
    );
}

#[test]
fn fresh_scope_has_nothing_active() {
    let state = FaultState::new();
    assert!(!state.any_active());
    for op in [Operation::Mmap, Operation::Read, Operation::Write, Operation::Alloc, Operation::Send] {
        assert!(!state.is_active(op));
        assert_eq!(state.fail_point_count(op), 0);
    }
    assert_eq!(state.persistent_count(), 0);
    assert_eq!(state.probabilistic_count(), 0);
}
