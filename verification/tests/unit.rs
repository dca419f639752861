use faultkit::{
    clear, inject, inject_scoped, inject_scoped_global, is_enabled, should_fail_alloc,
    should_fail_mmap, should_fail_read, should_fail_send, should_fail_write, try_inject, Fault,
    InjectionError, Operation, Registry, PROBABILITY_SCALE,
};

/// A probability in units of `1 / PROBABILITY_SCALE`, as the library takes it:
/// a check fails when its draw in `0..PROBABILITY_SCALE` is below this value.
fn chance(p: f64) -> u64 {
    let scale = PROBABILITY_SCALE as f64;
    if p > 0.0 {
        if p >= 1.0 {
            PROBABILITY_SCALE
        } else {
            (p * scale).ceil() as u64
        }
    } else {
        0
    }
}

#[test]
fn test_default_state() {
    let mut reg = Registry::new();
    clear(&mut reg);
    assert!(!is_enabled(&reg));
    assert!(!should_fail_mmap(&mut reg));
    assert!(!should_fail_read(&mut reg));
    assert!(!should_fail_write(&mut reg));
    assert!(!should_fail_alloc(&mut reg));
    assert!(!should_fail_send(&mut reg));
}

#[test]
fn test_clear_resets_state() {
    let mut reg = Registry::new();
    clear(&mut reg);
    assert_eq!(inject(&mut reg, Fault::Mmap { fail_after: 0 }), Ok(()));
    assert!(is_enabled(&reg));

    let cleared = clear(&mut reg);
    assert_eq!(cleared.mmap, 1);
    assert_eq!(cleared.read, 0);

    assert!(!is_enabled(&reg));
    assert!(!should_fail_mmap(&mut reg));
}

#[test]
fn test_inject_duplicate_errors() {
    let mut reg = Registry::new();
    clear(&mut reg);
    assert_eq!(inject(&mut reg, Fault::Mmap { fail_after: 5 }), Ok(()));
    let err = inject(&mut reg, Fault::Mmap { fail_after: 5 });
    assert_eq!(err, Err(InjectionError::DuplicateFailPoint));
}

#[test]
fn test_inject_scoped() {
    let mut reg = Registry::new();
    clear(&mut reg);
    {
        let guard = inject_scoped(&mut reg, Fault::Read { fail_after: 0 }).unwrap();
        assert!(is_enabled(&reg));
        assert!(should_fail_read(&mut reg));
        guard.restore(&mut reg);
    }
    assert!(!is_enabled(&reg));
    assert!(!should_fail_read(&mut reg));
}

#[test]
fn test_mmap_failure() {
    let mut reg = Registry::new();
    clear(&mut reg);
    assert_eq!(inject(&mut reg, Fault::Mmap { fail_after: 2 }), Ok(()));
    assert!(!should_fail_mmap(&mut reg)); // 0
    assert!(!should_fail_mmap(&mut reg)); // 1
    assert!(should_fail_mmap(&mut reg)); // 2
    assert!(!should_fail_mmap(&mut reg)); // 3
}

#[test]
fn test_read_failure() {
    let mut reg = Registry::new();
    clear(&mut reg);
    assert_eq!(inject(&mut reg, Fault::Read { fail_after: 1 }), Ok(()));
    assert!(!should_fail_read(&mut reg)); // 0
    assert!(should_fail_read(&mut reg)); // 1
    assert!(!should_fail_read(&mut reg)); // 2
}

#[test]
fn test_write_failure() {
    let mut reg = Registry::new();
    clear(&mut reg);
    assert_eq!(inject(&mut reg, Fault::Write { fail_after: 0 }), Ok(()));
    assert!(should_fail_write(&mut reg)); // 0
    assert!(!should_fail_write(&mut reg)); // 1
}

#[test]
fn test_alloc_failure() {
    let mut reg = Registry::new();
    clear(&mut reg);
    assert_eq!(inject(&mut reg, Fault::Alloc { fail_after: 3 }), Ok(()));
    assert!(!should_fail_alloc(&mut reg)); // 0
    assert!(!should_fail_alloc(&mut reg)); // 1
    assert!(!should_fail_alloc(&mut reg)); // 2
    assert!(should_fail_alloc(&mut reg)); // 3
    assert!(!should_fail_alloc(&mut reg)); // 4
}

#[test]
fn test_send_failure() {
    let mut reg = Registry::new();
    clear(&mut reg);
    assert_eq!(inject(&mut reg, Fault::Send { fail_after: 0 }), Ok(()));
    assert!(should_fail_send(&mut reg)); // 0
    assert!(!should_fail_send(&mut reg)); // 1
}

#[test]
fn test_probabilistic_failure() {
    let mut reg = Registry::new();
    clear(&mut reg);
    assert_eq!(
        try_inject(&mut reg, Fault::Probabilistic {
            op: Operation::Mmap,
            probability: chance(1.0),
        }),
        Ok(())
    );

    for _ in 0..100 {
        assert!(should_fail_mmap(&mut reg));
    }

    clear(&mut reg);
    assert_eq!(
        try_inject(&mut reg, Fault::Probabilistic {
            op: Operation::Mmap,
            probability: chance(0.0),
        }),
        Ok(())
    );

    for _ in 0..100 {
        assert!(!should_fail_mmap(&mut reg));
    }
}

#[test]
fn test_persistent_failure() {
    let mut reg = Registry::new();
    clear(&mut reg);
    assert_eq!(
        try_inject(&mut reg, Fault::Persistent {
            op: Operation::Read,
            fail_after: 2,
        }),
        Ok(())
    );

    assert!(!should_fail_read(&mut reg)); // 0
    assert!(!should_fail_read(&mut reg)); // 1
    assert!(should_fail_read(&mut reg)); // 2
    assert!(should_fail_read(&mut reg)); // 3
    assert!(should_fail_read(&mut reg)); // 4
}

#[test]
fn test_multiple_failures() {
    let mut reg = Registry::new();
    clear(&mut reg);
    assert_eq!(
        try_inject(&mut reg, Fault::Multiple {
            op: Operation::Write,
            fail_points: vec![1, 3],
        }),
        Ok(())
    );

    assert!(!should_fail_write(&mut reg)); // 0
    assert!(should_fail_write(&mut reg)); // 1
    assert!(!should_fail_write(&mut reg)); // 2
    assert!(should_fail_write(&mut reg)); // 3
    assert!(!should_fail_write(&mut reg)); // 4
}

#[test]
fn test_duplicate_fail_point_error() {
    let mut reg = Registry::new();
    clear(&mut reg);
    let result = try_inject(&mut reg, Fault::Multiple {
        op: Operation::Alloc,
        fail_points: vec![5, 5],
    });
    assert_eq!(result, Err(InjectionError::DuplicateFailPoint));
}

#[test]
fn test_clear_returns_exact_counts() {
    let mut reg = Registry::new();
    clear(&mut reg);

    assert_eq!(
        inject(&mut reg, Fault::Multiple {
            op: Operation::Mmap,
            fail_points: vec![1, 2, 3],
        }),
        Ok(())
    );

    assert_eq!(
        inject(&mut reg, Fault::Multiple {
            op: Operation::Read,
            fail_points: vec![5],
        }),
        Ok(())
    );

    let cleared = clear(&mut reg);
    assert_eq!(cleared.mmap, 3);
    assert_eq!(cleared.read, 1);
    assert_eq!(cleared.write, 0);
    assert_eq!(cleared.alloc, 0);
    assert_eq!(cleared.send, 0);
}

#[test]
fn test_multiple_operations_independently() {
    let mut reg = Registry::new();
    clear(&mut reg);

    assert_eq!(inject(&mut reg, Fault::Mmap { fail_after: 0 }), Ok(()));
    assert_eq!(inject(&mut reg, Fault::Read { fail_after: 1 }), Ok(()));
    assert_eq!(inject(&mut reg, Fault::Write { fail_after: 2 }), Ok(()));

    assert!(should_fail_mmap(&mut reg));
    assert!(!should_fail_mmap(&mut reg));

    assert!(!should_fail_read(&mut reg));
    assert!(should_fail_read(&mut reg));
    assert!(!should_fail_read(&mut reg));

    assert!(!should_fail_write(&mut reg));
    assert!(!should_fail_write(&mut reg));
    assert!(should_fail_write(&mut reg));
    assert!(!should_fail_write(&mut reg));
}
#[test]
fn test_sequential_fault_injection_relative_offset() {
    let mut reg = Registry::new();
    clear(&mut reg);

    inject(&mut reg, Fault::Read { fail_after: 1 }).unwrap();
    assert!(!should_fail_read(&mut reg), "call 0 should succeed");
    assert!(should_fail_read(&mut reg), "call 1 should fail");

    inject(&mut reg, Fault::Read { fail_after: 0 }).unwrap();
    assert!(
        should_fail_read(&mut reg),
        "sequential inject(&mut reg, fail_after: 0) mid-execution must fail the very next call"
    );
    assert!(!should_fail_read(&mut reg), "following call should succeed");
}

#[test]
fn test_persistent_fault_relative_offset_mid_execution() {
    let mut reg = Registry::new();
    clear(&mut reg);

    inject(&mut reg, Fault::Write { fail_after: 2 }).unwrap();
    assert!(!should_fail_write(&mut reg)); // call 0
    assert!(!should_fail_write(&mut reg)); // call 1
    assert!(should_fail_write(&mut reg)); // call 2 (faulted)

    inject(&mut reg, Fault::Persistent {
        op: Operation::Write,
        fail_after: 2,
    })
    .unwrap();

    assert!(!should_fail_write(&mut reg), "call 3 (1st post-inject) should succeed");
    assert!(!should_fail_write(&mut reg), "call 4 (2nd post-inject) should succeed");

    assert!(should_fail_write(&mut reg), "call 5 (3rd post-inject) must fail");
    assert!(should_fail_write(&mut reg), "call 6 (4th post-inject) must fail");
}

#[test]
fn test_scoped_global_atomic_snapshot() {
    let mut reg = Registry::new();
    clear(&mut reg);

    inject(&mut reg, Fault::Mmap { fail_after: 0 }).unwrap();
    assert!(is_enabled(&reg));

    {
        let guard = inject_scoped_global(&mut reg, Fault::Read { fail_after: 0 }).unwrap();
        assert!(should_fail_mmap(&mut reg), "outer Mmap fault still active");
        assert!(should_fail_read(&mut reg), "inner scoped global Read fault active");
        guard.restore(&mut reg);
    }

    assert!(!should_fail_read(&mut reg), "Read fault removed after guard drop");
}
