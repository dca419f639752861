//! The fault-injection API: injecting, clearing and checking faults.
//!
//! A `Registry` is what one thread sees: its own thread-scoped faults, the
//! process-wide faults, the process-wide "enabled" flag and the seed of the
//! shared generator. Thread-scoped injection is the default; process-wide
//! injection is the explicit opt-in for faults that must fire on any thread.

use vstd::prelude::*;
use crate::fault_state::{FaultModel, FaultState};
use crate::types::{ClearedFaults, Fault, InjectionError, Operation};

verus! {

/// Abstract state of a `Registry`.
pub struct RegistryModel {
    pub local: FaultModel,
    pub global: FaultModel,
    pub enabled: bool,
    pub seed: u64,
}

impl RegistryModel {
    /// The process-wide flag is raised whenever a process-wide fault is
    /// configured (it may stay raised after such faults are used up).
    pub open spec fn consistent(self) -> bool {
        self.global.any_active() ==> self.enabled
    }

    pub open spec fn is_enabled(self) -> bool {
        self.enabled || self.local.any_active()
    }

    /// Whether the next check of `op` fails: a thread-scoped fault on `op`
    /// takes precedence; otherwise process-wide faults apply when enabled.
    pub open spec fn fires(self, op: Operation) -> bool {
        if self.local.get(op).is_active() {
            self.local.get(op).fires(self.seed)
        } else if !self.enabled {
            false
        } else {
            self.global.get(op).fires(self.seed)
        }
    }

    /// The state after a check of `op`.
    pub open spec fn checked(self, op: Operation) -> RegistryModel {
        if self.local.get(op).is_active() {
            RegistryModel {
                local: self.local.checked(op),
                seed: self.local.get(op).seed_after(self.seed),
                ..self
            }
        } else if !self.enabled {
            self
        } else {
            RegistryModel {
                global: self.global.checked(op),
                seed: self.global.get(op).seed_after(self.seed),
                ..self
            }
        }
    }

    /// The outcome of a thread-scoped injection of `f`.
    pub open spec fn injected(self, f: Fault) -> Result<RegistryModel, InjectionError> {
        match self.local.with_fault(f) {
            Ok(l) => Ok(RegistryModel { local: l, ..self }),
            Err(e) => Err(e),
        }
    }

    /// The outcome of a process-wide injection of `f`: the flag is recomputed.
    pub open spec fn injected_global(self, f: Fault) -> Result<RegistryModel, InjectionError> {
        match self.global.with_fault(f) {
            Ok(g) => Ok(RegistryModel { global: g, enabled: g.any_active(), ..self }),
            Err(e) => Err(e),
        }
    }

    /// Both scopes emptied (counts reset too) and the flag lowered.
    pub open spec fn cleared(self) -> RegistryModel {
        RegistryModel {
            local: FaultModel::empty(),
            global: FaultModel::empty(),
            enabled: false,
            seed: self.seed,
        }
    }

    /// Fail points armed for `op` over both scopes.
    pub open spec fn point_total(self, op: Operation) -> nat {
        self.local.get(op).points.len() + self.global.get(op).points.len()
    }

    /// The per-operation totals can be reported in a `usize`.
    pub open spec fn totals_fit(self) -> bool {
        forall|op: Operation| #[trigger] self.point_total(op) <= usize::MAX
    }

    /// The summary `clear` reports: both scopes together.
    pub open spec fn summary(self) -> ClearedFaults {
        ClearedFaults {
            mmap: self.point_total(Operation::Mmap) as usize,
            read: self.point_total(Operation::Read) as usize,
            write: self.point_total(Operation::Write) as usize,
            alloc: self.point_total(Operation::Alloc) as usize,
            send: self.point_total(Operation::Send) as usize,
            persistent: (self.local.persistent_count() + self.global.persistent_count()) as usize,
            probabilistic: (self.local.probabilistic_count() + self.global.probabilistic_count())
                as usize,
        }
    }

    /// `op`'s state in one scope set back to `saved`; a process-wide
    /// restoration recomputes the flag.
    pub open spec fn restored(self, op: Operation, saved: crate::op_state::OpModel, global: bool) -> RegistryModel {
        if global {
            RegistryModel {
                global: self.global.set(op, saved),
                enabled: self.global.set(op, saved).any_active(),
                ..self
            }
        } else {
            RegistryModel { local: self.local.set(op, saved), ..self }
        }
    }
}

/// The fault state one thread sees.
pub struct Registry {
    /// Faults injected by this thread, visible to it alone.
    pub local: FaultState,
    /// Faults visible to every thread.
    pub global: FaultState,
    /// Raised while process-wide faults may be configured.
    pub enabled: bool,
    /// Seed of the generator behind probabilistic faults.
    pub seed: u64,
}

impl View for Registry {
    type V = RegistryModel;

    open spec fn view(&self) -> RegistryModel {
        RegistryModel {
            local: self.local@,
            global: self.global@,
            enabled: self.enabled,
            seed: self.seed,
        }
    }
}

impl Registry {
    pub open spec fn wf(&self) -> bool {
        &&& self.local.wf()
        &&& self.global.wf()
        &&& self@.consistent()
    }

    /// No fault anywhere, flag lowered, generator at its initial seed.
    pub fn new() -> (r: Registry)
        ensures
            r.wf(),
            r@ == (RegistryModel {
                local: FaultModel::empty(),
                global: FaultModel::empty(),
                enabled: false,
                seed: 1,
            }),
    {
        Registry { local: FaultState::new(), global: FaultState::new(), enabled: false, seed: 1 }
    }
}

/// Whether fault injection is enabled for this thread or process-wide.
pub fn is_enabled(registry: &Registry) -> (b: bool)
    ensures
        b == registry@.is_enabled(),
{
    registry.enabled || registry.local.any_active()
}

/// Injects `fault` into this thread's faults only. Fails, changing nothing,
/// if a requested fail point is already armed or requested twice.
pub fn try_inject(registry: &mut Registry, fault: Fault) -> (r: Result<(), InjectionError>)
    requires
        old(registry).wf(),
    ensures
        final(registry).wf(),
        match r {
            Ok(()) => old(registry)@.injected(fault) == Ok::<RegistryModel, InjectionError>(
                final(registry)@,
            ),
            Err(e) => old(registry)@.injected(fault) == Err::<RegistryModel, InjectionError>(e)
                && final(registry)@ == old(registry)@,
        },
{
    registry.local.inject_into_state(fault)
}

/// Injects `fault` process-wide, then recomputes the process-wide flag.
/// Fails, changing nothing, if a requested fail point is already armed or
/// requested twice.
pub fn try_inject_global(registry: &mut Registry, fault: Fault) -> (r: Result<(), InjectionError>)
    requires
        old(registry).wf(),
    ensures
        final(registry).wf(),
        match r {
            Ok(()) => old(registry)@.injected_global(fault) == Ok::<RegistryModel, InjectionError>(
                final(registry)@,
            ),
            Err(e) => old(registry)@.injected_global(fault) == Err::<RegistryModel, InjectionError>(
                e,
            ) && final(registry)@ == old(registry)@,
        },
{
    registry.global.inject_into_state(fault)?;
    registry.enabled = registry.global.any_active();
    Ok(())
}

/// Same as `try_inject`.
pub fn inject(registry: &mut Registry, fault: Fault) -> (r: Result<(), InjectionError>)
    requires
        old(registry).wf(),
    ensures
        final(registry).wf(),
        match r {
            Ok(()) => old(registry)@.injected(fault) == Ok::<RegistryModel, InjectionError>(
                final(registry)@,
            ),
            Err(e) => old(registry)@.injected(fault) == Err::<RegistryModel, InjectionError>(e)
                && final(registry)@ == old(registry)@,
        },
{
    try_inject(registry, fault)
}

/// Same as `try_inject_global`.
pub fn inject_global(registry: &mut Registry, fault: Fault) -> (r: Result<(), InjectionError>)
    requires
        old(registry).wf(),
    ensures
        final(registry).wf(),
        match r {
            Ok(()) => old(registry)@.injected_global(fault) == Ok::<RegistryModel, InjectionError>(
                final(registry)@,
            ),
            Err(e) => old(registry)@.injected_global(fault) == Err::<RegistryModel, InjectionError>(
                e,
            ) && final(registry)@ == old(registry)@,
        },
{
    try_inject_global(registry, fault)
}

/// Clears this thread's and the process-wide faults (resetting the call
/// counts) and reports what was configured in both, added together.
pub fn clear(registry: &mut Registry) -> (cleared: ClearedFaults)
    requires
        old(registry).wf(),
        old(registry)@.totals_fit(),
    ensures
        final(registry).wf(),
        final(registry)@ == old(registry)@.cleared(),
        cleared == old(registry)@.summary(),
{
    let ghost pre = registry@;
    assert(pre.point_total(Operation::Mmap) <= usize::MAX);
    assert(pre.point_total(Operation::Read) <= usize::MAX);
    assert(pre.point_total(Operation::Write) <= usize::MAX);
    assert(pre.point_total(Operation::Alloc) <= usize::MAX);
    assert(pre.point_total(Operation::Send) <= usize::MAX);
    let global = &registry.global;
    let local = &registry.local;
    let cleared = ClearedFaults {
        mmap: global.fail_point_count(Operation::Mmap) + local.fail_point_count(Operation::Mmap),
        read: global.fail_point_count(Operation::Read) + local.fail_point_count(Operation::Read),
        write: global.fail_point_count(Operation::Write) + local.fail_point_count(
            Operation::Write,
        ),
        alloc: global.fail_point_count(Operation::Alloc) + local.fail_point_count(
            Operation::Alloc,
        ),
        send: global.fail_point_count(Operation::Send) + local.fail_point_count(Operation::Send),
        persistent: global.persistent_count() + local.persistent_count(),
        probabilistic: global.probabilistic_count() + local.probabilistic_count(),
    };
    registry.global = FaultState::new();
    registry.enabled = false;
    registry.local = FaultState::new();
    cleared
}

/// Checks `op`: a thread-scoped fault on `op` is decided here; otherwise, if
/// the process-wide flag is raised, the process-wide faults decide.
fn should_fail(registry: &mut Registry, op: Operation) -> (fired: bool)
    requires
        old(registry).wf(),
    ensures
        final(registry).wf(),
        fired == old(registry)@.fires(op),
        final(registry)@ == old(registry)@.checked(op),
{
    if registry.local.is_active(op) {
        return registry.local.check(op, &mut registry.seed);
    }
    if !registry.enabled {
        return false;
    }
    let fired = registry.global.check(op, &mut registry.seed);
    proof {
        crate::laws::lemma_check_keeps_consistency(old(registry)@.global, op);
    }
    fired
}

/// Whether this mmap call should fail. Call at instrumented mmap sites.
pub fn should_fail_mmap(registry: &mut Registry) -> (fired: bool)
    requires
        old(registry).wf(),
    ensures
        final(registry).wf(),
        fired == old(registry)@.fires(Operation::Mmap),
        final(registry)@ == old(registry)@.checked(Operation::Mmap),
{
    should_fail(registry, Operation::Mmap)
}

/// Whether this read call should fail.
pub fn should_fail_read(registry: &mut Registry) -> (fired: bool)
    requires
        old(registry).wf(),
    ensures
        final(registry).wf(),
        fired == old(registry)@.fires(Operation::Read),
        final(registry)@ == old(registry)@.checked(Operation::Read),
{
    should_fail(registry, Operation::Read)
}

/// Whether this write call should fail.
pub fn should_fail_write(registry: &mut Registry) -> (fired: bool)
    requires
        old(registry).wf(),
    ensures
        final(registry).wf(),
        fired == old(registry)@.fires(Operation::Write),
        final(registry)@ == old(registry)@.checked(Operation::Write),
{
    should_fail(registry, Operation::Write)
}

/// Whether this allocation should fail.
pub fn should_fail_alloc(registry: &mut Registry) -> (fired: bool)
    requires
        old(registry).wf(),
    ensures
        final(registry).wf(),
        fired == old(registry)@.fires(Operation::Alloc),
        final(registry)@ == old(registry)@.checked(Operation::Alloc),
{
    should_fail(registry, Operation::Alloc)
}

/// Whether this channel send should fail.
pub fn should_fail_send(registry: &mut Registry) -> (fired: bool)
    requires
        old(registry).wf(),
    ensures
        final(registry).wf(),
        fired == old(registry)@.fires(Operation::Send),
        final(registry)@ == old(registry)@.checked(Operation::Send),
{
    should_fail(registry, Operation::Send)
}

} // verus!
