//! Scoped injection: a guard that puts back, for its own operation only,
//! the state that operation had before the injection.

use vstd::prelude::*;
use crate::op_state::{OpModel, OpState};
use crate::registry::{try_inject, try_inject_global, Registry, RegistryModel};
use crate::types::{Fault, InjectionError, Operation};

verus! {

/// Undoes one scoped injection when `restore` is called (the `Drop` of a
/// scoped guard). It restores only the operation it injected into, so faults
/// on other operations, or injected by other code, are left alone.
#[derive(Debug)]
pub struct FaultGuard {
    op: Operation,
    snapshot: OpState,
    global: bool,
}

impl FaultGuard {
    /// The operation this guard restores.
    pub closed spec fn operation(&self) -> Operation {
        self.op
    }

    /// The state it restores.
    pub closed spec fn saved(&self) -> OpModel {
        self.snapshot@
    }

    /// Whether it restores the process-wide scope rather than the thread's.
    pub closed spec fn is_global(&self) -> bool {
        self.global
    }

    pub closed spec fn wf(&self) -> bool {
        self.snapshot.wf()
    }

    /// Whether this guard restores the process-wide scope.
    pub fn restores_global(&self) -> (b: bool)
        ensures
            b == self.is_global(),
    {
        self.global
    }

    /// Puts the guarded operation back to its state before the injection
    /// (in the scope it was injected into); a process-wide restoration then
    /// recomputes the process-wide flag.
    pub fn restore(self, registry: &mut Registry)
        requires
            old(registry).wf(),
            self.wf(),
        ensures
            final(registry).wf(),
            final(registry)@ == old(registry)@.restored(
                self.operation(),
                self.saved(),
                self.is_global(),
            ),
    {
        if self.global {
            registry.global.restore(self.op, self.snapshot);
            registry.enabled = registry.global.any_active();
        } else {
            registry.local.restore(self.op, self.snapshot);
        }
    }
}

/// Injects a thread-scoped fault and returns a guard that undoes it.
pub fn inject_scoped(registry: &mut Registry, fault: Fault) -> (r: Result<FaultGuard, InjectionError>)
    requires
        old(registry).wf(),
    ensures
        final(registry).wf(),
        match r {
            Ok(guard) => {
                &&& old(registry)@.injected(fault) == Ok::<RegistryModel, InjectionError>(
                    final(registry)@,
                )
                &&& guard.wf()
                &&& guard.operation() == fault.target()
                &&& guard.saved() == old(registry)@.local.get(fault.target())
                &&& !guard.is_global()
            },
            Err(e) => old(registry)@.injected(fault) == Err::<RegistryModel, InjectionError>(e)
                && final(registry)@ == old(registry)@,
        },
{
    let op = fault.operation();
    let snapshot = registry.local.snapshot(op);
    try_inject(registry, fault)?;
    Ok(FaultGuard { op, snapshot, global: false })
}

/// Injects a process-wide fault and returns a guard that undoes it.
pub fn inject_scoped_global(registry: &mut Registry, fault: Fault) -> (r: Result<
    FaultGuard,
    InjectionError,
>)
    requires
        old(registry).wf(),
    ensures
        final(registry).wf(),
        match r {
            Ok(guard) => {
                &&& old(registry)@.injected_global(fault) == Ok::<RegistryModel, InjectionError>(
                    final(registry)@,
                )
                &&& guard.wf()
                &&& guard.operation() == fault.target()
                &&& guard.saved() == old(registry)@.global.get(fault.target())
                &&& guard.is_global()
            },
            Err(e) => old(registry)@.injected_global(fault) == Err::<RegistryModel, InjectionError>(
                e,
            ) && final(registry)@ == old(registry)@,
        },
{
    let op = fault.operation();
    let snapshot = registry.global.snapshot(op);
    try_inject_global(registry, fault)?;
    Ok(FaultGuard { op, snapshot, global: true })
}

} // verus!
