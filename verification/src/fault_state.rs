//! The faults of all operations within one scope (a thread, or the process).

use vstd::prelude::*;
use crate::op_state::{OpModel, OpState};
use crate::types::{Fault, InjectionError, Operation};

verus! {

/// Abstract state of every operation's faults within one scope.
pub struct FaultModel {
    pub mmap: OpModel,
    pub read: OpModel,
    pub write: OpModel,
    pub alloc: OpModel,
    pub send: OpModel,
}

impl FaultModel {
    /// Nothing configured anywhere, nothing counted.
    pub open spec fn empty() -> FaultModel {
        FaultModel {
            mmap: OpModel::empty(),
            read: OpModel::empty(),
            write: OpModel::empty(),
            alloc: OpModel::empty(),
            send: OpModel::empty(),
        }
    }

    pub open spec fn get(self, op: Operation) -> OpModel {
        match op {
            Operation::Mmap => self.mmap,
            Operation::Read => self.read,
            Operation::Write => self.write,
            Operation::Alloc => self.alloc,
            Operation::Send => self.send,
        }
    }

    pub open spec fn set(self, op: Operation, m: OpModel) -> FaultModel {
        match op {
            Operation::Mmap => FaultModel { mmap: m, ..self },
            Operation::Read => FaultModel { read: m, ..self },
            Operation::Write => FaultModel { write: m, ..self },
            Operation::Alloc => FaultModel { alloc: m, ..self },
            Operation::Send => FaultModel { send: m, ..self },
        }
    }

    /// Some operation has a fault configured.
    pub open spec fn any_active(self) -> bool {
        ||| self.mmap.is_active()
        ||| self.read.is_active()
        ||| self.write.is_active()
        ||| self.alloc.is_active()
        ||| self.send.is_active()
    }

    /// The outcome of injecting `f`: only the targeted operation may change.
    pub open spec fn with_fault(self, f: Fault) -> Result<FaultModel, InjectionError> {
        match self.get(f.target()).with_fault(f) {
            Ok(m) => Ok(self.set(f.target(), m)),
            Err(e) => Err(e),
        }
    }

    /// The state after checking `op`.
    pub open spec fn checked(self, op: Operation) -> FaultModel {
        self.set(op, self.get(op).checked())
    }

    /// Number of operations with a persistent fault.
    pub open spec fn persistent_count(self) -> nat {
        self.mmap.persistent_count() + self.read.persistent_count() + self.write.persistent_count()
            + self.alloc.persistent_count() + self.send.persistent_count()
    }

    /// Number of operations with a positive probability.
    pub open spec fn probabilistic_count(self) -> nat {
        self.mmap.probabilistic_count() + self.read.probabilistic_count()
            + self.write.probabilistic_count() + self.alloc.probabilistic_count()
            + self.send.probabilistic_count()
    }
}

/// The faults of all operations within one scope.
#[derive(Debug)]
pub struct FaultState {
    mmap: OpState,
    read: OpState,
    write: OpState,
    alloc: OpState,
    send: OpState,
}

impl View for FaultState {
    type V = FaultModel;

    closed spec fn view(&self) -> FaultModel {
        FaultModel {
            mmap: self.mmap@,
            read: self.read@,
            write: self.write@,
            alloc: self.alloc@,
            send: self.send@,
        }
    }
}

impl FaultState {
    /// Every operation's state is well formed.
    pub closed spec fn wf(&self) -> bool {
        &&& self.mmap.wf()
        &&& self.read.wf()
        &&& self.write.wf()
        &&& self.alloc.wf()
        &&& self.send.wf()
    }

    /// A scope with no fault configured.
    pub fn new() -> (s: FaultState)
        ensures
            s.wf(),
            s@ == FaultModel::empty(),
    {
        FaultState {
            mmap: OpState::new(),
            read: OpState::new(),
            write: OpState::new(),
            alloc: OpState::new(),
            send: OpState::new(),
        }
    }

    /// True when any operation has a fault configured.
    pub fn any_active(&self) -> (b: bool)
        ensures
            b == self@.any_active(),
    {
        self.mmap.is_active() || self.read.is_active() || self.write.is_active()
            || self.alloc.is_active() || self.send.is_active()
    }

    /// True when `op` has a fault configured.
    pub fn is_active(&self, op: Operation) -> (b: bool)
        ensures
            b == self@.get(op).is_active(),
    {
        match op {
            Operation::Mmap => self.mmap.is_active(),
            Operation::Read => self.read.is_active(),
            Operation::Write => self.write.is_active(),
            Operation::Alloc => self.alloc.is_active(),
            Operation::Send => self.send.is_active(),
        }
    }

    /// Checks `op`: see `OpState::check`. Other operations are untouched.
    pub fn check(&mut self, op: Operation, seed: &mut u64) -> (fired: bool)
        requires
            old(self).wf(),
        ensures
            final(self).wf(),
            fired == old(self)@.get(op).fires(*old(seed)),
            final(self)@ == old(self)@.checked(op),
            *final(seed) == old(self)@.get(op).seed_after(*old(seed)),
    {
        match op {
            Operation::Mmap => self.mmap.check(seed),
            Operation::Read => self.read.check(seed),
            Operation::Write => self.write.check(seed),
            Operation::Alloc => self.alloc.check(seed),
            Operation::Send => self.send.check(seed),
        }
    }

    /// Injects `fault` into the operation it targets. All new fail points are
    /// validated before anything changes, so a refused injection leaves the
    /// whole state untouched.
    pub fn inject_into_state(&mut self, fault: Fault) -> (r: Result<(), InjectionError>)
        requires
            old(self).wf(),
        ensures
            final(self).wf(),
            match r {
                Ok(()) => old(self)@.with_fault(fault) == Ok::<FaultModel, InjectionError>(
                    final(self)@,
                ),
                Err(e) => old(self)@.with_fault(fault) == Err::<FaultModel, InjectionError>(e)
                    && final(self)@ == old(self)@,
            },
    {
        let op = fault.operation();
        let ghost f = fault;
        let (offsets, probability, persist) = match fault {
            Fault::Mmap { fail_after } => (vec![fail_after], None, None),
            Fault::Read { fail_after } => (vec![fail_after], None, None),
            Fault::Write { fail_after } => (vec![fail_after], None, None),
            Fault::Alloc { fail_after } => (vec![fail_after], None, None),
            Fault::Send { fail_after } => (vec![fail_after], None, None),
            Fault::Probabilistic { op: _, probability } => (Vec::new(), Some(probability), None),
            Fault::Persistent { op: _, fail_after } => (Vec::new(), None, Some(fail_after)),
            Fault::Multiple { op: _, fail_points } => (fail_points, None, None),
        };
        assert(offsets@ =~= f.offsets());
        match op {
            Operation::Mmap => self.mmap.arm(offsets, probability, persist),
            Operation::Read => self.read.arm(offsets, probability, persist),
            Operation::Write => self.write.arm(offsets, probability, persist),
            Operation::Alloc => self.alloc.arm(offsets, probability, persist),
            Operation::Send => self.send.arm(offsets, probability, persist),
        }
    }

    /// A copy of `op`'s state.
    pub fn snapshot(&self, op: Operation) -> (s: OpState)
        requires
            self.wf(),
        ensures
            s.wf(),
            s@ == self@.get(op),
    {
        match op {
            Operation::Mmap => self.mmap.snapshot(),
            Operation::Read => self.read.snapshot(),
            Operation::Write => self.write.snapshot(),
            Operation::Alloc => self.alloc.snapshot(),
            Operation::Send => self.send.snapshot(),
        }
    }

    /// Puts `saved` back as `op`'s state; other operations are untouched.
    pub fn restore(&mut self, op: Operation, saved: OpState)
        requires
            old(self).wf(),
            saved.wf(),
        ensures
            final(self).wf(),
            final(self)@ == old(self)@.set(op, saved@),
    {
        match op {
            Operation::Mmap => self.mmap = saved,
            Operation::Read => self.read = saved,
            Operation::Write => self.write = saved,
            Operation::Alloc => self.alloc = saved,
            Operation::Send => self.send = saved,
        }
    }

    /// Number of fail points armed for `op`.
    pub fn fail_point_count(&self, op: Operation) -> (n: usize)
        requires
            self.wf(),
        ensures
            n == self@.get(op).points.len(),
    {
        match op {
            Operation::Mmap => self.mmap.fail_point_count(),
            Operation::Read => self.read.fail_point_count(),
            Operation::Write => self.write.fail_point_count(),
            Operation::Alloc => self.alloc.fail_point_count(),
            Operation::Send => self.send.fail_point_count(),
        }
    }

    /// Number of operations with a persistent fault.
    pub fn persistent_count(&self) -> (n: usize)
        ensures
            n == self@.persistent_count(),
    {
        self.mmap.persistent_count() + self.read.persistent_count() + self.write.persistent_count()
            + self.alloc.persistent_count() + self.send.persistent_count()
    }

    /// Number of operations with a positive probability.
    pub fn probabilistic_count(&self) -> (n: usize)
        ensures
            n == self@.probabilistic_count(),
    {
        self.mmap.probabilistic_count() + self.read.probabilistic_count()
            + self.write.probabilistic_count() + self.alloc.probabilistic_count()
            + self.send.probabilistic_count()
    }
}

} // verus!
