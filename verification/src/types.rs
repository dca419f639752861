//! The vocabulary of fault injection: operations, faults, errors and the
//! summary returned when faults are cleared.

use vstd::prelude::*;

verus! {

/// One draw of the pseudo-random generator is a value in
/// `0..PROBABILITY_SCALE`; a probability is expressed in units of
/// `1 / PROBABILITY_SCALE`, so `PROBABILITY_SCALE` (or more) means "always".
pub const PROBABILITY_SCALE: u64 = 0x20_0000_0000_0000;

/// An instrumented operation kind at which faults can be injected.
#[derive(Clone, Copy, Debug, PartialEq, Eq, Hash)]
pub enum Operation {
    Mmap,
    Read,
    Write,
    Alloc,
    Send,
}

/// A fault to inject.
///
/// Every `fail_after` and every entry of `fail_points` is relative to the
/// number of checks the operation has already counted: `fail_after: n` means
/// "let `n` further checks succeed, then fail the next one".
#[derive(Clone, Debug, PartialEq)]
pub enum Fault {
    Mmap { fail_after: u64 },
    Read { fail_after: u64 },
    Write { fail_after: u64 },
    Alloc { fail_after: u64 },
    Send { fail_after: u64 },
    /// Fail each check of `op` with chance `probability / PROBABILITY_SCALE`
    /// (values of `PROBABILITY_SCALE` and above always fire, `0` never does).
    /// A later probabilistic fault on the same operation replaces this one.
    Probabilistic { op: Operation, probability: u64 },
    /// Fail every check of `op` once `fail_after` further checks have passed.
    /// A later persistent fault on the same operation replaces this one.
    Persistent { op: Operation, fail_after: u64 },
    /// Fail the checks of `op` at each of the given relative offsets.
    Multiple { op: Operation, fail_points: Vec<u64> },
}

/// Why an injection was refused.
#[derive(Clone, Copy, Debug, PartialEq, Eq)]
pub enum InjectionError {
    /// A requested fail point is already armed, or requested twice.
    DuplicateFailPoint,
}

/// What a call of `clear` removed, per operation and per kind.
#[derive(Clone, Copy, Debug, PartialEq, Eq, Default)]
pub struct ClearedFaults {
    pub mmap: usize,
    pub read: usize,
    pub write: usize,
    pub alloc: usize,
    pub send: usize,
    /// Number of operations that had a persistent fault.
    pub persistent: usize,
    /// Number of operations that had a (positive) probabilistic fault.
    pub probabilistic: usize,
}

impl Fault {
    /// The operation this fault targets.
    pub open spec fn target(self) -> Operation {
        match self {
            Fault::Mmap { .. } => Operation::Mmap,
            Fault::Read { .. } => Operation::Read,
            Fault::Write { .. } => Operation::Write,
            Fault::Alloc { .. } => Operation::Alloc,
            Fault::Send { .. } => Operation::Send,
            Fault::Probabilistic { op, .. } => op,
            Fault::Persistent { op, .. } => op,
            Fault::Multiple { op, .. } => op,
        }
    }

    /// The discrete relative fail points this fault asks for.
    pub open spec fn offsets(self) -> Seq<u64> {
        match self {
            Fault::Mmap { fail_after } => seq![fail_after],
            Fault::Read { fail_after } => seq![fail_after],
            Fault::Write { fail_after } => seq![fail_after],
            Fault::Alloc { fail_after } => seq![fail_after],
            Fault::Send { fail_after } => seq![fail_after],
            Fault::Probabilistic { .. } => Seq::empty(),
            Fault::Persistent { .. } => Seq::empty(),
            Fault::Multiple { fail_points, .. } => fail_points@,
        }
    }

    /// The probability this fault sets, if it is probabilistic.
    pub open spec fn new_probability(self) -> Option<u64> {
        match self {
            Fault::Probabilistic { probability, .. } => Some(probability),
            _ => None,
        }
    }

    /// The relative start of the persistent failure this fault sets, if any.
    pub open spec fn new_persistence(self) -> Option<u64> {
        match self {
            Fault::Persistent { fail_after, .. } => Some(fail_after),
            _ => None,
        }
    }

    /// The operation this fault targets.
    pub fn operation(&self) -> (op: Operation)
        ensures
            op == self.target(),
    {
        match self {
            Fault::Mmap { .. } => Operation::Mmap,
            Fault::Read { .. } => Operation::Read,
            Fault::Write { .. } => Operation::Write,
            Fault::Alloc { .. } => Operation::Alloc,
            Fault::Send { .. } => Operation::Send,
            Fault::Probabilistic { op, .. } => *op,
            Fault::Persistent { op, .. } => *op,
            Fault::Multiple { op, .. } => *op,
        }
    }
}

} // verus!
