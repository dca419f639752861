//! Deterministic and probabilistic fault injection for testing error paths.
//!
//! Fail the Nth mmap, read, write, allocation or channel send — once, from
//! some call on, at chosen calls, or at random — and check at each
//! instrumented site whether it must fail. Faults are thread-scoped by
//! default and process-wide on request; scoped guards undo one injection.

pub mod types;
pub mod rng;
pub mod op_state;
pub mod fault_state;
pub mod registry;
pub mod guard;
pub mod laws;

pub use types::{ClearedFaults, Fault, InjectionError, Operation, PROBABILITY_SCALE};
pub use op_state::{OpModel, OpState};
pub use fault_state::{FaultModel, FaultState};
pub use registry::{
    clear, inject, inject_global, is_enabled, should_fail_alloc, should_fail_mmap,
    should_fail_read, should_fail_send, should_fail_write, try_inject, try_inject_global, Registry,
    RegistryModel,
};
pub use guard::{inject_scoped, inject_scoped_global, FaultGuard};
