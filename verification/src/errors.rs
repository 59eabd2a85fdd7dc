//! The engine's error taxonomy.
//!
//! Loading a core can fail before anything is registered; invoking a
//! function can fail locally (nothing changes) or fault the owning core.

use vstd::prelude::*;

verus! {

/// Why a core could not be loaded. A rejected load changes no registry.
#[derive(Clone, Copy, PartialEq, Eq, Structural, Debug)]
pub enum LoadError {
    /// The module or library bytes could not be understood by the backend.
    Malformed,
    /// A required export (the linear memory or the allocator entry point)
    /// is absent.
    MissingExport,
    /// The backend trapped while initializing the unit.
    InitTrap,
    /// An identifier to be registered already names something else, or the
    /// unit's own exports collide with each other. The whole registration
    /// is rejected; nothing is silently overwritten.
    Collision,
}

/// Why a call could not produce a response.
///
/// `NotFound`, `TypeMismatch` and `Unavailable` are local: they are returned
/// to the caller and no engine state changes. `MemoryFault`,
/// `AllocationFailure` and `BackendTrap` fault the owning core, which is
/// atomically removed from the routing table. `Timeout` is reported by
/// embedding shells that bound their wait for a call; the engine's own
/// synchronous dispatch never produces it.
#[derive(Clone, Copy, PartialEq, Eq, Structural, Debug)]
pub enum InvokeError {
    /// No function with this identifier is registered.
    NotFound,
    /// The exported function's arity or signature does not match the
    /// calling convention.
    TypeMismatch,
    /// An out-of-bounds transfer was requested during bridging.
    MemoryFault,
    /// The backend allocator trapped or returned an invalid offset.
    AllocationFailure,
    /// Execution faulted inside the core.
    BackendTrap,
    /// The caller's wait expired before the call completed.
    Timeout,
    /// The core is shut down, faulted, or mid-unload.
    Unavailable,
}

/// The error classes that fault the owning core: per the propagation
/// policy, they transition it to `Faulted` and purge its routing records,
/// isolating the fault to that core.
pub open spec fn is_fault(e: InvokeError) -> bool {
    e == InvokeError::MemoryFault || e == InvokeError::AllocationFailure || e
        == InvokeError::BackendTrap
}

} // verus!
