//! Inter-process communication: pipes, shared memory and semaphores.
use vstd::prelude::*;

pub mod pipe;
pub mod semaphore;
pub mod shared_memory;

verus! {

/// Errors reported by the IPC services.
#[derive(Debug, Clone, Copy, PartialEq, Eq, Structural)]
pub enum IpcError {
    InvalidArgument,
    ResourceBusy,
    NotFound,
    PermissionDenied,
    NotSupported,
    InternalError,
}

} // verus!
