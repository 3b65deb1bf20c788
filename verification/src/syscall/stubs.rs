//! A minimal call table for the first eleven calls, whose handlers all
//! succeed with 0.
use vstd::prelude::*;

verus! {

/// Number of entries in the minimal table.
pub const STUB_SYSCALL_COUNT: usize = 11;

/// Dispatches through the minimal table: 0 for calls 0 to 10, -1 otherwise.
pub fn handle_syscall(syscall_num: usize, arg1: usize, arg2: usize, arg3: usize, arg4: usize, arg5: usize, arg6: usize) -> (r: isize)
    ensures
        r == if syscall_num < STUB_SYSCALL_COUNT { 0isize } else { -1isize },
{
    if syscall_num < STUB_SYSCALL_COUNT {
        0
    } else {
        -1
    }
}

} // verus!
