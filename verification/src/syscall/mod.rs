//! System calls: numbering, decoding, and the dispatcher over the kernel state.
use vstd::prelude::*;

pub mod dispatch;
pub mod stubs;

verus! {

/// The system calls, numbered 0 to 33 in this order.
#[derive(Debug, Clone, Copy, PartialEq, Eq, Structural)]
pub enum Syscall {
    Exit,
    Fork,
    Exec,
    Open,
    Read,
    Write,
    Close,
    Waitpid,
    Brk,
    Mmap,
    Munmap,
    Unlink,
    Pipe,
    ShmCreate,
    ShmOpen,
    ShmMap,
    ShmUnmap,
    ShmClose,
    SemCreate,
    SemOpen,
    SemP,
    SemV,
    SemClose,
    GetUid,
    GetGid,
    SetUid,
    SetGid,
    GetEuid,
    GetEgid,
    SetEuid,
    SetEgid,
    PowerManagement,
    CpuFrequency,
    DevicePowerManagement,
}

/// How a system call fails.
#[derive(Debug, Clone, Copy, PartialEq, Eq, Structural)]
pub enum SyscallError {
    InvalidSyscall,
    PermissionDenied,
    BadAddress,
    InvalidArgument,
    NotFound,
    ResourceBusy,
    NotSupported,
}

/// The number of system calls.
pub const SYSCALL_COUNT: usize = 34;

/// The call numbered `n`, if there is one.
pub open spec fn syscall_of(n: usize) -> Result<Syscall, ()> {
    if n == 0 { Ok(Syscall::Exit) }
    else if n == 1 { Ok(Syscall::Fork) }
    else if n == 2 { Ok(Syscall::Exec) }
    else if n == 3 { Ok(Syscall::Open) }
    else if n == 4 { Ok(Syscall::Read) }
    else if n == 5 { Ok(Syscall::Write) }
    else if n == 6 { Ok(Syscall::Close) }
    else if n == 7 { Ok(Syscall::Waitpid) }
    else if n == 8 { Ok(Syscall::Brk) }
    else if n == 9 { Ok(Syscall::Mmap) }
    else if n == 10 { Ok(Syscall::Munmap) }
    else if n == 11 { Ok(Syscall::Unlink) }
    else if n == 12 { Ok(Syscall::Pipe) }
    else if n == 13 { Ok(Syscall::ShmCreate) }
    else if n == 14 { Ok(Syscall::ShmOpen) }
    else if n == 15 { Ok(Syscall::ShmMap) }
    else if n == 16 { Ok(Syscall::ShmUnmap) }
    else if n == 17 { Ok(Syscall::ShmClose) }
    else if n == 18 { Ok(Syscall::SemCreate) }
    else if n == 19 { Ok(Syscall::SemOpen) }
    else if n == 20 { Ok(Syscall::SemP) }
    else if n == 21 { Ok(Syscall::SemV) }
    else if n == 22 { Ok(Syscall::SemClose) }
    else if n == 23 { Ok(Syscall::GetUid) }
    else if n == 24 { Ok(Syscall::GetGid) }
    else if n == 25 { Ok(Syscall::SetUid) }
    else if n == 26 { Ok(Syscall::SetGid) }
    else if n == 27 { Ok(Syscall::GetEuid) }
    else if n == 28 { Ok(Syscall::GetEgid) }
    else if n == 29 { Ok(Syscall::SetEuid) }
    else if n == 30 { Ok(Syscall::SetEgid) }
    else if n == 31 { Ok(Syscall::PowerManagement) }
    else if n == 32 { Ok(Syscall::CpuFrequency) }
    else if n == 33 { Ok(Syscall::DevicePowerManagement) }
    else { Err(()) }
}

/// The number of call `s`.
pub open spec fn number_of(s: Syscall) -> usize {
    match s {
        Syscall::Exit => 0,
        Syscall::Fork => 1,
        Syscall::Exec => 2,
        Syscall::Open => 3,
        Syscall::Read => 4,
        Syscall::Write => 5,
        Syscall::Close => 6,
        Syscall::Waitpid => 7,
        Syscall::Brk => 8,
        Syscall::Mmap => 9,
        Syscall::Munmap => 10,
        Syscall::Unlink => 11,
        Syscall::Pipe => 12,
        Syscall::ShmCreate => 13,
        Syscall::ShmOpen => 14,
        Syscall::ShmMap => 15,
        Syscall::ShmUnmap => 16,
        Syscall::ShmClose => 17,
        Syscall::SemCreate => 18,
        Syscall::SemOpen => 19,
        Syscall::SemP => 20,
        Syscall::SemV => 21,
        Syscall::SemClose => 22,
        Syscall::GetUid => 23,
        Syscall::GetGid => 24,
        Syscall::SetUid => 25,
        Syscall::SetGid => 26,
        Syscall::GetEuid => 27,
        Syscall::GetEgid => 28,
        Syscall::SetEuid => 29,
        Syscall::SetEgid => 30,
        Syscall::PowerManagement => 31,
        Syscall::CpuFrequency => 32,
        Syscall::DevicePowerManagement => 33,
    }
}

/// Numbering and decoding agree: every call decodes from its number, and
/// every number that decodes is the number of what it decodes to.
pub proof fn lemma_numbering(s: Syscall, n: usize)
    ensures
        syscall_of(number_of(s)) == Ok::<Syscall, ()>(s),
        syscall_of(n) matches Ok(t) ==> number_of(t) == n,
        syscall_of(n) is Ok <==> n < SYSCALL_COUNT,
{
}

impl TryFrom<usize> for Syscall {
    type Error = ();

    fn try_from(value: usize) -> (r: Result<Self, ()>) {
        match value {
            0 => Ok(Syscall::Exit),
            1 => Ok(Syscall::Fork),
            2 => Ok(Syscall::Exec),
            3 => Ok(Syscall::Open),
            4 => Ok(Syscall::Read),
            5 => Ok(Syscall::Write),
            6 => Ok(Syscall::Close),
            7 => Ok(Syscall::Waitpid),
            8 => Ok(Syscall::Brk),
            9 => Ok(Syscall::Mmap),
            10 => Ok(Syscall::Munmap),
            11 => Ok(Syscall::Unlink),
            12 => Ok(Syscall::Pipe),
            13 => Ok(Syscall::ShmCreate),
            14 => Ok(Syscall::ShmOpen),
            15 => Ok(Syscall::ShmMap),
            16 => Ok(Syscall::ShmUnmap),
            17 => Ok(Syscall::ShmClose),
            18 => Ok(Syscall::SemCreate),
            19 => Ok(Syscall::SemOpen),
            20 => Ok(Syscall::SemP),
            21 => Ok(Syscall::SemV),
            22 => Ok(Syscall::SemClose),
            23 => Ok(Syscall::GetUid),
            24 => Ok(Syscall::GetGid),
            25 => Ok(Syscall::SetUid),
            26 => Ok(Syscall::SetGid),
            27 => Ok(Syscall::GetEuid),
            28 => Ok(Syscall::GetEgid),
            29 => Ok(Syscall::SetEuid),
            30 => Ok(Syscall::SetEgid),
            31 => Ok(Syscall::PowerManagement),
            32 => Ok(Syscall::CpuFrequency),
            33 => Ok(Syscall::DevicePowerManagement),
            _ => Err(()),
        }
    }
}

impl vstd::std_specs::convert::TryFromSpecImpl<usize> for Syscall {
    open spec fn obeys_try_from_spec() -> bool {
        true
    }

    open spec fn try_from_spec(v: usize) -> Result<Self, ()> {
        syscall_of(v)
    }
}

/// Decodes a call number.
pub fn decode(n: usize) -> (r: Result<Syscall, ()>)
    ensures
        r == syscall_of(n),
{
    Syscall::try_from(n)
}

/// The number of call `s`.
pub fn syscall_number(s: Syscall) -> (n: usize)
    ensures
        n == number_of(s),
{
    match s {
        Syscall::Exit => 0,
        Syscall::Fork => 1,
        Syscall::Exec => 2,
        Syscall::Open => 3,
        Syscall::Read => 4,
        Syscall::Write => 5,
        Syscall::Close => 6,
        Syscall::Waitpid => 7,
        Syscall::Brk => 8,
        Syscall::Mmap => 9,
        Syscall::Munmap => 10,
        Syscall::Unlink => 11,
        Syscall::Pipe => 12,
        Syscall::ShmCreate => 13,
        Syscall::ShmOpen => 14,
        Syscall::ShmMap => 15,
        Syscall::ShmUnmap => 16,
        Syscall::ShmClose => 17,
        Syscall::SemCreate => 18,
        Syscall::SemOpen => 19,
        Syscall::SemP => 20,
        Syscall::SemV => 21,
        Syscall::SemClose => 22,
        Syscall::GetUid => 23,
        Syscall::GetGid => 24,
        Syscall::SetUid => 25,
        Syscall::SetGid => 26,
        Syscall::GetEuid => 27,
        Syscall::GetEgid => 28,
        Syscall::SetEuid => 29,
        Syscall::SetEgid => 30,
        Syscall::PowerManagement => 31,
        Syscall::CpuFrequency => 32,
        Syscall::DevicePowerManagement => 33,
    }
}

/// The value a call's result hands back to the caller: the value itself on
/// success, -1 on failure.
pub open spec fn return_value(r: Result<usize, SyscallError>) -> isize {
    match r {
        Ok(v) => v as isize,
        Err(_) => -1isize,
    }
}

/// The value a call's result hands back to the caller.
pub fn syscall_return(r: Result<usize, SyscallError>) -> (v: isize)
    ensures
        v == return_value(r),
{
    match r {
        Ok(v) => v as isize,
        Err(_) => -1,
    }
}

/// How many arguments call `s` reads.
pub open spec fn args_read(s: Syscall) -> nat {
    match s {
        Syscall::Read | Syscall::Write | Syscall::DevicePowerManagement => 3,
        Syscall::Open | Syscall::ShmCreate | Syscall::ShmUnmap | Syscall::SemCreate
            | Syscall::PowerManagement | Syscall::CpuFrequency => 2,
        Syscall::Close | Syscall::Brk | Syscall::Unlink | Syscall::Pipe | Syscall::ShmOpen
            | Syscall::ShmMap | Syscall::ShmClose | Syscall::SemOpen | Syscall::SemP | Syscall::SemV
            | Syscall::SemClose | Syscall::SetUid | Syscall::SetGid | Syscall::SetEuid | Syscall::SetEgid => 1,
        _ => 0,
    }
}

/// The user address of the NUL-terminated string call `s` reads, if it reads one.
pub open spec fn string_address(s: Syscall, args: Seq<usize>) -> Option<usize> {
    match s {
        Syscall::Open | Syscall::Unlink | Syscall::ShmOpen | Syscall::SemOpen => Some(args[0]),
        Syscall::ShmCreate | Syscall::SemCreate => if args[1] != 0 { Some(args[1]) } else { None },
        _ => None,
    }
}

/// The user address of the NUL-terminated string call `s` reads, if it reads one.
pub fn string_argument(s: Syscall, args: &[usize]) -> (r: Option<usize>)
    requires
        args@.len() >= args_read(s),
    ensures
        r == string_address(s, args@),
{
    match s {
        Syscall::Open | Syscall::Unlink | Syscall::ShmOpen | Syscall::SemOpen => Some(args[0]),
        Syscall::ShmCreate | Syscall::SemCreate => if args[1] != 0 { Some(args[1]) } else { None },
        _ => None,
    }
}

} // verus!
