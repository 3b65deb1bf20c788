//! A verified model of the Moyuan microkernel core: inter-process
//! communication, memory management, scheduling, security checks, power
//! management and the system-call layer, each stated over mathematical views.
#![allow(unused_imports)]

use vstd::prelude::*;

pub mod console;
pub mod enclave_scheduler;
pub mod interrupt;
pub mod ipc;
pub mod mm;
pub mod power;
pub mod security;
pub mod syscall;
pub mod task;

verus! {

/// One region of the firmware's physical memory map.
#[derive(Copy, Clone)]
pub struct MemoryMapEntry {
    pub physical_start: u64,
    pub virtual_start: u64,
    pub number_of_pages: u64,
    pub memory_type: u32,
    pub attribute: u64,
}

/// The frame buffer the boot loader set up.
#[derive(Copy, Clone)]
pub struct FramebufferInfo {
    pub address: u64,
    pub width: u32,
    pub height: u32,
    pub pitch: u32,
    pub bpp: u32,
}

/// What the boot loader hands the kernel: the memory map, the frame buffer and
/// where the kernel image lies.
pub struct BootInfo {
    pub memory_map: Vec<MemoryMapEntry>,
    pub memory_map_count: u32,
    pub framebuffer: FramebufferInfo,
    pub kernel_base: u64,
    pub kernel_size: u64,
}

} // verus!
