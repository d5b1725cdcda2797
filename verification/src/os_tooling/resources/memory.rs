//! Main memory and swap.

use vstd::prelude::*;

verus! {

/// Bytes in the megabyte that the figures are given in.
pub const BYTES_PER_MEGABYTE: u64 = 1024 * 1024;

/// Memory figures in whole megabytes.
#[derive(Debug, Clone, Copy, PartialEq, Eq, Structural)]
pub struct SystemMemory {
    pub total_memory: u64,
    pub used_memory: u64,
    pub total_swap: u64,
    pub used_swap: u64,
}

impl View for SystemMemory {
    type V = SystemMemory;

    open spec fn view(&self) -> SystemMemory {
        *self
    }
}

impl Default for SystemMemory {
    fn default() -> (memory: Self)
        ensures
            memory == (SystemMemory {
                total_memory: 0,
                used_memory: 0,
                total_swap: 0,
                used_swap: 0,
            }),
    {
        SystemMemory { total_memory: 0, used_memory: 0, total_swap: 0, used_swap: 0 }
    }
}

/// The memory figures of the machine, from the byte counts that the system
/// reports, in whole megabytes.
pub fn get_system_memory(total: u64, used: u64, total_swap: u64, used_swap: u64) -> (memory:
    SystemMemory)
    ensures
        memory.total_memory == total / BYTES_PER_MEGABYTE,
        memory.used_memory == used / BYTES_PER_MEGABYTE,
        memory.total_swap == total_swap / BYTES_PER_MEGABYTE,
        memory.used_swap == used_swap / BYTES_PER_MEGABYTE,
{
    SystemMemory {
        total_memory: total / 1024 / 1024,
        used_memory: used / 1024 / 1024,
        total_swap: total_swap / 1024 / 1024,
        used_swap: used_swap / 1024 / 1024,
    }
}

} // verus!
