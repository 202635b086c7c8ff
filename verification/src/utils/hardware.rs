//! The capacity of the machine: processor cores and memory.

use vstd::prelude::*;

verus! {

/// `sysinfo::System`: a reading of the machine. Nothing of its content is
/// known here.
#[verifier::external_type_specification]
#[verifier::external_body]
pub struct ExSystem(sysinfo::System);

/// `sysinfo::Cpu`: one processor of a reading. Only their number is used.
#[verifier::external_type_specification]
#[verifier::external_body]
pub struct ExCpu(sysinfo::Cpu);

/// `System::new_all` reads the state of the machine; nothing is known of what
/// it finds.
pub assume_specification[ sysinfo::System::new_all ]() -> sysinfo::System;

/// `System::refresh_all` reads the state of the machine again.
pub assume_specification[ sysinfo::System::refresh_all ](sys: &mut sysinfo::System);

/// `System::cpus` lists the processors that the last reading found.
pub assume_specification<'a>[ sysinfo::System::cpus ](sys: &'a sysinfo::System) -> &'a [
    sysinfo::Cpu
];

/// `System::total_memory` is the size of the memory in bytes.
pub assume_specification[ sysinfo::System::total_memory ](sys: &sysinfo::System) -> u64;

/// `System::available_memory` is the memory that can be used, in bytes.
pub assume_specification[ sysinfo::System::available_memory ](sys: &sysinfo::System) -> u64;

/// What a reading of the machine holds for the engine.
#[derive(Debug, Clone, Copy, PartialEq, Eq, Structural)]
pub struct HardwareInfo {
    /// The number of processor cores; 0 where it is not known.
    pub cpu_cores: u64,
    pub total_mem_kb: u64,
    pub free_mem_kb: u64,
}

/// The reading that holds `cpu_count` processors and the two sizes, taken in
/// bytes, as whole kilobytes.
pub open spec fn reading(cpu_count: usize, total_bytes: u64, available_bytes: u64) -> HardwareInfo {
    HardwareInfo {
        cpu_cores: cpu_count as u64,
        total_mem_kb: total_bytes / 1024,
        free_mem_kb: available_bytes / 1024,
    }
}

/// A reading from the plain figures of the machine.
pub fn reading_from(cpu_count: usize, total_bytes: u64, available_bytes: u64) -> (info:
    HardwareInfo)
    ensures
        info == reading(cpu_count, total_bytes, available_bytes),
{
    HardwareInfo {
        cpu_cores: cpu_count as u64,
        total_mem_kb: total_bytes / 1024,
        free_mem_kb: available_bytes / 1024,
    }
}

/// The number of processor cores, the size of the memory and the memory
/// that is free, both in kilobytes, as the machine reports them now. The
/// machine counts memory in bytes, so neither size is above the kilobytes of
/// the largest count.
pub fn get_hardware_info() -> (probe: (u64, u64, u64))
    ensures
        probe.1 <= u64::MAX / 1024,
        probe.2 <= u64::MAX / 1024,
{
    let mut sys = sysinfo::System::new_all();
    sys.refresh_all();
    let cpu_count: usize = sys.cpus().len();
    let total_bytes: u64 = sys.total_memory();
    let available_bytes: u64 = sys.available_memory();
    let info = reading_from(cpu_count, total_bytes, available_bytes);
    (info.cpu_cores, info.total_mem_kb, info.free_mem_kb)
}

} // verus!
