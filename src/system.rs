//! A summary of the machine the application runs on.
use vstd::prelude::*;

verus! {

/// The memory figure reported for every machine, in MiB.
pub const REPORTED_MEMORY_MB: u64 = 16384;

/// Operating system name, usable CPU count and reported memory.
#[derive(Debug)]
pub struct SystemInfo {
    pub os: String,
    pub cpu_cores: usize,
    pub memory_mb: u64,
}

/// Relies on `num_cpus::get`: the number of CPUs this process may use,
/// documented to be at least one.
#[verifier::external_body]
fn available_cpus() -> (r: usize)
    ensures
        r >= 1,
{
    num_cpus::get()
}

/// The summary for the operating system named `os` with `cpu_cores` usable
/// CPUs.
pub fn system_info(os: String, cpu_cores: usize) -> (r: SystemInfo)
    ensures
        r.os@ == os@,
        r.cpu_cores == cpu_cores,
        r.memory_mb == REPORTED_MEMORY_MB,
{
    SystemInfo { os, cpu_cores, memory_mb: REPORTED_MEMORY_MB }
}

/// Builds the summary for the operating system named `os`, with the number
/// of CPUs this process may use.
pub fn get_system_info(os: String) -> (r: SystemInfo)
    ensures
        r.os@ == os@,
        r.cpu_cores >= 1,
        r.memory_mb == REPORTED_MEMORY_MB,
{
    let cpu_cores = available_cpus();
    system_info(os, cpu_cores)
}

} // verus!
