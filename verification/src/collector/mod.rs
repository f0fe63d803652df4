//! Metric collection: the checks that turn raw readings into metrics or
//! errors, and the network collector with its per-interface deltas.

pub mod network;

use vstd::prelude::*;

use crate::collector::network::NetworkCollectorError;
use crate::models::{NetworkMetrics, SystemSnapshot};
use crate::text::{chars_to_string, str_chars};

verus! {

/// A source of metrics.
pub trait MetricCollector {
    type Output;
    type Error;

    fn collect(&mut self) -> Result<Self::Output, Self::Error>;
}

/// CPU collection found no processor.
#[derive(Debug, Clone, Copy, PartialEq, Eq, Structural)]
pub enum CpuCollectorError {
    NoCpuData,
}

/// Memory collection found no memory.
#[derive(Debug, Clone, Copy, PartialEq, Eq, Structural)]
pub enum MemoryCollectorError {
    ZeroTotalMemory,
}

/// Disk information could not be queried.
#[derive(Debug, Clone, Copy, PartialEq, Eq, Structural)]
pub enum DiskCollectorError {
    QueryFailed,
}

impl CpuCollectorError {
    pub fn message(&self) -> (s: String)
        ensures
            s@ == "no CPU data available"@,
    {
        chars_to_string(str_chars("no CPU data available").as_slice())
    }
}

impl MemoryCollectorError {
    pub fn message(&self) -> (s: String)
        ensures
            s@ == "total memory reported as zero"@,
    {
        chars_to_string(str_chars("total memory reported as zero").as_slice())
    }
}

impl DiskCollectorError {
    pub fn message(&self) -> (s: String)
        ensures
            s@ == "failed to query disk information"@,
    {
        chars_to_string(str_chars("failed to query disk information").as_slice())
    }
}

/// A CPU reading needs at least one processor.
pub fn check_cpu_count(cpus: usize) -> (r: Result<(), CpuCollectorError>)
    ensures
        r is Ok <==> cpus > 0,
{
    if cpus == 0 { Err(CpuCollectorError::NoCpuData) } else { Ok(()) }
}

/// A memory reading needs a non-zero total.
pub fn check_total_memory(total_bytes: u64) -> (r: Result<(), MemoryCollectorError>)
    ensures
        r is Ok <==> total_bytes > 0,
{
    if total_bytes == 0 { Err(MemoryCollectorError::ZeroTotalMemory) } else { Ok(()) }
}

/// The used space of a disk: its total less the available space, or zero
/// when more is reported available than in total.
pub fn disk_used_bytes(total_bytes: u64, available_bytes: u64) -> (used: u64)
    ensures
        used == if available_bytes <= total_bytes { (total_bytes - available_bytes) as u64 } else { 0 },
{
    total_bytes.saturating_sub(available_bytes)
}

/// Why a system snapshot could not be taken.
#[derive(Debug, Clone, Copy, PartialEq, Eq, Structural)]
pub enum SystemCollectorError {
    Cpu(CpuCollectorError),
    Memory(MemoryCollectorError),
    Disk(DiskCollectorError),
    Network(NetworkCollectorError),
    /// The background task that collected the readings did not complete.
    TaskJoin,
}

/// The text of a collection error.
pub open spec fn system_error_message(e: SystemCollectorError) -> Seq<char> {
    match e {
        SystemCollectorError::Cpu(_) => "CPU collection failed: "@ + "no CPU data available"@,
        SystemCollectorError::Memory(_) => "memory collection failed: "@ + "total memory reported as zero"@,
        SystemCollectorError::Disk(_) => "disk collection failed: "@ + "failed to query disk information"@,
        SystemCollectorError::Network(_) => "network collection failed: "@ + "failed to refresh network data"@,
        SystemCollectorError::TaskJoin => "blocking collection task failed"@,
    }
}

impl SystemCollectorError {
    pub fn message(&self) -> (s: String)
        ensures
            s@ == system_error_message(*self),
    {
        let mut s = String::new();
        match self {
            SystemCollectorError::Cpu(e) => {
                crate::text::push_str(&mut s, "CPU collection failed: ");
                let d = e.message();
                crate::text::push_str(&mut s, d.as_str());
            },
            SystemCollectorError::Memory(e) => {
                crate::text::push_str(&mut s, "memory collection failed: ");
                let d = e.message();
                crate::text::push_str(&mut s, d.as_str());
            },
            SystemCollectorError::Disk(e) => {
                crate::text::push_str(&mut s, "disk collection failed: ");
                let d = e.message();
                crate::text::push_str(&mut s, d.as_str());
            },
            SystemCollectorError::Network(e) => {
                crate::text::push_str(&mut s, "network collection failed: ");
                let d = e.message();
                crate::text::push_str(&mut s, d.as_str());
            },
            SystemCollectorError::TaskJoin => crate::text::push_str(&mut s, "blocking collection task failed"),
        }
        s
    }
}

/// Assembles a snapshot from the three collection steps, run in order: the
/// CPU and memory step, then disks, then network. The first step that fails
/// decides the error, and the steps after it are not run.
pub fn assemble_snapshot<Cpu, Memory, Disk, FCore, FDisk, FNetwork>(
    timestamp: String,
    core: FCore,
    disk: FDisk,
    network: FNetwork,
) -> (r: Result<SystemSnapshot<Cpu, Memory, Disk>, SystemCollectorError>) where
    FCore: FnOnce() -> Result<(Cpu, Memory), SystemCollectorError>,
    FDisk: FnOnce() -> Result<Vec<Disk>, DiskCollectorError>,
    FNetwork: FnOnce() -> Result<Vec<NetworkMetrics>, NetworkCollectorError>,

    requires
        core.requires(()),
        disk.requires(()),
        network.requires(()),
    ensures
        match r {
            Ok(s) => {
                &&& s.timestamp@ == timestamp@
                &&& core.ensures((), Ok((s.cpu, s.memory)))
                &&& disk.ensures((), Ok(s.disks))
                &&& network.ensures((), Ok(s.network))
            },
            Err(e) => {
                ||| core.ensures((), Err(e))
                ||| {
                    &&& exists|c: (Cpu, Memory)| core.ensures((), Ok(c))
                    &&& exists|d: DiskCollectorError|
                        disk.ensures((), Err(d)) && e == SystemCollectorError::Disk(d)
                }
                ||| {
                    &&& exists|c: (Cpu, Memory)| core.ensures((), Ok(c))
                    &&& exists|d: Vec<Disk>| disk.ensures((), Ok(d))
                    &&& exists|n: NetworkCollectorError|
                        network.ensures((), Err(n)) && e == SystemCollectorError::Network(n)
                }
            },
        },
{
    let (cpu, memory) = match core() {
        Ok(c) => c,
        Err(e) => return Err(e),
    };
    let disks = match disk() {
        Ok(d) => d,
        Err(d) => return Err(SystemCollectorError::Disk(d)),
    };
    let network = match network() {
        Ok(n) => n,
        Err(n) => return Err(SystemCollectorError::Network(n)),
    };
    Ok(SystemSnapshot { timestamp, cpu, memory, disks, network })
}

} // verus!
