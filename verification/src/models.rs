//! Metric records. The CPU, memory and disk gauges are percentages kept as
//! floating-point numbers outside this library, so a snapshot is generic over
//! the records that hold them.

use vstd::prelude::*;

verus! {

/// Traffic counters of one network interface, with the change since the
/// previous reading.
#[derive(Debug, Clone, PartialEq, Eq)]
pub struct NetworkMetrics {
    pub interface: String,
    pub tx_bytes: u64,
    pub rx_bytes: u64,
    pub tx_delta: u64,
    pub rx_delta: u64,
}

pub struct NetworkMetricsView {
    pub interface: Seq<char>,
    pub tx_bytes: u64,
    pub rx_bytes: u64,
    pub tx_delta: u64,
    pub rx_delta: u64,
}

impl View for NetworkMetrics {
    type V = NetworkMetricsView;

    open spec fn view(&self) -> NetworkMetricsView {
        NetworkMetricsView {
            interface: self.interface@,
            tx_bytes: self.tx_bytes,
            rx_bytes: self.rx_bytes,
            tx_delta: self.tx_delta,
            rx_delta: self.rx_delta,
        }
    }
}

/// One complete reading of the system, taken at `timestamp`.
pub struct SystemSnapshot<Cpu, Memory, Disk> {
    pub timestamp: String,
    pub cpu: Cpu,
    pub memory: Memory,
    pub disks: Vec<Disk>,
    pub network: Vec<NetworkMetrics>,
}

} // verus!
