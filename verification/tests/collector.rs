use sentinel::collector::network::{compute_metrics, NetworkCollector, NetworkCollectorError};
use sentinel::collector::{
    assemble_snapshot, check_cpu_count, check_total_memory, disk_used_bytes, CpuCollectorError,
    DiskCollectorError, MemoryCollectorError, MetricCollector, SystemCollectorError,
};
use sentinel::models::NetworkMetrics;

#[derive(Debug, Clone, PartialEq)]
struct CpuMetrics {
    global_usage: f32,
    per_core: Vec<f32>,
}

#[derive(Debug, Clone, PartialEq)]
struct MemoryMetrics {
    total_bytes: u64,
    used_bytes: u64,
    available_bytes: u64,
    usage_percent: f32,
}

#[derive(Debug, Clone, PartialEq)]
struct DiskMetrics {
    mount_point: String,
    total_bytes: u64,
    used_bytes: u64,
    available_bytes: u64,
    usage_percent: f32,
}

fn sample_core() -> (CpuMetrics, MemoryMetrics) {
    (
        CpuMetrics {
            global_usage: 42.0,
            per_core: vec![42.0],
        },
        MemoryMetrics {
            total_bytes: 16,
            used_bytes: 8,
            available_bytes: 8,
            usage_percent: 50.0,
        },
    )
}

fn sample_disks() -> Vec<DiskMetrics> {
    vec![DiskMetrics {
        mount_point: "/".to_string(),
        total_bytes: 100,
        used_bytes: 50,
        available_bytes: 50,
        usage_percent: 50.0,
    }]
}

fn sample_network() -> Vec<NetworkMetrics> {
    vec![NetworkMetrics {
        interface: "eth0".to_string(),
        tx_bytes: 10,
        rx_bytes: 20,
        tx_delta: 1,
        rx_delta: 2,
    }]
}

#[test]
fn assemble_snapshot_stops_on_cpu_failure() {
    let result = assemble_snapshot::<CpuMetrics, MemoryMetrics, DiskMetrics, _, _, _>(
        "2026-04-28T00:00:00Z".to_string(),
        || Err(SystemCollectorError::Cpu(CpuCollectorError::NoCpuData)),
        || Ok(sample_disks()),
        || Ok(sample_network()),
    );

    assert!(matches!(result, Err(SystemCollectorError::Cpu(_))));
}

#[test]
fn assemble_snapshot_returns_full_snapshot_when_all_collectors_succeed() {
    let snapshot = assemble_snapshot(
        "2026-04-28T00:00:00Z".to_string(),
        || Ok(sample_core()),
        || Ok(sample_disks()),
        || Ok(sample_network()),
    )
    .unwrap_or_else(|_| panic!("all collectors should succeed"));

    assert_eq!(snapshot.timestamp, "2026-04-28T00:00:00Z");
    assert_eq!(snapshot.cpu.global_usage, 42.0);
    assert_eq!(snapshot.memory.usage_percent, 50.0);
    assert_eq!(snapshot.disks.len(), 1);
    assert_eq!(snapshot.network.len(), 1);
}

#[test]
fn assemble_snapshot_stops_on_network_failure() {
    let result = assemble_snapshot::<CpuMetrics, MemoryMetrics, DiskMetrics, _, _, _>(
        "2026-04-28T00:00:00Z".to_string(),
        || Ok(sample_core()),
        || Ok(sample_disks()),
        || Err(NetworkCollectorError::RefreshFailed),
    );

    assert!(matches!(result, Err(SystemCollectorError::Network(_))));
}

#[test]
fn assemble_snapshot_stops_on_disk_failure() {
    let result = assemble_snapshot::<CpuMetrics, MemoryMetrics, DiskMetrics, _, _, _>(
        "2026-04-28T00:00:00Z".to_string(),
        || Ok(sample_core()),
        || Err(DiskCollectorError::QueryFailed),
        || Ok(sample_network()),
    );

    assert!(matches!(result, Err(SystemCollectorError::Disk(_))));
}

#[test]
fn assemble_snapshot_stops_on_memory_failure() {
    let result = assemble_snapshot::<CpuMetrics, MemoryMetrics, DiskMetrics, _, _, _>(
        "2026-04-28T00:00:00Z".to_string(),
        || Err(SystemCollectorError::Memory(MemoryCollectorError::ZeroTotalMemory)),
        || Ok(sample_disks()),
        || Ok(sample_network()),
    );

    assert!(matches!(result, Err(SystemCollectorError::Memory(_))));
}

#[test]
fn assemble_snapshot_runs_no_step_after_a_failure() {
    let mut disk_ran = false;
    let mut network_ran = false;

    let result = assemble_snapshot::<CpuMetrics, MemoryMetrics, DiskMetrics, _, _, _>(
        "t".to_string(),
        || Ok(sample_core()),
        || {
            disk_ran = true;
            Err(DiskCollectorError::QueryFailed)
        },
        || {
            network_ran = true;
            Ok(sample_network())
        },
    );

    assert_eq!(
        result.err(),
        Some(SystemCollectorError::Disk(DiskCollectorError::QueryFailed))
    );
    assert!(disk_ran);
    assert!(!network_ran);
}

#[test]
fn collects_network_metrics_with_valid_interfaces() {
    let mut collector = NetworkCollector::new();

    let metrics = collector
        .collect_sync()
        .expect("should collect network metrics");

    for iface in &metrics {
        assert!(
            !iface.interface.is_empty(),
            "interface name should not be empty"
        );
    }
}

#[test]
fn computes_delta_between_consecutive_reads() {
    let mut collector = NetworkCollector::new();

    let first = collector
        .collect_sync()
        .expect("first collection should succeed");

    let second = collector
        .collect_sync()
        .expect("second collection should succeed");

    for iface in &second {
        if let Some(prev) = first.iter().find(|f| f.interface == iface.interface) {
            assert!(
                iface.tx_bytes >= prev.tx_bytes,
                "TX bytes should be monotonically non-decreasing"
            );
            assert!(
                iface.rx_bytes >= prev.rx_bytes,
                "RX bytes should be monotonically non-decreasing"
            );
        }
    }
}

#[test]
fn treats_missing_previous_reading_as_zero_delta() {
    let mut collector = NetworkCollector::new();
    collector.reset_baseline();

    let metrics = collector
        .collect_sync()
        .expect("collection without previous state should succeed");

    for iface in &metrics {
        assert_eq!(
            iface.tx_delta, 0,
            "first visible TX delta for {} should be zero",
            iface.interface
        );
        assert_eq!(
            iface.rx_delta, 0,
            "first visible RX delta for {} should be zero",
            iface.interface
        );
    }
}

#[test]
fn collect_through_the_trait_matches_collect_sync() {
    let mut collector = NetworkCollector::new();

    let metrics = collector.collect().expect("collection should succeed");

    let mut names: Vec<&str> = metrics.iter().map(|m| m.interface.as_str()).collect();
    names.sort();
    names.dedup();
    assert_eq!(names.len(), metrics.len(), "each interface is reported once");
}

#[test]
fn deltas_are_counter_increases_and_zero_for_new_or_reset_counters() {
    let previous = vec![
        ("eth0".to_string(), 100u64, 200u64),
        ("wlan0".to_string(), 50u64, 70u64),
    ];
    let readings = vec![
        ("wlan0".to_string(), 40u64, 90u64),
        ("eth0".to_string(), 160u64, 200u64),
        ("lo".to_string(), 5u64, 5u64),
    ];

    let metrics = compute_metrics(&previous, &readings);

    assert_eq!(
        metrics,
        vec![
            NetworkMetrics {
                interface: "wlan0".to_string(),
                tx_bytes: 40,
                rx_bytes: 90,
                tx_delta: 0,
                rx_delta: 20,
            },
            NetworkMetrics {
                interface: "eth0".to_string(),
                tx_bytes: 160,
                rx_bytes: 200,
                tx_delta: 60,
                rx_delta: 0,
            },
            NetworkMetrics {
                interface: "lo".to_string(),
                tx_bytes: 5,
                rx_bytes: 5,
                tx_delta: 0,
                rx_delta: 0,
            },
        ]
    );
}

#[test]
fn reading_checks_reject_empty_hardware() {
    assert_eq!(check_cpu_count(0), Err(CpuCollectorError::NoCpuData));
    assert_eq!(check_cpu_count(8), Ok(()));
    assert_eq!(
        check_total_memory(0),
        Err(MemoryCollectorError::ZeroTotalMemory)
    );
    assert_eq!(check_total_memory(1), Ok(()));
    assert_eq!(disk_used_bytes(100, 30), 70);
    assert_eq!(disk_used_bytes(100, 130), 0);
}

#[test]
fn collector_error_messages() {
    assert_eq!(CpuCollectorError::NoCpuData.message(), "no CPU data available");
    assert_eq!(
        MemoryCollectorError::ZeroTotalMemory.message(),
        "total memory reported as zero"
    );
    assert_eq!(
        DiskCollectorError::QueryFailed.message(),
        "failed to query disk information"
    );
    assert_eq!(
        NetworkCollectorError::RefreshFailed.message(),
        "failed to refresh network data"
    );
}

#[test]
fn system_collector_error_messages_name_the_step() {
    assert_eq!(
        SystemCollectorError::Cpu(CpuCollectorError::NoCpuData).message(),
        "CPU collection failed: no CPU data available"
    );
    assert_eq!(
        SystemCollectorError::Network(NetworkCollectorError::RefreshFailed).message(),
        "network collection failed: failed to refresh network data"
    );
    assert_eq!(
        SystemCollectorError::TaskJoin.message(),
        "blocking collection task failed"
    );
}
