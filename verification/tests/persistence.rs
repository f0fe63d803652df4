use sentinel::models::NetworkMetrics;
use sentinel::persistence::buffer::WriteBuffer;
use sentinel::persistence::csv_layout::{serialize_records, CsvDisk, CsvLayout, CsvSnapshot};
use sentinel::persistence::log_file::{CsvLogFile, LogFile};
use sentinel::persistence::rotation::{
    active_file_name, earlier_system_time, has_exceeded_rotation_age, is_managed_log_file,
    lex_le_exec, needs_rotation, rotated_file_name, rotation_reference_time, select_for_deletion,
    RotationError, RotationPolicy,
};

const SEC: i128 = 1_000_000_000;

fn snapshot(ts: &str, disks: Vec<CsvDisk>, network: Vec<NetworkMetrics>) -> CsvSnapshot {
    CsvSnapshot {
        timestamp: ts.to_string(),
        cpu_global: format!("{:.2}", 42.0f32),
        ram_total: 16_000_000_000,
        ram_used: 8_000_000_000,
        ram_percent: format!("{:.2}", 50.0f32),
        disks,
        network,
    }
}

fn disk(mount: &str) -> CsvDisk {
    CsvDisk {
        mount_point: mount.to_string(),
        usage_percent: format!("{:.2}", 50.0f32),
    }
}

fn net(iface: &str) -> NetworkMetrics {
    NetworkMetrics {
        interface: iface.to_string(),
        tx_bytes: 1000,
        rx_bytes: 2000,
        tx_delta: 100,
        rx_delta: 200,
    }
}

fn encode(records: &Vec<Vec<String>>) -> String {
    String::from_utf8(serialize_records(records).expect("records should encode"))
        .expect("CSV output is UTF-8")
}

#[test]
fn first_flush_starts_with_the_header() {
    let mut layout = CsvLayout::new();

    let records = layout.prepare_records(&vec![snapshot("t1", vec![disk("C:")], vec![net("eth0")])]);
    let content = encode(&records);
    let lines: Vec<&str> = content.lines().collect();

    assert_eq!(lines.len(), 2);
    assert_eq!(
        lines[0],
        "timestamp,cpu_global,ram_total,ram_used,ram_percent,disk_mount_0,disk_percent_0,net_interface_0,net_tx_delta_0,net_rx_delta_0"
    );
    assert!(layout.header_written);
}

#[test]
fn later_flushes_write_no_second_header() {
    let mut layout = CsvLayout::new();

    let first = layout.prepare_records(&vec![snapshot("t1", vec![], vec![])]);
    let second = layout.prepare_records(&vec![snapshot("t2", vec![], vec![])]);
    let content = encode(&first) + &encode(&second);

    let header_count = content
        .lines()
        .filter(|l| l.starts_with("timestamp,"))
        .count();
    assert_eq!(header_count, 1);
    assert_eq!(second.len(), 1);
}

#[test]
fn flattens_several_disks_and_interfaces() {
    let mut layout = CsvLayout::new();

    let records = layout.prepare_records(&vec![snapshot(
        "t1",
        vec![disk("C:"), disk("D:")],
        vec![net("eth0"), net("wlan0")],
    )]);
    let content = encode(&records);

    assert_eq!(
        content.lines().next().unwrap(),
        "timestamp,cpu_global,ram_total,ram_used,ram_percent,disk_mount_0,disk_percent_0,disk_mount_1,disk_percent_1,net_interface_0,net_tx_delta_0,net_rx_delta_0,net_interface_1,net_tx_delta_1,net_rx_delta_1"
    );
    let data = content.lines().nth(1).unwrap().split(',').collect::<Vec<_>>();
    assert_eq!(
        data,
        vec![
            "t1",
            "42.00",
            "16000000000",
            "8000000000",
            "50.00",
            "C:",
            "50.00",
            "D:",
            "50.00",
            "eth0",
            "100",
            "200",
            "wlan0",
            "100",
            "200",
        ]
    );
}

#[test]
fn rows_are_cut_or_padded_to_the_layout() {
    let mut layout = CsvLayout::new();

    let records = layout.prepare_records(&vec![
        snapshot("t1", vec![disk("C:")], vec![net("eth0")]),
        snapshot("t2", vec![disk("C:"), disk("D:")], vec![]),
    ]);

    assert_eq!(records.len(), 3);
    assert_eq!(
        records[2],
        vec!["t2", "42.00", "16000000000", "8000000000", "50.00", "C:", "50.00", "", "", ""]
    );
}

#[test]
fn escapes_fields_with_commas() {
    let mut layout = CsvLayout::new();

    let records = layout.prepare_records(&vec![snapshot("t1", vec![disk("/mnt/data,backup")], vec![])]);
    let content = encode(&records);

    assert!(content.contains("\"/mnt/data,backup\""));
    let mut reader = csv::Reader::from_reader(content.as_bytes());
    let record = reader.records().next().unwrap().unwrap();
    assert_eq!(&record[5], "/mnt/data,backup");
}

#[test]
fn reusing_an_existing_file_adopts_its_header() {
    let mut layout = CsvLayout::new();

    layout
        .load_existing_layout("timestamp,cpu_global,ram_total,ram_used,ram_percent\nold,1,2,3,4\n")
        .expect("header should be read");
    assert!(layout.header_written);
    assert_eq!(layout.num_disks, 0);
    assert_eq!(layout.num_interfaces, 0);

    let records = layout.prepare_records(&vec![snapshot("t1", vec![], vec![])]);
    assert_eq!(records.len(), 1);
    assert_eq!(records[0][0], "t1");
}

#[test]
fn existing_header_fixes_the_number_of_disks_and_interfaces() {
    let mut layout = CsvLayout::new();

    layout
        .load_existing_layout(
            "timestamp,cpu_global,ram_total,ram_used,ram_percent,disk_mount_0,disk_percent_0,disk_mount_1,disk_percent_1,net_interface_0,net_tx_delta_0,net_rx_delta_0\n",
        )
        .expect("header should be read");

    assert_eq!(layout.num_disks, 2);
    assert_eq!(layout.num_interfaces, 1);
    assert_eq!(layout.build_header_record().len(), 5 + 2 * 2 + 3);
}

#[test]
fn empty_or_missing_file_leaves_the_layout_open() {
    let mut layout = CsvLayout::new();

    layout.load_existing_layout("").expect("empty content is fine");
    assert!(!layout.header_written);

    layout.num_disks = 3;
    layout.header_written = true;
    layout
        .load_existing_layout("timestamp\n")
        .expect("an adopted layout is kept");
    assert_eq!(layout.num_disks, 3);
}

#[test]
fn reset_after_rotation_writes_a_new_header() {
    let mut layout = CsvLayout::new();
    layout.prepare_records(&vec![snapshot("t1", vec![disk("C:")], vec![])]);

    layout.reset();
    let records = layout.prepare_records(&vec![snapshot("t2", vec![], vec![])]);

    assert_eq!(records.len(), 2);
    assert_eq!(records[0].len(), 5);
}

#[test]
fn records_of_unequal_length_are_refused_by_the_encoder() {
    let records = vec![vec!["a".to_string(), "b".to_string()], vec!["c".to_string()]];

    assert!(serialize_records(&records).is_err());
}

#[test]
fn buffer_flushes_at_capacity() {
    let mut buffer: WriteBuffer<u32> = WriteBuffer::new(3);

    assert!(!buffer.push(1));
    assert!(!buffer.push(2));
    assert_eq!(buffer.len(), 2);
    assert!(buffer.push(3));
    assert_eq!(buffer.items_ref(), &vec![1, 2, 3]);

    buffer.clear();
    assert!(buffer.is_empty());
}

#[test]
fn policy_size_and_age_decide_rotation() {
    let policy = RotationPolicy {
        max_file_size_bytes: 100,
        rotate_every: None,
        max_files: 10,
    };
    assert!(!needs_rotation(99, &policy, None, None, None, 0));
    assert!(needs_rotation(100, &policy, None, None, None, 0));

    let timed = RotationPolicy {
        max_file_size_bytes: 1024,
        rotate_every: Some(60),
        max_files: 10,
    };
    let now = 1_000 * SEC;
    assert!(needs_rotation(10, &timed, Some(now - 60 * SEC), None, None, now));
    assert!(!needs_rotation(10, &timed, Some(now - 59 * SEC), None, None, now));
    assert!(needs_rotation(10, &timed, None, Some(now - 120 * SEC), Some(now), now));
    assert!(!needs_rotation(10, &timed, None, None, None, now));
    assert!(!needs_rotation(10, &timed, Some(now + SEC), None, None, now));
}

#[test]
fn age_is_measured_from_the_earlier_timestamp() {
    assert_eq!(earlier_system_time(5, 3), 3);
    assert_eq!(earlier_system_time(3, 5), 3);
    assert_eq!(rotation_reference_time(Some(10), Some(7)), Some(7));
    assert_eq!(rotation_reference_time(Some(10), None), Some(10));
    assert_eq!(rotation_reference_time(None, Some(7)), Some(7));
    assert_eq!(rotation_reference_time(None, None), None);

    assert!(has_exceeded_rotation_age(Some(60), None, Some(0), Some(100 * SEC), 60 * SEC));
    assert!(!has_exceeded_rotation_age(None, Some(0), None, None, 1_000 * SEC));
}

#[test]
fn rotated_names_are_managed_logs() {
    let rotated = rotated_file_name("2025-01-01T00-00-00.000", "jsonl");

    assert_eq!(rotated, "sentinel_2025-01-01T00-00-00.000.jsonl");
    assert_eq!(active_file_name("csv"), "sentinel.csv");
    assert!(is_managed_log_file(&rotated, "jsonl"));
    assert!(is_managed_log_file("sentinel.csv", "csv"));
    assert!(!is_managed_log_file("sentinel.csv", "jsonl"));
    assert!(!is_managed_log_file("other_log.jsonl", "jsonl"));
    assert!(!is_managed_log_file(".jsonl", "jsonl"));
    assert!(!is_managed_log_file("sentinelx.jsonl", "jsonl"));
}

#[test]
fn retention_deletes_the_oldest_managed_files() {
    let names: Vec<String> = vec![
        "sentinel_2025-01-03T00-00-00.jsonl",
        "sentinel.jsonl",
        "sentinel_2025-01-01T00-00-00.jsonl",
        "other_log.jsonl",
        "sentinel_2025-01-02T00-00-00.jsonl",
        "sentinel_2025-01-04T00-00-00.csv",
    ]
    .into_iter()
    .map(String::from)
    .collect();

    let doomed = select_for_deletion(&names, 2, "jsonl");

    assert_eq!(
        doomed,
        vec![
            "sentinel.jsonl".to_string(),
            "sentinel_2025-01-01T00-00-00.jsonl".to_string(),
            "sentinel_2025-01-02T00-00-00.jsonl".to_string(),
        ]
    );
}

#[test]
fn retention_selection_ignores_foreign_files() {
    let names: Vec<String> = vec![
        "other_log.jsonl",
        "sentinel_2025-01-01T00-00-00.jsonl",
        "sentinel.jsonl",
    ]
    .into_iter()
    .map(String::from)
    .collect();

    let doomed = select_for_deletion(&names, 2, "jsonl");

    assert_eq!(doomed, vec!["sentinel.jsonl".to_string()]);
    assert!(!doomed.contains(&"other_log.jsonl".to_string()));
}

#[test]
fn retention_keeps_everything_under_the_limit() {
    let names: Vec<String> = vec!["sentinel.csv", "sentinel_a.csv"]
        .into_iter()
        .map(String::from)
        .collect();

    assert!(select_for_deletion(&names, 3, "csv").is_empty());
    assert_eq!(select_for_deletion(&names, 0, "csv").len(), 2);
}

#[test]
fn names_compare_character_by_character() {
    let a: Vec<char> = "sentinel.jsonl".chars().collect();
    let b: Vec<char> = "sentinel_2025.jsonl".chars().collect();

    assert!(lex_le_exec(&a, &b));
    assert!(!lex_le_exec(&b, &a));
    assert!(lex_le_exec(&a, &a));
    assert!(lex_le_exec(&a[..3], &a));
}

fn small_policy() -> RotationPolicy {
    RotationPolicy {
        max_file_size_bytes: 10 * 1024 * 1024,
        rotate_every: None,
        max_files: 10,
    }
}

#[test]
fn writer_state_buffers_until_capacity_and_dates_its_first_flush() {
    let mut state: LogFile<u8> = LogFile::new(3, small_policy(), None);

    assert!(!state.begin_flush(5), "nothing to flush yet");
    assert_eq!(state.file_started_at, None);

    assert!(!state.write(1));
    assert!(!state.write(2));
    assert!(state.write(3));

    assert!(state.begin_flush(7));
    assert_eq!(state.file_started_at, Some(7));
    assert!(state.begin_flush(9));
    assert_eq!(state.file_started_at, Some(7), "an active file keeps its date");

    state.end_flush(false, 11);
    assert!(state.buffer.is_empty());
    assert_eq!(state.file_started_at, Some(7));
}

#[test]
fn rotation_restarts_the_file_date() {
    let mut state: LogFile<u8> = LogFile::new(1, small_policy(), Some(3));
    state.write(1);
    assert!(state.begin_flush(5));
    assert_eq!(state.file_started_at, Some(3));

    state.end_flush(true, 20);

    assert_eq!(state.file_started_at, Some(20));
    assert_eq!(state.buffer.len(), 0);
}

#[test]
fn csv_flush_appends_header_once_and_after_each_rotation() {
    let mut state = CsvLogFile::new(10, small_policy(), None);

    state.file.write(snapshot("t1", vec![disk("C:")], vec![]));
    assert!(state.file.begin_flush(1));
    let first = String::from_utf8(state.encode_pending("").expect("encodes")).unwrap();
    assert_eq!(
        first,
        "timestamp,cpu_global,ram_total,ram_used,ram_percent,disk_mount_0,disk_percent_0\n\
         t1,42.00,16000000000,8000000000,50.00,C:,50.00\n"
    );
    state.end_flush(false, 2);

    state.file.write(snapshot("t2", vec![], vec![]));
    state.file.begin_flush(3);
    let second = String::from_utf8(state.encode_pending("").expect("encodes")).unwrap();
    assert_eq!(second, "t2,42.00,16000000000,8000000000,50.00,,\n");
    state.end_flush(true, 4);
    assert!(!state.layout.header_written);

    state.file.write(snapshot("t3", vec![], vec![]));
    state.file.begin_flush(5);
    let third = String::from_utf8(state.encode_pending("").expect("encodes")).unwrap();
    assert!(third.starts_with("timestamp,cpu_global,ram_total,ram_used,ram_percent\n"));
}

#[test]
fn csv_flush_into_an_existing_file_follows_its_header() {
    let mut state = CsvLogFile::new(10, small_policy(), None);
    state.file.write(snapshot("t1", vec![disk("C:")], vec![net("eth0")]));
    state.file.begin_flush(1);

    let bytes = state
        .encode_pending("timestamp,cpu_global,ram_total,ram_used,ram_percent\nold,1,2,3,4\n")
        .expect("encodes");

    assert_eq!(
        String::from_utf8(bytes).unwrap(),
        "t1,42.00,16000000000,8000000000,50.00\n"
    );
    assert!(state.layout.header_written);
    assert_eq!(state.layout.num_disks, 0);
}

#[test]
fn rotated_names_never_clobber_the_active_file() {
    for ts in ["", "2026-04-28T00-00-00.000", "x"] {
        assert_ne!(rotated_file_name(ts, "csv"), active_file_name("csv"));
    }
}

#[test]
fn rotation_error_text_names_the_operation() {
    let err = RotationError::Rename(std::io::Error::new(std::io::ErrorKind::Other, "disk gone"));

    assert_eq!(err.message(), "failed to rename log file: disk gone");
}

#[test]
fn records_of_one_width_always_encode() {
    let records = vec![
        vec!["a".to_string(), "b,c".to_string()],
        vec!["\"q\"".to_string(), "".to_string()],
    ];

    let text = encode(&records);

    assert_eq!(text, "a,\"b,c\"\n\"\"\"q\"\"\",\n");
}

#[test]
fn reopening_a_written_file_restores_its_layout() {
    let mut writer = CsvLayout::new();
    let records = writer.prepare_records(&vec![snapshot(
        "t1",
        vec![disk("/mnt/a,b"), disk("/mnt/\"c\"")],
        vec![net("eth0")],
    )]);
    let text = encode(&records);

    let mut reopened = CsvLayout::new();
    reopened.load_existing_layout(&text).expect("the header reads back");

    assert!(reopened.header_written);
    assert_eq!(reopened.num_disks, 2);
    assert_eq!(reopened.num_interfaces, 1);

    let mut reader = csv::ReaderBuilder::new()
        .has_headers(false)
        .from_reader(text.as_bytes());
    let read: Vec<Vec<String>> = reader
        .records()
        .map(|r| r.unwrap().iter().map(String::from).collect())
        .collect();
    assert_eq!(read, records);
}
