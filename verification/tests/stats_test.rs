use nfs_gaze::cli::OpFilter;
use nfs_gaze::maps::AssocMap;
use nfs_gaze::stats::calculate_delta_stats;
use nfs_gaze::stats::filter_operations;
use nfs_gaze::types::DeltaStats;
use nfs_gaze::types::NFSEvents;
use nfs_gaze::types::NFSMount;
use nfs_gaze::types::NFSOperation;
use nfs_gaze::types::OpMap;
use nfs_gaze::types::Ratio;
use nfs_gaze::parser::parse_events;
use nfs_gaze::parser::parse_nfs_operation;

const MICROS_PER_SECOND: u64 = 1_000_000;

fn ratio_f64(r: &Ratio) -> f64 {
    r.num as f64 / r.den as f64
}

fn create_test_mount(operations: OpMap) -> NFSMount {
    NFSMount {
        device: "server:/export".to_string(),
        mount_point: "/mnt/nfs".to_string(),
        server: "server".to_string(),
        export: "/export".to_string(),
        age: 0,
        operations,
        events: None,
        bytes_read: 0,
        bytes_write: 0,
    }
}

fn create_test_operation(
    name: &str,
    ops: i64,
    bytes_sent: i64,
    bytes_recv: i64,
    rtt: i64,
    exec: i64,
) -> NFSOperation {
    NFSOperation {
        name: name.to_string(),
        ops,
        ntrans: ops,
        timeouts: 0,
        bytes_sent,
        bytes_recv,
        queue_time: 0,
        rtt,
        execute_time: exec,
        errors: 0,
    }
}

fn zero_delta(name: &str) -> DeltaStats {
    DeltaStats {
        operation: name.to_string(),
        delta_ops: 0,
        delta_bytes: 0,
        delta_sent: 0,
        delta_recv: 0,
        delta_rtt: 0,
        delta_exec: 0,
        delta_queue: 0,
        delta_errors: 0,
        delta_retrans: 0,
        avg_rtt: Ratio::zero(),
        avg_exec: Ratio::zero(),
        avg_queue: Ratio::zero(),
        kb_per_op: Ratio::zero(),
        kb_per_sec: Ratio::zero(),
        iops: Ratio::zero(),
    }
}

#[test]
fn test_calculate_delta_stats() {
    let mut prev_ops: OpMap = AssocMap::new();
    prev_ops.insert(
        "READ".to_string(),
        create_test_operation("READ", 100, 1024, 2048, 1000, 2000),
    );

    let mut curr_ops: OpMap = AssocMap::new();
    curr_ops.insert(
        "READ".to_string(),
        create_test_operation("READ", 200, 2048, 4096, 2000, 4000),
    );

    let previous = create_test_mount(prev_ops);
    let current = create_test_mount(curr_ops);

    let deltas = calculate_delta_stats(&previous, &current, MICROS_PER_SECOND);

    assert_eq!(deltas.len(), 1);
    let delta = &deltas[0];
    assert_eq!(delta.operation, "READ");
    assert_eq!(delta.delta_ops, 100);
    assert_eq!(delta.delta_bytes, 1024 + 2048); // delta_sent + delta_recv
    assert_eq!(ratio_f64(&delta.iops), 100.0);
    assert_eq!(ratio_f64(&delta.avg_rtt), 10.0); // delta_rtt / delta_ops
    assert_eq!(ratio_f64(&delta.avg_exec), 20.0); // delta_exec / delta_ops
}

#[test]
fn test_calculate_delta_stats_new_operation() {
    let prev_ops: OpMap = AssocMap::new();

    let mut curr_ops: OpMap = AssocMap::new();
    curr_ops.insert(
        "READ".to_string(),
        create_test_operation("READ", 100, 1024, 2048, 1000, 2000),
    );

    let previous = create_test_mount(prev_ops);
    let current = create_test_mount(curr_ops);

    let deltas = calculate_delta_stats(&previous, &current, MICROS_PER_SECOND);

    assert_eq!(deltas.len(), 1);
    let delta = &deltas[0];
    assert_eq!(delta.operation, "READ");
    assert_eq!(delta.delta_ops, 100);
    assert_eq!(ratio_f64(&delta.iops), 100.0);
}

#[test]
fn test_filter_operations() {
    let stats = vec![
        DeltaStats {
            operation: "READ".to_string(),
            delta_ops: 100,
            iops: Ratio { num: 100, den: 1 },
            ..zero_delta("READ")
        },
        DeltaStats {
            operation: "WRITE".to_string(),
            delta_ops: 50,
            iops: Ratio { num: 50, den: 1 },
            ..zero_delta("WRITE")
        },
    ];

    // Test empty filter (should return all)
    let empty_filter = OpFilter::new();
    let filtered = filter_operations(stats.clone(), &empty_filter);
    assert_eq!(filtered.len(), 2);

    // Test specific filter
    let mut filter = OpFilter::new();
    filter.insert("READ".to_string());
    let filtered = filter_operations(stats, &filter);
    assert_eq!(filtered.len(), 1);
    assert_eq!(filtered[0].operation, "READ");
}

#[test]
fn test_identical_snapshots_yield_no_deltas() {
    let mut prev_ops: OpMap = AssocMap::new();
    prev_ops.insert(
        "READ".to_string(),
        create_test_operation("READ", 100, 1024, 2048, 1000, 2000),
    );
    let mut curr_ops: OpMap = AssocMap::new();
    curr_ops.insert(
        "READ".to_string(),
        create_test_operation("READ", 100, 1024, 2048, 1000, 2000),
    );

    let previous = create_test_mount(prev_ops);
    let current = create_test_mount(curr_ops);

    let deltas = calculate_delta_stats(&previous, &current, MICROS_PER_SECOND);
    assert!(deltas.is_empty());
}

#[test]
fn test_round_trip_rates() {
    // One operation going from 100 to 200 ops with a round-trip-time delta
    // of 1000 over one second.
    let mut prev_ops: OpMap = AssocMap::new();
    prev_ops.insert(
        "READ".to_string(),
        create_test_operation("READ", 100, 0, 0, 0, 0),
    );
    let mut curr_ops: OpMap = AssocMap::new();
    curr_ops.insert(
        "READ".to_string(),
        create_test_operation("READ", 200, 0, 0, 1000, 0),
    );

    let previous = create_test_mount(prev_ops);
    let current = create_test_mount(curr_ops);

    let deltas = calculate_delta_stats(&previous, &current, MICROS_PER_SECOND);
    assert_eq!(deltas.len(), 1);
    assert_eq!(deltas[0].delta_ops, 100);
    assert_eq!(ratio_f64(&deltas[0].iops), 100.0);
    assert_eq!(ratio_f64(&deltas[0].avg_rtt), 10.0);
}

#[test]
fn test_negative_deltas_pass_through() {
    // A counter reset (remount): the current counters are below the
    // previous ones; raw deltas stay negative and averages are zeroed.
    let mut prev_ops: OpMap = AssocMap::new();
    prev_ops.insert(
        "WRITE".to_string(),
        create_test_operation("WRITE", 500, 4096, 0, 900, 0),
    );
    let mut curr_ops: OpMap = AssocMap::new();
    curr_ops.insert(
        "WRITE".to_string(),
        create_test_operation("WRITE", 600, 1024, 0, 100, 0),
    );
    // WRITE gains activity; GETATTR regressed and is filtered out by the
    // no-new-activity rule.
    curr_ops.insert(
        "GETATTR".to_string(),
        create_test_operation("GETATTR", 0, 0, 0, 0, 0),
    );
    prev_ops.insert(
        "GETATTR".to_string(),
        create_test_operation("GETATTR", 10, 0, 0, 0, 0),
    );

    let previous = create_test_mount(prev_ops);
    let current = create_test_mount(curr_ops);

    let deltas = calculate_delta_stats(&previous, &current, MICROS_PER_SECOND);
    assert_eq!(deltas.len(), 1);
    assert_eq!(deltas[0].operation, "WRITE");
    assert_eq!(deltas[0].delta_sent, 1024 - 4096);
    assert_eq!(deltas[0].delta_rtt, 100 - 900);
}

#[test]
fn test_delta_output_sorted_by_name() {
    let mut prev_ops: OpMap = AssocMap::new();
    prev_ops.insert("WRITE".to_string(), create_test_operation("WRITE", 0, 0, 0, 0, 0));
    prev_ops.insert("READ".to_string(), create_test_operation("READ", 0, 0, 0, 0, 0));
    prev_ops.insert("ACCESS".to_string(), create_test_operation("ACCESS", 0, 0, 0, 0, 0));

    let mut curr_ops: OpMap = AssocMap::new();
    curr_ops.insert("WRITE".to_string(), create_test_operation("WRITE", 5, 0, 0, 0, 0));
    curr_ops.insert("READ".to_string(), create_test_operation("READ", 7, 0, 0, 0, 0));
    curr_ops.insert("ACCESS".to_string(), create_test_operation("ACCESS", 9, 0, 0, 0, 0));

    let previous = create_test_mount(prev_ops);
    let current = create_test_mount(curr_ops);

    let deltas = calculate_delta_stats(&previous, &current, MICROS_PER_SECOND);
    assert_eq!(deltas.len(), 3);
    assert_eq!(deltas[0].operation, "ACCESS");
    assert_eq!(deltas[1].operation, "READ");
    assert_eq!(deltas[2].operation, "WRITE");
}

#[test]
fn test_zero_elapsed_zeroes_time_rates() {
    let mut prev_ops: OpMap = AssocMap::new();
    prev_ops.insert(
        "READ".to_string(),
        create_test_operation("READ", 0, 0, 0, 0, 0),
    );
    let mut curr_ops: OpMap = AssocMap::new();
    curr_ops.insert(
        "READ".to_string(),
        create_test_operation("READ", 10, 1024, 1024, 50, 60),
    );

    let previous = create_test_mount(prev_ops);
    let current = create_test_mount(curr_ops);

    let deltas = calculate_delta_stats(&previous, &current, 0);
    assert_eq!(deltas.len(), 1);
    assert_eq!(ratio_f64(&deltas[0].iops), 0.0);
    assert_eq!(ratio_f64(&deltas[0].kb_per_sec), 0.0);
    assert_eq!(ratio_f64(&deltas[0].avg_rtt), 5.0);
}

#[test]
fn test_parse_events() {
    struct TestCase {
        name: &'static str,
        parts: Vec<&'static str>,
        want_err: bool,
        verify: Option<fn(&NFSEvents)>,
    }

    let tests = vec![
        TestCase {
            name: "valid events with all fields",
            parts: vec![
                "1", "2", "3", "4", "5", "6", "7", "8", "9", "10", "11", "12", "13", "14", "15",
                "16", "17", "18", "19", "20", "21", "22", "23", "24", "25", "26", "27",
            ],
            want_err: false,
            verify: Some(|e: &NFSEvents| {
                assert_eq!(e.inode_revalidate, 1, "InodeRevalidate should be 1");
                assert_eq!(e.pnfs_write, 27, "PNFSWrite should be 27");
            }),
        },
        TestCase {
            name: "valid events without pNFS fields",
            parts: vec![
                "100", "200", "300", "400", "500", "600", "700", "800", "900", "1000", "1100",
                "1200", "1300", "1400", "1500", "1600", "1700", "1800", "1900", "2000", "2100",
                "2200", "2300", "2400", "2500",
            ],
            want_err: false, // This should now succeed with 25 parts
            verify: None,
        },
        TestCase {
            name: "insufficient parts",
            parts: vec!["1", "2", "3"],
            want_err: true,
            verify: None,
        },
        TestCase {
            name: "invalid number format",
            parts: vec![
                "a", "2", "3", "4", "5", "6", "7", "8", "9", "10", "11", "12", "13", "14", "15",
                "16", "17", "18", "19", "20", "21", "22", "23", "24", "25", "26", "27",
            ],
            want_err: true,
            verify: None,
        },
    ];

    for test in tests {
        let parts: Vec<String> = test.parts.into_iter().map(|s| s.to_string()).collect();
        let result = parse_events(&parts);

        match (result, test.want_err) {
            (Ok(events), false) => {
                if let Some(verify) = test.verify {
                    verify(&events);
                }
            }
            (Err(_), true) => {
                // Expected error
            }
            (Ok(_), true) => {
                panic!("Test '{}': expected error but got success", test.name);
            }
            (Err(e), false) => {
                panic!("Test '{}': unexpected error: {}", test.name, e.message());
            }
        }
    }
}

#[test]
fn test_parse_nfs_operation() {
    struct TestCase {
        name: &'static str,
        op_name: &'static str,
        stats: Vec<&'static str>,
        want_err: bool,
        verify: Option<fn(&NFSOperation)>,
    }

    let tests = vec![
        TestCase {
            name: "valid operation with all fields",
            op_name: "READ",
            stats: vec!["100", "95", "5", "1024", "2048", "10", "20", "30", "2"],
            want_err: false,
            verify: Some(|op: &NFSOperation| {
                assert_eq!(op.name, "READ", "Name should be READ");
                assert_eq!(op.ops, 100, "Ops should be 100");
                assert_eq!(op.ntrans, 95, "Ntrans should be 95");
                assert_eq!(op.timeouts, 5, "Timeouts should be 5");
                assert_eq!(op.bytes_sent, 1024, "BytesSent should be 1024");
                assert_eq!(op.bytes_recv, 2048, "BytesRecv should be 2048");
                assert_eq!(op.queue_time, 10, "QueueTime should be 10");
                assert_eq!(op.rtt, 20, "RTT should be 20");
                assert_eq!(op.execute_time, 30, "ExecuteTime should be 30");
                assert_eq!(op.errors, 2, "Errors should be 2");
            }),
        },
        TestCase {
            name: "insufficient stats",
            op_name: "WRITE",
            stats: vec!["100", "95"],
            want_err: true,
            verify: None,
        },
        TestCase {
            name: "invalid number format",
            op_name: "READ",
            stats: vec!["abc", "95", "5", "1024", "2048", "10", "20", "30", "2"],
            want_err: true,
            verify: None,
        },
        TestCase {
            name: "zero values",
            op_name: "GETATTR",
            stats: vec!["0", "0", "0", "0", "0", "0", "0", "0", "0"],
            want_err: false,
            verify: Some(|op: &NFSOperation| {
                assert_eq!(op.name, "GETATTR", "Name should be GETATTR");
                assert_eq!(op.ops, 0, "Ops should be 0");
                assert_eq!(op.ntrans, 0, "Ntrans should be 0");
                assert_eq!(op.timeouts, 0, "Timeouts should be 0");
                assert_eq!(op.bytes_sent, 0, "BytesSent should be 0");
                assert_eq!(op.bytes_recv, 0, "BytesRecv should be 0");
                assert_eq!(op.queue_time, 0, "QueueTime should be 0");
                assert_eq!(op.rtt, 0, "RTT should be 0");
                assert_eq!(op.execute_time, 0, "ExecuteTime should be 0");
                assert_eq!(op.errors, 0, "Errors should be 0");
            }),
        },
    ];

    for test in tests {
        let stats: Vec<String> = test.stats.into_iter().map(|s| s.to_string()).collect();
        let result = parse_nfs_operation(test.op_name, &stats);

        match (result, test.want_err) {
            (Ok(operation), false) => {
                if let Some(verify) = test.verify {
                    verify(&operation);
                }
            }
            (Err(_), true) => {
                // Expected error
            }
            (Ok(_), true) => {
                panic!("Test '{}': expected error but got success", test.name);
            }
            (Err(e), false) => {
                panic!("Test '{}': unexpected error: {}", test.name, e.message());
            }
        }
    }
}
