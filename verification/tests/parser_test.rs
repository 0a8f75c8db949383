use nfs_gaze::numeric::IntParseError;
use nfs_gaze::numeric::parse_i64;
use nfs_gaze::parser::parse_events;
use nfs_gaze::parser::parse_mountstats_lines;
use nfs_gaze::parser::parse_nfs_operation;
use nfs_gaze::types::NfsGazeError;

fn to_lines(data: &str) -> Vec<String> {
    data.lines().map(|s| s.to_string()).collect()
}

#[test]
fn test_parse_events_valid() {
    let parts: Vec<String> = (1..=27).map(|i| i.to_string()).collect();
    let events = parse_events(&parts).expect("Should parse valid events");

    assert_eq!(events.inode_revalidate, 1);
    assert_eq!(events.dentry_revalidate, 2);
    assert_eq!(events.pnfs_write, 27);
}

#[test]
fn test_parse_events_insufficient_parts() {
    let parts: Vec<String> = vec!["1".to_string(), "2".to_string(), "3".to_string()];
    let result = parse_events(&parts);
    assert!(result.is_err());
}

#[test]
fn test_parse_events_invalid_number() {
    let mut parts: Vec<String> = (1..=27).map(|i| i.to_string()).collect();
    parts[0] = "invalid".to_string();
    let result = parse_events(&parts);
    assert!(result.is_err());
}

#[test]
fn test_parse_nfs_operation_valid() {
    let stats = vec![
        "100".to_string(),
        "95".to_string(),
        "5".to_string(),
        "1024".to_string(),
        "2048".to_string(),
        "10".to_string(),
        "20".to_string(),
        "30".to_string(),
        "2".to_string(),
    ];

    let op = parse_nfs_operation("READ", &stats).expect("Should parse valid operation");

    assert_eq!(op.name, "READ");
    assert_eq!(op.ops, 100);
    assert_eq!(op.ntrans, 95);
    assert_eq!(op.timeouts, 5);
    assert_eq!(op.bytes_sent, 1024);
    assert_eq!(op.bytes_recv, 2048);
    assert_eq!(op.queue_time, 10);
    assert_eq!(op.rtt, 20);
    assert_eq!(op.execute_time, 30);
    assert_eq!(op.errors, 2);
}

#[test]
fn test_parse_nfs_operation_insufficient_stats() {
    let stats = vec!["100".to_string(), "95".to_string()];
    let result = parse_nfs_operation("READ", &stats);
    assert!(result.is_err());
}

#[test]
fn test_parse_nfs_operation_invalid_number() {
    let stats = vec![
        "invalid".to_string(),
        "95".to_string(),
        "5".to_string(),
        "1024".to_string(),
        "2048".to_string(),
        "10".to_string(),
        "20".to_string(),
        "30".to_string(),
        "2".to_string(),
    ];

    let result = parse_nfs_operation("READ", &stats);
    assert!(result.is_err());
}

#[test]
fn test_parse_mountstats_reader() {
    let mountstats_data = r#"device server:/export mounted on /mnt/nfs with fstype nfs statvers=1.1
age: 12345
events: 1 2 3 4 5 6 7 8 9 10 11 12 13 14 15 16 17 18 19 20 21 22 23 24 25 26 27
bytes: 1048576 0 0 0 0 2097152 0 0
READ: 100 95 5 1024 2048 10 20 30 2
WRITE: 50 50 0 512 0 5 15 25 1
"#;

    let lines = to_lines(mountstats_data);
    let mounts = parse_mountstats_lines(&lines).expect("Should parse mountstats");

    assert_eq!(mounts.len(), 1);
    let mount = mounts.get("/mnt/nfs").unwrap();
    assert_eq!(mount.device, "server:/export");
    assert_eq!(mount.mount_point, "/mnt/nfs");
    assert_eq!(mount.server, "server");
    assert_eq!(mount.export, "/export");
    assert_eq!(mount.age, 12345);
    assert_eq!(mount.bytes_read, 1048576);
    assert_eq!(mount.bytes_write, 2097152);
    assert_eq!(mount.operations.len(), 2);

    let read_op = mount.operations.get("READ").unwrap();
    assert_eq!(read_op.ops, 100);
    assert_eq!(read_op.bytes_sent, 1024);
    assert_eq!(read_op.bytes_recv, 2048);
}

#[test]
fn test_parse_mountstats_multiple_mounts() {
    let mountstats_data = r#"device server1:/export1 mounted on /mnt/nfs1 with fstype nfs statvers=1.1
age: 1000
READ: 10 10 0 100 200 1 2 3 0

device server2:/export2 mounted on /mnt/nfs2 with fstype nfs statvers=1.1
age: 2000
WRITE: 20 20 0 300 400 2 3 4 0
"#;

    let lines = to_lines(mountstats_data);
    let mounts = parse_mountstats_lines(&lines).expect("Should parse mountstats");

    assert_eq!(mounts.len(), 2);
    assert!(mounts.contains_key("/mnt/nfs1"));
    assert!(mounts.contains_key("/mnt/nfs2"));

    let mount1 = mounts.get("/mnt/nfs1").unwrap();
    assert_eq!(mount1.age, 1000);
    assert!(mount1.operations.contains_key("READ"));

    let mount2 = mounts.get("/mnt/nfs2").unwrap();
    assert_eq!(mount2.age, 2000);
    assert!(mount2.operations.contains_key("WRITE"));
}

#[test]
fn test_parse_twice_structurally_equal() {
    let mountstats_data = r#"device server:/export mounted on /mnt/nfs with fstype nfs statvers=1.1
age: 12345
events: 1 2 3 4 5 6 7 8 9 10 11 12 13 14 15 16 17 18 19 20 21 22 23 24 25
bytes: 1048576 0 0 0 0 2097152 0 0
READ: 100 95 5 1024 2048 10 20 30 2
"#;

    let lines = to_lines(mountstats_data);
    let first = parse_mountstats_lines(&lines).expect("first parse");
    let second = parse_mountstats_lines(&lines).expect("second parse");
    assert_eq!(first, second);
}

#[test]
fn test_parse_events_line_25_tokens_defaults_pnfs() {
    let parts: Vec<String> = (1..=25).map(|i| i.to_string()).collect();
    let events = parse_events(&parts).expect("25 tokens should parse");
    assert_eq!(events.inode_revalidate, 1);
    assert_eq!(events.delay, 25);
    assert_eq!(events.pnfs_read, 0);
    assert_eq!(events.pnfs_write, 0);
}

#[test]
fn test_parse_bytes_write_fallback_sixth_token() {
    let mountstats_data = r#"device server:/export mounted on /mnt/nfs with fstype nfs statvers=1.1
bytes: 5 0 0 0 9
"#;
    // Only six tokens on the bytes line: the sixth is the bytes written.
    let lines = to_lines(mountstats_data);
    let mounts = parse_mountstats_lines(&lines).expect("six-token bytes line should parse");
    let mount = mounts.get("/mnt/nfs").unwrap();
    assert_eq!(mount.bytes_read, 5);
    assert_eq!(mount.bytes_write, 9);
}

#[test]
fn test_parse_bytes_write_fallback_seventh_zero() {
    let mountstats_data = r#"device server:/export mounted on /mnt/nfs with fstype nfs statvers=1.1
bytes: 5 0 0 0 9 0
"#;
    // A seventh token that is the literal zero falls back to the sixth.
    let lines = to_lines(mountstats_data);
    let mounts = parse_mountstats_lines(&lines).expect("seven-token bytes line should parse");
    let mount = mounts.get("/mnt/nfs").unwrap();
    assert_eq!(mount.bytes_read, 5);
    assert_eq!(mount.bytes_write, 9);
}

#[test]
fn test_parse_device_line_without_colon_defaults_export() {
    let mountstats_data = r#"device somehost mounted on /mnt/nfs with fstype nfs statvers=1.1
age: 7
"#;
    let lines = to_lines(mountstats_data);
    let mounts = parse_mountstats_lines(&lines).expect("device without colon should parse");
    let mount = mounts.get("/mnt/nfs").unwrap();
    assert_eq!(mount.server, "somehost");
    assert_eq!(mount.export, "/");
}

#[test]
fn test_parse_zeroed_mount_from_header_only() {
    let lines = to_lines("device server:/export mounted on /mnt/nfs with fstype nfs statvers=1.1");
    let mounts = parse_mountstats_lines(&lines).expect("header alone should parse");
    let mount = mounts.get("/mnt/nfs").unwrap();
    assert_eq!(mount.age, 0);
    assert_eq!(mount.operations.len(), 0);
    assert!(mount.events.is_none());
    assert_eq!(mount.bytes_read, 0);
    assert_eq!(mount.bytes_write, 0);
}

#[test]
fn test_parse_malformed_age_line_fails() {
    let mountstats_data = r#"device server:/export mounted on /mnt/nfs with fstype nfs statvers=1.1
age: oops
"#;
    let lines = to_lines(mountstats_data);
    let result = parse_mountstats_lines(&lines);
    assert!(matches!(result, Err(NfsGazeError::FieldParseError { .. })));
}

#[test]
fn test_parse_short_bytes_line_fails() {
    let mountstats_data = r#"device server:/export mounted on /mnt/nfs with fstype nfs statvers=1.1
bytes: 1 2 3
"#;
    let lines = to_lines(mountstats_data);
    let result = parse_mountstats_lines(&lines);
    assert!(matches!(result, Err(NfsGazeError::ParseError(_))));
}

#[test]
fn test_parse_short_events_line_fails() {
    let mountstats_data = r#"device server:/export mounted on /mnt/nfs with fstype nfs statvers=1.1
events: 1 2 3
"#;
    let lines = to_lines(mountstats_data);
    let result = parse_mountstats_lines(&lines);
    assert!(matches!(result, Err(NfsGazeError::InvalidEventsParts(3))));
}

#[test]
fn test_parse_ignores_reserved_and_unknown_lines() {
    let mountstats_data = r#"no mounts yet, this line is ignored
device server:/export mounted on /mnt/nfs with fstype nfs statvers=1.1
opts: rw,vers=4.2
caps: caps=0xffff
RPC iostats version: 1.1
xprt: tcp 0 0 0
per-op statistics
READ: 1 1 0 0 0 0 0 0 0
"#;
    let lines = to_lines(mountstats_data);
    let mounts = parse_mountstats_lines(&lines).expect("reserved lines are ignored");
    let mount = mounts.get("/mnt/nfs").unwrap();
    assert_eq!(mount.operations.len(), 1);
    assert!(mount.operations.contains_key("READ"));
}

#[test]
fn test_parse_i64_accepts_signs_and_leading_zeros() {
    assert_eq!(parse_i64("0"), Ok(0));
    assert_eq!(parse_i64("000123"), Ok(123));
    assert_eq!(parse_i64("+7"), Ok(7));
    assert_eq!(parse_i64("-0"), Ok(0));
    assert_eq!(parse_i64("9223372036854775807"), Ok(i64::MAX));
    assert_eq!(parse_i64("-9223372036854775808"), Ok(i64::MIN));
}

#[test]
fn test_parse_i64_rejects_bad_tokens() {
    assert_eq!(parse_i64(""), Err(IntParseError::Empty));
    assert_eq!(parse_i64("+"), Err(IntParseError::InvalidDigit));
    assert_eq!(parse_i64("12x"), Err(IntParseError::InvalidDigit));
    assert_eq!(parse_i64("9223372036854775808"), Err(IntParseError::PosOverflow));
    assert_eq!(parse_i64("-9223372036854775809"), Err(IntParseError::NegOverflow));
    assert_eq!(
        parse_i64("99999999999999999999999999"),
        Err(IntParseError::PosOverflow)
    );
}
