use nfs_gaze::cli::OpFilter;
use nfs_gaze::maps::AssocMap;
use nfs_gaze::monitor::Monitor;
use nfs_gaze::types::MountMap;
use nfs_gaze::types::NFSMount;

fn create_test_mount(mount_point: &str, device: &str) -> NFSMount {
    NFSMount {
        device: device.to_string(),
        mount_point: mount_point.to_string(),
        server: "test-server".to_string(),
        export: "/test".to_string(),
        age: 0,
        operations: AssocMap::new(),
        events: None,
        bytes_read: 0,
        bytes_write: 0,
    }
}

#[test]
fn test_get_mounts_to_monitor_specific() {
    let mut available_mounts: MountMap = AssocMap::new();
    available_mounts.insert(
        "/mnt/nfs1".to_string(),
        create_test_mount("/mnt/nfs1", "server1:/export1"),
    );
    available_mounts.insert(
        "/mnt/nfs2".to_string(),
        create_test_mount("/mnt/nfs2", "server2:/export2"),
    );

    let result =
        Monitor::get_mounts_to_monitor(Some("/mnt/nfs1".to_string()), &available_mounts).unwrap();

    assert_eq!(result.len(), 1);
    assert_eq!(result[0].mount_point, "/mnt/nfs1");
}

#[test]
fn test_get_mounts_to_monitor_all() {
    let mut available_mounts: MountMap = AssocMap::new();
    available_mounts.insert(
        "/mnt/nfs1".to_string(),
        create_test_mount("/mnt/nfs1", "server1:/export1"),
    );
    available_mounts.insert(
        "/mnt/nfs2".to_string(),
        create_test_mount("/mnt/nfs2", "server2:/export2"),
    );

    let result = Monitor::get_mounts_to_monitor(None, &available_mounts).unwrap();

    assert_eq!(result.len(), 2);
}

#[test]
fn test_get_mounts_to_monitor_not_found() {
    let available_mounts: MountMap = AssocMap::new();

    let result =
        Monitor::get_mounts_to_monitor(Some("/mnt/nonexistent".to_string()), &available_mounts);

    assert!(result.is_err());
}

#[test]
fn test_print_initial_summary() {
    let mounts = vec![
        create_test_mount("/mnt/nfs1", "server1:/export1"),
        create_test_mount("/mnt/nfs2", "server2:/export2"),
    ];
    let operations_filter = OpFilter::new();

    let output = Monitor::print_initial_summary(&None, &mounts, &operations_filter);

    assert!(output.contains("NFS I/O Statistics Monitor"));
    assert!(output.contains("Monitoring 2 NFS mount(s)"));
    assert!(output.contains("server1:/export1"));
    assert!(output.contains("server2:/export2"));
}

#[test]
fn test_print_initial_summary_with_filter() {
    let mounts = vec![create_test_mount("/mnt/nfs", "server:/export")];
    let mut operations_filter = OpFilter::new();
    operations_filter.insert("READ".to_string());
    operations_filter.insert("WRITE".to_string());

    let output = Monitor::print_initial_summary(
        &Some("/mnt/nfs".to_string()),
        &mounts,
        &operations_filter,
    );

    assert!(output.contains("Monitoring mount point: /mnt/nfs"));
    assert!(output.contains("Filtering operations"));
}

#[test]
fn test_monitor_starts_running() {
    let monitor = Monitor::new();
    assert!(monitor.running);
}
