use tcpclient::address::ip_to_u32;
use tcpclient::message::ScanRequest;
use tcpclient::scanner::{plan_batches, plan_port_chunks, split_range, ScanSession};

fn request(start: &str, end: &str, start_port: u16, end_port: u16) -> ScanRequest {
    ScanRequest {
        start_ip: start.to_string(),
        end_ip: end.to_string(),
        start_port,
        end_port,
        timeout_ms: 500,
    }
}

fn log_messages(s: &ScanSession) -> Vec<String> {
    s.log().entries().iter().map(|e| e.1.clone()).collect()
}

#[test]
fn splits_ranges() {
    assert_eq!(split_range(0, 9, 4), vec![(0, 3), (4, 7), (8, 9)]);
    assert_eq!(split_range(5, 5, 3), vec![(5, 5)]);
    assert_eq!(split_range(0, u32::MAX, 1u64 << 32), vec![(0, u32::MAX)]);
    assert_eq!(plan_batches(1, 10, 4), vec![(1, 2), (3, 4), (5, 6), (7, 8), (9, 10)]);
    assert_eq!(plan_batches(1, 3, 8), vec![(1, 1), (2, 2), (3, 3)]);
    assert_eq!(plan_batches(0, 9, 1), vec![(0, 9)]);
    assert_eq!(plan_port_chunks(1, 120), vec![(1, 50), (51, 100), (101, 120)]);
    assert_eq!(plan_port_chunks(65535, 65535), vec![(65535, 65535)]);
}

#[test]
fn one_address_with_a_listener_reports_one_open_port() {
    let mut s = ScanSession::new();
    let plan = s.begin(&request("127.0.0.1", "127.0.0.1", 8888, 8888)).unwrap();
    assert_eq!(plan.batches, vec![(0x7f00_0001, 0x7f00_0001)]);
    assert_eq!(plan.chunks, vec![(8888, 8888)]);
    assert_eq!(plan.timeout_ms, 500);
    assert!(s.is_running());
    assert!(s.next_address());
    assert!(s.next_chunk());
    s.record_probe(plan.start, 8888, true);
    assert!(!s.next_address());
    s.finish();
    assert_eq!(s.results(), &vec!["127.0.0.1 - port 8888 open".to_string()]);
    assert_eq!(s.open_count(), 1);
    assert!(!s.is_running());
    assert_eq!(
        log_messages(&s),
        vec![
            "scanning 127.0.0.1 to 127.0.0.1, port 8888".to_string(),
            "total: 1 addresses, 1 ports, 1 probes".to_string(),
            "progress: 1/1 (100%)".to_string(),
            "open port found: 127.0.0.1:8888".to_string(),
            "scan finished: scanned 1 IPs, found 1 open".to_string(),
        ]
    );
}

#[test]
fn one_address_without_a_listener_reports_nothing_open() {
    let mut s = ScanSession::new();
    let plan = s.begin(&request("127.0.0.1", "127.0.0.1", 8888, 8888)).unwrap();
    assert!(s.next_address());
    assert!(s.next_chunk());
    s.record_probe(plan.start, 8888, false);
    s.finish();
    assert!(s.results().is_empty());
    assert_eq!(s.open_count(), 0);
    let logs = log_messages(&s);
    assert_eq!(logs[3], "127.0.0.1:8888 closed");
    assert_eq!(logs[4], "scan finished: scanned 1 IPs, found 0 open");
}

#[test]
fn too_wide_address_range_is_rejected() {
    let mut s = ScanSession::new();
    let start = ip_to_u32("10.0.0.0").unwrap();
    let end = ip_to_u32("10.0.3.233").unwrap();
    assert_eq!(end - start, 1001);
    assert!(s.begin(&request("10.0.0.0", "10.0.3.233", 80, 80)).is_none());
    assert_eq!(log_messages(&s), vec!["invalid IP range or more than 1000 addresses".to_string()]);
    assert!(s.results().is_empty());
    assert!(!s.is_running());
    assert!(!s.next_address());
}

#[test]
fn other_bad_requests_are_rejected() {
    let mut s = ScanSession::new();
    assert!(s.begin(&request("10.0.0.300", "10.0.0.1", 80, 80)).is_none());
    assert_eq!(log_messages(&s), vec!["invalid IP address format, cannot start scan".to_string()]);
    assert!(s.begin(&request("10.0.0.5", "10.0.0.1", 80, 80)).is_none());
    assert_eq!(log_messages(&s), vec!["invalid IP range or more than 1000 addresses".to_string()]);
    assert!(s.begin(&request("10.0.0.1", "10.0.0.1", 1, 1002)).is_none());
    assert_eq!(log_messages(&s), vec!["invalid port range or more than 1000 ports".to_string()]);
    assert!(s.begin(&request("10.0.0.1", "10.0.0.1", 1, 1001)).is_some());
}

#[test]
fn new_scan_clears_the_previous_one() {
    let mut s = ScanSession::new();
    let plan = s.begin(&request("127.0.0.1", "127.0.0.1", 1, 2)).unwrap();
    assert!(s.next_address());
    s.record_probe(plan.start, 1, true);
    s.finish();
    assert_eq!(s.results().len(), 1);
    s.begin(&request("127.0.0.1", "127.0.0.2", 1, 2)).unwrap();
    assert!(s.results().is_empty());
    assert_eq!(s.scanned_count(), 0);
    assert_eq!(s.open_count(), 0);
    assert_eq!(
        log_messages(&s),
        vec![
            "scanning 127.0.0.1 to 127.0.0.2, ports 1 to 2".to_string(),
            "total: 2 addresses, 2 ports, 4 probes".to_string(),
        ]
    );
}

#[test]
fn cancellation_ends_the_scan() {
    let mut s = ScanSession::new();
    let plan = s.begin(&request("192.168.0.1", "192.168.0.20", 1, 120)).unwrap();
    assert_eq!(plan.chunks.len(), 3);
    assert!(s.next_address());
    assert!(s.next_chunk());
    s.record_probe(plan.start, 1, true);
    s.cancel();
    assert!(s.is_cancelled());
    s.record_probe(plan.start, 2, false);
    assert!(!s.next_chunk());
    assert!(!s.next_address());
    s.finish();
    assert!(!s.is_running());
    let logs = log_messages(&s);
    let n = logs.len();
    assert_eq!(logs[n - 2], "scan cancelled");
    assert_eq!(logs[n - 1], "scan finished: scanned 1 IPs, found 1 open");
}

#[test]
fn user_stop_counts_as_cancelled() {
    let mut s = ScanSession::new();
    s.begin(&request("192.168.0.1", "192.168.0.3", 80, 80)).unwrap();
    assert!(s.next_address());
    s.stop();
    assert!(!s.is_running());
    assert!(!s.next_address());
    assert!(s.is_cancelled());
    s.finish();
    let logs = log_messages(&s);
    let n = logs.len();
    assert_eq!(logs[n - 3], "scan stopped by user");
    assert_eq!(logs[n - 2], "scan cancelled");
}

#[test]
fn progress_is_reported_every_five_addresses_and_at_the_end() {
    let mut s = ScanSession::new();
    s.begin(&request("10.0.0.1", "10.0.0.7", 80, 80)).unwrap();
    for _ in 0..7 {
        assert!(s.next_address());
    }
    assert!(!s.next_address());
    assert!(!s.is_cancelled());
    let logs = log_messages(&s);
    assert_eq!(
        &logs[2..],
        &["progress: 5/7 (71%)".to_string(), "progress: 7/7 (100%)".to_string()]
    );
    assert_eq!(s.scanned_count(), 7);
}

#[test]
fn notes_go_to_the_scan_log() {
    let mut s = ScanSession::new();
    s.log_message("invalid port format".to_string());
    assert_eq!(log_messages(&s), vec!["invalid port format".to_string()]);
    assert!(!s.is_running());
    assert!(s.results().is_empty());
}
