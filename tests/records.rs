use tcpclient::events::{get_file_timestamp, get_timestamp, EventLog};
use tcpclient::records::{data_file_path, data_file_path_at, file_line, scan_log_csv};

fn is_clock(t: &str) -> bool {
    let b = t.as_bytes();
    b.len() == 8
        && b[2] == b':'
        && b[5] == b':'
        && [0, 1, 3, 4, 6, 7].iter().all(|&i| b[i].is_ascii_digit())
}

#[test]
fn formats_file_records() {
    assert_eq!(file_line("12:00:01", "sent (UTF-8): hi"), "[12:00:01] sent (UTF-8): hi");
    assert_eq!(
        data_file_path_at("127.0.0.1", 8888, "20240102_030405"),
        "data/127.0.0.1_8888_20240102_030405.txt"
    );
    let now = data_file_path("10.0.0.1", 80);
    assert!(now.starts_with("data/10.0.0.1_80_"));
    assert!(now.ends_with(".txt"));
    let stamp = &now["data/10.0.0.1_80_".len()..now.len() - 4];
    assert_eq!(stamp.len(), 15);
    assert_eq!(&stamp[8..9], "_");
    assert!(stamp[..8].bytes().chain(stamp[9..].bytes()).all(|b| b.is_ascii_digit()));
    let logs = vec![
        ("10:00:00".to_string(), "a".to_string()),
        ("10:00:01".to_string(), "b".to_string()),
    ];
    assert_eq!(scan_log_csv(&logs), "time,message\n10:00:00,a\n10:00:01,b\n");
    assert_eq!(scan_log_csv(&Vec::new()), "time,message\n");
}

#[test]
fn stamps_log_entries() {
    assert!(is_clock(&get_timestamp()));
    let stamp = get_file_timestamp();
    assert_eq!(stamp.len(), 15);
    assert_eq!(stamp.as_bytes()[8], b'_');
    let mut log = EventLog::new();
    assert_eq!(log.len(), 0);
    log.add_message("connected to x".to_string());
    log.add_message("disconnected".to_string());
    assert_eq!(log.len(), 2);
    assert_eq!(log.entries()[0].1, "connected to x");
    assert_eq!(log.entries()[1].1, "disconnected");
    assert!(is_clock(&log.entries()[1].0));
    log.clear();
    assert_eq!(log.len(), 0);
}
