use tcpclient::connection::{ConnectionManager, ConnectionSlot, Effect};
use tcpclient::message::{EncodingMode, Message};

fn connected_manager() -> ConnectionManager<u32> {
    let mut m: ConnectionManager<u32> = ConnectionManager::new();
    let out = m.handle_command(Message::Connect("127.0.0.1".to_string(), 8888));
    assert!(out.events.is_empty());
    match out.effect {
        Effect::Open(addr) => assert_eq!(addr, "127.0.0.1:8888"),
        _ => panic!("expected a connection request"),
    }
    assert_eq!(m.connection_opened("127.0.0.1:8888", 7), "connected to 127.0.0.1:8888");
    assert!(m.connected());
    m
}

fn take_write(effect: Effect<u32>) -> (u32, Vec<u8>, String, u64) {
    match effect {
        Effect::Write(h, bytes, report, generation) => (h, bytes, report, generation),
        _ => panic!("expected a write"),
    }
}

#[test]
fn disconnect_without_connection_reports_once() {
    let mut m: ConnectionManager<u32> = ConnectionManager::new();
    let out = m.handle_command(Message::Disconnect);
    assert_eq!(out.events, vec!["disconnected".to_string()]);
    assert!(matches!(out.effect, Effect::Idle));
    assert!(!m.connected());
}

#[test]
fn disconnect_drops_the_connection() {
    let mut m = connected_manager();
    let out = m.handle_command(Message::Disconnect);
    assert_eq!(out.events, vec!["disconnected".to_string()]);
    assert!(!m.connected());
    let out = m.handle_command(Message::Send("hi".to_string(), EncodingMode::Utf8));
    assert_eq!(out.events, vec!["cannot send: not connected".to_string()]);
}

#[test]
fn send_without_connection_is_refused() {
    let mut m: ConnectionManager<u32> = ConnectionManager::new();
    let out = m.handle_command(Message::Send("hi".to_string(), EncodingMode::Utf8));
    assert_eq!(out.events, vec!["cannot send: not connected".to_string()]);
    assert!(matches!(out.effect, Effect::Idle));
}

#[test]
fn send_takes_the_handle_and_encodes() {
    let mut m = connected_manager();
    let out = m.handle_command(Message::Send("hi".to_string(), EncodingMode::Utf8));
    assert!(out.events.is_empty());
    let (h, bytes, report, _) = take_write(out.effect);
    assert_eq!(h, 7);
    assert_eq!(bytes, b"hi".to_vec());
    assert_eq!(report, "sent (UTF-8): hi");
}

#[test]
fn hex_send_decodes_leniently() {
    let mut m = connected_manager();
    let out = m.handle_command(Message::Send("48 65 6".to_string(), EncodingMode::Hex));
    let (_, bytes, report, _) = take_write(out.effect);
    assert_eq!(bytes, vec![0x48, 0x65]);
    assert_eq!(report, "sent (HEX): 48 65 6");
}

#[test]
fn send_while_handle_is_out_reports_busy() {
    let mut m = connected_manager();
    let first = m.handle_command(Message::Send("a".to_string(), EncodingMode::Utf8));
    let (h, _, _, generation) = take_write(first.effect);
    let second = m.handle_command(Message::Send("b".to_string(), EncodingMode::Utf8));
    assert_eq!(second.events, vec!["connection busy, retry later".to_string()]);
    assert!(matches!(second.effect, Effect::Idle));
    m.send_completed(generation, h);
    let third = m.handle_command(Message::Send("c".to_string(), EncodingMode::Utf8));
    assert!(third.events.is_empty());
    let (h3, _, _, _) = take_write(third.effect);
    assert_eq!(h3, 7);
}

#[test]
fn failed_send_leaves_the_slot_empty() {
    let mut m = connected_manager();
    let out = m.handle_command(Message::Send("a".to_string(), EncodingMode::Utf8));
    let _ = take_write(out.effect);
    assert_eq!(m.send_failed("broken pipe"), "send failed: broken pipe");
    assert!(m.connected());
    let again = m.handle_command(Message::Send("b".to_string(), EncodingMode::Utf8));
    assert_eq!(again.events, vec!["connection busy, retry later".to_string()]);
}

#[test]
fn stale_handle_is_not_returned() {
    let mut m = connected_manager();
    let out = m.handle_command(Message::Send("a".to_string(), EncodingMode::Utf8));
    let (h, _, _, generation) = take_write(out.effect);
    let _ = m.handle_command(Message::Connect("127.0.0.1".to_string(), 9999));
    assert_eq!(m.connection_opened("127.0.0.1:9999", 8), "connected to 127.0.0.1:9999");
    m.send_completed(generation, h);
    let next = m.handle_command(Message::Send("b".to_string(), EncodingMode::Utf8));
    let (h2, _, _, _) = take_write(next.effect);
    assert_eq!(h2, 8);
}

#[test]
fn failed_connect_stays_disconnected() {
    let mut m = connected_manager();
    let _ = m.handle_command(Message::Connect("10.0.0.1".to_string(), 1));
    assert!(!m.connected());
    assert_eq!(m.connection_failed("refused"), "connection failed: refused");
    let out = m.handle_command(Message::Send("b".to_string(), EncodingMode::Utf8));
    assert_eq!(out.events, vec!["cannot send: not connected".to_string()]);
}

#[test]
fn scan_command_asks_for_a_scan() {
    let mut m: ConnectionManager<u32> = ConnectionManager::new();
    let out = m.handle_command(Message::ScanIp(
        "127.0.0.1".to_string(),
        "127.0.0.2".to_string(),
        80,
        81,
        500,
    ));
    assert!(out.events.is_empty());
    match out.effect {
        Effect::Scan(req) => {
            assert_eq!(req.start_ip, "127.0.0.1");
            assert_eq!(req.end_ip, "127.0.0.2");
            assert_eq!((req.start_port, req.end_port, req.timeout_ms), (80, 81, 500));
        }
        _ => panic!("expected a scan"),
    }
}

#[test]
fn slot_holds_one_handle() {
    let mut slot: ConnectionSlot<u8> = ConnectionSlot::new();
    assert!(slot.is_empty());
    assert_eq!(slot.take(), None);
    slot.put(1);
    assert!(!slot.is_empty());
    slot.put(2);
    assert_eq!(slot.take(), Some(2));
    assert_eq!(slot.take(), None);
    slot.put(3);
    slot.clear();
    assert!(slot.is_empty());
}
