use tcpclient::commands::{connect_command, scan_command, send_command};
use tcpclient::message::{EncodingMode, Message};

#[test]
fn builds_scan_commands() {
    match scan_command("127.0.0.1", "127.0.0.10", "8888", "8889", "500") {
        Ok(Message::ScanIp(a, b, p, q, t)) => {
            assert_eq!((a.as_str(), b.as_str(), p, q, t), ("127.0.0.1", "127.0.0.10", 8888, 8889, 500));
        }
        other => panic!("unexpected {:?}", other),
    }
}

#[test]
fn refuses_bad_scan_settings() {
    let err = |r: Result<Message, String>| r.unwrap_err();
    assert_eq!(err(scan_command("1.2.3", "1.2.3.4", "1", "2", "5")), "invalid IP address format");
    assert_eq!(err(scan_command("1.2.3.4", "1.2.3.4", "1", "x", "5")), "invalid port format");
    assert_eq!(
        err(scan_command("10.0.0.0", "10.0.3.233", "1", "2", "5")),
        "invalid IP range or more than 1000 addresses"
    );
    assert_eq!(
        err(scan_command("1.2.3.4", "1.2.3.4", "1", "1002", "5")),
        "invalid port range or more than 1000 ports"
    );
    assert_eq!(err(scan_command("1.2.3.4", "1.2.3.4", "1", "2", "fast")), "invalid timeout format");
}

#[test]
fn builds_send_commands() {
    match send_command("48 65", EncodingMode::Hex) {
        Ok(Message::Send(t, m)) => {
            assert_eq!(t, "48 65");
            assert_eq!(m, EncodingMode::Hex);
        }
        other => panic!("unexpected {:?}", other),
    }
    assert_eq!(send_command("", EncodingMode::Hex).unwrap_err(), "nothing to send");
    assert_eq!(send_command("", EncodingMode::Utf8).unwrap_err(), "nothing to send");
    assert!(send_command("   ", EncodingMode::Hex).is_ok());
    assert!(send_command("xyz", EncodingMode::Utf8).is_ok());
    assert_eq!(
        send_command("486", EncodingMode::Hex).unwrap_err(),
        "cannot send: invalid hex format"
    );
}

#[test]
fn builds_connect_commands() {
    match connect_command("127.0.0.1", "8888") {
        Ok(Message::Connect(h, p)) => {
            assert_eq!(h, "127.0.0.1");
            assert_eq!(p, 8888);
        }
        other => panic!("unexpected {:?}", other),
    }
    assert!(connect_command("example.org", "+80").is_ok());
    assert_eq!(connect_command("h", "65536").unwrap_err(), "invalid port format");
    assert_eq!(connect_command("h", "").unwrap_err(), "invalid port format");
}
