use tcpclient::message::EncodingMode;
use tcpclient::receiver::{
    describe_read_error, describe_received, reception_opened, reception_step, ReadErrorKind,
    ReadOutcome,
};

#[test]
fn reports_text_in_utf8_mode() {
    let step = reception_step(ReadOutcome::Data(b"hi".to_vec()), EncodingMode::Utf8);
    assert_eq!(step.messages, vec!["received (UTF-8): hi".to_string()]);
    assert!(step.keep_reading);
    let step = reception_step(ReadOutcome::Data("你好".as_bytes().to_vec()), EncodingMode::Utf8);
    assert_eq!(step.messages, vec!["received (UTF-8): 你好".to_string()]);
}

#[test]
fn falls_back_to_hex_for_invalid_utf8() {
    let step = reception_step(ReadOutcome::Data(vec![0xFF, 0xFE]), EncodingMode::Utf8);
    assert_eq!(step.messages, vec!["received (non-UTF-8): FF FE".to_string()]);
    assert!(step.keep_reading);
}

#[test]
fn reports_hex_in_hex_mode() {
    let step = reception_step(ReadOutcome::Data(b"hi".to_vec()), EncodingMode::Hex);
    assert_eq!(step.messages, vec!["received (HEX): 68 69".to_string()]);
    assert!(step.keep_reading);
    assert_eq!(describe_received(&[0x0A], EncodingMode::Hex), "received (HEX): 0A");
}

#[test]
fn empty_read_means_closed() {
    let step = reception_step(ReadOutcome::Data(Vec::new()), EncodingMode::Utf8);
    assert_eq!(
        step.messages,
        vec!["server closed connection".to_string(), "receive channel closed".to_string()]
    );
    assert!(!step.keep_reading);
}

#[test]
fn fatal_errors_report_interruption() {
    for kind in [
        ReadErrorKind::ConnectionReset,
        ReadErrorKind::ConnectionAborted,
        ReadErrorKind::BrokenPipe,
    ] {
        let step = reception_step(ReadOutcome::Failed(kind, "x".to_string()), EncodingMode::Hex);
        assert_eq!(step.messages.len(), 3);
        assert_eq!(step.messages[1], "connection interrupted");
        assert_eq!(step.messages[2], "receive channel closed");
        assert!(!step.keep_reading);
    }
    let step = reception_step(
        ReadOutcome::Failed(ReadErrorKind::ConnectionReset, "x".to_string()),
        EncodingMode::Utf8,
    );
    assert_eq!(step.messages[0], "connection reset by server");
    let step = reception_step(
        ReadOutcome::Failed(ReadErrorKind::BrokenPipe, "pipe".to_string()),
        EncodingMode::Utf8,
    );
    assert_eq!(step.messages[0], "read error: pipe");
}

#[test]
fn transient_errors_still_end_the_loop() {
    let cases = [
        (ReadErrorKind::TimedOut, "connection timed out"),
        (ReadErrorKind::WouldBlock, "operation would block"),
        (ReadErrorKind::Interrupted, "operation interrupted"),
        (ReadErrorKind::Other, "read error: boom"),
    ];
    for (kind, text) in cases {
        let step = reception_step(ReadOutcome::Failed(kind, "boom".to_string()), EncodingMode::Utf8);
        assert_eq!(step.messages, vec![text.to_string(), "receive channel closed".to_string()]);
        assert!(!step.keep_reading);
    }
    assert_eq!(describe_read_error(ReadErrorKind::ConnectionAborted, "x"), "connection aborted");
    assert_eq!(reception_opened(), "receive channel opened");
}
