//! What the receive loop does with each read: the text it reports and
//! whether it reads again. The loop itself, and the socket, belong to the
//! caller.
use vstd::prelude::*;
use vstd::string::*;
use vstd::utf8::{decode_utf8, valid_utf8};
use crate::codec::{bytes_to_hex, hex_dump};
use crate::message::EncodingMode;
use crate::text::texts;

verus! {

/// How a read failed.
#[derive(Clone, Copy, Debug, PartialEq, Eq, Structural)]
pub enum ReadErrorKind {
    ConnectionReset,
    ConnectionAborted,
    TimedOut,
    WouldBlock,
    Interrupted,
    BrokenPipe,
    Other,
}

/// What one read from the connection gave.
pub enum ReadOutcome {
    /// The bytes read; none means the peer closed the connection.
    Data(Vec<u8>),
    /// The read failed, with the kind of failure and its description.
    Failed(ReadErrorKind, String),
}

/// What the receive loop reports after one read, and whether it reads again.
pub struct ReceiveStep {
    pub messages: Vec<String>,
    pub keep_reading: bool,
}

/// How received bytes are reported: as text in UTF-8 mode when they are
/// valid UTF-8, else as a hex dump.
pub open spec fn received_text(b: Seq<u8>, mode: EncodingMode) -> Seq<char> {
    match mode {
        EncodingMode::Utf8 => if valid_utf8(b) {
            "received (UTF-8): "@ + decode_utf8(b)
        } else {
            "received (non-UTF-8): "@ + hex_dump(b)
        },
        EncodingMode::Hex => "received (HEX): "@ + hex_dump(b),
    }
}

/// How a failed read is reported.
pub open spec fn read_error_text(kind: ReadErrorKind, reason: Seq<char>) -> Seq<char> {
    match kind {
        ReadErrorKind::ConnectionReset => "connection reset by server"@,
        ReadErrorKind::ConnectionAborted => "connection aborted"@,
        ReadErrorKind::TimedOut => "connection timed out"@,
        ReadErrorKind::WouldBlock => "operation would block"@,
        ReadErrorKind::Interrupted => "operation interrupted"@,
        _ => "read error: "@ + reason,
    }
}

/// The failures after which the connection is reported as interrupted.
pub open spec fn is_interruption(kind: ReadErrorKind) -> bool {
    kind == ReadErrorKind::ConnectionReset || kind == ReadErrorKind::ConnectionAborted || kind
        == ReadErrorKind::BrokenPipe
}

/// What the receive loop reports after one read.
pub open spec fn step_texts(outcome: ReadOutcome, mode: EncodingMode) -> Seq<Seq<char>> {
    match outcome {
        ReadOutcome::Data(b) => if b@.len() == 0 {
            seq!["server closed connection"@, "receive channel closed"@]
        } else {
            seq![received_text(b@, mode)]
        },
        ReadOutcome::Failed(kind, reason) => seq![read_error_text(kind, reason@)] + (if is_interruption(
            kind,
        ) {
            seq!["connection interrupted"@]
        } else {
            Seq::empty()
        }) + seq!["receive channel closed"@],
    }
}

/// Whether the receive loop reads again: only after bytes were read.
pub open spec fn keeps_reading(outcome: ReadOutcome) -> bool {
    match outcome {
        ReadOutcome::Data(b) => b@.len() > 0,
        ReadOutcome::Failed(_, _) => false,
    }
}

/// Relies on `std::str::from_utf8`: it succeeds exactly on valid UTF-8, with
/// the characters that the bytes encode.
#[verifier::external_body]
fn utf8_text(bytes: &[u8]) -> (r: Option<String>)
    ensures
        match r {
            Some(t) => valid_utf8(bytes@) && t@ == decode_utf8(bytes@),
            None => !valid_utf8(bytes@),
        },
{
    match std::str::from_utf8(bytes) {
        Ok(s) => Some(s.to_string()),
        Err(_) => None,
    }
}

/// `prefix` followed by `rest`.
fn joined(prefix: &str, rest: &str) -> (r: String)
    ensures
        r@ == prefix@ + rest@,
{
    let mut r = String::from_str(prefix);
    r.append(rest);
    r
}

/// How received bytes are reported, in the mode in force when they arrived.
pub fn describe_received(bytes: &[u8], mode: EncodingMode) -> (r: String)
    ensures
        r@ == received_text(bytes@, mode),
{
    match mode {
        EncodingMode::Utf8 => match utf8_text(bytes) {
            Some(t) => joined("received (UTF-8): ", t.as_str()),
            None => joined("received (non-UTF-8): ", bytes_to_hex(bytes).as_str()),
        },
        EncodingMode::Hex => joined("received (HEX): ", bytes_to_hex(bytes).as_str()),
    }
}

/// How a failed read is reported.
pub fn describe_read_error(kind: ReadErrorKind, reason: &str) -> (r: String)
    ensures
        r@ == read_error_text(kind, reason@),
{
    match kind {
        ReadErrorKind::ConnectionReset => String::from_str("connection reset by server"),
        ReadErrorKind::ConnectionAborted => String::from_str("connection aborted"),
        ReadErrorKind::TimedOut => String::from_str("connection timed out"),
        ReadErrorKind::WouldBlock => String::from_str("operation would block"),
        ReadErrorKind::Interrupted => String::from_str("operation interrupted"),
        _ => joined("read error: ", reason),
    }
}

/// What the receive loop reports when it starts.
pub fn reception_opened() -> (r: String)
    ensures
        r@ == "receive channel opened"@,
{
    String::from_str("receive channel opened")
}

/// One turn of the receive loop: what to report for this read, in the mode
/// in force now, and whether to read again. Bytes are reported and reading
/// goes on. An empty read means that the peer closed the connection. Any
/// failure ends the loop, and a reset, an abort or a broken pipe is also
/// reported as an interruption. Whenever the loop ends, that is reported
/// last.
pub fn reception_step(outcome: ReadOutcome, mode: EncodingMode) -> (r: ReceiveStep)
    ensures
        texts(r.messages@) == step_texts(outcome, mode),
        r.keep_reading == keeps_reading(outcome),
{
    let mut messages: Vec<String> = Vec::new();
    let keep_reading;
    match outcome {
        ReadOutcome::Data(b) => {
            if b.len() == 0 {
                messages.push(String::from_str("server closed connection"));
                messages.push(String::from_str("receive channel closed"));
                keep_reading = false;
            } else {
                messages.push(describe_received(b.as_slice(), mode));
                keep_reading = true;
            }
        },
        ReadOutcome::Failed(kind, reason) => {
            messages.push(describe_read_error(kind, reason.as_str()));
            if kind == ReadErrorKind::ConnectionReset || kind == ReadErrorKind::ConnectionAborted
                || kind == ReadErrorKind::BrokenPipe {
                messages.push(String::from_str("connection interrupted"));
            }
            messages.push(String::from_str("receive channel closed"));
            keep_reading = false;
        },
    }
    assert(texts(messages@) =~= step_texts(outcome, mode));
    ReceiveStep { messages, keep_reading }
}

} // verus!
