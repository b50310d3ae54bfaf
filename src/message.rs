//! The commands that a front end submits to the connection manager, and the
//! small enums that both sides share.
use vstd::prelude::*;

verus! {

/// How payload text becomes bytes when sent, and how received bytes are
/// shown.
#[derive(Clone, Copy, Debug, PartialEq, Eq, Structural)]
pub enum EncodingMode {
    /// Text is sent as its UTF-8 bytes; received bytes are shown as text.
    Utf8,
    /// Text is hex digits; received bytes are shown as hex.
    Hex,
}

/// The two screens of the front end.
#[derive(Clone, Copy, Debug, PartialEq, Eq, Structural)]
pub enum AppView {
    /// Connect, send and watch the event log.
    Connection,
    /// Scan a range of addresses and ports.
    Scan,
}

/// A command for the connection manager, handled in the order submitted.
#[derive(Debug)]
pub enum Message {
    /// Connect to a host and port, abandoning any current connection.
    Connect(String, u16),
    /// Drop the current connection.
    Disconnect,
    /// Send text, encoded as the mode says.
    Send(String, EncodingMode),
    /// Scan the addresses from the first to the second, on the ports from the
    /// first to the second, giving each probe the timeout in milliseconds.
    ScanIp(String, String, u16, u16, u64),
}

/// A scan of every port from `start_port` to `end_port` on every address
/// from `start_ip` to `end_ip`, each probe waiting at most `timeout_ms`.
pub struct ScanRequest {
    pub start_ip: String,
    pub end_ip: String,
    pub start_port: u16,
    pub end_port: u16,
    pub timeout_ms: u64,
}

} // verus!
