//! The connection manager: it takes commands one at a time and decides what
//! to report and what the caller must do next (open a socket, write bytes,
//! start a scan). The write half of the live connection sits in a slot that
//! holds at most one handle; a send takes it out and gives it back.
use vstd::prelude::*;
use vstd::string::*;
use vstd::utf8::encode_utf8;
use crate::codec::{hex_decode, hex_to_bytes};
use crate::message::{EncodingMode, Message, ScanRequest};
use crate::text::{decimal, push_char, push_decimal, texts};

verus! {

/// Holds the write handle of the live connection while no send is using it.
pub struct ConnectionSlot<H> {
    handle: Option<H>,
}

impl<H> View for ConnectionSlot<H> {
    type V = Option<H>;

    closed spec fn view(&self) -> Option<H> {
        self.handle
    }
}

impl<H> ConnectionSlot<H> {
    /// An empty slot.
    pub fn new() -> (r: Self)
        ensures
            r@ is None,
    {
        ConnectionSlot { handle: None }
    }

    /// Stores `h`, dropping any handle held before.
    pub fn put(&mut self, h: H)
        ensures
            final(self)@ == Some(h),
    {
        self.handle = Some(h);
    }

    /// Takes the handle out, if one is there; the slot is empty afterwards.
    pub fn take(&mut self) -> (r: Option<H>)
        ensures
            r == old(self)@,
            final(self)@ is None,
    {
        self.handle.take()
    }

    /// Drops the handle, if one is there.
    pub fn clear(&mut self)
        ensures
            final(self)@ is None,
    {
        self.handle = None;
    }

    /// Whether no handle is there.
    pub fn is_empty(&self) -> (r: bool)
        ensures
            r == self@ is None,
    {
        self.handle.is_none()
    }
}

/// What the caller must do after a command.
pub enum Effect<H> {
    /// Nothing.
    Idle,
    /// Open a connection to this `host:port` address, then report the result
    /// with `connection_opened` or `connection_failed`.
    Open(String),
    /// Write these bytes with this handle and flush them, then report the
    /// result with `send_completed` (and log the text) or `send_failed`. The
    /// number is the connection's generation, to hand back with the handle.
    Write(H, Vec<u8>, String, u64),
    /// Start this scan.
    Scan(ScanRequest),
}

/// What a command leads to: messages for the event log, then an effect.
pub struct Outcome<H> {
    pub events: Vec<String>,
    pub effect: Effect<H>,
}

/// The address text for connecting, `host:port`.
pub open spec fn address_text(host: Seq<char>, port: u16) -> Seq<char> {
    host + seq![':'] + decimal(port as nat)
}

/// The bytes sent for payload text.
pub open spec fn payload_bytes(text: Seq<char>, mode: EncodingMode) -> Seq<u8> {
    match mode {
        EncodingMode::Utf8 => encode_utf8(text),
        EncodingMode::Hex => hex_decode(text),
    }
}

/// What is reported once payload text was sent.
pub open spec fn sent_text(text: Seq<char>, mode: EncodingMode) -> Seq<char> {
    match mode {
        EncodingMode::Utf8 => "sent (UTF-8): "@ + text,
        EncodingMode::Hex => "sent (HEX): "@ + text,
    }
}

/// The generation after `g`, wrapping around.
pub open spec fn next_generation(g: u64) -> u64 {
    if g < u64::MAX {
        (g + 1) as u64
    } else {
        0
    }
}

/// Decides, command by command, what to do with the single connection.
/// A connection's generation tells its handle apart from the handles of
/// connections abandoned before it.
pub struct ConnectionManager<H> {
    connected: bool,
    generation: u64,
    slot: ConnectionSlot<H>,
}

impl<H> ConnectionManager<H> {
    /// Whether a connection is live, as far as the manager knows.
    pub closed spec fn is_connected(&self) -> bool {
        self.connected
    }

    /// The handle in the slot, if any.
    pub closed spec fn held(&self) -> Option<H> {
        self.slot@
    }

    /// The generation of the current connection.
    pub closed spec fn generation(&self) -> u64 {
        self.generation
    }

    /// With no connection there is no handle.
    pub closed spec fn wf(&self) -> bool {
        !self.connected ==> self.slot@ is None
    }

    /// A manager with no connection.
    pub fn new() -> (r: Self)
        ensures
            r.wf(),
            !r.is_connected(),
            r.held() is None,
            r.generation() == 0,
    {
        ConnectionManager { connected: false, generation: 0, slot: ConnectionSlot::new() }
    }

    /// Whether a connection is live, as far as the manager knows.
    pub fn connected(&self) -> (r: bool)
        ensures
            r == self.is_connected(),
    {
        self.connected
    }

    /// Starts a new generation with no connection and no handle.
    fn abandon(&mut self)
        ensures
            !final(self).is_connected(),
            final(self).held() is None,
            final(self).generation() == next_generation(old(self).generation()),
    {
        self.connected = false;
        self.slot.clear();
        self.generation = if self.generation < u64::MAX {
            self.generation + 1
        } else {
            0
        };
    }

    /// Handles one command.
    /// - `Connect` abandons any current connection and asks for a new one.
    /// - `Disconnect` drops the connection and reports `disconnected`; with no
    ///   connection it changes nothing and still reports `disconnected`.
    /// - `Send` with no connection reports that it cannot send; with the
    ///   handle out for another send it reports that the connection is busy
    ///   and drops the payload; else it takes the handle and asks for the
    ///   encoded bytes to be written.
    /// - `ScanIp` asks for the scan to start.
    pub fn handle_command(&mut self, msg: Message) -> (r: Outcome<H>)
        requires
            old(self).wf(),
        ensures
            final(self).wf(),
            match msg {
                Message::Connect(host, port) => {
                    &&& !final(self).is_connected()
                    &&& final(self).held() is None
                    &&& final(self).generation() == next_generation(old(self).generation())
                    &&& r.events@.len() == 0
                    &&& r.effect is Open
                    &&& r.effect->Open_0@ == address_text(host@, port)
                },
                Message::Disconnect => {
                    &&& texts(r.events@) == seq!["disconnected"@]
                    &&& r.effect is Idle
                    &&& !final(self).is_connected()
                    &&& final(self).held() is None
                    &&& if old(self).is_connected() {
                        final(self).generation() == next_generation(old(self).generation())
                    } else {
                        *final(self) == *old(self)
                    }
                },
                Message::Send(text, mode) => if !old(self).is_connected() {
                    &&& texts(r.events@) == seq!["cannot send: not connected"@]
                    &&& r.effect is Idle
                    &&& *final(self) == *old(self)
                } else if old(self).held() is None {
                    &&& texts(r.events@) == seq!["connection busy, retry later"@]
                    &&& r.effect is Idle
                    &&& *final(self) == *old(self)
                } else {
                    &&& r.events@.len() == 0
                    &&& r.effect is Write
                    &&& Some(r.effect->Write_0) == old(self).held()
                    &&& r.effect->Write_1@ == payload_bytes(text@, mode)
                    &&& r.effect->Write_2@ == sent_text(text@, mode)
                    &&& r.effect->Write_3 == old(self).generation()
                    &&& final(self).is_connected()
                    &&& final(self).held() is None
                    &&& final(self).generation() == old(self).generation()
                },
                Message::ScanIp(start_ip, end_ip, start_port, end_port, timeout_ms) => {
                    &&& r.events@.len() == 0
                    &&& r.effect is Scan
                    &&& r.effect->Scan_0.start_ip@ == start_ip@
                    &&& r.effect->Scan_0.end_ip@ == end_ip@
                    &&& r.effect->Scan_0.start_port == start_port
                    &&& r.effect->Scan_0.end_port == end_port
                    &&& r.effect->Scan_0.timeout_ms == timeout_ms
                    &&& *final(self) == *old(self)
                },
            },
    {
        let mut events: Vec<String> = Vec::new();
        match msg {
            Message::Connect(host, port) => {
                self.abandon();
                let mut addr = host;
                push_char(&mut addr, ':');
                push_decimal(&mut addr, port as u64);
                Outcome { events, effect: Effect::Open(addr) }
            },
            Message::Disconnect => {
                if self.connected {
                    self.abandon();
                }
                events.push(String::from_str("disconnected"));
                assert(texts(events@) =~= seq!["disconnected"@]);
                Outcome { events, effect: Effect::Idle }
            },
            Message::Send(text, mode) => {
                if !self.connected {
                    events.push(String::from_str("cannot send: not connected"));
                    assert(texts(events@) =~= seq!["cannot send: not connected"@]);
                    return Outcome { events, effect: Effect::Idle };
                }
                match self.slot.take() {
                    None => {
                        events.push(String::from_str("connection busy, retry later"));
                        assert(texts(events@) =~= seq!["connection busy, retry later"@]);
                        Outcome { events, effect: Effect::Idle }
                    },
                    Some(h) => {
                        let bytes = match mode {
                            EncodingMode::Utf8 => text.as_str().as_bytes_vec(),
                            EncodingMode::Hex => hex_to_bytes(text.as_str()),
                        };
                        let mut report = match mode {
                            EncodingMode::Utf8 => String::from_str("sent (UTF-8): "),
                            EncodingMode::Hex => String::from_str("sent (HEX): "),
                        };
                        report.append(text.as_str());
                        Outcome { events, effect: Effect::Write(h, bytes, report, self.generation) }
                    },
                }
            },
            Message::ScanIp(start_ip, end_ip, start_port, end_port, timeout_ms) => {
                let request = ScanRequest { start_ip, end_ip, start_port, end_port, timeout_ms };
                Outcome { events, effect: Effect::Scan(request) }
            },
        }
    }

    /// The connection asked for by `Connect` is open: its write handle goes
    /// into the slot, and `connected to <address>` is reported.
    pub fn connection_opened(&mut self, address: &str, handle: H) -> (r: String)
        ensures
            final(self).wf(),
            final(self).is_connected(),
            final(self).held() == Some(handle),
            final(self).generation() == old(self).generation(),
            r@ == "connected to "@ + address@,
    {
        self.connected = true;
        self.slot.put(handle);
        let mut r = String::from_str("connected to ");
        r.append(address);
        r
    }

    /// The connection asked for by `Connect` could not be opened: nothing
    /// changes, and `connection failed: <reason>` is reported.
    pub fn connection_failed(&self, reason: &str) -> (r: String)
        ensures
            r@ == "connection failed: "@ + reason@,
    {
        let mut r = String::from_str("connection failed: ");
        r.append(reason);
        r
    }

    /// A write finished: the handle goes back into the slot if it belongs to
    /// the live connection, and is dropped if that connection was abandoned
    /// meanwhile.
    pub fn send_completed(&mut self, generation: u64, handle: H)
        requires
            old(self).wf(),
        ensures
            final(self).wf(),
            final(self).is_connected() == old(self).is_connected(),
            final(self).generation() == old(self).generation(),
            final(self).held() == if old(self).is_connected() && generation
                == old(self).generation() {
                Some(handle)
            } else {
                old(self).held()
            },
    {
        if self.connected && generation == self.generation {
            self.slot.put(handle);
        }
    }

    /// A write failed: its handle is gone, so the slot stays empty until the
    /// next `Connect`, while the manager still counts the connection as live.
    /// Reports `send failed: <reason>`.
    pub fn send_failed(&self, reason: &str) -> (r: String)
        ensures
            r@ == "send failed: "@ + reason@,
    {
        let mut r = String::from_str("send failed: ");
        r.append(reason);
        r
    }
}

} // verus!
