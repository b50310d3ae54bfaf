//! Turning what a user typed into commands, or into the reason why not.
use vstd::prelude::*;
use vstd::string::*;
use crate::address::{
    ip_ordinal, ip_range_ok, is_valid_ip, is_valid_ip_range, is_valid_port, is_valid_port_range,
    parse_unsigned, port_range_ok, port_value, unsigned_value,
};
use crate::codec::{hex_text_ok, is_valid_hex_string};
use crate::message::{EncodingMode, Message};

verus! {

/// Why typed scan settings are refused, checked in this order, if they are.
pub open spec fn scan_input_error(
    start_ip: Seq<char>,
    end_ip: Seq<char>,
    start_port: Seq<char>,
    end_port: Seq<char>,
    timeout_ms: Seq<char>,
) -> Option<Seq<char>> {
    if ip_ordinal(start_ip) is None || ip_ordinal(end_ip) is None {
        Some("invalid IP address format"@)
    } else if port_value(start_port) is None || port_value(end_port) is None {
        Some("invalid port format"@)
    } else if !ip_range_ok(start_ip, end_ip) {
        Some("invalid IP range or more than 1000 addresses"@)
    } else if !port_range_ok(start_port, end_port) {
        Some("invalid port range or more than 1000 ports"@)
    } else if unsigned_value(timeout_ms, u64::MAX as nat) is None {
        Some("invalid timeout format"@)
    } else {
        None
    }
}

/// The scan command for typed settings: two addresses, two ports and a
/// timeout in milliseconds. Refused with the reason when an address or port
/// does not parse, when either range is reversed or wider than the limit, or
/// when the timeout is not a number.
pub fn scan_command(
    start_ip: &str,
    end_ip: &str,
    start_port: &str,
    end_port: &str,
    timeout_ms: &str,
) -> (r: Result<Message, String>)
    ensures
        match scan_input_error(start_ip@, end_ip@, start_port@, end_port@, timeout_ms@) {
            Some(reason) => r is Err && r->Err_0@ == reason,
            None => r is Ok && match r->Ok_0 {
                Message::ScanIp(a, b, p, q, t) => {
                    &&& a@ == start_ip@
                    &&& b@ == end_ip@
                    &&& Some(p as nat) == port_value(start_port@)
                    &&& Some(q as nat) == port_value(end_port@)
                    &&& Some(t as nat) == unsigned_value(timeout_ms@, u64::MAX as nat)
                },
                _ => false,
            },
        },
{
    if !is_valid_ip(start_ip) || !is_valid_ip(end_ip) {
        return Err(String::from_str("invalid IP address format"));
    }
    if !is_valid_port(start_port) || !is_valid_port(end_port) {
        return Err(String::from_str("invalid port format"));
    }
    if !is_valid_ip_range(start_ip, end_ip) {
        return Err(String::from_str("invalid IP range or more than 1000 addresses"));
    }
    if !is_valid_port_range(start_port, end_port) {
        return Err(String::from_str("invalid port range or more than 1000 ports"));
    }
    let p = parse_unsigned(start_port, 65535);
    let q = parse_unsigned(end_port, 65535);
    let t = parse_unsigned(timeout_ms, u64::MAX);
    match (p, q, t) {
        (Some(p), Some(q), Some(t)) => Ok(
            Message::ScanIp(
                String::from_str(start_ip),
                String::from_str(end_ip),
                p as u16,
                q as u16,
                t,
            ),
        ),
        _ => Err(String::from_str("invalid timeout format")),
    }
}

/// The send command for typed text. Empty text is refused, as is, in hex
/// mode, text that is not acceptable hex text.
pub fn send_command(text: &str, mode: EncodingMode) -> (r: Result<Message, String>)
    ensures
        if text@.len() == 0 {
            r is Err && r->Err_0@ == "nothing to send"@
        } else if mode == EncodingMode::Hex && !hex_text_ok(text@) {
            r is Err && r->Err_0@ == "cannot send: invalid hex format"@
        } else {
            r is Ok && match r->Ok_0 {
                Message::Send(t, m) => t@ == text@ && m == mode,
                _ => false,
            }
        },
{
    if text.is_empty() {
        return Err(String::from_str("nothing to send"));
    }
    if mode == EncodingMode::Hex && !is_valid_hex_string(text) {
        return Err(String::from_str("cannot send: invalid hex format"));
    }
    Ok(Message::Send(String::from_str(text), mode))
}

/// The connect command for a typed host and port. Refused when the port
/// does not spell a port number.
pub fn connect_command(host: &str, port: &str) -> (r: Result<Message, String>)
    ensures
        match port_value(port@) {
            Some(p) => r is Ok && match r->Ok_0 {
                Message::Connect(h, q) => h@ == host@ && q as nat == p,
                _ => false,
            },
            None => r is Err && r->Err_0@ == "invalid port format"@,
        },
{
    match parse_unsigned(port, 65535) {
        Some(p) => Ok(Message::Connect(String::from_str(host), p as u16)),
        None => Err(String::from_str("invalid port format")),
    }
}

} // verus!
