//! Settings read from the environment.

use vstd::prelude::*;

use crate::numbers::{decimal_text, parse_unsigned};

verus! {

/// The port on which WebDAV is served where none is configured.
pub const DEFAULT_WEBDAV_PORT: u16 = 4918;

/// The port on which the REST API is served where none is configured.
pub const DEFAULT_API_PORT: u16 = 3000;

/// The outcome of reading an environment variable.
#[derive(Debug, Clone)]
pub enum EnvValue {
    Present(String),
    Missing,
    /// The variable is there but cannot be read, for the given reason.
    Unreadable(String),
}

/// The port number that a text stands for.
pub open spec fn port_number(text: Seq<char>) -> Option<u16> {
    match crate::numbers::unsigned_value(text) {
        Some(value) => if value <= 65535 {
            Some(value as u16)
        } else {
            None
        },
        None => None,
    }
}

/// Reads a port number.
pub fn parse_port(text: &str) -> (port: Option<u16>)
    ensures
        port == port_number(text@),
{
    match parse_unsigned(text, 65535) {
        Some(value) => Some(value as u16),
        None => None,
    }
}

/// The configured port, or the default where none or no valid one is
/// configured.
pub fn configured_port(raw: Option<String>, default_port: u16) -> (port: u16)
    ensures
        port == match raw {
            Some(text) => match port_number(text@) {
                Some(number) => number,
                None => default_port,
            },
            None => default_port,
        },
{
    match raw {
        Some(text) => match parse_port(&text) {
            Some(number) => number,
            None => default_port,
        },
        None => default_port,
    }
}

/// The configured host, or the loopback address where none is configured.
pub fn configured_host(raw: Option<String>) -> (host: String)
    ensures
        host@ == match raw {
            Some(text) => text@,
            None => "127.0.0.1"@,
        },
{
    match raw {
        Some(text) => text,
        None => "127.0.0.1".to_string(),
    }
}

/// The address that a host and a port make.
pub fn socket_address(host: &str, port: u16) -> (address: String)
    ensures
        address@ == host@ + ":"@ + crate::numbers::decimal_digits(port as nat),
{
    let digits: String = decimal_text(port as u64);
    host.to_string().concat(":").concat(&digits)
}

/// A port that was written out in digits is read back.
pub proof fn law_port_round_trip(port: u16)
    ensures
        port_number(crate::numbers::decimal_digits(port as nat)) == Some(port),
{
    crate::numbers::law_decimal_round_trip(port as nat);
}

/// Exactly the numbers that fit into sixteen bits are ports, each with its own
/// value.
pub proof fn law_ports_are_small_numbers(text: Seq<char>, port: u16)
    ensures
        port_number(text) == Some(port) <==> crate::numbers::unsigned_value(text) == Some(
            port as nat,
        ),
        port_number(text) is None <==> crate::numbers::unsigned_value(text) is None
            || crate::numbers::unsigned_value(text)->0 > 65535,
{
}

} // verus!
