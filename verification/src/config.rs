//! The console's settings: the address and port it listens on.

use vstd::prelude::*;
use crate::decimal::{parse_u16, parse_unsigned};
use crate::text::{trim_text, trimmed};

verus! {

/// Where the console listens for the game.
#[derive(Debug, Clone)]
pub struct AppConfig {
    pub ip: String,
    pub port: u16,
}

impl Default for AppConfig {
    /// 127.0.0.1, port 5555.
    fn default() -> (r: Self)
        ensures
            r.ip@ == "127.0.0.1"@,
            r.port == 5555,
    {
        AppConfig { ip: "127.0.0.1".to_owned(), port: 5555 }
    }
}

/// The address for the `IP` entry of the settings file: the entry trimmed,
/// or 127.0.0.1 when it is missing.
pub open spec fn config_ip(ip: Option<Seq<char>>) -> Seq<char> {
    match ip {
        Some(t) => trimmed(t),
        None => "127.0.0.1"@,
    }
}

/// The port for the `port` entry: the trimmed entry read as a `u16`, or
/// 5555 when it is missing or is not such a number.
pub open spec fn config_port(port: Option<Seq<char>>) -> u16 {
    match port {
        Some(t) => match parse_unsigned(trimmed(t), u16::MAX as nat) {
            Some(v) => v as u16,
            None => 5555,
        },
        None => 5555,
    }
}

impl AppConfig {
    /// The settings for the entries read from the settings file.
    pub fn from_entries(ip: Option<String>, port: Option<String>) -> (r: Self)
        ensures
            r.ip@ == config_ip(
                match ip {
                    Some(t) => Some(t@),
                    None => None,
                },
            ),
            r.port == config_port(
                match port {
                    Some(t) => Some(t@),
                    None => None,
                },
            ),
    {
        let ip_text = match ip {
            Some(t) => trim_text(t.as_str()),
            None => "127.0.0.1".to_owned(),
        };
        let port_value = match port {
            Some(t) => {
                let trimmed_port = trim_text(t.as_str());
                match parse_u16(trimmed_port.as_str()) {
                    Some(v) => v,
                    None => 5555,
                }
            },
            None => 5555,
        };
        AppConfig { ip: ip_text, port: port_value }
    }
}

} // verus!
