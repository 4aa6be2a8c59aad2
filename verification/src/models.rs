//! The events that the packet engine produces.
use vstd::prelude::*;
use crate::ipaddr::IpAddress;
use crate::text::{decimal, push_decimal, push_str, string_of};

verus! {

/// The transport protocol of an IP packet, by its IP protocol number.
#[derive(Clone, Copy, Debug, PartialEq, Eq, Structural)]
pub enum Protocol {
    TCP,
    UDP,
    ICMP,
    Other(u8),
}

/// The protocol for an IP protocol number: 6 is TCP, 17 UDP, 1 ICMP.
pub open spec fn protocol_of(value: u8) -> Protocol {
    if value == 6 {
        Protocol::TCP
    } else if value == 17 {
        Protocol::UDP
    } else if value == 1 {
        Protocol::ICMP
    } else {
        Protocol::Other(value)
    }
}

impl From<u8> for Protocol {
    fn from(value: u8) -> (p: Self) {
        match value {
            6 => Protocol::TCP,
            17 => Protocol::UDP,
            1 => Protocol::ICMP,
            other => Protocol::Other(other),
        }
    }
}

impl vstd::std_specs::convert::FromSpecImpl<u8> for Protocol {
    open spec fn obeys_from_spec() -> bool {
        true
    }

    open spec fn from_spec(value: u8) -> Protocol {
        protocol_of(value)
    }
}

/// The name of a protocol as it is displayed.
pub open spec fn protocol_text(p: Protocol) -> Seq<char> {
    match p {
        Protocol::TCP => "TCP"@,
        Protocol::UDP => "UDP"@,
        Protocol::ICMP => "ICMP"@,
        Protocol::Other(n) => "OTHER("@ + decimal(n as nat) + ")"@,
    }
}

impl Protocol {
    /// The displayed name: `TCP`, `UDP`, `ICMP` or `OTHER(n)`.
    pub fn to_text(&self) -> (s: String)
        ensures
            s@ == protocol_text(*self),
    {
        match *self {
            Protocol::TCP => string_of("TCP"),
            Protocol::UDP => string_of("UDP"),
            Protocol::ICMP => string_of("ICMP"),
            Protocol::Other(n) => {
                let mut s = string_of("OTHER(");
                push_decimal(&mut s, n as u64);
                push_str(&mut s, ")");
                s
            },
        }
    }
}

/// The view of an optional string.
pub open spec fn opt_text(o: Option<String>) -> Option<Seq<char>> {
    match o {
        Some(s) => Some(s@),
        None => None,
    }
}

/// One observed packet. Timestamps are microseconds since the Unix epoch;
/// identifiers are the 128 bits of a random UUID.
#[derive(Debug)]
pub struct NetworkEvent {
    pub id: u128,
    pub timestamp: i64,
    pub source_ip: IpAddress,
    pub destination_ip: IpAddress,
    pub source_port: u16,
    pub destination_port: u16,
    pub protocol: Protocol,
    pub packet_size: usize,
    pub process_id: Option<u32>,
    pub process_name: Option<String>,
    pub dns_query_domain: Option<String>,
    pub dns_response_ips: Vec<IpAddress>,
    pub dns_response_code: Option<u16>,
}

/// One decoded DNS message.
#[derive(Debug)]
pub struct DnsEvent {
    pub id: u128,
    pub timestamp: i64,
    pub query_domain: String,
    pub query_type: u16,
    pub response_ips: Vec<IpAddress>,
    pub response_code: u16,
    pub process_id: Option<u32>,
    pub process_name: Option<String>,
}

} // verus!
