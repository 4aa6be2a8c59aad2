//! UDP: classification of datagrams by their ports.
use vstd::prelude::*;
use crate::dns::{DnsOutcome, DnsParser, dns_outcome, fits};
use crate::models::NetworkEvent;

verus! {

/// Reader of UDP datagrams.
#[derive(Clone, Copy, Debug)]
pub struct UdpParser;

/// The kind of traffic a UDP datagram carries, judged by its ports.
#[derive(Clone, Copy, Debug, PartialEq, Eq, Structural)]
pub enum UdpTrafficType {
    Dns,
    Dhcp,
    Ntp,
    Snmp,
    Ipsec,
    Ssdp,
    Streaming,
    Unknown,
}

/// Ports of streaming media: RTMP 1935, RTP 5004/5005, and 8000, 8080, 8888.
pub open spec fn streaming_port(port: u16) -> bool {
    port == 1935 || port == 5004 || port == 5005 || port == 8000 || port == 8080 || port == 8888
}

/// The classification, rule by rule in this order: DNS when either port is
/// 53; DHCP for 67/68 in either direction; NTP for 123 to 123; SNMP for
/// 161/162 in either direction; IPsec for 500/4500 in either direction;
/// SSDP from 1900; streaming when either port is a streaming port.
pub open spec fn udp_class(src: u16, dst: u16) -> UdpTrafficType {
    if src == 53 || dst == 53 {
        UdpTrafficType::Dns
    } else if (src == 67 && dst == 68) || (src == 68 && dst == 67) {
        UdpTrafficType::Dhcp
    } else if src == 123 && dst == 123 {
        UdpTrafficType::Ntp
    } else if (src == 161 && dst == 162) || (src == 162 && dst == 161) {
        UdpTrafficType::Snmp
    } else if (src == 500 && dst == 4500) || (src == 4500 && dst == 500) {
        UdpTrafficType::Ipsec
    } else if src == 1900 {
        UdpTrafficType::Ssdp
    } else if streaming_port(src) || streaming_port(dst) {
        UdpTrafficType::Streaming
    } else {
        UdpTrafficType::Unknown
    }
}

/// Whether a datagram between these ports is looked at as DNS.
pub open spec fn is_dns_port_pair(src: u16, dst: u16) -> bool {
    src == 53 || dst == 53
}

/// Whether a DNS payload can be decoded without indexing past its end.
pub open spec fn dns_decodable(payload: Seq<u8>) -> bool {
    fits(payload) && !(dns_outcome(payload) is OutOfBounds)
}

impl UdpParser {
    /// Leaves the event as it is. A DNS datagram (port 53 at either end) is
    /// decoded on the way, and the result set aside.
    pub fn enrich(&self, event: &mut NetworkEvent, payload: &[u8])
        requires
            is_dns_port_pair(old(event).source_port, old(event).destination_port) ==> dns_decodable(payload@),
        ensures
            *final(event) == *old(event),
    {
        if event.destination_port == 53 || event.source_port == 53 {
            let _ = DnsParser::parse(payload);
        }
        if Self::is_streaming_port(event.destination_port) || Self::is_streaming_port(event.source_port) {
        }
    }

    /// Whether a port is a streaming port.
    pub fn is_streaming_port(port: u16) -> (r: bool)
        ensures
            r == streaming_port(port),
    {
        port == 1935 || port == 5004 || port == 5005 || port == 8000 || port == 8080 || port == 8888
    }

    /// The kind of traffic between two ports (see [`udp_class`]).
    pub fn classify_udp_traffic(&self, src_port: u16, dst_port: u16) -> (t: UdpTrafficType)
        ensures
            t == udp_class(src_port, dst_port),
    {
        if src_port == 53 || dst_port == 53 {
            UdpTrafficType::Dns
        } else if (src_port == 67 && dst_port == 68) || (src_port == 68 && dst_port == 67) {
            UdpTrafficType::Dhcp
        } else if src_port == 123 && dst_port == 123 {
            UdpTrafficType::Ntp
        } else if (src_port == 161 && dst_port == 162) || (src_port == 162 && dst_port == 161) {
            UdpTrafficType::Snmp
        } else if (src_port == 500 && dst_port == 4500) || (src_port == 4500 && dst_port == 500) {
            UdpTrafficType::Ipsec
        } else if src_port == 1900 {
            UdpTrafficType::Ssdp
        } else if Self::is_streaming_port(src_port) || Self::is_streaming_port(dst_port) {
            UdpTrafficType::Streaming
        } else {
            UdpTrafficType::Unknown
        }
    }
}

/// A law of classification: it does not depend on the direction of the
/// datagram, save for SSDP, which is judged by the source port alone.
pub proof fn lemma_classification_symmetric(a: u16, b: u16)
    requires
        a != 1900,
        b != 1900,
    ensures
        udp_class(a, b) == udp_class(b, a),
{
}

/// A law of classification: traffic to or from one of the streaming ports
/// 1935 (RTMP), 5004 and 5005 (RTP), 8000, 8080 and 8888 is streaming unless
/// an earlier rule claims it (DNS on port 53 at either end, SSDP from 1900);
/// and only traffic with a streaming port at one end is streaming.
pub proof fn lemma_streaming_ports(a: u16, b: u16)
    ensures
        set![1935u16, 5004, 5005, 8000, 8080, 8888].contains(b) && a != 53 && a != 1900 ==> udp_class(
            a,
            b,
        ) == UdpTrafficType::Streaming,
        set![1935u16, 5004, 5005, 8000, 8080, 8888].contains(a) && b != 53 ==> udp_class(a, b)
            == UdpTrafficType::Streaming,
        udp_class(a, b) == UdpTrafficType::Streaming ==> set![1935u16, 5004, 5005, 8000, 8080, 8888].contains(a)
            || set![1935u16, 5004, 5005, 8000, 8080, 8888].contains(b),
{
}

} // verus!
