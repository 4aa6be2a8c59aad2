//! From an Ethernet frame to a network event.
use vstd::prelude::*;
use etherparse::{NetHeaders as Net, TransportHeader as Transport};
use crate::clock::{new_uuid, now_micros};
use crate::dns::{DnsOutcome, DnsParser, dns_outcome};
use crate::ipaddr::IpAddress;
use crate::models::{NetworkEvent, Protocol, protocol_of};
use crate::tcp::TcpParser;
use crate::udp::{UdpParser, dns_decodable, is_dns_port_pair};

verus! {

/// The network layer of a frame: IPv4 or IPv6 addresses (bytes in network
/// order) with the protocol number of the next header, or ARP.
#[derive(Clone, Copy, Debug, PartialEq, Eq, Structural)]
pub enum NetLayer {
    Ipv4(u32, u32, u8),
    Ipv6(u128, u128, u8),
    Arp,
}

/// The transport layer of a frame: UDP or TCP with (source, destination)
/// ports, or one of the port-less protocols.
#[derive(Clone, Copy, Debug, PartialEq, Eq, Structural)]
pub enum TransportLayer {
    Udp(u16, u16),
    Tcp(u16, u16),
    ICMPv4,
    ICMPv6,
    Igmp,
}

/// The decoded headers of a frame and the payload of its last layer.
#[derive(Debug)]
pub struct PacketHeaders {
    pub net: Option<NetLayer>,
    pub transport: Option<TransportLayer>,
    pub payload: Vec<u8>,
}

pub struct PacketHeadersView {
    pub net: Option<NetLayer>,
    pub transport: Option<TransportLayer>,
    pub payload: Seq<u8>,
}

impl View for PacketHeaders {
    type V = PacketHeadersView;

    open spec fn view(&self) -> PacketHeadersView {
        PacketHeadersView { net: self.net, transport: self.transport, payload: self.payload@ }
    }
}

/// What `etherparse::PacketHeaders::from_ethernet_slice` makes of a frame
/// (`None` where it returns an error).
pub uninterp spec fn ethernet_headers(data: Seq<u8>) -> Option<PacketHeadersView>;

/// etherparse's network-layer headers (IPv4, IPv6 or ARP).
#[verifier::external_type_specification]
#[verifier::external_body]
pub struct ExNetHeaders(etherparse::NetHeaders);

/// etherparse's transport-layer header.
#[verifier::external_type_specification]
#[verifier::external_body]
pub struct ExTransportHeader(etherparse::TransportHeader);

/// Decodes an Ethernet II frame with `etherparse::PacketHeaders::from_ethernet_slice`
/// and hands its network and transport headers and payload back as plain
/// values. The result is named by [`ethernet_headers`]; nothing more is stated.
#[verifier::external_body]
fn decode_ethernet(data: &[u8]) -> (r: Option<PacketHeaders>)
    ensures
        ethernet_headers(data@) == match r { Some(h) => Some(h@), None => None },
{
    let h = etherparse::PacketHeaders::from_ethernet_slice(data).ok()?;
    let net = h.net.as_ref().map(net_layer);
    let transport = h.transport.as_ref().map(transport_layer);
    Some(PacketHeaders { net, transport, payload: h.payload.slice().to_vec() })
}

/// etherparse's network-layer header as plain values, variant by variant:
/// the addresses (in network byte order) and next-header number of IPv4 and
/// IPv6, or ARP. Part of [`decode_ethernet`]; nothing is stated of it alone.
#[verifier::external_body]
fn net_layer(n: &etherparse::NetHeaders) -> NetLayer {
    match n {
        Net::Ipv4(i, _) => NetLayer::Ipv4(u32::from_be_bytes(i.source), u32::from_be_bytes(i.destination), i.protocol.0),
        Net::Ipv6(i, _) => NetLayer::Ipv6(u128::from_be_bytes(i.source), u128::from_be_bytes(i.destination), i.next_header.0),
        Net::Arp(_) => NetLayer::Arp,
    }
}

/// etherparse's transport-layer header as plain values, variant by variant:
/// the ports of UDP and TCP, or which port-less protocol it is. Part of
/// [`decode_ethernet`]; nothing is stated of it alone.
#[verifier::external_body]
fn transport_layer(t: &etherparse::TransportHeader) -> TransportLayer {
    match t {
        Transport::Udp(u) => TransportLayer::Udp(u.source_port, u.destination_port),
        Transport::Tcp(t) => TransportLayer::Tcp(t.source_port, t.destination_port),
        Transport::Icmpv4(_) => TransportLayer::ICMPv4,
        Transport::Icmpv6(_) => TransportLayer::ICMPv6,
        Transport::Igmp(_) => TransportLayer::Igmp,
    }
}

/// Addresses and protocol of the network layer; none for ARP or no IP layer.
pub open spec fn net_fields(net: Option<NetLayer>) -> Option<(IpAddress, IpAddress, Protocol)> {
    match net {
        Some(NetLayer::Ipv4(s, d, p)) => Some((IpAddress::V4(s), IpAddress::V4(d), protocol_of(p))),
        Some(NetLayer::Ipv6(s, d, p)) => Some((IpAddress::V6(s), IpAddress::V6(d), protocol_of(p))),
        _ => None,
    }
}

/// Ports of the transport layer: those of TCP and UDP, zero for ICMP; none
/// without a transport layer, and none for IGMP, whose frames give no event.
pub open spec fn port_fields(transport: Option<TransportLayer>) -> Option<(u16, u16)> {
    match transport {
        Some(TransportLayer::Udp(s, d)) => Some((s, d)),
        Some(TransportLayer::Tcp(s, d)) => Some((s, d)),
        Some(TransportLayer::ICMPv4) => Some((0, 0)),
        Some(TransportLayer::ICMPv6) => Some((0, 0)),
        _ => None,
    }
}

/// Whether the headers give an event.
pub open spec fn yields_event(h: PacketHeadersView) -> bool {
    net_fields(h.net) is Some && port_fields(h.transport) is Some
}

/// Whether the headers carry a UDP datagram to or from port 53, whose
/// payload is then decoded as DNS.
pub open spec fn carries_dns(h: PacketHeadersView) -> bool {
    match (net_fields(h.net), port_fields(h.transport)) {
        (Some((_, _, proto)), Some((sp, dp))) => proto == Protocol::UDP && is_dns_port_pair(sp, dp),
        _ => false,
    }
}

/// Whether building the event decodes only what can be decoded.
pub open spec fn headers_decodable(h: PacketHeadersView) -> bool {
    carries_dns(h) ==> dns_decodable(h.payload)
}

/// Whether `ev` is the event built from `h` for a frame of `size` bytes
/// (identifier and timestamp aside): addresses, protocol and ports from the
/// headers, no process, and for DNS over UDP the decoded name (when not
/// empty), answers and response code.
pub open spec fn event_from(ev: NetworkEvent, h: PacketHeadersView, size: nat) -> bool {
    let (src, dst, proto) = net_fields(h.net)->0;
    let (sp, dp) = port_fields(h.transport)->0;
    &&& ev.source_ip == src
    &&& ev.destination_ip == dst
    &&& ev.protocol == proto
    &&& ev.source_port == sp
    &&& ev.destination_port == dp
    &&& ev.packet_size == size
    &&& ev.process_id is None
    &&& ev.process_name is None
    &&& if carries_dns(h) && dns_outcome(h.payload) is Event {
        let o = dns_outcome(h.payload);
        &&& (o->domain.len() == 0 ==> ev.dns_query_domain is None)
        &&& (o->domain.len() != 0 ==> (ev.dns_query_domain matches Some(d) && d@ == o->domain))
        &&& ev.dns_response_ips@ == o->ips
        &&& ev.dns_response_code == Some(o->rcode)
    } else {
        &&& ev.dns_query_domain is None
        &&& ev.dns_response_ips@.len() == 0
        &&& ev.dns_response_code is None
    }
}

/// Reader of Ethernet frames into network events.
#[derive(Clone, Copy, Debug)]
pub struct PacketParser {
    tcp_parser: TcpParser,
    udp_parser: UdpParser,
    dns_parser: DnsParser,
}

impl PacketParser {
    pub fn new() -> (p: Self) {
        PacketParser { tcp_parser: TcpParser, udp_parser: UdpParser, dns_parser: DnsParser }
    }

    /// The event for decoded headers of a frame of `packet_size` bytes, with
    /// a fresh identifier and the current time; none without an IP layer or
    /// a transport layer with ports (see [`event_from`]).
    pub fn event_from_headers(&self, headers: PacketHeaders, packet_size: usize) -> (r: Option<NetworkEvent>)
        requires
            headers_decodable(headers@),
        ensures
            !yields_event(headers@) ==> r is None,
            yields_event(headers@) ==> (r matches Some(ev) && event_from(ev, headers@, packet_size as nat)),
    {
        let ghost h = headers@;
        let (src_ip, dst_ip, protocol) = match headers.net {
            Some(NetLayer::Ipv4(s, d, p)) => (IpAddress::V4(s), IpAddress::V4(d), Protocol::from(p)),
            Some(NetLayer::Ipv6(s, d, p)) => (IpAddress::V6(s), IpAddress::V6(d), Protocol::from(p)),
            Some(NetLayer::Arp) => return None,
            None => return None,
        };
        let (src_port, dst_port) = match headers.transport {
            Some(TransportLayer::Tcp(s, d)) => (s, d),
            Some(TransportLayer::Udp(s, d)) => (s, d),
            Some(TransportLayer::ICMPv4) | Some(TransportLayer::ICMPv6) => (0, 0),
            Some(TransportLayer::Igmp) => return None,
            None => return None,
        };
        let payload = headers.payload.as_slice();
        let mut event = NetworkEvent {
            id: new_uuid(),
            timestamp: now_micros(),
            source_ip: src_ip,
            destination_ip: dst_ip,
            source_port: src_port,
            destination_port: dst_port,
            protocol,
            packet_size,
            process_id: None,
            process_name: None,
            dns_query_domain: None,
            dns_response_ips: Vec::new(),
            dns_response_code: None,
        };
        match protocol {
            Protocol::TCP => self.tcp_parser.enrich(&mut event, payload),
            Protocol::UDP => {
                self.udp_parser.enrich(&mut event, payload);
                if src_port == 53 || dst_port == 53 {
                    if let Some(dns) = DnsParser::parse(payload) {
                        if !dns.query_domain.as_str().is_empty() {
                            event.dns_query_domain = Some(dns.query_domain);
                        }
                        event.dns_response_ips = dns.response_ips;
                        event.dns_response_code = Some(dns.response_code);
                    }
                }
            },
            _ => {},
        }
        Some(event)
    }

    /// The event for an Ethernet frame: its headers decoded by etherparse,
    /// then [`PacketParser::event_from_headers`]. Frames whose DNS payload
    /// runs past its end are left out (the decoder would index past it).
    pub fn parse(&self, data: &[u8]) -> (r: Option<NetworkEvent>)
        requires
            ethernet_headers(data@) matches Some(h) ==> headers_decodable(h),
        ensures
            match ethernet_headers(data@) {
                None => r is None,
                Some(h) => if yields_event(h) {
                    r matches Some(ev) && event_from(ev, h, data@.len())
                } else {
                    r is None
                },
            },
    {
        match decode_ethernet(data) {
            None => None,
            Some(headers) => self.event_from_headers(headers, data.len()),
        }
    }

    /// Whether [`PacketParser::parse`] may be given the frame: its headers do
    /// not decode, or they do and any DNS payload they carry decodes without
    /// indexing past its end.
    pub fn is_parsable(&self, data: &[u8]) -> (r: bool)
        ensures
            r == (ethernet_headers(data@) matches Some(h) ==> headers_decodable(h)),
    {
        match decode_ethernet(data) {
            None => true,
            Some(headers) => {
                let dns_carrier = match (headers.net, headers.transport) {
                    (Some(NetLayer::Ipv4(_, _, p)), Some(TransportLayer::Udp(s, d)))
                    | (Some(NetLayer::Ipv6(_, _, p)), Some(TransportLayer::Udp(s, d)))
                    | (Some(NetLayer::Ipv4(_, _, p)), Some(TransportLayer::Tcp(s, d)))
                    | (Some(NetLayer::Ipv6(_, _, p)), Some(TransportLayer::Tcp(s, d))) => p == 17 && (s == 53 || d == 53),
                    _ => false,
                };
                !dns_carrier || DnsParser::is_decodable(headers.payload.as_slice())
            },
        }
    }

    /// Like [`PacketParser::parse`], for any frame: `None` also for frames
    /// whose DNS payload cannot be decoded without indexing past its end.
    pub fn try_parse(&self, data: &[u8]) -> (r: Option<NetworkEvent>)
        ensures
            match ethernet_headers(data@) {
                None => r is None,
                Some(h) => if yields_event(h) && headers_decodable(h) {
                    r matches Some(ev) && event_from(ev, h, data@.len())
                } else {
                    r is None
                },
            },
    {
        if self.is_parsable(data) {
            self.parse(data)
        } else {
            None
        }
    }
}

impl Default for PacketParser {
    fn default() -> (p: Self) {
        Self::new()
    }
}

} // verus!
