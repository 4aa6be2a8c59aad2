use netsentinel::dns::DnsParser;
use netsentinel::ipaddr::IpAddress;
use netsentinel::models::Protocol;
use netsentinel::parser::PacketParser;
use netsentinel::tcp::TcpParser;
use netsentinel::udp::{UdpParser, UdpTrafficType};

fn wire_query(name_labels: &[&str], answers: &[[u8; 4]], rcode: u8) -> Vec<u8> {
    let mut m = vec![0x12, 0x34, 0x81, 0x80 | rcode, 0, 1, 0, answers.len() as u8, 0, 0, 0, 0];
    for l in name_labels {
        m.push(l.len() as u8);
        m.extend_from_slice(l.as_bytes());
    }
    m.push(0);
    m.extend_from_slice(&[0, 1, 0, 1]);
    for a in answers {
        m.extend_from_slice(&[0xC0, 12, 0, 1, 0, 1, 0, 0, 0, 60, 0, 4]);
        m.extend_from_slice(a);
    }
    m
}

#[test]
fn domain_name_plain_labels() {
    let data = wire_query(&["www", "example", "com"], &[], 0);
    let (name, next) = DnsParser::parse_domain_name(&data, 12).unwrap();
    assert_eq!(name, "www.example.com");
    assert_eq!(next, 12 + 4 + 8 + 4 + 1);
}

#[test]
fn domain_name_root_is_empty() {
    let data = [0u8];
    assert_eq!(DnsParser::parse_domain_name(&data, 0), Some((String::new(), 1)));
}

#[test]
fn domain_name_truncated_label() {
    let data = [5u8, b'a', b'b'];
    assert_eq!(DnsParser::parse_domain_name(&data, 0), None);
    assert_eq!(DnsParser::parse_domain_name(&data, 7), None);
}

#[test]
fn domain_name_follows_one_pointer() {
    // "example" at 0, then "www" + pointer to 0 at 9.
    let mut data = vec![7];
    data.extend_from_slice(b"example");
    data.push(0);
    data.extend_from_slice(&[3, b'w', b'w', b'w', 0xC0, 0]);
    let (name, next) = DnsParser::parse_domain_name(&data, 9).unwrap();
    assert_eq!(name, "www.example");
    // after a pointer the position is the one after the pointed-to name
    assert_eq!(next, 9);
}

#[test]
fn domain_name_second_pointer_fails() {
    let data = [0xC0, 2, 0xC0, 0];
    assert_eq!(DnsParser::parse_domain_name(&data, 0), None);
}

#[test]
fn dns_response_with_answers() {
    let data = wire_query(&["example", "com"], &[[93, 184, 216, 34], [1, 2, 3, 4]], 0);
    let ev = DnsParser::try_parse(&data).unwrap();
    assert_eq!(ev.query_domain, "example.com");
    assert_eq!(ev.query_type, 1);
    assert_eq!(ev.response_code, 0);
    assert_eq!(
        ev.response_ips,
        vec![IpAddress::from_v4_octets(93, 184, 216, 34), IpAddress::from_v4_octets(1, 2, 3, 4)]
    );
    assert!(ev.process_id.is_none());
}

#[test]
fn dns_rcode_is_low_flag_bits() {
    let data = wire_query(&["nx", "test"], &[], 3);
    let ev = DnsParser::try_parse(&data).unwrap();
    assert_eq!(ev.response_code, 3);
    assert!(ev.response_ips.is_empty());
}

#[test]
fn dns_short_or_questionless_is_none() {
    assert!(DnsParser::try_parse(&[0u8; 11]).is_none());
    assert!(DnsParser::try_parse(&[0u8; 12]).is_none());
}

#[test]
fn dns_truncated_answer_is_refused() {
    let mut data = wire_query(&["a"], &[], 0);
    data[7] = 1; // one answer announced
    data.extend_from_slice(&[0xC0, 12, 0, 1]); // record header cut short
    assert!(!DnsParser::is_decodable(&data));
    assert!(DnsParser::try_parse(&data).is_none());
}

#[test]
fn protocol_numbers_and_names() {
    assert_eq!(Protocol::from(6u8), Protocol::TCP);
    assert_eq!(Protocol::from(17u8), Protocol::UDP);
    assert_eq!(Protocol::from(1u8), Protocol::ICMP);
    assert_eq!(Protocol::from(47u8), Protocol::Other(47));
    assert_eq!(Protocol::TCP.to_text(), "TCP");
    assert_eq!(Protocol::Other(47).to_text(), "OTHER(47)");
}

#[test]
fn tcp_flag_bits() {
    let p = TcpParser;
    let syn = p.parse_flags(0x02);
    assert!(syn.syn && !syn.ack && syn.is_connection_start());
    assert!(!syn.is_connection_established() && !syn.is_connection_end());
    let synack = p.parse_flags(0x12);
    assert!(synack.is_connection_established() && !synack.is_connection_start());
    let fin = p.parse_flags(0x11);
    assert!(fin.fin && fin.ack && fin.is_connection_end());
    let rst = p.parse_flags(0x04);
    assert!(rst.rst && rst.is_connection_end());
    let all = p.parse_flags(0xFF);
    assert!(all.psh && all.urg && all.ece && all.cwr);
}

#[test]
fn udp_classification() {
    let u = UdpParser;
    assert_eq!(u.classify_udp_traffic(5353, 53), UdpTrafficType::Dns);
    assert_eq!(u.classify_udp_traffic(68, 67), UdpTrafficType::Dhcp);
    assert_eq!(u.classify_udp_traffic(123, 123), UdpTrafficType::Ntp);
    assert_eq!(u.classify_udp_traffic(123, 40000), UdpTrafficType::Unknown);
    assert_eq!(u.classify_udp_traffic(162, 161), UdpTrafficType::Snmp);
    assert_eq!(u.classify_udp_traffic(4500, 500), UdpTrafficType::Ipsec);
    assert_eq!(u.classify_udp_traffic(1900, 40000), UdpTrafficType::Ssdp);
    assert_eq!(u.classify_udp_traffic(40000, 1900), UdpTrafficType::Unknown);
    assert_eq!(u.classify_udp_traffic(40000, 8080), UdpTrafficType::Streaming);
    assert!(UdpParser::is_streaming_port(1935));
    assert!(!UdpParser::is_streaming_port(443));
}

#[test]
fn ip_text_forms() {
    assert_eq!(IpAddress::from_v4_octets(192, 168, 1, 10).to_text(), "192.168.1.10");
    assert_eq!(IpAddress::V6(1).to_text(), "::1");
    assert_eq!(IpAddress::V6(0).to_text(), "::");
    assert_eq!(IpAddress::V6(0x2001_0db8_0000_0000_0000_0000_0000_0001).to_text(), "2001:db8::1");
    assert_eq!(IpAddress::V6(0x0000_0000_0000_0000_0000_ffff_c0a8_0001).to_text(), "::ffff:192.168.0.1");
    assert_eq!(IpAddress::V6(0x0001_0000_0001_0000_0000_0001_0000_0001).to_text(), "1:0:1::1:0:1");
}

#[test]
fn ip_text_zero_runs() {
    let cases: [(u128, &str); 5] = [
        (0xfe80_0000_0000_0000_0202_b3ff_fe1e_8329, "fe80::202:b3ff:fe1e:8329"),
        (0x2001_0db8_85a3_0000_0000_8a2e_0370_7334, "2001:db8:85a3::8a2e:370:7334"),
        (0x0001_0002_0003_0004_0005_0006_0007_0008, "1:2:3:4:5:6:7:8"),
        (0x0000_0000_0001_0000_0000_0000_0000_0000, "0:0:1::"),
        (0x0001_0000_0002_0003_0004_0005_0006_0007, "1:0:2:3:4:5:6:7"),
    ];
    for (v, text) in cases {
        assert_eq!(IpAddress::V6(v).to_text(), text);
    }
}

#[test]
fn local_addresses() {
    assert!(IpAddress::from_v4_octets(10, 1, 2, 3).is_local());
    assert!(IpAddress::from_v4_octets(172, 16, 0, 1).is_local());
    assert!(!IpAddress::from_v4_octets(172, 32, 0, 1).is_local());
    assert!(IpAddress::from_v4_octets(192, 168, 0, 1).is_local());
    assert!(IpAddress::from_v4_octets(127, 0, 0, 1).is_local());
    assert!(IpAddress::from_v4_octets(169, 254, 3, 3).is_local());
    assert!(!IpAddress::from_v4_octets(8, 8, 8, 8).is_local());
    assert!(IpAddress::V6(1).is_local());
    assert!(IpAddress::V6(0xfe80_0000_0000_0000_0000_0000_0000_0001).is_local());
    assert!(!IpAddress::V6(0x2001_0db8_0000_0000_0000_0000_0000_0001).is_local());
}

fn ethernet_udp_frame(src_port: u16, dst_port: u16, payload: &[u8]) -> Vec<u8> {
    let mut f = vec![0, 1, 2, 3, 4, 5, 6, 7, 8, 9, 10, 11, 0x08, 0x00];
    let total = 20 + 8 + payload.len();
    let mut ip = vec![
        0x45, 0, (total >> 8) as u8, total as u8, 0, 0, 0x40, 0, 64, 17, 0, 0,
        192, 168, 1, 10, 8, 8, 8, 8,
    ];
    let mut sum: u32 = 0;
    for i in (0..20).step_by(2) {
        sum += ((ip[i] as u32) << 8) | ip[i + 1] as u32;
    }
    while sum > 0xffff {
        sum = (sum & 0xffff) + (sum >> 16);
    }
    let ck = !(sum as u16);
    ip[10] = (ck >> 8) as u8;
    ip[11] = ck as u8;
    f.extend_from_slice(&ip);
    let ulen = 8 + payload.len();
    f.extend_from_slice(&src_port.to_be_bytes());
    f.extend_from_slice(&dst_port.to_be_bytes());
    f.extend_from_slice(&[(ulen >> 8) as u8, ulen as u8, 0, 0]);
    f.extend_from_slice(payload);
    f
}

#[test]
fn frame_with_dns_query_becomes_event() {
    let dns = wire_query(&["example", "org"], &[[10, 0, 0, 1]], 0);
    let frame = ethernet_udp_frame(40000, 53, &dns);
    let ev = PacketParser::new().try_parse(&frame).unwrap();
    assert_eq!(ev.source_ip, IpAddress::from_v4_octets(192, 168, 1, 10));
    assert_eq!(ev.destination_ip, IpAddress::from_v4_octets(8, 8, 8, 8));
    assert_eq!(ev.source_port, 40000);
    assert_eq!(ev.destination_port, 53);
    assert_eq!(ev.protocol, Protocol::UDP);
    assert_eq!(ev.packet_size, frame.len());
    assert_eq!(ev.dns_query_domain.as_deref(), Some("example.org"));
    assert_eq!(ev.dns_response_ips, vec![IpAddress::from_v4_octets(10, 0, 0, 1)]);
    assert_eq!(ev.dns_response_code, Some(0));
}

#[test]
fn frame_without_dns_port_has_no_dns_fields() {
    let frame = ethernet_udp_frame(40000, 9999, b"hello");
    let ev = PacketParser::new().try_parse(&frame).unwrap();
    assert_eq!(ev.destination_port, 9999);
    assert!(ev.dns_query_domain.is_none());
    assert!(ev.dns_response_code.is_none());
}

#[test]
fn garbage_frame_is_none() {
    assert!(PacketParser::new().try_parse(&[1, 2, 3]).is_none());
    assert!(PacketParser::default().try_parse(&[]).is_none());
}

#[test]
fn udp_classification_ignores_direction() {
    let u = UdpParser;
    let ports: [u16; 12] = [53, 67, 68, 123, 161, 162, 500, 4500, 8080, 1935, 443, 40000];
    for a in ports {
        for b in ports {
            assert_eq!(u.classify_udp_traffic(a, b), u.classify_udp_traffic(b, a));
        }
    }
}
