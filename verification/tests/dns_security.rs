use netsentinel::alerts::AlertSeverity;
use netsentinel::dns_monitor::DnsMonitor;
use netsentinel::ipaddr::IpAddress;
use netsentinel::models::{NetworkEvent, Protocol};
use netsentinel::reputation::{DomainReputation, DomainRisk, HISTORY_LIMIT};

fn dns_event(sport: u16, dport: u16, process: Option<&str>) -> NetworkEvent {
    NetworkEvent {
        id: 1,
        timestamp: 0,
        source_ip: IpAddress::from_v4_octets(192, 168, 1, 2),
        destination_ip: IpAddress::from_v4_octets(1, 1, 1, 1),
        source_port: sport,
        destination_port: dport,
        protocol: Protocol::UDP,
        packet_size: 60,
        process_id: None,
        process_name: process.map(|p| p.to_string()),
        dns_query_domain: None,
        dns_response_ips: Vec::new(),
        dns_response_code: None,
    }
}

#[test]
fn known_malware_and_safe_domains() {
    let r = DomainReputation::new();
    assert_eq!(r.check("malware.test.xyz", None), DomainRisk::Malware);
    assert_eq!(r.check("PHISHING.example.COM", None), DomainRisk::Malware);
    assert_eq!(r.check("github.com", None), DomainRisk::Safe);
    assert_eq!(r.check("GitHub.com", None), DomainRisk::Safe);
}

#[test]
fn suspicious_tld_scores_thirty() {
    let r = DomainReputation::new();
    assert_eq!(
        r.check("evil.xyz", None),
        DomainRisk::Suspicious(30, vec!["Suspicious TLD: .xyz".to_string()])
    );
}

#[test]
fn subdomains_length_and_entropy() {
    let r = DomainReputation::new();
    assert_eq!(r.check("a.b.c.example.com", None), DomainRisk::Unknown(15));
    assert_eq!(r.check("example.com", None), DomainRisk::Unknown(0));
    let long = format!("{}.com", "a".repeat(50));
    assert_eq!(r.check(&long, None), DomainRisk::Unknown(10));
    let high = Some("High entropy domain name (3.80)".to_string());
    assert_eq!(r.check("qx7zk2.com", high.clone()), DomainRisk::Unknown(20));
    assert_eq!(
        r.check("a.b.c.qx7zk2.top", high),
        DomainRisk::Suspicious(
            65,
            vec![
                "Suspicious TLD: .top".to_string(),
                "Excessive subdomains".to_string(),
                "High entropy domain name (3.80)".to_string(),
            ]
        )
    );
}

#[test]
fn added_domains_take_effect() {
    let mut r = DomainReputation::new();
    assert_eq!(r.check("bad.example.net", None), DomainRisk::Unknown(0));
    r.add_malware_domain("Bad.Example.NET");
    assert_eq!(r.check("bad.example.net", None), DomainRisk::Malware);
    r.add_safe_domain("Intranet.XYZ");
    assert_eq!(r.check("intranet.xyz", None), DomainRisk::Safe);
    // malware wins over safe
    r.add_safe_domain("bad.example.net");
    assert_eq!(r.check("bad.example.net", None), DomainRisk::Malware);
}

#[test]
fn history_records_scores() {
    let mut r = DomainReputation::new();
    r.record_query("malware.test.xyz", None);
    r.record_query("github.com", None);
    r.record_query("evil.top", None);
    let h = r.get_history();
    assert_eq!(h.len(), 3);
    assert_eq!(h[0].domain, "malware.test.xyz");
    assert_eq!(h[0].risk_score, 100);
    assert_eq!(h[0].risk_factors, vec!["Known malware domain".to_string()]);
    assert_eq!(h[1].risk_score, 0);
    assert!(h[1].risk_factors.is_empty());
    assert_eq!(h[2].risk_score, 30);
    assert_eq!(h[2].risk_factors, vec!["Suspicious TLD: .top".to_string()]);
}

#[test]
fn history_keeps_the_latest_ten_thousand() {
    let mut r = DomainReputation::new();
    for i in 0..(HISTORY_LIMIT + 5) {
        r.record_query(&format!("host{}.example.com", i), None);
    }
    let h = r.get_history();
    assert_eq!(h.len(), HISTORY_LIMIT);
    assert_eq!(h[0].domain, "host5.example.com");
    assert_eq!(h[HISTORY_LIMIT - 1].domain, format!("host{}.example.com", HISTORY_LIMIT + 4));
}

#[test]
fn dns_traffic_alert_for_unexpected_process() {
    let m = DnsMonitor::new(DomainReputation::new());
    let a = m.analyze_dns_traffic(&dns_event(40000, 53, Some("curl")), "{raw}".to_string()).unwrap();
    assert_eq!(a.severity, AlertSeverity::Low);
    assert_eq!(a.title, "DNS Traffic");
    assert_eq!(a.description, "DNS query from 192.168.1.2:40000 to 1.1.1.1:53 (protocol: UDP)");
    assert_eq!(a.port, Some(53));
    assert_eq!(a.protocol.as_deref(), Some("DNS"));
    assert_eq!(a.process_name.as_deref(), Some("curl"));
    assert_eq!(a.raw_event.as_deref(), Some("{raw}"));
    assert!(m.analyze_dns_traffic(&dns_event(40000, 53, None), String::new()).is_some());
}

#[test]
fn dns_traffic_of_resolvers_or_other_ports_is_quiet() {
    let m = DnsMonitor::new(DomainReputation::new());
    assert!(m.analyze_dns_traffic(&dns_event(40000, 53, Some("systemd-resolve")), String::new()).is_none());
    assert!(m.analyze_dns_traffic(&dns_event(53, 40000, Some("svchost.exe")), String::new()).is_none());
    assert!(m.analyze_dns_traffic(&dns_event(40000, 443, Some("curl")), String::new()).is_none());
}

#[test]
fn recording_malware_domain_raises_critical_alert() {
    let mut m = DnsMonitor::new(DomainReputation::new());
    let a = m.record_domain("botnet.c2.server", None).unwrap();
    assert_eq!(a.severity, AlertSeverity::Critical);
    assert_eq!(a.title, "Malware Domain Detected");
    assert_eq!(a.description, "DNS query to known malware domain: botnet.c2.server");
    assert_eq!(a.port, Some(53));
    assert!(a.source_ip.is_none());
    assert_eq!(m.reputation().get_history().len(), 1);
}

#[test]
fn recording_suspicious_domain_raises_high_alert() {
    let mut m = DnsMonitor::new(DomainReputation::new());
    let a = m.record_domain("login.bank.verify.tk", None).unwrap();
    assert_eq!(a.severity, AlertSeverity::High);
    assert_eq!(a.title, "Suspicious Domain");
    assert_eq!(
        a.description,
        "Suspicious DNS query: login.bank.verify.tk (risk score: 45) — Suspicious TLD: .tk; Excessive subdomains"
    );
    assert!(m.record_domain("docs.rs", None).is_none());
    assert_eq!(m.check_domain("docs.rs", None), DomainRisk::Safe);
}

#[test]
fn malware_found_in_any_ascii_case() {
    let mut r = DomainReputation::new();
    r.add_malware_domain("Evil.Example.ORG");
    assert_eq!(r.check("evil.example.org", None), DomainRisk::Malware);
    assert_eq!(r.check("EVIL.EXAMPLE.ORG", None), DomainRisk::Malware);
}
