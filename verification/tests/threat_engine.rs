use netsentinel::alerts::{Alert, AlertManager, AlertSeverity};
use netsentinel::detector::ThreatDetector;
use netsentinel::ipaddr::IpAddress;
use netsentinel::models::{NetworkEvent, Protocol};
use netsentinel::rules::{
    CustomRule, DetectionRule, DnsQueryRule, HighPortTrafficRule, PrivateIpEgressRule, RuleEngine,
    SuspiciousPortRule, UnknownProcessRule,
};

fn sample_event(src: IpAddress, sport: u16, dst: IpAddress, dport: u16, process: Option<&str>) -> NetworkEvent {
    NetworkEvent {
        id: 7,
        timestamp: 1_700_000_000_000_000,
        source_ip: src,
        destination_ip: dst,
        source_port: sport,
        destination_port: dport,
        protocol: Protocol::TCP,
        packet_size: 100,
        process_id: None,
        process_name: process.map(|p| p.to_string()),
        dns_query_domain: None,
        dns_response_ips: Vec::new(),
        dns_response_code: None,
    }
}

fn lan() -> IpAddress {
    IpAddress::from_v4_octets(192, 168, 1, 5)
}

fn wan() -> IpAddress {
    IpAddress::from_v4_octets(93, 184, 216, 34)
}

#[test]
fn severity_scores_and_names() {
    assert_eq!(AlertSeverity::Low.score(), 1);
    assert_eq!(AlertSeverity::Medium.score(), 3);
    assert_eq!(AlertSeverity::High.score(), 7);
    assert_eq!(AlertSeverity::Critical.score(), 10);
    assert_eq!(AlertSeverity::Critical.to_text(), "CRITICAL");
    assert_eq!(AlertSeverity::Low.to_text(), "LOW");
}

#[test]
fn suspicious_port_rule() {
    let r = SuspiciousPortRule;
    assert_eq!(r.name(), "Suspicious Port");
    let m = r.evaluate(&sample_event(lan(), 50000, wan(), 22, Some("ssh"))).unwrap();
    assert_eq!(m.severity, AlertSeverity::Medium);
    assert_eq!(m.description, "Connection on suspicious port 22");
    assert_eq!(m.rule_name, "Suspicious Port");
    // the source port counts too; the description names the destination port
    let m = r.evaluate(&sample_event(lan(), 4444, wan(), 80, Some("x"))).unwrap();
    assert_eq!(m.description, "Connection on suspicious port 80");
    assert!(r.evaluate(&sample_event(lan(), 50000, wan(), 443, Some("x"))).is_none());
}

#[test]
fn private_egress_rule_on_mail_ports() {
    let r = PrivateIpEgressRule;
    let m = r.evaluate(&sample_event(lan(), 50000, wan(), 25, Some("mailer"))).unwrap();
    assert_eq!(m.severity, AlertSeverity::High);
    assert_eq!(
        m.description,
        "Email traffic detected on non-standard port: 192.168.1.5 -> 93.184.216.34:25"
    );
    assert!(r.evaluate(&sample_event(lan(), 587, wan(), 50000, Some("m"))).is_some());
    assert!(r.evaluate(&sample_event(lan(), 50000, wan(), 443, Some("m"))).is_none());
    assert!(r.evaluate(&sample_event(wan(), 50000, lan(), 25, Some("m"))).is_none());
    assert!(r.evaluate(&sample_event(lan(), 50000, lan(), 25, Some("m"))).is_none());
}

#[test]
fn high_port_rule() {
    let r = HighPortTrafficRule;
    let m = r.evaluate(&sample_event(lan(), 50000, wan(), 60000, Some("p"))).unwrap();
    assert_eq!(m.severity, AlertSeverity::Low);
    assert_eq!(
        m.description,
        "Traffic between ephemeral ports: 192.168.1.5:50000 -> 93.184.216.34:60000"
    );
    assert!(r.evaluate(&sample_event(lan(), 49151, wan(), 60000, Some("p"))).is_none());
}

#[test]
fn unknown_process_rule() {
    let r = UnknownProcessRule;
    let m = r.evaluate(&sample_event(lan(), 1000, wan(), 443, None)).unwrap();
    assert_eq!(m.severity, AlertSeverity::Medium);
    assert_eq!(m.description, "Connection from unknown process: 192.168.1.5 -> 93.184.216.34:443");
    assert!(r.evaluate(&sample_event(lan(), 1000, wan(), 443, Some("curl"))).is_none());
}

#[test]
fn dns_query_rule() {
    let r = DnsQueryRule;
    let m = r.evaluate(&sample_event(lan(), 5353, wan(), 53, Some("x"))).unwrap();
    assert_eq!(m.severity, AlertSeverity::Low);
    assert_eq!(m.description, "DNS query: 192.168.1.5 -> 93.184.216.34");
    assert!(r.evaluate(&sample_event(wan(), 53, lan(), 5353, Some("x"))).is_some());
    assert!(r.evaluate(&sample_event(lan(), 5353, wan(), 54, Some("x"))).is_none());
}

#[test]
fn custom_rule_fires_on_condition() {
    let r = CustomRule::new("Port 8080", AlertSeverity::High, |e: &NetworkEvent| e.destination_port == 8080);
    assert_eq!(r.name(), "Port 8080");
    let m = r.evaluate(&sample_event(lan(), 1, wan(), 8080, Some("p"))).unwrap();
    assert_eq!(m.description, "Rule 'Port 8080' triggered");
    assert_eq!(m.severity, AlertSeverity::High);
    assert!(r.evaluate(&sample_event(lan(), 1, wan(), 8081, Some("p"))).is_none());
}

#[test]
fn engine_rules_in_order() {
    let mut engine = RuleEngine::new();
    let names: Vec<String> = engine.get_rules().iter().map(|r| r.name().to_string()).collect();
    assert_eq!(
        names,
        vec!["Suspicious Port", "Private IP Egress", "High Port Traffic", "Unknown Process", "DNS Query"]
    );
    engine.add_rule(Box::new(CustomRule::new("Mine", AlertSeverity::Low, |_e: &NetworkEvent| true)));
    assert_eq!(engine.get_rules().len(), 6);
    assert_eq!(engine.get_rules()[5].name(), "Mine");
    assert_eq!(RuleEngine::default().get_rules().len(), 5);
}

#[test]
fn new_alert_defaults() {
    let a = Alert::new(AlertSeverity::High, "Title", "Text");
    assert_eq!(a.severity, AlertSeverity::High);
    assert_eq!(a.title, "Title");
    assert_eq!(a.description, "Text");
    assert!(a.source_ip.is_none() && a.port.is_none() && a.raw_event.is_none());
    assert!(!a.acknowledged);
    let b = Alert::new(AlertSeverity::High, "Title", "Text");
    assert_ne!(a.id, b.id);
}

fn titled(title: &str, id: u128) -> Alert {
    let mut a = Alert::new(AlertSeverity::Low, title, "");
    a.id = id;
    a
}

#[test]
fn alert_store_drops_oldest_when_full() {
    let mut m = AlertManager::new(2);
    m.push(titled("a", 1));
    m.push(titled("b", 2));
    m.push(titled("c", 3));
    let titles: Vec<&str> = m.get_alerts().iter().map(|a| a.title.as_str()).collect();
    assert_eq!(titles, vec!["b", "c"]);
}

#[test]
fn alert_store_acknowledge() {
    let mut m = AlertManager::new(10);
    m.push(titled("a", 1));
    m.push(titled("b", 2));
    m.push(titled("c", 3));
    assert_eq!(m.get_unacknowledged().len(), 3);
    assert!(m.acknowledge(2));
    assert!(!m.acknowledge(99));
    let left: Vec<&str> = m.get_unacknowledged().iter().map(|a| a.title.as_str()).collect();
    assert_eq!(left, vec!["a", "c"]);
    assert!(m.get_alerts()[1].acknowledged);
    // acknowledging again changes nothing
    assert!(m.acknowledge(2));
    assert_eq!(m.get_unacknowledged().len(), 2);
    m.clear();
    assert!(m.get_alerts().is_empty());
}

#[test]
fn detector_counts_and_alerts() {
    let mut d = ThreatDetector::new();
    assert_eq!(d.connections_seen(), 0);
    let ev = sample_event(lan(), 50000, wan(), 22, None);
    let alerts = d.analyze(&ev, Some("{}".to_string()));
    assert_eq!(d.connections_seen(), 1);
    let titles: Vec<&str> = alerts.iter().map(|a| a.title.as_str()).collect();
    assert_eq!(titles, vec!["Suspicious Port", "Unknown Process"]);
    let a = &alerts[0];
    assert_eq!(a.source_ip, Some(lan()));
    assert_eq!(a.destination_ip, Some(wan()));
    assert_eq!(a.port, Some(22));
    assert_eq!(a.protocol.as_deref(), Some("TCP"));
    assert_eq!(a.raw_event.as_deref(), Some("{}"));
    assert!(!a.acknowledged);
    let quiet = sample_event(lan(), 50000, wan(), 443, Some("browser"));
    assert!(d.analyze(&quiet, None).is_empty());
    assert_eq!(d.connections_seen(), 2);
}

fn now_micros_for_test() -> i64 {
    std::time::SystemTime::now().duration_since(std::time::UNIX_EPOCH).unwrap().as_micros() as i64
}

#[test]
fn detector_port_scan_candidates() {
    let mut d = ThreatDetector::new();
    let scanner = IpAddress::from_v4_octets(10, 9, 9, 9);
    for port in 1000..1012u16 {
        let mut ev = sample_event(scanner, 40000, wan(), port, Some("nmap"));
        ev.timestamp = now_micros_for_test();
        d.analyze(&ev, None);
    }
    // the same port again adds nothing
    let mut ev = sample_event(scanner, 40000, wan(), 1000, Some("nmap"));
    ev.timestamp = now_micros_for_test();
    d.analyze(&ev, None);
    let mut other = sample_event(lan(), 40000, wan(), 80, Some("web"));
    other.timestamp = now_micros_for_test();
    d.analyze(&other, None);
    assert_eq!(d.get_port_scan_candidates(), vec![(scanner, 12)]);
}

#[test]
fn detector_drops_old_scan_records() {
    let mut d = ThreatDetector::new();
    let scanner = IpAddress::from_v4_octets(10, 9, 9, 9);
    for port in 1000..1012u16 {
        // seen two minutes ago: pruned at once
        let mut ev = sample_event(scanner, 40000, wan(), port, Some("nmap"));
        ev.timestamp = now_micros_for_test() - 120_000_000;
        d.analyze(&ev, None);
    }
    assert!(d.get_port_scan_candidates().is_empty());
}

#[test]
fn detector_reports_port_scan_at_hundred_ports() {
    let mut d = ThreatDetector::new();
    let scanner = IpAddress::from_v4_octets(10, 7, 7, 7);
    for port in 2000..2099u16 {
        let mut ev = sample_event(scanner, 40000, wan(), port, Some("nmap"));
        ev.timestamp = now_micros_for_test();
        let alerts = d.analyze(&ev, None);
        assert!(alerts.iter().all(|a| a.title != "Port Scan Detected"));
    }
    let mut ev = sample_event(scanner, 40000, wan(), 2099, Some("nmap"));
    ev.timestamp = now_micros_for_test();
    let alerts = d.analyze(&ev, None);
    let last = alerts.last().unwrap();
    assert_eq!(last.title, "Port Scan Detected");
    assert_eq!(last.severity, AlertSeverity::High);
    assert_eq!(last.source_ip, Some(scanner));
    assert_eq!(last.description, "Possible port scan from 10.7.7.7: 100 distinct ports probed within a minute");
    assert_eq!(d.connections_seen(), 100);
}

#[test]
fn custom_rule_severity_and_text() {
    let r = CustomRule::new("Big", AlertSeverity::Critical, |e: &NetworkEvent| e.packet_size > 50);
    let m = r.evaluate(&sample_event(lan(), 1, wan(), 2, Some("p"))).unwrap();
    assert_eq!((m.rule_name.as_str(), m.severity, m.description.as_str()), ("Big", AlertSeverity::Critical, "Rule 'Big' triggered"));
}

#[test]
fn detector_counts_every_call() {
    let mut d = ThreatDetector::new();
    for k in 0..40u16 {
        let ev = sample_event(lan(), 1000 + k, wan(), 443, Some("p"));
        d.analyze(&ev, None);
        assert_eq!(d.connections_seen(), (k + 1) as u64);
    }
}
