use netsentinel::activity::{ProcessActivity, PROCESS_SAMPLE_LIMIT};
use netsentinel::alerts::{Alert, AlertSeverity};
use netsentinel::capture::{capture_step, device_for, CaptureRead, CaptureStep, DeviceEntry};
use netsentinel::console::{alert_report, chosen_interface, progress_line};
use netsentinel::desktop::{alert_responses, connection_responses, dns_history_note, AlertResponse};
use netsentinel::ipaddr::IpAddress;
use netsentinel::models::{NetworkEvent, Protocol};
use netsentinel::parser::PacketParser;
use netsentinel::reputation::byte_counts;

#[test]
fn interface_choice_from_answer() {
    assert_eq!(chosen_interface(3, "2\n"), 2);
    assert_eq!(chosen_interface(3, "  1  "), 1);
    assert_eq!(chosen_interface(3, "\n"), 0);
    assert_eq!(chosen_interface(3, "7\n"), 0);
    assert_eq!(chosen_interface(3, "x1"), 0);
    assert_eq!(chosen_interface(3, "+1"), 1);
}

#[test]
fn alert_report_lines_in_order() {
    let mut a = Alert::new(AlertSeverity::High, "Suspicious Port", "Connection on suspicious port 22");
    a.source_ip = Some(IpAddress::from_v4_octets(10, 0, 0, 1));
    a.port = Some(22);
    let lines = alert_report(3, &a);
    let bar30 = "━".repeat(30);
    assert_eq!(
        lines,
        vec![
            String::new(),
            format!("━━━ ALERT #3 {}", bar30),
            "  Severity:  HIGH".to_string(),
            "  Title:     Suspicious Port".to_string(),
            "  Detail:    Connection on suspicious port 22".to_string(),
            "  Source:    10.0.0.1".to_string(),
            "  Port:      22".to_string(),
            "━".repeat(39),
        ]
    );
}

#[test]
fn progress_every_hundred_events() {
    assert_eq!(
        progress_line(200, 5, 1).as_deref(),
        Some("\r  Events: 200 | Alerts: 5 | Port scans tracked: 1")
    );
    assert!(progress_line(201, 5, 1).is_none());
}

#[test]
fn activity_window_totals() {
    let mut act = ProcessActivity::new();
    let now: i64 = 1_000_000_000_000;
    act.record("curl", now - 90_000_000, 500);
    act.record("curl", now - 30_000_000, 100);
    act.record("curl", now - 1, 50);
    act.record("ssh", now, 7);
    assert_eq!(act.window("curl", now), (2, 150));
    assert_eq!(act.window("ssh", now), (1, 7));
    assert_eq!(act.window("none", now), (0, 0));
    // 59.9 seconds old still counts; a full minute does not
    act.record("dd", now - 59_999_999, 1);
    act.record("dd", now - 60_000_000, 2);
    assert_eq!(act.window("dd", now), (1, 1));
}

#[test]
fn activity_keeps_latest_thousand() {
    let mut act = ProcessActivity::new();
    for i in 0..(PROCESS_SAMPLE_LIMIT as i64 + 10) {
        act.record("p", i, 1);
    }
    assert_eq!(act.window("p", 30_000_000), (PROCESS_SAMPLE_LIMIT as u64, PROCESS_SAMPLE_LIMIT as u128));
}

#[test]
fn device_selection_by_name_or_description() {
    let devices = vec![
        DeviceEntry { name: "\\Device\\NPF_{1}".to_string(), desc: Some("Ethernet".to_string()) },
        DeviceEntry { name: "wlan0".to_string(), desc: None },
    ];
    assert_eq!(device_for(&devices, "Ethernet"), Ok(0));
    assert_eq!(device_for(&devices, "wlan0"), Ok(1));
    assert_eq!(device_for(&devices, "eth9"), Err("Interface not found: eth9".to_string()));
}

#[test]
fn capture_steps() {
    let p = PacketParser::new();
    assert!(matches!(capture_step(&p, CaptureRead::Failed), CaptureStep::Stop));
    assert!(matches!(capture_step(&p, CaptureRead::TimedOut), CaptureStep::ReadAgain));
    assert!(matches!(capture_step(&p, CaptureRead::Packet(vec![0, 1, 2])), CaptureStep::ReadAgain));
}

fn listed_event(dport: u16, domain: Option<&str>, rcode: Option<u16>) -> NetworkEvent {
    NetworkEvent {
        id: 1,
        timestamp: 0,
        source_ip: IpAddress::from_v4_octets(192, 168, 0, 2),
        destination_ip: IpAddress::from_v4_octets(9, 9, 9, 9),
        source_port: 40000,
        destination_port: dport,
        protocol: Protocol::UDP,
        packet_size: 80,
        process_id: None,
        process_name: Some("dig".to_string()),
        dns_query_domain: domain.map(|d| d.to_string()),
        dns_response_ips: Vec::new(),
        dns_response_code: rcode,
    }
}

#[test]
fn responses_newest_first() {
    let mut a = Alert::new(AlertSeverity::Low, "first", "");
    a.id = 0x0123_4567_89ab_cdef_0011_2233_4455_6677;
    a.timestamp = 0;
    a.destination_ip = Some(IpAddress::V6(1));
    let mut b = Alert::new(AlertSeverity::Critical, "second", "d");
    b.timestamp = 1_700_000_000_000_000;
    let r: Vec<AlertResponse> = alert_responses(&[a, b]);
    assert_eq!(r.len(), 2);
    assert_eq!(r[0].title, "second");
    assert_eq!(r[0].severity, "CRITICAL");
    assert_eq!(r[1].id, "01234567-89ab-cdef-0011-223344556677");
    assert_eq!(r[1].timestamp, "1970-01-01T00:00:00+00:00");
    assert_eq!(r[1].destination_ip.as_deref(), Some("::1"));
    assert!(r[1].source_ip.is_none());
    let c = connection_responses(&[listed_event(53, None, None), listed_event(443, None, None)]);
    assert_eq!(c[0].destination_port, 443);
    assert_eq!(c[1].protocol, "UDP");
    assert_eq!(c[1].source_ip, "192.168.0.2");
    assert_eq!(c[1].process_name.as_deref(), Some("dig"));
}

#[test]
fn dns_history_notes() {
    assert_eq!(
        dns_history_note(&listed_event(53, Some("a.com"), Some(0))).as_deref(),
        Some("Observed live DNS query/response")
    );
    assert_eq!(
        dns_history_note(&listed_event(53, Some("a.com"), Some(3))).as_deref(),
        Some("Observed DNS packet with non-zero response code")
    );
    assert!(dns_history_note(&listed_event(53, None, Some(0))).is_none());
    assert!(dns_history_note(&listed_event(80, Some("a.com"), Some(0))).is_none());
}

#[test]
fn byte_frequencies() {
    let c = byte_counts(b"abca");
    assert_eq!(c.len(), 256);
    assert_eq!(c[b'a' as usize], 2);
    assert_eq!(c[b'b' as usize], 1);
    assert_eq!(c[b'z' as usize], 0);
}

#[test]
fn dns_history_newest_first() {
    let mut a = listed_event(53, Some("old.example"), Some(0));
    a.dns_response_ips = vec![IpAddress::from_v4_octets(1, 2, 3, 4)];
    let b = listed_event(443, Some("web.example"), Some(0));
    let c = listed_event(53, Some("new.example"), Some(2));
    let h = netsentinel::desktop::dns_history(&[a, b, c]);
    assert_eq!(h.len(), 2);
    assert_eq!(h[0].domain, "new.example");
    assert_eq!(h[0].risk_factors, vec!["Observed DNS packet with non-zero response code".to_string()]);
    assert_eq!(h[0].response_code, Some(2));
    assert_eq!(h[1].domain, "old.example");
    assert_eq!(h[1].risk_factors, vec!["Observed live DNS query/response".to_string()]);
    assert_eq!(h[1].resolver, "9.9.9.9");
    assert_eq!(h[1].response_ips, vec!["1.2.3.4".to_string()]);
    assert_eq!(h[1].timestamp, "1970-01-01T00:00:00+00:00");
}
