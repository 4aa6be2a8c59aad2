use netsentinel::desktop::{
    port_scan_lines, select_default_interface, uptime_secs, validate_interface_choice, RecentLog,
};
use netsentinel::ipaddr::IpAddress;
use netsentinel::models::Protocol;
use netsentinel::pipeline::next_worker;
use netsentinel::process::{parse_u32, parse_unsigned_chars, LinuxProcessMonitor};

fn names(v: &[&str]) -> Vec<String> {
    v.iter().map(|s| s.to_string()).collect()
}

#[test]
fn default_interface_skips_loopback_and_bluetooth() {
    let list = names(&["lo (Loopback)", "Bluetooth PAN", "eth0", "wlan0"]);
    assert_eq!(select_default_interface(&list), Ok("eth0".to_string()));
    let list = names(&["LOOPBACK", "bluetooth-monitor"]);
    assert_eq!(select_default_interface(&list), Ok("LOOPBACK".to_string()));
}

#[test]
fn default_interface_needs_one() {
    assert_eq!(
        select_default_interface(&Vec::new()),
        Err("No network interfaces found. On Windows, make sure Npcap is installed.".to_string())
    );
}

#[test]
fn interface_choice_must_exist() {
    let list = names(&["eth0", "wlan0"]);
    assert_eq!(validate_interface_choice(&list, "wlan0"), Ok("Selected interface: wlan0".to_string()));
    assert_eq!(validate_interface_choice(&list, "eth1"), Err("Interface not found: eth1".to_string()));
}

#[test]
fn uptime_in_whole_seconds() {
    assert_eq!(uptime_secs(10_500_000, 1_000_000), 9);
    assert_eq!(uptime_secs(1_000_000, 1_000_000), 0);
    assert_eq!(uptime_secs(1_000_000, 5_000_000), 0);
}

#[test]
fn scan_candidate_lines() {
    let lines = port_scan_lines(&vec![(IpAddress::from_v4_octets(10, 0, 0, 9), 12), (IpAddress::V6(1), 10)]);
    assert_eq!(lines, vec!["10.0.0.9: 12 ports".to_string(), "::1: 10 ports".to_string()]);
}

#[test]
fn recent_log_keeps_newest() {
    let mut log = RecentLog::new(3);
    for i in 0..5 {
        log.push(i);
    }
    assert_eq!(log.items(), &[2, 3, 4]);
    assert_eq!(log.len(), 3);
    log.clear();
    assert_eq!(log.len(), 0);
    log.push(9);
    assert_eq!(log.items(), &[9]);
}

#[test]
fn round_robin_workers() {
    assert_eq!(next_worker(0, 3), 1);
    assert_eq!(next_worker(2, 3), 0);
    assert_eq!(next_worker(0, 1), 0);
    let mut w = 1;
    for _ in 0..4 {
        w = next_worker(w, 4);
    }
    assert_eq!(w, 1);
}

const TCP_TABLE: &str = "  sl  local_address rem_address   st tx_queue rx_queue tr tm->when retrnsmt   uid  timeout inode\n   0: 0100007F:0035 00000000:0000 0A 00000000:00000000 00:00000000 00000000   101        0 23456 1 0000000000000000 100 0 0 10 0\n   1: 00000000:1F90 00000000:0000 0A 00000000:00000000 00:00000000 00000000  1000        0 98765 1 0000000000000000 100 0 0 10 0\n   2: 0100007F:1f91 00000000:0000 0A 00000000:00000000 00:00000000 00000000  1000        0 notanumber 1\n";

#[test]
fn socket_inode_by_port() {
    assert_eq!(LinuxProcessMonitor::socket_inode_for_port(TCP_TABLE, 53), Some(23456));
    assert_eq!(LinuxProcessMonitor::socket_inode_for_port(TCP_TABLE, 8080), Some(98765));
    // lowercase hex matches too; an unreadable inode gives nothing
    assert_eq!(LinuxProcessMonitor::socket_inode_for_port(TCP_TABLE, 8081), None);
    assert_eq!(LinuxProcessMonitor::socket_inode_for_port(TCP_TABLE, 22), None);
    assert_eq!(LinuxProcessMonitor::socket_inode_for_port("", 53), None);
}

#[test]
fn socket_table_heading_is_skipped() {
    let table = "a 0:0035 c d e f g h i 111\nx 0:0035 c d e f g h i 222\r\n";
    assert_eq!(LinuxProcessMonitor::socket_inode_for_port(table, 53), Some(222));
    let short = "heading\n 0: 0100007F:0035 too few fields\n";
    assert_eq!(LinuxProcessMonitor::socket_inode_for_port(short, 53), None);
}

#[test]
fn socket_table_paths() {
    assert_eq!(LinuxProcessMonitor::socket_table_path(Protocol::TCP).as_deref(), Some("/proc/net/tcp"));
    assert_eq!(LinuxProcessMonitor::socket_table_path(Protocol::UDP).as_deref(), Some("/proc/net/udp"));
    assert_eq!(LinuxProcessMonitor::socket_table_path(Protocol::ICMP), None);
}

#[test]
fn numbers_parse_like_std() {
    for s in ["0", "42", "+7", "4294967295", "4294967296", "", "+", "-1", "12a", " 1", "007"] {
        assert_eq!(parse_u32(s), s.parse::<u32>().ok(), "input {:?}", s);
    }
}

#[test]
fn socket_links_and_cmdlines() {
    assert!(LinuxProcessMonitor::links_to_socket("socket:[23456]", 23456));
    assert!(!LinuxProcessMonitor::links_to_socket("socket:[234567]", 23456));
    assert!(!LinuxProcessMonitor::links_to_socket("/dev/null", 1));
    assert_eq!(LinuxProcessMonitor::name_from_cmdline("\0/usr/bin/curl\0-s\0\0"), "/usr/bin/curl\0-s");
    assert_eq!(LinuxProcessMonitor::name_from_cmdline("\0\0"), "");
    assert_eq!(LinuxProcessMonitor::fallback_name(42), "pid_42");
}

#[test]
fn process_records() {
    let _monitor = LinuxProcessMonitor::new();
    let found = LinuxProcessMonitor::process_info(Some((77, "nginx".to_string())), Some(5)).unwrap();
    assert_eq!((found.pid, found.name.as_str(), found.path.as_str(), found.user.as_str()), (77, "nginx", "/proc/77/exe", ""));
    let by_pid = LinuxProcessMonitor::process_info(None, Some(5)).unwrap();
    assert_eq!((by_pid.pid, by_pid.name.as_str(), by_pid.path.as_str()), (5, "pid_5", "/proc/5/exe"));
    assert!(LinuxProcessMonitor::process_info(None, None).is_none());
}

#[test]
fn written_numbers_read_back() {
    for n in [0u64, 7, 53, 8080, 65535] {
        let dec: Vec<char> = n.to_string().chars().collect();
        let hex: Vec<char> = format!("{:x}", n).chars().collect();
        assert_eq!(parse_unsigned_chars(&dec, 10, 65535), Some(n));
        assert_eq!(parse_unsigned_chars(&hex, 16, 65535), Some(n));
    }
    let too_big: Vec<char> = "10000".chars().collect();
    assert_eq!(parse_unsigned_chars(&too_big, 16, 65535), None);
    let upper: Vec<char> = "1F90".chars().collect();
    assert_eq!(parse_unsigned_chars(&upper, 16, 65535), Some(8080));
}
