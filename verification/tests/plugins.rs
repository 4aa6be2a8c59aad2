use netsentinel::alerts::{Alert, AlertSeverity};
use netsentinel::ipaddr::IpAddress;
use netsentinel::models::{NetworkEvent, Protocol};
use netsentinel::plugins::{PluginMetadata, PluginRegistry, SecurityPlugin};

struct PortWatch {
    name: &'static str,
    port: u16,
}

impl SecurityPlugin for PortWatch {
    fn name(&self) -> &str {
        self.name
    }

    fn version(&self) -> &str {
        "2.1.0"
    }

    fn analyze(&self, event: &NetworkEvent) -> Option<Alert> {
        if event.destination_port == self.port {
            Some(Alert::new(AlertSeverity::Medium, self.name, "watched port"))
        } else {
            None
        }
    }
}

struct Silent;

impl SecurityPlugin for Silent {
    fn name(&self) -> &str {
        "silent"
    }

    fn analyze(&self, _event: &NetworkEvent) -> Option<Alert> {
        None
    }
}

fn plugin_event(port: u16) -> NetworkEvent {
    NetworkEvent {
        id: 0,
        timestamp: 0,
        source_ip: IpAddress::from_v4_octets(10, 0, 0, 1),
        destination_ip: IpAddress::from_v4_octets(10, 0, 0, 2),
        source_port: 1234,
        destination_port: port,
        protocol: Protocol::TCP,
        packet_size: 10,
        process_id: None,
        process_name: None,
        dns_query_domain: None,
        dns_response_ips: Vec::new(),
        dns_response_code: None,
    }
}

#[test]
fn registry_lists_in_order_with_versions() {
    let mut r = PluginRegistry::new();
    r.register(Box::new(PortWatch { name: "web", port: 80 }));
    r.register(Box::new(Silent));
    assert_eq!(
        r.list_plugins(),
        vec![("web".to_string(), "2.1.0".to_string()), ("silent".to_string(), "0.1.0".to_string())]
    );
}

#[test]
fn registry_runs_every_plugin() {
    let mut r = PluginRegistry::new();
    r.register(Box::new(PortWatch { name: "web", port: 80 }));
    r.register(Box::new(Silent));
    r.register(Box::new(PortWatch { name: "also-web", port: 80 }));
    let alerts = r.analyze(&plugin_event(80));
    let titles: Vec<&str> = alerts.iter().map(|a| a.title.as_str()).collect();
    assert_eq!(titles, vec!["web", "also-web"]);
    assert!(r.analyze(&plugin_event(81)).is_empty());
}

#[test]
fn unregister_removes_first_by_name() {
    let mut r = PluginRegistry::new();
    r.register(Box::new(PortWatch { name: "dup", port: 1 }));
    r.register(Box::new(Silent));
    r.register(Box::new(PortWatch { name: "dup", port: 2 }));
    r.unregister("dup");
    let names: Vec<String> = r.list_plugins().into_iter().map(|(n, _)| n).collect();
    assert_eq!(names, vec!["silent", "dup"]);
    r.unregister("absent");
    assert_eq!(r.list_plugins().len(), 2);
    // the remaining "dup" is the one watching port 2
    assert_eq!(r.analyze(&plugin_event(2)).len(), 1);
    assert!(r.analyze(&plugin_event(1)).is_empty());
}

#[test]
fn plugin_defaults() {
    let s = Silent;
    assert_eq!(s.version(), "0.1.0");
    assert_eq!(s.description(), "");
    assert!(s.on_startup().is_ok());
    assert!(s.on_shutdown().is_ok());
    let m = PluginMetadata { name: "n".into(), version: "v".into(), description: "d".into() };
    assert_eq!(m.name, "n");
}

#[test]
fn raised_alerts_keep_order() {
    let outs = vec![
        Some(Alert::new(AlertSeverity::Low, "one", "")),
        None,
        Some(Alert::new(AlertSeverity::High, "two", "")),
        None,
    ];
    let alerts = netsentinel::plugins::raised_alerts(outs);
    let titles: Vec<&str> = alerts.iter().map(|a| a.title.as_str()).collect();
    assert_eq!(titles, vec!["one", "two"]);
    assert!(netsentinel::plugins::raised_alerts(Vec::new()).is_empty());
}
