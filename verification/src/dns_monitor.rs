//! Watching DNS traffic: alerts for DNS from unexpected processes and for
//! queries of malware or suspicious domains.
use vstd::prelude::*;
use crate::alerts::{Alert, AlertSeverity};
use crate::clock::{new_uuid, now_micros};
use crate::ipaddr::{ip_text, push_ip_text};
use crate::models::{NetworkEvent, opt_text, protocol_text};
use crate::reputation::{
    DomainReputation, DomainRisk, HISTORY_LIMIT, QueryView, RiskView, assess, history_after,
    opt_view, recorded_factors, recorded_score, risk_view,
};
use crate::text::{
    chars_equal, chars_of, decimal, join, join_strings, lowercase, push_char, push_decimal, push_str,
    string_of, views,
};

verus! {

/// The processes whose DNS traffic is expected: the system resolvers.
pub open spec fn resolver_process(p: Seq<char>) -> bool {
    p == "svchost.exe"@ || p == "systemd-resolve"@ || p == "dnscache"@ || p == "systemd"@
}

/// Whether an event is DNS traffic (port 53 at either end) of no known
/// resolver process.
pub open spec fn unexpected_dns(e: NetworkEvent) -> bool {
    &&& (e.destination_port == 53 || e.source_port == 53)
    &&& !(opt_text(e.process_name) matches Some(p) && resolver_process(p))
}

/// `DNS query from a:p to b:q (protocol: P)`
pub open spec fn dns_traffic_text(e: NetworkEvent) -> Seq<char> {
    "DNS query from "@ + ip_text(e.source_ip) + seq![':'] + decimal(e.source_port as nat) + " to "@
        + ip_text(e.destination_ip) + seq![':'] + decimal(e.destination_port as nat)
        + " (protocol: "@ + protocol_text(e.protocol) + seq![')']
}

/// `Suspicious DNS query: d (risk score: s) — f1; f2`
pub open spec fn suspicious_text(domain: Seq<char>, score: u32, factors: Seq<Seq<char>>) -> Seq<char> {
    "Suspicious DNS query: "@ + domain + " (risk score: "@ + decimal(score as nat) + ") — "@ + join(
        factors,
        "; "@,
    )
}

/// Whether `a` is an alert about a domain query: the given severity, title
/// and description, port 53, protocol `DNS`, no addresses, process or raw
/// event, not acknowledged.
pub open spec fn domain_alert(a: Alert, severity: AlertSeverity, title: Seq<char>, description: Seq<char>) -> bool {
    &&& a.severity == severity
    &&& a.title@ == title
    &&& a.description@ == description
    &&& a.source_ip is None
    &&& a.destination_ip is None
    &&& a.port == Some(53u16)
    &&& opt_text(a.protocol) == Some("DNS"@)
    &&& a.process_name is None
    &&& a.raw_event is None
    &&& !a.acknowledged
}

/// The alert that recording a query of `domain` with risk `r` raises, if
/// any: critical for malware, high for a suspicious domain.
pub open spec fn domain_alert_for(a: Option<Alert>, domain: Seq<char>, r: RiskView) -> bool {
    match r {
        RiskView::Malware => a matches Some(al) && domain_alert(
            al,
            AlertSeverity::Critical,
            "Malware Domain Detected"@,
            "DNS query to known malware domain: "@ + domain,
        ),
        RiskView::Suspicious(score, factors) => a matches Some(al) && domain_alert(
            al,
            AlertSeverity::High,
            "Suspicious Domain"@,
            suspicious_text(domain, score, factors),
        ),
        _ => a is None,
    }
}

fn same_text(a: &str, b: &str) -> (r: bool)
    ensures
        r == (a@ == b@),
{
    let x = chars_of(a);
    let y = chars_of(b);
    chars_equal(&x, &y)
}

fn copy_text(o: &Option<String>) -> (r: Option<String>)
    ensures
        opt_text(r) == opt_text(*o),
{
    match o {
        Some(s) => Some(s.clone()),
        None => None,
    }
}

/// Watches DNS traffic and queried domains.
pub struct DnsMonitor {
    reputation: DomainReputation,
}

impl DnsMonitor {
    /// The domain reputation the monitor consults.
    pub closed spec fn reputation_state(&self) -> DomainReputation {
        self.reputation
    }

    pub fn new(reputation: DomainReputation) -> (m: Self)
        ensures
            m.reputation_state() == reputation,
    {
        DnsMonitor { reputation }
    }

    /// An alert for DNS traffic of no known resolver process: low severity,
    /// titled `DNS Traffic`, with the event's addresses, its destination
    /// port, protocol `DNS`, its process, and `raw_event`; none for other
    /// traffic.
    pub fn analyze_dns_traffic(&self, event: &NetworkEvent, raw_event: String) -> (r: Option<Alert>)
        ensures
            !unexpected_dns(*event) ==> r is None,
            unexpected_dns(*event) ==> (r matches Some(a) && {
                &&& a.severity == AlertSeverity::Low
                &&& a.title@ == "DNS Traffic"@
                &&& a.description@ == dns_traffic_text(*event)
                &&& a.source_ip == Some(event.source_ip)
                &&& a.destination_ip == Some(event.destination_ip)
                &&& a.port == Some(event.destination_port)
                &&& opt_text(a.protocol) == Some("DNS"@)
                &&& opt_text(a.process_name) == opt_text(event.process_name)
                &&& opt_text(a.raw_event) == Some(raw_event@)
                &&& !a.acknowledged
            }),
    {
        let is_dns = event.destination_port == 53 || event.source_port == 53;
        if !is_dns {
            return None;
        }
        match &event.process_name {
            Some(process) => {
                let p = process.as_str();
                if same_text(p, "svchost.exe") || same_text(p, "systemd-resolve") || same_text(
                    p,
                    "dnscache",
                ) || same_text(p, "systemd") {
                    return None;
                }
            },
            None => {},
        }
        let mut description = string_of("DNS query from ");
        push_ip_text(&mut description, event.source_ip);
        push_char(&mut description, ':');
        push_decimal(&mut description, event.source_port as u64);
        push_str(&mut description, " to ");
        push_ip_text(&mut description, event.destination_ip);
        push_char(&mut description, ':');
        push_decimal(&mut description, event.destination_port as u64);
        push_str(&mut description, " (protocol: ");
        let proto = event.protocol.to_text();
        push_str(&mut description, proto.as_str());
        push_char(&mut description, ')');
        assert(description@ =~= dns_traffic_text(*event));
        Some(
            Alert {
                id: new_uuid(),
                timestamp: now_micros(),
                severity: AlertSeverity::Low,
                title: string_of("DNS Traffic"),
                description,
                source_ip: Some(event.source_ip),
                destination_ip: Some(event.destination_ip),
                port: Some(event.destination_port),
                protocol: Some(string_of("DNS")),
                process_name: copy_text(&event.process_name),
                raw_event: Some(raw_event),
                acknowledged: false,
            },
        )
    }

    /// The risk of a domain, from the monitor's reputation.
    pub fn check_domain(&self, domain: &str, high_entropy: Option<String>) -> (r: DomainRisk)
        ensures
            risk_view(r) == assess(
                self.reputation_state().malware(),
                self.reputation_state().safe(),
                lowercase(domain@),
                opt_view(high_entropy),
            ),
    {
        self.reputation.check(domain, high_entropy)
    }

    /// Records a query of `domain` in the reputation's history, and raises
    /// an alert when the domain is malware or suspicious (see
    /// [`domain_alert_for`]).
    pub fn record_domain(&mut self, domain: &str, high_entropy: Option<String>) -> (r: Option<Alert>)
        ensures
            final(self).reputation_state().malware() == old(self).reputation_state().malware(),
            final(self).reputation_state().safe() == old(self).reputation_state().safe(),
            exists|t: i64|
                #![trigger history_after(old(self).reputation_state().history(), QueryView { domain: domain@, timestamp: t, risk_score: recorded_score(assess(old(self).reputation_state().malware(), old(self).reputation_state().safe(), lowercase(domain@), opt_view(high_entropy))), risk_factors: recorded_factors(assess(old(self).reputation_state().malware(), old(self).reputation_state().safe(), lowercase(domain@), opt_view(high_entropy))) })]
                final(self).reputation_state().history() == history_after(
                    old(self).reputation_state().history(),
                    QueryView {
                        domain: domain@,
                        timestamp: t,
                        risk_score: recorded_score(
                            assess(
                                old(self).reputation_state().malware(),
                                old(self).reputation_state().safe(),
                                lowercase(domain@),
                                opt_view(high_entropy),
                            ),
                        ),
                        risk_factors: recorded_factors(
                            assess(
                                old(self).reputation_state().malware(),
                                old(self).reputation_state().safe(),
                                lowercase(domain@),
                                opt_view(high_entropy),
                            ),
                        ),
                    },
                ),
            domain_alert_for(
                r,
                domain@,
                assess(
                    old(self).reputation_state().malware(),
                    old(self).reputation_state().safe(),
                    lowercase(domain@),
                    opt_view(high_entropy),
                ),
            ),
    {
        let again = copy_text(&high_entropy);
        self.reputation.record_query(domain, high_entropy);
        let risk = self.reputation.check(domain, again);
        match risk {
            DomainRisk::Malware => {
                let mut description = string_of("DNS query to known malware domain: ");
                push_str(&mut description, domain);
                Some(
                    Alert {
                        id: new_uuid(),
                        timestamp: now_micros(),
                        severity: AlertSeverity::Critical,
                        title: string_of("Malware Domain Detected"),
                        description,
                        source_ip: None,
                        destination_ip: None,
                        port: Some(53),
                        protocol: Some(string_of("DNS")),
                        process_name: None,
                        raw_event: None,
                        acknowledged: false,
                    },
                )
            },
            DomainRisk::Suspicious(score, factors) => {
                let mut description = string_of("Suspicious DNS query: ");
                push_str(&mut description, domain);
                push_str(&mut description, " (risk score: ");
                push_decimal(&mut description, score as u64);
                push_str(&mut description, ") — ");
                let joined = join_strings(&factors, "; ");
                push_str(&mut description, joined.as_str());
                assert(description@ =~= suspicious_text(domain@, score, views(factors@)));
                Some(
                    Alert {
                        id: new_uuid(),
                        timestamp: now_micros(),
                        severity: AlertSeverity::High,
                        title: string_of("Suspicious Domain"),
                        description,
                        source_ip: None,
                        destination_ip: None,
                        port: Some(53),
                        protocol: Some(string_of("DNS")),
                        process_name: None,
                        raw_event: None,
                        acknowledged: false,
                    },
                )
            },
            _ => None,
        }
    }

    /// The reputation the monitor consults.
    pub fn reputation(&self) -> (r: &DomainReputation)
        ensures
            *r == self.reputation_state(),
    {
        &self.reputation
    }
}

/// A law of the DNS monitor: DNS traffic is recognised by port 53 at either
/// end, so an event and the same event with its ports swapped are treated
/// alike; traffic of no process, with port 53 at either end, is always
/// reported, and traffic of the system resolvers never is.
pub proof fn lemma_dns_either_direction(e: NetworkEvent)
    ensures
        unexpected_dns(e) == unexpected_dns(
            NetworkEvent { source_port: e.destination_port, destination_port: e.source_port, ..e },
        ),
        (e.source_port == 53 || e.destination_port == 53) && e.process_name is None ==> unexpected_dns(e),
        e.source_port != 53 && e.destination_port != 53 ==> !unexpected_dns(e),
        (opt_text(e.process_name) == Some("svchost.exe"@) || opt_text(e.process_name) == Some(
            "systemd-resolve"@,
        ) || opt_text(e.process_name) == Some("dnscache"@) || opt_text(e.process_name) == Some(
            "systemd"@,
        )) ==> !unexpected_dns(e),
{
}

} // verus!
