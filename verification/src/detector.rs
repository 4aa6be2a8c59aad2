//! The threat detector: counts connections, tracks port scans and per-process
//! transfer volumes, and applies the rules of its engine to each event.
use vstd::prelude::*;
use crate::alerts::{Alert, AlertSeverity};
use crate::clock::{new_uuid, now_micros};
use crate::ipaddr::{IpAddress, ip_text, push_ip_text};
use crate::models::{NetworkEvent, opt_text, protocol_text};
use crate::rules::{DetectionRule, Rule, RuleEngine};
use crate::text::{decimal, push_decimal, push_str, string_of};

verus! {

/// One source address seen probing ports: the distinct destination ports it
/// used, in first-use order, and when it was first and last seen.
pub struct ScanView {
    pub source_ip: IpAddress,
    pub ports: Seq<u16>,
    pub first_seen: i64,
    pub last_seen: i64,
}

/// Bytes counted for one process, and when counting began.
pub struct TransferView {
    pub process: Seq<char>,
    pub sent: u64,
    pub received: u64,
    pub since: i64,
}

struct PortScanAttempt {
    source_ip: IpAddress,
    target_ports: Vec<u16>,
    first_seen: i64,
    last_seen: i64,
}

impl View for PortScanAttempt {
    type V = ScanView;

    closed spec fn view(&self) -> ScanView {
        ScanView {
            source_ip: self.source_ip,
            ports: self.target_ports@,
            first_seen: self.first_seen,
            last_seen: self.last_seen,
        }
    }
}

struct DataTransferRecord {
    process_name: String,
    bytes_sent: u64,
    bytes_received: u64,
    window_start: i64,
}

impl View for DataTransferRecord {
    type V = TransferView;

    closed spec fn view(&self) -> TransferView {
        TransferView {
            process: self.process_name@,
            sent: self.bytes_sent,
            received: self.bytes_received,
            since: self.window_start,
        }
    }
}

/// The position of the first scan record for `ip`, if any.
pub open spec fn scan_of(scans: Seq<ScanView>, ip: IpAddress) -> Option<int> {
    if exists|i: int| 0 <= i < scans.len() && scans[i].source_ip == ip {
        Some(
            choose|i: int|
                0 <= i < scans.len() && scans[i].source_ip == ip && forall|j: int|
                    0 <= j < i ==> scans[j].source_ip != ip,
        )
    } else {
        None
    }
}

/// The scan records after noting `event`: the record of its source gains
/// its destination port (when new) and its time as last seen; a source
/// without a record gets one.
pub open spec fn scans_noted(scans: Seq<ScanView>, event: NetworkEvent) -> Seq<ScanView> {
    match scan_of(scans, event.source_ip) {
        Some(i) => scans.update(
            i,
            ScanView {
                ports: if scans[i].ports.contains(event.destination_port) {
                    scans[i].ports
                } else {
                    scans[i].ports.push(event.destination_port)
                },
                last_seen: event.timestamp,
                ..scans[i]
            },
        ),
        None => scans.push(
            ScanView {
                source_ip: event.source_ip,
                ports: seq![event.destination_port],
                first_seen: event.timestamp,
                last_seen: event.timestamp,
            },
        ),
    }
}

/// Whether a record first seen at `first` is less than a minute (in whole
/// seconds) old at `now`.
pub open spec fn within_minute(first: i64, now: i64) -> bool {
    now - first < 60_000_000
}

/// The records of `scans` still within a minute of `now`, in order.
pub open spec fn recent_scans(scans: Seq<ScanView>, now: i64) -> Seq<ScanView>
    decreases scans.len(),
{
    if scans.len() == 0 {
        Seq::empty()
    } else if within_minute(scans.last().first_seen, now) {
        recent_scans(scans.drop_last(), now).push(scans.last())
    } else {
        recent_scans(scans.drop_last(), now)
    }
}

/// The position of the first transfer record for `process`, if any.
pub open spec fn transfer_of(ts: Seq<TransferView>, process: Seq<char>) -> Option<int> {
    if exists|i: int| 0 <= i < ts.len() && ts[i].process == process {
        Some(
            choose|i: int|
                0 <= i < ts.len() && ts[i].process == process && forall|j: int|
                    0 <= j < i ==> ts[j].process != process,
        )
    } else {
        None
    }
}

/// Whether counting the event's bytes stays within `u64`.
pub open spec fn transfer_fits(ts: Seq<TransferView>, event: NetworkEvent) -> bool {
    match event.process_name {
        Some(p) => match transfer_of(ts, p@) {
            Some(i) => ts[i].sent + event.packet_size <= u64::MAX && ts[i].received
                + event.packet_size <= u64::MAX,
            None => event.packet_size <= u64::MAX,
        },
        None => true,
    }
}

/// The transfer records after counting `event`: an event of a known process
/// adds its size to both counts of that process, or starts its record at
/// `now`; other events change nothing.
pub open spec fn transfers_noted(ts: Seq<TransferView>, event: NetworkEvent, now: i64) -> Seq<TransferView> {
    match event.process_name {
        Some(p) => match transfer_of(ts, p@) {
            Some(i) => ts.update(
                i,
                TransferView {
                    sent: (ts[i].sent + event.packet_size) as u64,
                    received: (ts[i].received + event.packet_size) as u64,
                    ..ts[i]
                },
            ),
            None => ts.push(
                TransferView {
                    process: p@,
                    sent: event.packet_size as u64,
                    received: event.packet_size as u64,
                    since: now,
                },
            ),
        },
        None => ts,
    }
}

/// The sources that probed at least ten ports, with their port counts.
pub open spec fn scan_candidates(scans: Seq<ScanView>) -> Seq<(IpAddress, usize)>
    decreases scans.len(),
{
    if scans.len() == 0 {
        Seq::empty()
    } else if scans.last().ports.len() >= 10 {
        scan_candidates(scans.drop_last()).push(
            (scans.last().source_ip, scans.last().ports.len() as usize),
        )
    } else {
        scan_candidates(scans.drop_last())
    }
}

/// The (rule name, severity, description) of each match, in rule order,
/// for the first `n` rules with outcomes `outs`.
pub open spec fn matches_of(
    rules: Seq<Rule>,
    outs: Seq<Option<(AlertSeverity, Seq<char>)>>,
    n: int,
) -> Seq<(Seq<char>, AlertSeverity, Seq<char>)>
    decreases n,
{
    if n <= 0 {
        Seq::empty()
    } else {
        let prev = matches_of(rules, outs, n - 1);
        match outs[n - 1] {
            Some((sev, desc)) => prev.push((rules[n - 1].rule_name(), sev, desc)),
            None => prev,
        }
    }
}

/// Whether `a` is the alert for a match `(title, severity, description)` on
/// `event`: addresses, destination port, protocol name and process from the
/// event, `raw` as its raw event, not acknowledged.
pub open spec fn alert_for(
    a: Alert,
    m: (Seq<char>, AlertSeverity, Seq<char>),
    event: NetworkEvent,
    raw: Option<Seq<char>>,
) -> bool {
    &&& a.title@ == m.0
    &&& a.severity == m.1
    &&& a.description@ == m.2
    &&& a.source_ip == Some(event.source_ip)
    &&& a.destination_ip == Some(event.destination_ip)
    &&& a.port == Some(event.destination_port)
    &&& opt_text(a.protocol) == Some(protocol_text(event.protocol))
    &&& opt_text(a.process_name) == opt_text(event.process_name)
    &&& opt_text(a.raw_event) == raw
    &&& !a.acknowledged
}

/// Whether `alerts` are the alerts of applying `rules` to `event`, for some
/// outcome each rule permits.
pub open spec fn alerts_of_rules(
    alerts: Seq<Alert>,
    rules: Seq<Rule>,
    event: NetworkEvent,
    raw: Option<Seq<char>>,
) -> bool {
    exists|outs: Seq<Option<(AlertSeverity, Seq<char>)>>|
        #![trigger matches_of(rules, outs, rules.len() as int)]
        {
            &&& outs.len() == rules.len()
            &&& forall|i: int| 0 <= i < rules.len() ==> #[trigger] rules[i].permits(event, outs[i])
            &&& alerts.len() == matches_of(rules, outs, rules.len() as int).len()
            &&& forall|k: int|
                0 <= k < alerts.len() ==> alert_for(
                    #[trigger] alerts[k],
                    matches_of(rules, outs, rules.len() as int)[k],
                    event,
                    raw,
                )
        }
}

/// The number of distinct destination ports from which one source is taken
/// to be scanning.
pub const PORT_SCAN_THRESHOLD: usize = 100;

/// The number of distinct ports recorded for `ip` (0 without a record).
pub open spec fn ports_probed(scans: Seq<ScanView>, ip: IpAddress) -> nat {
    match scan_of(scans, ip) {
        Some(i) => scans[i].ports.len(),
        None => 0,
    }
}

/// `Possible port scan from <ip>: <n> distinct ports probed within a minute`
pub open spec fn port_scan_text(ip: IpAddress, n: nat) -> Seq<char> {
    "Possible port scan from "@ + ip_text(ip) + ": "@ + decimal(n)
        + " distinct ports probed within a minute"@
}

/// Whether `a` is the port-scan alert raised on `event` when its source has
/// probed `n` ports: high severity, titled `Port Scan Detected`, naming the
/// source and the count, with the event's addresses, destination port,
/// protocol name and process, `raw` as its raw event, not acknowledged.
pub open spec fn port_scan_alert(a: Alert, event: NetworkEvent, n: nat, raw: Option<Seq<char>>) -> bool {
    &&& a.title@ == "Port Scan Detected"@
    &&& a.severity == AlertSeverity::High
    &&& a.description@ == port_scan_text(event.source_ip, n)
    &&& a.source_ip == Some(event.source_ip)
    &&& a.destination_ip == Some(event.destination_ip)
    &&& a.port == Some(event.destination_port)
    &&& opt_text(a.protocol) == Some(protocol_text(event.protocol))
    &&& opt_text(a.process_name) == opt_text(event.process_name)
    &&& opt_text(a.raw_event) == raw
    &&& !a.acknowledged
}

/// Whether `alerts` are what analysing `event` gives when its source has,
/// after the event, probed `n` distinct ports within the minute: the alerts
/// of the rules, then, from 100 ports on, a port-scan alert.
pub open spec fn analysis_alerts(
    alerts: Seq<Alert>,
    rules: Seq<Rule>,
    event: NetworkEvent,
    raw: Option<Seq<char>>,
    n: nat,
) -> bool {
    if n >= PORT_SCAN_THRESHOLD {
        &&& alerts.len() > 0
        &&& alerts_of_rules(alerts.drop_last(), rules, event, raw)
        &&& port_scan_alert(alerts.last(), event, n, raw)
    } else {
        alerts_of_rules(alerts, rules, event, raw)
    }
}

proof fn lemma_matches_prefix(
    rules: Seq<Rule>,
    a: Seq<Option<(AlertSeverity, Seq<char>)>>,
    b: Seq<Option<(AlertSeverity, Seq<char>)>>,
    n: int,
)
    requires
        0 <= n <= a.len(),
        n <= b.len(),
        forall|k: int| 0 <= k < n ==> a[k] == b[k],
    ensures
        matches_of(rules, a, n) == matches_of(rules, b, n),
    decreases n,
{
    if n > 0 {
        lemma_matches_prefix(rules, a, b, n - 1);
    }
}

fn clone_text(o: &Option<String>) -> (r: Option<String>)
    ensures
        opt_text(r) == opt_text(*o),
{
    match o {
        Some(s) => Some(s.clone()),
        None => None,
    }
}

fn has_port(ports: &Vec<u16>, port: u16) -> (r: bool)
    ensures
        r == ports@.contains(port),
{
    let mut i: usize = 0;
    while i < ports.len()
        invariant
            i <= ports.len(),
            forall|j: int| 0 <= j < i ==> ports@[j] != port,
        decreases ports.len() - i,
    {
        if ports[i] == port {
            return true;
        }
        i = i + 1;
    }
    false
}

/// Detects threats in network events.
pub struct ThreatDetector {
    rule_engine: RuleEngine,
    port_scan_tracker: Vec<PortScanAttempt>,
    data_transfer_tracker: Vec<DataTransferRecord>,
    connections_seen: u64,
}

impl ThreatDetector {
    /// The scan records, oldest first.
    pub closed spec fn port_scans(&self) -> Seq<ScanView> {
        self.port_scan_tracker@.map_values(|p: PortScanAttempt| p@)
    }

    /// The transfer records, oldest first.
    pub closed spec fn transfers(&self) -> Seq<TransferView> {
        self.data_transfer_tracker@.map_values(|d: DataTransferRecord| d@)
    }

    /// The number of events analysed.
    pub closed spec fn connection_count(&self) -> u64 {
        self.connections_seen
    }

    /// The rules applied to each event.
    pub closed spec fn rules(&self) -> Seq<Rule> {
        self.rule_engine.rule_list()
    }

    /// A detector with the built-in rules, no records, and no event seen.
    pub fn new() -> (d: Self)
        ensures
            d.rules() == crate::rules::builtin_rules(),
            d.port_scans() == Seq::<ScanView>::empty(),
            d.transfers() == Seq::<TransferView>::empty(),
            d.connection_count() == 0,
    {
        let d = ThreatDetector {
            rule_engine: RuleEngine::new(),
            port_scan_tracker: Vec::new(),
            data_transfer_tracker: Vec::new(),
            connections_seen: 0,
        };
        assert(d.port_scans() =~= Seq::<ScanView>::empty());
        assert(d.transfers() =~= Seq::<TransferView>::empty());
        d
    }


    fn note_port_scan(&mut self, event: &NetworkEvent)
        ensures
            final(self).port_scans() == scans_noted(old(self).port_scans(), *event),
            final(self).transfers() == old(self).transfers(),
            final(self).connection_count() == old(self).connection_count(),
            final(self).rules() == old(self).rules(),
    {
        let ghost scans = self.port_scans();
        let mut i: usize = 0;
        while i < self.port_scan_tracker.len()
            invariant
                i <= self.port_scan_tracker.len(),
                *self == *old(self),
                scans == self.port_scans(),
                forall|j: int| 0 <= j < i ==> scans[j].source_ip != event.source_ip,
            decreases self.port_scan_tracker.len() - i,
        {
            if self.port_scan_tracker[i].source_ip == event.source_ip {
                assert(scan_of(scans, event.source_ip) == Some(i as int)) by {
                    assert(scans[i as int].source_ip == event.source_ip);
                    let c = choose|c: int|
                        0 <= c < scans.len() && scans[c].source_ip == event.source_ip && forall|j: int|
                            0 <= j < c ==> scans[j].source_ip != event.source_ip;
                    assert(0 <= c < scans.len() && scans[c].source_ip == event.source_ip
                        && forall|j: int| 0 <= j < c ==> scans[j].source_ip != event.source_ip);
                    if c > i {
                        assert(scans[i as int].source_ip != event.source_ip);
                    }
                };
                let known = has_port(&self.port_scan_tracker[i].target_ports, event.destination_port);
                if !known {
                    self.port_scan_tracker[i].target_ports.push(event.destination_port);
                }
                self.port_scan_tracker[i].last_seen = event.timestamp;
                assert(self.port_scans() =~= scans_noted(scans, *event));
                return;
            }
            i = i + 1;
        }
        let mut ports: Vec<u16> = Vec::new();
        ports.push(event.destination_port);
        self.port_scan_tracker.push(
            PortScanAttempt {
                source_ip: event.source_ip,
                target_ports: ports,
                first_seen: event.timestamp,
                last_seen: event.timestamp,
            },
        );
        assert(self.port_scans() =~= scans_noted(scans, *event));
    }

    fn prune_port_scans(&mut self, now: i64)
        ensures
            final(self).port_scans() == recent_scans(old(self).port_scans(), now),
            final(self).transfers() == old(self).transfers(),
            final(self).connection_count() == old(self).connection_count(),
            final(self).rules() == old(self).rules(),
    {
        let ghost orig = self.port_scans();
        let ghost mut j: int = 0;
        let mut i: usize = 0;
        while i < self.port_scan_tracker.len()
            invariant
                0 <= j <= orig.len(),
                self.port_scans() == recent_scans(orig.take(j), now) + orig.skip(j),
                i == recent_scans(orig.take(j), now).len(),
                self.data_transfer_tracker == old(self).data_transfer_tracker,
                self.connections_seen == old(self).connections_seen,
                self.rule_engine == old(self).rule_engine,
            decreases self.port_scan_tracker.len() - i,
        {
            let ghost before = self.port_scans();
            let ghost kept = recent_scans(orig.take(j), now);
            assert(j < orig.len()) by {
                if j >= orig.len() {
                    assert(orig.skip(j).len() == 0);
                }
            }
            assert(before[i as int] == orig[j]);
            assert(orig.take(j + 1).drop_last() =~= orig.take(j));
            assert(orig.take(j + 1).last() == orig[j]);
            let first = self.port_scan_tracker[i].first_seen;
            if (now as i128) - (first as i128) < 60_000_000 {
                assert(recent_scans(orig.take(j + 1), now) == kept.push(orig[j]));
                assert(self.port_scans() =~= recent_scans(orig.take(j + 1), now) + orig.skip(j + 1));
                i = i + 1;
            } else {
                assert(recent_scans(orig.take(j + 1), now) == kept);
                let ghost tracker = self.port_scan_tracker@;
                self.port_scan_tracker.remove(i);
                assert(self.port_scan_tracker@ == tracker.remove(i as int));
                let ghost target = recent_scans(orig.take(j + 1), now) + orig.skip(j + 1);
                assert(before.len() == i + orig.len() - j);
                assert(self.port_scans().len() == target.len());
                assert forall|k: int| 0 <= k < self.port_scans().len() implies #[trigger] self.port_scans()[k]
                    == target[k] by {
                    if k < i {
                        assert(self.port_scans()[k] == before[k]);
                    } else {
                        assert(self.port_scans()[k] == before[k + 1]);
                        assert(kept.len() == i);
                        assert(before.len() == i + orig.len() - j);
                        assert(target[k] == orig.skip(j + 1)[k - i]);
                        assert(before[k + 1] == orig.skip(j)[k + 1 - i]);
                    }
                }
                assert(self.port_scans() =~= recent_scans(orig.take(j + 1), now) + orig.skip(j + 1));
            }
            proof {
                j = j + 1;
            }
        }
        assert(j == orig.len()) by {
            if j < orig.len() {
                assert(self.port_scans().len() == i + orig.len() - j);
            }
        }
        assert(orig.take(j) =~= orig);
        assert(self.port_scans() =~= recent_scans(orig, now));
    }

    fn note_transfer(&mut self, event: &NetworkEvent, now: i64)
        requires
            transfer_fits(old(self).transfers(), *event),
        ensures
            final(self).transfers() == transfers_noted(old(self).transfers(), *event, now),
            final(self).port_scans() == old(self).port_scans(),
            final(self).connection_count() == old(self).connection_count(),
            final(self).rules() == old(self).rules(),
    {
        let ghost ts = self.transfers();
        match &event.process_name {
            Some(process) => {
                let mut i: usize = 0;
                while i < self.data_transfer_tracker.len()
                    invariant
                        i <= self.data_transfer_tracker.len(),
                        *self == *old(self),
                        ts == self.transfers(),
                        transfer_fits(ts, *event),
                        event.process_name == Some(*process),
                        forall|j: int| 0 <= j < i ==> ts[j].process != process@,
                    decreases self.data_transfer_tracker.len() - i,
                {
                    if self.data_transfer_tracker[i].process_name == *process {
                        assert(transfer_of(ts, process@) == Some(i as int)) by {
                            assert(ts[i as int].process == process@);
                            let c = choose|c: int|
                                0 <= c < ts.len() && ts[c].process == process@ && forall|j: int|
                                    0 <= j < c ==> ts[j].process != process@;
                            assert(0 <= c < ts.len() && ts[c].process == process@ && forall|j: int|
                                0 <= j < c ==> ts[j].process != process@);
                            if c > i {
                                assert(ts[i as int].process != process@);
                            }
                        };
                        let sent = self.data_transfer_tracker[i].bytes_sent;
                        let received = self.data_transfer_tracker[i].bytes_received;
                        self.data_transfer_tracker[i].bytes_sent = sent + event.packet_size as u64;
                        self.data_transfer_tracker[i].bytes_received = received
                            + event.packet_size as u64;
                        assert(self.transfers() =~= transfers_noted(ts, *event, now));
                        return;
                    }
                    i = i + 1;
                }
                self.data_transfer_tracker.push(
                    DataTransferRecord {
                        process_name: process.clone(),
                        bytes_sent: event.packet_size as u64,
                        bytes_received: event.packet_size as u64,
                        window_start: now,
                    },
                );
                assert(self.transfers() =~= transfers_noted(ts, *event, now));
            },
            None => {},
        }
    }

    /// Analyses one event: counts it, notes its source and destination port
    /// among the scan records and drops records over a minute old, adds its
    /// size to its process's transfer record, then applies every rule in
    /// order and returns an alert for each match (with a fresh identifier,
    /// the current time, and `raw_event` as its raw event), followed by a
    /// port-scan alert when the event's source has now probed at least 100
    /// distinct ports within the minute. One clock reading serves both the
    /// pruning and a new transfer record.
    pub fn analyze(&mut self, event: &NetworkEvent, raw_event: Option<String>) -> (alerts: Vec<Alert>)
        requires
            old(self).connection_count() < u64::MAX,
            transfer_fits(old(self).transfers(), *event),
        ensures
            final(self).connection_count() == old(self).connection_count() + 1,
            final(self).rules() == old(self).rules(),
            exists|now: i64|
                #![trigger recent_scans(scans_noted(old(self).port_scans(), *event), now)]
                final(self).port_scans() == recent_scans(scans_noted(old(self).port_scans(), *event), now)
                    && final(self).transfers() == transfers_noted(old(self).transfers(), *event, now),
            analysis_alerts(
                alerts@,
                old(self).rules(),
                *event,
                opt_text(raw_event),
                ports_probed(final(self).port_scans(), event.source_ip),
            ),
    {
        let ghost scans0 = self.port_scans();
        let ghost transfers0 = self.transfers();
        self.connections_seen = self.connections_seen + 1;
        let now = now_micros();
        self.note_port_scan(event);
        self.prune_port_scans(now);
        self.note_transfer(event, now);
        assert(self.port_scans() == recent_scans(scans_noted(scans0, *event), now)
            && self.transfers() == transfers_noted(transfers0, *event, now));
        let rules = self.rule_engine.get_rules();
        let ghost rl = self.rules();
        let mut alerts: Vec<Alert> = Vec::new();
        let ghost mut outs: Seq<Option<(AlertSeverity, Seq<char>)>> = Seq::empty();
        let mut i: usize = 0;
        while i < rules.len()
            invariant
                rules@ == rl,
                i <= rules.len(),
                outs.len() == i,
                forall|k: int| 0 <= k < i ==> #[trigger] rl[k].permits(*event, outs[k]),
                alerts@.len() == matches_of(rl, outs, i as int).len(),
                forall|k: int|
                    0 <= k < alerts@.len() ==> alert_for(
                        #[trigger] alerts@[k],
                        matches_of(rl, outs, i as int)[k],
                        *event,
                        opt_text(raw_event),
                    ),
            decreases rules.len() - i,
        {
            let rule = &rules[i];
            let outcome = rule.evaluate(event);
            let ghost o = crate::rules::match_outcome(outcome);
            let ghost prev_outs = outs;
            proof {
                outs = outs.push(o);
                assert forall|k: int| 0 <= k < i + 1 implies #[trigger] rl[k].permits(*event, outs[k]) by {
                    if k < i {
                        assert(outs[k] == prev_outs[k]);
                    }
                }
                assert(matches_of(rl, outs, i as int) == matches_of(rl, prev_outs, i as int)) by {
                    lemma_matches_prefix(rl, prev_outs, outs, i as int);
                }
            }
            match outcome {
                Some(rule_match) => {
                    let alert = Alert {
                        id: new_uuid(),
                        timestamp: now_micros(),
                        severity: rule_match.severity,
                        title: string_of(rule.name()),
                        description: rule_match.description,
                        source_ip: Some(event.source_ip),
                        destination_ip: Some(event.destination_ip),
                        port: Some(event.destination_port),
                        protocol: Some(event.protocol.to_text()),
                        process_name: clone_text(&event.process_name),
                        raw_event: clone_text(&raw_event),
                        acknowledged: false,
                    };
                    alerts.push(alert);
                },
                None => {},
            }
            i = i + 1;
        }
        proof {
            assert(outs.len() == rl.len());
        }
        let ghost rule_alerts = alerts@;
        assert(alerts_of_rules(rule_alerts, rl, *event, opt_text(raw_event)));
        let probed = self.ports_probed_by(event.source_ip);
        if probed >= PORT_SCAN_THRESHOLD {
            let mut description = string_of("Possible port scan from ");
            push_ip_text(&mut description, event.source_ip);
            push_str(&mut description, ": ");
            push_decimal(&mut description, probed as u64);
            push_str(&mut description, " distinct ports probed within a minute");
            assert(description@ =~= port_scan_text(event.source_ip, probed as nat));
            let alert = Alert {
                id: new_uuid(),
                timestamp: now_micros(),
                severity: AlertSeverity::High,
                title: string_of("Port Scan Detected"),
                description,
                source_ip: Some(event.source_ip),
                destination_ip: Some(event.destination_ip),
                port: Some(event.destination_port),
                protocol: Some(event.protocol.to_text()),
                process_name: clone_text(&event.process_name),
                raw_event: clone_text(&raw_event),
                acknowledged: false,
            };
            alerts.push(alert);
            assert(alerts@.drop_last() =~= rule_alerts);
        }
        alerts
    }

    /// The number of distinct ports recorded for `ip` (0 without a record).
    fn ports_probed_by(&self, ip: IpAddress) -> (n: usize)
        ensures
            n == ports_probed(self.port_scans(), ip),
    {
        let ghost scans = self.port_scans();
        let mut i: usize = 0;
        while i < self.port_scan_tracker.len()
            invariant
                i <= self.port_scan_tracker.len(),
                scans == self.port_scans(),
                forall|j: int| 0 <= j < i ==> scans[j].source_ip != ip,
            decreases self.port_scan_tracker.len() - i,
        {
            assert(scans[i as int] == self.port_scan_tracker@[i as int]@);
            if self.port_scan_tracker[i].source_ip == ip {
                assert(scan_of(scans, ip) == Some(i as int)) by {
                    let c = choose|c: int|
                        0 <= c < scans.len() && scans[c].source_ip == ip && forall|j: int|
                            0 <= j < c ==> scans[j].source_ip != ip;
                    assert(0 <= i < scans.len() && scans[i as int].source_ip == ip);
                    assert(0 <= c < scans.len() && scans[c].source_ip == ip && forall|j: int|
                        0 <= j < c ==> scans[j].source_ip != ip);
                    if c > i {
                        assert(scans[i as int].source_ip != ip);
                    }
                };
                return self.port_scan_tracker[i].target_ports.len();
            }
            i = i + 1;
        }
        0
    }

    /// Whether analysing `event` keeps every count within `u64`: the event
    /// count and the byte counts of its process.
    pub fn can_analyze(&self, event: &NetworkEvent) -> (r: bool)
        ensures
            r == (self.connection_count() < u64::MAX && transfer_fits(self.transfers(), *event)),
    {
        if self.connections_seen == u64::MAX {
            return false;
        }
        let ghost ts = self.transfers();
        match &event.process_name {
            Some(p) => {
                let mut i: usize = 0;
                while i < self.data_transfer_tracker.len()
                    invariant
                        i <= self.data_transfer_tracker.len(),
                        ts == self.transfers(),
                        event.process_name == Some(*p),
                        self.connections_seen < u64::MAX,
                        forall|j: int| 0 <= j < i ==> ts[j].process != p@,
                    decreases self.data_transfer_tracker.len() - i,
                {
                    assert(ts[i as int].process == self.data_transfer_tracker@[i as int].process_name@);
                    if crate::text::chars_equal(
                        &crate::text::chars_of(self.data_transfer_tracker[i].process_name.as_str()),
                        &crate::text::chars_of(p.as_str()),
                    ) {
                        proof {
                            let c = choose|c: int|
                                0 <= c < ts.len() && ts[c].process == p@ && forall|j: int|
                                    0 <= j < c ==> ts[j].process != p@;
                            assert(0 <= i < ts.len() && ts[i as int].process == p@);
                            assert(0 <= c < ts.len() && ts[c].process == p@ && forall|j: int|
                                0 <= j < c ==> ts[j].process != p@);
                            if c < i {
                            } else if c > i {
                                assert(ts[i as int].process != p@);
                            }
                            assert(transfer_of(ts, p@) == Some(i as int));
                        }
                        let rec = &self.data_transfer_tracker[i];
                        assert(ts[i as int] == rec@);
                        assert(ts[i as int].sent == rec.bytes_sent && ts[i as int].received == rec.bytes_received);
                        let size = event.packet_size as u64;
                        assert(event.process_name == Some(*p));
                        assert(transfer_of(ts, p@) == Some(i as int));
                        assert(transfer_fits(ts, *event) == (rec.bytes_sent <= u64::MAX - size
                            && rec.bytes_received <= u64::MAX - size));
                        return rec.bytes_sent <= u64::MAX - size && rec.bytes_received <= u64::MAX - size;
                    }
                    i = i + 1;
                }
                true
            },
            None => true,
        }
    }

    /// Like [`ThreatDetector::analyze`], for any event: `None`, with nothing
    /// changed, when a count would pass the largest `u64`.
    pub fn try_analyze(&mut self, event: &NetworkEvent, raw_event: Option<String>) -> (r: Option<Vec<Alert>>)
        ensures
            !(old(self).connection_count() < u64::MAX && transfer_fits(old(self).transfers(), *event))
                ==> (r is None && final(self).connection_count() == old(self).connection_count()
                && final(self).port_scans() == old(self).port_scans() && final(self).transfers() == old(
                self,
            ).transfers() && final(self).rules() == old(self).rules()),
            (old(self).connection_count() < u64::MAX && transfer_fits(old(self).transfers(), *event))
                ==> (r matches Some(alerts) && {
                &&& final(self).connection_count() == old(self).connection_count() + 1
                &&& final(self).rules() == old(self).rules()
                &&& exists|now: i64|
                    #![trigger recent_scans(scans_noted(old(self).port_scans(), *event), now)]
                    final(self).port_scans() == recent_scans(scans_noted(old(self).port_scans(), *event), now)
                        && final(self).transfers() == transfers_noted(old(self).transfers(), *event, now)
                &&& analysis_alerts(
                    alerts@,
                    old(self).rules(),
                    *event,
                    opt_text(raw_event),
                    ports_probed(final(self).port_scans(), event.source_ip),
                )
            }),
    {
        if !self.can_analyze(event) {
            return None;
        }
        Some(self.analyze(event, raw_event))
    }

    /// The sources that probed at least ten ports, with their port counts,
    /// oldest record first.
    pub fn get_port_scan_candidates(&self) -> (r: Vec<(IpAddress, usize)>)
        ensures
            r@ == scan_candidates(self.port_scans()),
    {
        let ghost scans = self.port_scans();
        let mut out: Vec<(IpAddress, usize)> = Vec::new();
        let mut i: usize = 0;
        while i < self.port_scan_tracker.len()
            invariant
                i <= self.port_scan_tracker.len(),
                scans == self.port_scans(),
                out@ == scan_candidates(scans.take(i as int)),
            decreases self.port_scan_tracker.len() - i,
        {
            assert(scans.take(i + 1).drop_last() =~= scans.take(i as int));
            assert(scans.take(i + 1).last() == scans[i as int]);
            let count = self.port_scan_tracker[i].target_ports.len();
            if count >= 10 {
                out.push((self.port_scan_tracker[i].source_ip, count));
            }
            i = i + 1;
        }
        assert(scans.take(i as int) =~= scans);
        out
    }

    /// The number of events analysed.
    pub fn connections_seen(&self) -> (n: u64)
        ensures
            n == self.connection_count(),
    {
        self.connections_seen
    }
}

/// Whether no two scan records share a source and no record lists a port
/// twice.
pub open spec fn scans_distinct(scans: Seq<ScanView>) -> bool {
    &&& forall|i: int, j: int|
        0 <= i < j < scans.len() ==> (#[trigger] scans[i]).source_ip != (#[trigger] scans[j]).source_ip
    &&& forall|i: int| 0 <= i < scans.len() ==> (#[trigger] scans[i]).ports.no_duplicates()
}

proof fn lemma_recent_is_subset(scans: Seq<ScanView>, now: i64)
    requires
        scans_distinct(scans),
    ensures
        scans_distinct(recent_scans(scans, now)),
        forall|k: int|
            0 <= k < recent_scans(scans, now).len() ==> scans.contains(
                #[trigger] recent_scans(scans, now)[k],
            ),
    decreases scans.len(),
{
    if scans.len() > 0 {
        let init = scans.drop_last();
        assert(scans_distinct(init)) by {
            assert forall|i: int, j: int| 0 <= i < j < init.len() implies (#[trigger] init[i]).source_ip
                != (#[trigger] init[j]).source_ip by {
                assert(init[i] == scans[i] && init[j] == scans[j]);
            }
            assert forall|i: int| 0 <= i < init.len() implies (#[trigger] init[i]).ports.no_duplicates() by {
                assert(init[i] == scans[i]);
            }
        }
        lemma_recent_is_subset(init, now);
        let r0 = recent_scans(init, now);
        let r = recent_scans(scans, now);
        assert forall|k: int| 0 <= k < r0.len() implies scans.contains(#[trigger] r0[k]) by {
            assert(init.contains(r0[k]));
            let w = choose|w: int| 0 <= w < init.len() && init[w] == r0[k];
            assert(scans[w] == r0[k]);
        }
        if within_minute(scans.last().first_seen, now) {
            assert(r == r0.push(scans.last()));
            assert forall|k: int| 0 <= k < r.len() implies scans.contains(#[trigger] r[k]) by {
                if k < r0.len() {
                    assert(r[k] == r0[k]);
                    assert(scans.contains(r0[k]));
                } else {
                    assert(scans[scans.len() - 1] == r[k]);
                }
            }
            assert forall|i: int, j: int| 0 <= i < j < r.len() implies (#[trigger] r[i]).source_ip
                != (#[trigger] r[j]).source_ip by {
                assert(r[i] == r0[i]);
                if j < r0.len() {
                    assert(r[j] == r0[j]);
                } else {
                    assert(init.contains(r0[i]));
                    let w = choose|w: int| 0 <= w < init.len() && init[w] == r0[i];
                    assert(scans[w] == r0[i]);
                    assert(scans[scans.len() - 1] == r[j]);
                }
            }
            assert forall|i: int| 0 <= i < r.len() implies (#[trigger] r[i]).ports.no_duplicates() by {
                assert(scans.contains(r[i]));
                let w = choose|w: int| 0 <= w < scans.len() && scans[w] == r[i];
                assert(scans[w].ports.no_duplicates());
            }
        } else {
            assert(r == r0);
        }
    }
}

/// A law of the scan records: each source has at most one record and each
/// record lists a port at most once, before and after any event is analysed
/// (noting it and dropping the records older than a minute).
pub proof fn lemma_scan_records_stay_distinct(scans: Seq<ScanView>, event: NetworkEvent, now: i64)
    requires
        scans_distinct(scans),
    ensures
        scans_distinct(recent_scans(scans_noted(scans, event), now)),
{
    let noted = scans_noted(scans, event);
    match scan_of(scans, event.source_ip) {
        Some(i) => {
            assert(0 <= i < scans.len() && scans[i].source_ip == event.source_ip);
            assert forall|a: int, b: int| 0 <= a < b < noted.len() implies (#[trigger] noted[a]).source_ip
                != (#[trigger] noted[b]).source_ip by {
                assert(noted[a].source_ip == scans[a].source_ip);
                assert(noted[b].source_ip == scans[b].source_ip);
            }
            assert forall|a: int| 0 <= a < noted.len() implies (#[trigger] noted[a]).ports.no_duplicates() by {
                if a == i {
                    let ps = scans[i].ports;
                    if !ps.contains(event.destination_port) {
                        assert(ps.push(event.destination_port).no_duplicates()) by {
                            let q = ps.push(event.destination_port);
                            assert forall|x: int, y: int| 0 <= x < q.len() && 0 <= y < q.len() && x != y
                                implies q[x] != q[y] by {
                                if x < ps.len() && y < ps.len() {
                                    assert(q[x] == ps[x] && q[y] == ps[y]);
                                } else if x < ps.len() {
                                    assert(q[x] == ps[x]);
                                } else if y < ps.len() {
                                    assert(q[y] == ps[y]);
                                }
                            }
                        }
                    }
                } else {
                    assert(noted[a] == scans[a]);
                }
            }
        },
        None => {
            assert forall|a: int, b: int| 0 <= a < b < noted.len() implies (#[trigger] noted[a]).source_ip
                != (#[trigger] noted[b]).source_ip by {
                assert(noted[a] == scans[a]);
                if b < scans.len() {
                    assert(noted[b] == scans[b]);
                } else {
                    assert(!(0 <= a < scans.len() && scans[a].source_ip == event.source_ip));
                }
            }
            assert forall|a: int| 0 <= a < noted.len() implies (#[trigger] noted[a]).ports.no_duplicates() by {
                if a < scans.len() {
                    assert(noted[a] == scans[a]);
                } else {
                    assert(noted[a].ports == seq![event.destination_port]);
                }
            }
        },
    }
    lemma_recent_is_subset(noted, now);
}

/// A law of port-scan detection: when, after an event, its source has probed
/// at least 100 distinct ports within the minute, the alerts of that event
/// include one reporting a port scan from that source with the count.
pub proof fn lemma_port_scan_reported(
    alerts: Seq<Alert>,
    rules: Seq<Rule>,
    event: NetworkEvent,
    raw: Option<Seq<char>>,
    n: nat,
)
    requires
        analysis_alerts(alerts, rules, event, raw, n),
        n >= PORT_SCAN_THRESHOLD,
    ensures
        exists|k: int|
            0 <= k < alerts.len() && #[trigger] port_scan_alert(alerts[k], event, n, raw)
                && alerts[k].source_ip == Some(event.source_ip),
{
    assert(port_scan_alert(alerts[alerts.len() - 1], event, n, raw));
}

/// A law of counting: along the states of one detector over successive
/// analyses, starting from `new`'s count of 0, where each `analyze` adds
/// exactly one (as their contracts state), the count after `k` analyses is `k`.
pub proof fn lemma_count_after_analyses(states: Seq<ThreatDetector>)
    requires
        states.len() > 0,
        states[0].connection_count() == 0,
        forall|i: int|
            0 <= i < states.len() - 1 ==> #[trigger] states[i + 1].connection_count() == states[i].connection_count()
                + 1,
    ensures
        forall|k: int| 0 <= k < states.len() ==> #[trigger] states[k].connection_count() == k,
{
    assert forall|k: int| 0 <= k < states.len() implies #[trigger] states[k].connection_count() == k by {
        lemma_count_at(states, k);
    }
}

proof fn lemma_count_at(states: Seq<ThreatDetector>, k: int)
    requires
        0 <= k < states.len(),
        states[0].connection_count() == 0,
        forall|i: int|
            0 <= i < states.len() - 1 ==> #[trigger] states[i + 1].connection_count() == states[i].connection_count()
                + 1,
    ensures
        states[k].connection_count() == k,
    decreases k,
{
    if k > 0 {
        lemma_count_at(states, k - 1);
        assert(states[(k - 1) + 1].connection_count() == states[k - 1].connection_count() + 1);
    }
}

/// The destination ports of events, in order.
pub open spec fn dest_ports(events: Seq<NetworkEvent>) -> Seq<u16> {
    events.map_values(|e: NetworkEvent| e.destination_port)
}

proof fn lemma_scan_of_unique(scans: Seq<ScanView>, ip: IpAddress, i: int)
    requires
        scans_distinct(scans),
        0 <= i < scans.len(),
        scans[i].source_ip == ip,
    ensures
        scan_of(scans, ip) == Some(i),
{
    let c = choose|c: int|
        0 <= c < scans.len() && scans[c].source_ip == ip && forall|j: int| 0 <= j < c ==> scans[j].source_ip != ip;
    assert(0 <= c < scans.len() && scans[c].source_ip == ip && forall|j: int|
        0 <= j < c ==> scans[j].source_ip != ip);
    if c < i {
        assert(scans[c].source_ip != scans[i].source_ip);
    } else if c > i {
        assert(scans[i].source_ip != ip);
    }
}

proof fn lemma_recent_contains(scans: Seq<ScanView>, now: i64, x: ScanView)
    requires
        scans.contains(x),
        within_minute(x.first_seen, now),
    ensures
        recent_scans(scans, now).contains(x),
    decreases scans.len(),
{
    let init = scans.drop_last();
    if scans.last() == x {
        assert(recent_scans(scans, now) == recent_scans(init, now).push(x));
        assert(recent_scans(scans, now)[recent_scans(init, now).len() as int] == x);
    } else {
        let w = choose|w: int| 0 <= w < scans.len() && scans[w] == x;
        assert(w < scans.len() - 1);
        assert(init[w] == x);
        lemma_recent_contains(init, now, x);
        let r0 = recent_scans(init, now);
        let v = choose|v: int| 0 <= v < r0.len() && r0[v] == x;
        if within_minute(scans.last().first_seen, now) {
            assert(recent_scans(scans, now) == r0.push(scans.last()));
            assert(recent_scans(scans, now)[v] == x);
        } else {
            assert(recent_scans(scans, now) == r0);
        }
    }
}

/// The scan record of `ip` after the first `k` of `events` (all from `ip`,
/// to distinct ports), when `ip` had no record before: first seen at the
/// first event, with the events' ports in order.
spec fn scan_after(events: Seq<NetworkEvent>, k: int, ip: IpAddress) -> ScanView {
    ScanView {
        source_ip: ip,
        ports: dest_ports(events.take(k)),
        first_seen: events[0].timestamp,
        last_seen: events[k - 1].timestamp,
    }
}

proof fn lemma_scan_step(
    history: Seq<Seq<ScanView>>,
    events: Seq<NetworkEvent>,
    nows: Seq<i64>,
    ip: IpAddress,
    k: int,
)
    requires
        history.len() == events.len() + 1,
        nows.len() == events.len(),
        scans_distinct(history[0]),
        forall|j: int| 0 <= j < history[0].len() ==> (#[trigger] history[0][j]).source_ip != ip,
        forall|i: int|
            0 <= i < events.len() ==> #[trigger] history[i + 1] == recent_scans(
                scans_noted(history[i], events[i]),
                nows[i],
            ),
        forall|i: int| 0 <= i < events.len() ==> (#[trigger] events[i]).source_ip == ip,
        forall|i: int, j: int|
            0 <= i < j < events.len() ==> (#[trigger] events[i]).destination_port != (#[trigger] events[j]).destination_port,
        forall|i: int| 0 <= i < events.len() ==> #[trigger] within_minute(events[0].timestamp, nows[i]),
        0 <= k <= events.len(),
    ensures
        scans_distinct(history[k]),
        k > 0 ==> history[k].contains(scan_after(events, k, ip)),
    decreases k,
{
    if k > 0 {
        lemma_scan_step(history, events, nows, ip, k - 1);
        let s = history[k - 1];
        let e = events[k - 1];
        let now = nows[k - 1];
        assert(history[(k - 1) + 1] == recent_scans(scans_noted(s, e), now));
        lemma_scan_records_stay_distinct(s, e, now);
        let noted = scans_noted(s, e);
        let rec = scan_after(events, k, ip);
        assert(e.source_ip == ip);
        assert(dest_ports(events.take(k)) =~= dest_ports(events.take(k - 1)).push(e.destination_port));
        if k == 1 {
            assert(scan_of(s, ip) is None);
            assert(dest_ports(events.take(1)) =~= seq![e.destination_port]);
            assert(noted[s.len() as int] == rec);
        } else {
            let prev = scan_after(events, k - 1, ip);
            let idx = choose|idx: int| 0 <= idx < s.len() && s[idx] == prev;
            lemma_scan_of_unique(s, ip, idx);
            assert(!s[idx].ports.contains(e.destination_port)) by {
                if s[idx].ports.contains(e.destination_port) {
                    let w = choose|w: int| 0 <= w < s[idx].ports.len() && s[idx].ports[w] == e.destination_port;
                    assert(s[idx].ports[w] == events[w].destination_port);
                    assert(events[w].destination_port != events[k - 1].destination_port);
                }
            }
            assert(noted[idx] == rec);
        }
        assert(noted.contains(rec));
        assert(within_minute(rec.first_seen, now)) by {
            assert(within_minute(events[0].timestamp, nows[k - 1]));
        }
        lemma_recent_contains(noted, now, rec);
    }
}

/// A law of port-scan detection over successive analyses: when a source
/// without a scan record sends events to `n` distinct ports, and every
/// analysis takes place within a minute of its first event, its record then
/// holds exactly those `n` ports. With [`lemma_port_scan_reported`], the
/// analysis of the event that brings them to 100 reports a port scan from it.
pub proof fn lemma_port_scan_over_calls(
    history: Seq<Seq<ScanView>>,
    events: Seq<NetworkEvent>,
    nows: Seq<i64>,
    ip: IpAddress,
)
    requires
        events.len() > 0,
        history.len() == events.len() + 1,
        nows.len() == events.len(),
        scans_distinct(history[0]),
        forall|j: int| 0 <= j < history[0].len() ==> (#[trigger] history[0][j]).source_ip != ip,
        forall|i: int|
            0 <= i < events.len() ==> #[trigger] history[i + 1] == recent_scans(
                scans_noted(history[i], events[i]),
                nows[i],
            ),
        forall|i: int| 0 <= i < events.len() ==> (#[trigger] events[i]).source_ip == ip,
        forall|i: int, j: int|
            0 <= i < j < events.len() ==> (#[trigger] events[i]).destination_port != (#[trigger] events[j]).destination_port,
        forall|i: int| 0 <= i < events.len() ==> #[trigger] within_minute(events[0].timestamp, nows[i]),
    ensures
        ports_probed(history[events.len() as int], ip) == events.len(),
{
    let n = events.len() as int;
    lemma_scan_step(history, events, nows, ip, n);
    let last = history[n];
    let rec = scan_after(events, n, ip);
    let idx = choose|idx: int| 0 <= idx < last.len() && last[idx] == rec;
    lemma_scan_of_unique(last, ip, idx);
    assert(dest_ports(events.take(n)).len() == n);
}

proof fn lemma_first_match(
    rules: Seq<Rule>,
    outs: Seq<Option<(AlertSeverity, Seq<char>)>>,
    n: int,
    sev: AlertSeverity,
    desc: Seq<char>,
)
    requires
        1 <= n <= outs.len(),
        n <= rules.len(),
        outs[0] == Some((sev, desc)),
    ensures
        matches_of(rules, outs, n).len() >= 1,
        matches_of(rules, outs, n)[0] == (rules[0].rule_name(), sev, desc),
    decreases n,
{
    if n > 1 {
        lemma_first_match(rules, outs, n - 1, sev, desc);
    } else {
        assert(matches_of(rules, outs, 0) == Seq::<(Seq<char>, AlertSeverity, Seq<char>)>::empty());
    }
}

/// A law of the built-in rules in a detector: an event with one of the
/// ports 22, 23, 135, 445, 1433, 3389, 4444, 5555, 6666, 6667, 1337 or 31337
/// at either end gives, first among its alerts, a medium `Suspicious Port`
/// alert naming its destination port.
pub proof fn lemma_suspicious_port_alert(alerts: Seq<Alert>, event: NetworkEvent, raw: Option<Seq<char>>)
    requires
        alerts_of_rules(alerts, crate::rules::builtin_rules(), event, raw),
        set![22u16, 23, 135, 445, 1433, 3389, 4444, 5555, 6666, 6667, 1337, 31337].contains(event.destination_port)
            || set![22u16, 23, 135, 445, 1433, 3389, 4444, 5555, 6666, 6667, 1337, 31337].contains(
            event.source_port,
        ),
    ensures
        alerts.len() >= 1,
        alerts[0].title@ == "Suspicious Port"@,
        alerts[0].severity == AlertSeverity::Medium,
        alerts[0].description@ == "Connection on suspicious port "@ + decimal(event.destination_port as nat),
        alerts[0].port == Some(event.destination_port),
{
    let rules = crate::rules::builtin_rules();
    let outs = choose|outs: Seq<Option<(AlertSeverity, Seq<char>)>>|
        #![trigger matches_of(rules, outs, rules.len() as int)]
        {
            &&& outs.len() == rules.len()
            &&& forall|i: int| 0 <= i < rules.len() ==> #[trigger] rules[i].permits(event, outs[i])
            &&& alerts.len() == matches_of(rules, outs, rules.len() as int).len()
            &&& forall|k: int|
                0 <= k < alerts.len() ==> alert_for(
                    #[trigger] alerts[k],
                    matches_of(rules, outs, rules.len() as int)[k],
                    event,
                    raw,
                )
        };
    assert(rules[0].permits(event, outs[0]));
    crate::rules::lemma_suspicious_ports(event, outs[0]);
    let desc = "Connection on suspicious port "@ + decimal(event.destination_port as nat);
    lemma_first_match(rules, outs, 5, AlertSeverity::Medium, desc);
    assert(alert_for(alerts[0], matches_of(rules, outs, 5)[0], event, raw));
}

} // verus!
