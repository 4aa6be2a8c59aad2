//! Alerts, their severities, and a bounded store of recent alerts.
use vstd::prelude::*;
use crate::clock::{new_uuid, now_micros};
use crate::ipaddr::IpAddress;
use crate::text::string_of;

verus! {

/// How serious an alert is.
#[derive(Clone, Copy, Debug, PartialEq, Eq, Structural)]
pub enum AlertSeverity {
    Low,
    Medium,
    High,
    Critical,
}

/// The score of a severity: 1, 3, 7 and 10.
pub open spec fn severity_score(s: AlertSeverity) -> u8 {
    match s {
        AlertSeverity::Low => 1,
        AlertSeverity::Medium => 3,
        AlertSeverity::High => 7,
        AlertSeverity::Critical => 10,
    }
}

/// The displayed name of a severity.
pub open spec fn severity_text(s: AlertSeverity) -> Seq<char> {
    match s {
        AlertSeverity::Low => "LOW"@,
        AlertSeverity::Medium => "MEDIUM"@,
        AlertSeverity::High => "HIGH"@,
        AlertSeverity::Critical => "CRITICAL"@,
    }
}

impl AlertSeverity {
    /// The score of the severity.
    pub fn score(&self) -> (s: u8)
        ensures
            s == severity_score(*self),
    {
        match self {
            AlertSeverity::Low => 1,
            AlertSeverity::Medium => 3,
            AlertSeverity::High => 7,
            AlertSeverity::Critical => 10,
        }
    }

    /// The displayed name: `LOW`, `MEDIUM`, `HIGH` or `CRITICAL`.
    pub fn to_text(&self) -> (t: String)
        ensures
            t@ == severity_text(*self),
    {
        match self {
            AlertSeverity::Low => string_of("LOW"),
            AlertSeverity::Medium => string_of("MEDIUM"),
            AlertSeverity::High => string_of("HIGH"),
            AlertSeverity::Critical => string_of("CRITICAL"),
        }
    }
}

/// An alert. Timestamps are microseconds since the Unix epoch; identifiers
/// are the 128 bits of a random UUID.
#[derive(Clone, Debug)]
pub struct Alert {
    pub id: u128,
    pub timestamp: i64,
    pub severity: AlertSeverity,
    pub title: String,
    pub description: String,
    pub source_ip: Option<IpAddress>,
    pub destination_ip: Option<IpAddress>,
    pub port: Option<u16>,
    pub protocol: Option<String>,
    pub process_name: Option<String>,
    pub raw_event: Option<String>,
    pub acknowledged: bool,
}

/// The alert with its acknowledged flag set and all else kept.
pub open spec fn acknowledged(a: Alert) -> Alert {
    Alert { acknowledged: true, ..a }
}

impl Alert {
    /// A new unacknowledged alert with a fresh identifier, the current time,
    /// the given severity, title and description, and no other detail.
    pub fn new(severity: AlertSeverity, title: &str, description: &str) -> (a: Self)
        ensures
            a.severity == severity,
            a.title@ == title@,
            a.description@ == description@,
            a.source_ip is None,
            a.destination_ip is None,
            a.port is None,
            a.protocol is None,
            a.process_name is None,
            a.raw_event is None,
            !a.acknowledged,
    {
        Alert {
            id: new_uuid(),
            timestamp: now_micros(),
            severity,
            title: string_of(title),
            description: string_of(description),
            source_ip: None,
            destination_ip: None,
            port: None,
            protocol: None,
            process_name: None,
            raw_event: None,
            acknowledged: false,
        }
    }

    /// Marks the alert as acknowledged.
    pub fn acknowledge(&mut self)
        ensures
            *final(self) == acknowledged(*old(self)),
    {
        self.acknowledged = true;
    }
}

/// The alerts of `s` that are not acknowledged, in order.
pub open spec fn unacknowledged(s: Seq<Alert>) -> Seq<Alert>
    decreases s.len(),
{
    if s.len() == 0 {
        Seq::empty()
    } else if !s.last().acknowledged {
        unacknowledged(s.drop_last()).push(s.last())
    } else {
        unacknowledged(s.drop_last())
    }
}

/// The position of the first alert of `s` with identifier `id`, if any.
pub open spec fn first_with_id(s: Seq<Alert>, id: u128) -> Option<int> {
    if exists|i: int| 0 <= i < s.len() && s[i].id == id {
        Some(choose|i: int| 0 <= i < s.len() && s[i].id == id && forall|j: int| 0 <= j < i ==> s[j].id != id)
    } else {
        None
    }
}

/// What storing `alert` does to the alerts `s` of a store holding at most
/// `capacity`: when full, the oldest one leaves; the new one comes last.
pub open spec fn stored(s: Seq<Alert>, capacity: nat, alert: Alert) -> Seq<Alert> {
    if s.len() >= capacity {
        s.drop_first().push(alert)
    } else {
        s.push(alert)
    }
}

/// The most recent alerts, at most `max_alerts` of them, oldest first.
pub struct AlertManager {
    alerts: Vec<Alert>,
    max_alerts: usize,
}

impl AlertManager {
    #[verifier::type_invariant]
    spec fn within_capacity(self) -> bool {
        self.alerts.len() <= self.max_alerts
    }

    /// The stored alerts, oldest first.
    pub closed spec fn alert_list(&self) -> Seq<Alert> {
        self.alerts@
    }

    /// The most alerts the store keeps.
    pub closed spec fn capacity(&self) -> nat {
        self.max_alerts as nat
    }

    /// An empty store keeping at most `max_alerts` alerts.
    pub fn new(max_alerts: usize) -> (m: Self)
        ensures
            m.alert_list() == Seq::<Alert>::empty(),
            m.capacity() == max_alerts,
    {
        AlertManager { alerts: Vec::new(), max_alerts }
    }

    /// Stores an alert; when the store is full the oldest alert leaves.
    /// A store of capacity zero takes none (removing from it would fail).
    pub fn push(&mut self, alert: Alert)
        requires
            old(self).capacity() > 0,
        ensures
            final(self).capacity() == old(self).capacity(),
            final(self).alert_list() == stored(old(self).alert_list(), old(self).capacity(), alert),
            final(self).alert_list().len() <= final(self).capacity(),
    {
        proof {
            use_type_invariant(&*self);
        }
        let mut alerts = Vec::new();
        std::mem::swap(&mut alerts, &mut self.alerts);
        if alerts.len() >= self.max_alerts {
            alerts.remove(0);
        }
        alerts.push(alert);
        self.alerts = alerts;
    }

    /// The stored alerts, oldest first.
    pub fn get_alerts(&self) -> (r: &[Alert])
        ensures
            r@ == self.alert_list(),
    {
        self.alerts.as_slice()
    }

    /// The stored alerts that are not acknowledged, oldest first.
    pub fn get_unacknowledged(&self) -> (r: Vec<&Alert>)
        ensures
            r@.len() == unacknowledged(self.alert_list()).len(),
            forall|i: int| 0 <= i < r@.len() ==> *r@[i] == unacknowledged(self.alert_list())[i],
    {
        let mut out: Vec<&Alert> = Vec::new();
        let mut i: usize = 0;
        while i < self.alerts.len()
            invariant
                i <= self.alerts.len(),
                out@.len() == unacknowledged(self.alerts@.subrange(0, i as int)).len(),
                forall|k: int|
                    0 <= k < out@.len() ==> *out@[k] == unacknowledged(
                        self.alerts@.subrange(0, i as int),
                    )[k],
            decreases self.alerts.len() - i,
        {
            let ghost prev = self.alerts@.subrange(0, i as int);
            let ghost next = self.alerts@.subrange(0, i + 1);
            assert(next.drop_last() =~= prev);
            assert(next.last() == self.alerts@[i as int]);
            if !self.alerts[i].acknowledged {
                out.push(&self.alerts[i]);
            }
            i = i + 1;
        }
        assert(self.alerts@.subrange(0, self.alerts.len() as int) =~= self.alerts@);
        out
    }

    /// Acknowledges the first stored alert with identifier `id`; false when
    /// there is none.
    pub fn acknowledge(&mut self, id: u128) -> (found: bool)
        ensures
            final(self).capacity() == old(self).capacity(),
            found == (first_with_id(old(self).alert_list(), id) is Some),
            match first_with_id(old(self).alert_list(), id) {
                Some(i) => final(self).alert_list() == old(self).alert_list().update(
                    i,
                    acknowledged(old(self).alert_list()[i]),
                ),
                None => final(self).alert_list() == old(self).alert_list(),
            },
    {
        proof {
            use_type_invariant(&*self);
        }
        let mut i: usize = 0;
        while i < self.alerts.len()
            invariant
                i <= self.alerts.len(),
                self.alerts@ == old(self).alerts@,
                self.max_alerts == old(self).max_alerts,
                self.alerts.len() <= self.max_alerts,
                forall|j: int| 0 <= j < i ==> self.alerts@[j].id != id,
            decreases self.alerts.len() - i,
        {
            if self.alerts[i].id == id {
                let ghost s = self.alerts@;
                assert(first_with_id(s, id) == Some(i as int)) by {
                    assert(0 <= i < s.len() && s[i as int].id == id);
                    let c = choose|c: int|
                        0 <= c < s.len() && s[c].id == id && forall|j: int| 0 <= j < c ==> s[j].id != id;
                    assert(0 <= c < s.len() && s[c].id == id && forall|j: int| 0 <= j < c ==> s[j].id != id);
                    if c < i {
                    } else if c > i {
                        assert(s[i as int].id != id);
                    }
                };
                self.alerts[i].acknowledged = true;
                assert(self.alerts@ =~= s.update(i as int, acknowledged(s[i as int])));
                return true;
            }
            i = i + 1;
        }
        false
    }

    /// Removes every stored alert.
    pub fn clear(&mut self)
        ensures
            final(self).capacity() == old(self).capacity(),
            final(self).alert_list() == Seq::<Alert>::empty(),
    {
        self.alerts = Vec::new();
    }
}

/// A law of the alert store: it never holds more than its capacity; a stored
/// alert comes last, after what was there (less the oldest, when it was full).
pub proof fn lemma_store_keeps_newest(s: Seq<Alert>, capacity: nat, alert: Alert)
    requires
        capacity > 0,
        s.len() <= capacity,
    ensures
        stored(s, capacity, alert).len() <= capacity,
        stored(s, capacity, alert).last() == alert,
        s.len() < capacity ==> stored(s, capacity, alert) == s.push(alert),
        s.len() == capacity ==> stored(s, capacity, alert).drop_last() == s.drop_first(),
{
}

/// A law of acknowledging: acknowledging an alert twice is acknowledging it
/// once, and acknowledging the alert at `i` takes exactly that alert off the
/// unacknowledged ones (when it was on them).
pub proof fn lemma_acknowledge_removes_one(s: Seq<Alert>, i: int)
    requires
        0 <= i < s.len(),
    ensures
        acknowledged(acknowledged(s[i])) == acknowledged(s[i]),
        unacknowledged(s.update(i, acknowledged(s[i]))).len() + (if s[i].acknowledged { 0int } else { 1int })
            == unacknowledged(s).len(),
    decreases s.len(),
{
    let t = s.update(i, acknowledged(s[i]));
    if i == s.len() - 1 {
        assert(t.drop_last() =~= s.drop_last());
    } else {
        assert(t.drop_last() =~= s.drop_last().update(i, acknowledged(s.drop_last()[i])));
        lemma_acknowledge_removes_one(s.drop_last(), i);
    }
}

} // verus!
