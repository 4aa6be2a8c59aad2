//! What the desktop front end is shown, and the choices behind it: which
//! capture interface to use, how long capture has run, and the bounded logs of
//! recent connections and alerts.
use vstd::prelude::*;
use crate::alerts::{Alert, severity_text};
use crate::clock::{rfc3339_text, timestamp_text, uuid_string, uuid_text};
use crate::ipaddr::{IpAddress, ip_text, push_ip_text};
use crate::models::{NetworkEvent, opt_text, protocol_text};
use crate::text::{ascii_lower, ascii_lowercase, contains, decimal, push_decimal, push_str, string_of, chars_of, chars_equal, views};

verus! {

/// The status panel.
#[derive(Clone, Debug)]
pub struct StatusResponse {
    pub is_capturing: bool,
    pub connections_seen: u64,
    pub alert_count: usize,
    pub uptime_secs: u64,
    pub selected_interface: Option<String>,
    pub last_message: Option<String>,
}

/// One alert as listed.
#[derive(Clone, Debug)]
pub struct AlertResponse {
    pub id: String,
    pub severity: String,
    pub title: String,
    pub description: String,
    pub timestamp: String,
    pub source_ip: Option<String>,
    pub destination_ip: Option<String>,
    pub port: Option<u16>,
    pub protocol: Option<String>,
    pub process_name: Option<String>,
}

/// One connection as listed.
#[derive(Clone, Debug)]
pub struct ConnectionResponse {
    pub source_ip: String,
    pub destination_ip: String,
    pub source_port: u16,
    pub destination_port: u16,
    pub protocol: String,
    pub process_name: Option<String>,
    pub packet_size: usize,
    pub timestamp: String,
}

/// The capture interfaces and the one selected.
#[derive(Clone, Debug)]
pub struct InterfaceListResponse {
    pub interfaces: Vec<String>,
    pub selected: Option<String>,
}

/// The message given when no capture interface exists.
pub open spec fn no_interfaces_text() -> Seq<char> {
    "No network interfaces found. On Windows, make sure Npcap is installed."@
}

/// Whether an interface is a good default: its lowercase name mentions
/// neither a loopback nor a bluetooth device.
pub open spec fn preferred_interface(name: Seq<char>) -> bool {
    !contains(ascii_lowercase(name), "loopback"@) && !contains(ascii_lowercase(name), "bluetooth"@)
}

fn lower_char(c: char) -> (r: char)
    ensures
        r == ascii_lower(c),
{
    if 'A' <= c && c <= 'Z' {
        let b: u8 = c as u8;
        assert(b == c as u32);
        ((b + 32) as char)
    } else {
        c
    }
}

fn ascii_lowercase_chars(s: &str) -> (v: Vec<char>)
    ensures
        v@ == ascii_lowercase(s@),
{
    let cs = chars_of(s);
    let mut v: Vec<char> = Vec::new();
    let mut i: usize = 0;
    while i < cs.len()
        invariant
            cs@ == s@,
            i <= cs.len(),
            v@ == ascii_lowercase(cs@.take(i as int)),
        decreases cs.len() - i,
    {
        v.push(lower_char(cs[i]));
        i = i + 1;
        assert(v@ =~= ascii_lowercase(cs@.take(i as int)));
    }
    assert(cs@.take(i as int) =~= cs@);
    v
}

fn is_preferred_interface(name: &str) -> (r: bool)
    ensures
        r == preferred_interface(name@),
{
    let lower = ascii_lowercase_chars(name);
    let loopback = chars_of("loopback");
    let bluetooth = chars_of("bluetooth");
    !crate::text::chars_contains(&lower, &loopback) && !crate::text::chars_contains(&lower, &bluetooth)
}

/// The interface to capture on when the user picked none: the first whose
/// name mentions neither loopback nor bluetooth (in any ASCII case), else the
/// first listed. With no interface at all, the error says how to get one.
pub fn select_default_interface(interfaces: &Vec<String>) -> (r: Result<String, String>)
    ensures
        interfaces.len() == 0 ==> r is Err && r->Err_0@ == no_interfaces_text(),
        interfaces.len() > 0 ==> r is Ok,
        r matches Ok(name) ==> {
            ||| exists|i: int|
                #![trigger interfaces@[i]]
                0 <= i < interfaces.len() && name@ == interfaces@[i]@
                    && preferred_interface(interfaces@[i]@)
                    && forall|j: int| 0 <= j < i ==> !preferred_interface(#[trigger] interfaces@[j]@)
            ||| (forall|j: int| 0 <= j < interfaces.len() ==> !preferred_interface(#[trigger] interfaces@[j]@))
                && name@ == interfaces@[0]@
        },
{
    if interfaces.len() == 0 {
        return Err(string_of("No network interfaces found. On Windows, make sure Npcap is installed."));
    }
    let mut i: usize = 0;
    while i < interfaces.len()
        invariant
            i <= interfaces.len(),
            forall|j: int| 0 <= j < i ==> !preferred_interface(#[trigger] interfaces@[j]@),
        decreases interfaces.len() - i,
    {
        if is_preferred_interface(interfaces[i].as_str()) {
            let name = interfaces[i].clone();
            return Ok(name);
        }
        i = i + 1;
    }
    Ok(interfaces[0].clone())
}

/// The message for choosing `interface` among `interfaces`: it must be one of them.
pub open spec fn interface_choice(interfaces: Seq<Seq<char>>, interface: Seq<char>) -> Result<Seq<char>, Seq<char>> {
    if interfaces.contains(interface) {
        Ok("Selected interface: "@ + interface)
    } else {
        Err("Interface not found: "@ + interface)
    }
}

/// The views of a list of names.
pub open spec fn names_of(v: Seq<String>) -> Seq<Seq<char>> {
    v.map_values(|s: String| s@)
}

/// The view of a result of strings.
pub open spec fn result_text(r: Result<String, String>) -> Result<Seq<char>, Seq<char>> {
    match r {
        Ok(s) => Ok(s@),
        Err(e) => Err(e@),
    }
}

/// Checks a user's choice of capture interface against those that exist, and
/// gives the message to show.
pub fn validate_interface_choice(interfaces: &Vec<String>, interface: &str) -> (r: Result<String, String>)
    ensures
        result_text(r) == interface_choice(names_of(interfaces@), interface@),
{
    let wanted = chars_of(interface);
    let mut i: usize = 0;
    while i < interfaces.len()
        invariant
            i <= interfaces.len(),
            wanted@ == interface@,
            forall|j: int| 0 <= j < i ==> interfaces@[j]@ != interface@,
        decreases interfaces.len() - i,
    {
        let name = chars_of(interfaces[i].as_str());
        if chars_equal(&name, &wanted) {
            let mut s = string_of("Selected interface: ");
            push_str(&mut s, interface);
            assert(names_of(interfaces@)[i as int] == interface@);
            return Ok(s);
        }
        i = i + 1;
    }
    assert(!names_of(interfaces@).contains(interface@)) by {
        if names_of(interfaces@).contains(interface@) {
            let k = choose|k: int| 0 <= k < names_of(interfaces@).len() && names_of(interfaces@)[k] == interface@;
            assert(interfaces@[k]@ == interface@);
        }
    }
    let mut s = string_of("Interface not found: ");
    push_str(&mut s, interface);
    Err(s)
}

/// Whole seconds from `started_at` to `now` (both in microseconds since the
/// epoch), truncated, and 0 when `now` is earlier.
pub open spec fn uptime(now: i64, started_at: i64) -> int {
    if now - started_at > 0 {
        (now - started_at) / 1_000_000
    } else {
        0
    }
}

/// How long capture has run, in whole seconds.
pub fn uptime_secs(now: i64, started_at: i64) -> (s: u64)
    ensures
        s == uptime(now, started_at),
{
    let d: i128 = (now as i128) - (started_at as i128);
    if d > 0 {
        (d / 1_000_000) as u64
    } else {
        0
    }
}

/// The line for a port-scan candidate: `<ip>: <count> ports`.
pub open spec fn scan_candidate_text(ip: IpAddress, count: nat) -> Seq<char> {
    ip_text(ip) + ": "@ + decimal(count) + " ports"@
}

/// The lines for the port-scan candidates, in order.
pub fn port_scan_lines(candidates: &Vec<(IpAddress, usize)>) -> (lines: Vec<String>)
    ensures
        lines.len() == candidates.len(),
        forall|i: int|
            0 <= i < candidates.len() ==> #[trigger] lines@[i]@ == scan_candidate_text(
                candidates@[i].0,
                candidates@[i].1 as nat,
            ),
{
    let mut lines: Vec<String> = Vec::new();
    let mut i: usize = 0;
    while i < candidates.len()
        invariant
            i <= candidates.len(),
            lines.len() == i,
            forall|k: int|
                0 <= k < i ==> #[trigger] lines@[k]@ == scan_candidate_text(
                    candidates@[k].0,
                    candidates@[k].1 as nat,
                ),
        decreases candidates.len() - i,
    {
        let (ip, count) = candidates[i];
        let mut s = String::new();
        push_ip_text(&mut s, ip);
        push_str(&mut s, ": ");
        push_decimal(&mut s, count as u64);
        push_str(&mut s, " ports");
        assert(s@ =~= scan_candidate_text(ip, count as nat));
        lines.push(s);
        i = i + 1;
    }
    lines
}

/// The text of an optional address.
pub open spec fn opt_ip_text(ip: Option<IpAddress>) -> Option<Seq<char>> {
    match ip {
        Some(a) => Some(ip_text(a)),
        None => None,
    }
}

/// Whether `r` lists alert `a`: its identifier, severity, time and addresses
/// as text, the rest as it is.
pub open spec fn lists_alert(r: AlertResponse, a: Alert) -> bool {
    &&& r.id@ == uuid_text(a.id)
    &&& r.severity@ == severity_text(a.severity)
    &&& r.title@ == a.title@
    &&& r.description@ == a.description@
    &&& r.timestamp@ == rfc3339_text(a.timestamp)
    &&& opt_text(r.source_ip) == opt_ip_text(a.source_ip)
    &&& opt_text(r.destination_ip) == opt_ip_text(a.destination_ip)
    &&& r.port == a.port
    &&& opt_text(r.protocol) == opt_text(a.protocol)
    &&& opt_text(r.process_name) == opt_text(a.process_name)
}

/// Whether `r` lists event `e`: addresses, protocol and time as text, the
/// rest as it is.
pub open spec fn lists_event(r: ConnectionResponse, e: NetworkEvent) -> bool {
    &&& r.source_ip@ == ip_text(e.source_ip)
    &&& r.destination_ip@ == ip_text(e.destination_ip)
    &&& r.source_port == e.source_port
    &&& r.destination_port == e.destination_port
    &&& r.protocol@ == protocol_text(e.protocol)
    &&& opt_text(r.process_name) == opt_text(e.process_name)
    &&& r.packet_size == e.packet_size
    &&& r.timestamp@ == rfc3339_text(e.timestamp)
}

fn copy_opt(o: &Option<String>) -> (r: Option<String>)
    ensures
        opt_text(r) == opt_text(*o),
{
    match o {
        Some(s) => Some(s.clone()),
        None => None,
    }
}

fn opt_ip_string(ip: Option<IpAddress>) -> (r: Option<String>)
    ensures
        opt_text(r) == opt_ip_text(ip),
{
    match ip {
        Some(a) => Some(a.to_text()),
        None => None,
    }
}

impl AlertResponse {
    /// The listing of an alert.
    pub fn from_alert(a: &Alert) -> (r: AlertResponse)
        ensures
            lists_alert(r, *a),
    {
        AlertResponse {
            id: uuid_string(a.id),
            severity: a.severity.to_text(),
            title: a.title.clone(),
            description: a.description.clone(),
            timestamp: timestamp_text(a.timestamp),
            source_ip: opt_ip_string(a.source_ip),
            destination_ip: opt_ip_string(a.destination_ip),
            port: a.port,
            protocol: copy_opt(&a.protocol),
            process_name: copy_opt(&a.process_name),
        }
    }
}

impl ConnectionResponse {
    /// The listing of a connection event.
    pub fn from_event(e: &NetworkEvent) -> (r: ConnectionResponse)
        ensures
            lists_event(r, *e),
    {
        ConnectionResponse {
            source_ip: e.source_ip.to_text(),
            destination_ip: e.destination_ip.to_text(),
            source_port: e.source_port,
            destination_port: e.destination_port,
            protocol: e.protocol.to_text(),
            process_name: copy_opt(&e.process_name),
            packet_size: e.packet_size,
            timestamp: timestamp_text(e.timestamp),
        }
    }
}

/// The alerts as listed, newest first (the log holds them oldest first).
pub fn alert_responses(alerts: &[Alert]) -> (r: Vec<AlertResponse>)
    ensures
        r.len() == alerts.len(),
        forall|i: int| 0 <= i < r.len() ==> lists_alert(#[trigger] r@[i], alerts@[alerts.len() - 1 - i]),
{
    let mut r: Vec<AlertResponse> = Vec::new();
    let mut k: usize = alerts.len();
    while k > 0
        invariant
            k <= alerts.len(),
            r.len() == alerts.len() - k,
            forall|i: int| 0 <= i < r.len() ==> lists_alert(#[trigger] r@[i], alerts@[alerts.len() - 1 - i]),
        decreases k,
    {
        k = k - 1;
        r.push(AlertResponse::from_alert(&alerts[k]));
    }
    r
}

/// The connections as listed, newest first (the log holds them oldest first).
pub fn connection_responses(events: &[NetworkEvent]) -> (r: Vec<ConnectionResponse>)
    ensures
        r.len() == events.len(),
        forall|i: int| 0 <= i < r.len() ==> lists_event(#[trigger] r@[i], events@[events.len() - 1 - i]),
{
    let mut r: Vec<ConnectionResponse> = Vec::new();
    let mut k: usize = events.len();
    while k > 0
        invariant
            k <= events.len(),
            r.len() == events.len() - k,
            forall|i: int| 0 <= i < r.len() ==> lists_event(#[trigger] r@[i], events@[events.len() - 1 - i]),
        decreases k,
    {
        k = k - 1;
        r.push(ConnectionResponse::from_event(&events[k]));
    }
    r
}

/// The risk note of a DNS history entry for an event: events with a queried
/// domain and port 53 at either end are entries, noted as a live
/// query/response when the response code is 0; other events are none.
pub open spec fn dns_history_note_text(e: NetworkEvent) -> Option<Seq<char>> {
    if e.dns_query_domain is Some && (e.destination_port == 53 || e.source_port == 53) {
        Some(
            if e.dns_response_code == Some(0u16) {
                "Observed live DNS query/response"@
            } else {
                "Observed DNS packet with non-zero response code"@
            },
        )
    } else {
        None
    }
}

/// Whether an event belongs in the DNS history, and the note it carries.
pub fn dns_history_note(e: &NetworkEvent) -> (r: Option<String>)
    ensures
        opt_text(r) == dns_history_note_text(*e),
{
    if e.dns_query_domain.is_none() || (e.destination_port != 53 && e.source_port != 53) {
        return None;
    }
    match e.dns_response_code {
        Some(0) => Some(string_of("Observed live DNS query/response")),
        _ => Some(string_of("Observed DNS packet with non-zero response code")),
    }
}

/// One DNS history entry as listed (its risk score aside, which is always
/// zero and a floating-point number).
#[derive(Clone, Debug)]
pub struct DnsHistoryEntry {
    pub domain: String,
    pub risk_factors: Vec<String>,
    pub timestamp: String,
    pub resolver: String,
    pub response_ips: Vec<String>,
    pub response_code: Option<u16>,
}

/// The events of a log (oldest first) that are DNS history entries, newest
/// first.
pub open spec fn dns_history_events(events: Seq<NetworkEvent>) -> Seq<NetworkEvent>
    decreases events.len(),
{
    if events.len() == 0 {
        Seq::empty()
    } else {
        dns_history_events(events.drop_first()) + if dns_history_note_text(events[0]) is Some {
            seq![events[0]]
        } else {
            Seq::empty()
        }
    }
}

/// The texts of addresses.
pub open spec fn ip_texts(ips: Seq<IpAddress>) -> Seq<Seq<char>> {
    ips.map_values(|ip: IpAddress| ip_text(ip))
}

/// Whether `h` lists event `e` in the DNS history: its queried domain, its
/// note as the one risk factor, its time as text, its destination as the
/// resolver, its answers as text, its response code.
pub open spec fn lists_dns_entry(h: DnsHistoryEntry, e: NetworkEvent) -> bool {
    &&& opt_text(e.dns_query_domain) == Some(h.domain@)
    &&& views(h.risk_factors@) == seq![dns_history_note_text(e)->0]
    &&& h.timestamp@ == rfc3339_text(e.timestamp)
    &&& h.resolver@ == ip_text(e.destination_ip)
    &&& views(h.response_ips@) == ip_texts(e.dns_response_ips@)
    &&& h.response_code == e.dns_response_code
}

fn ip_strings(ips: &Vec<IpAddress>) -> (r: Vec<String>)
    ensures
        views(r@) == ip_texts(ips@),
{
    let mut r: Vec<String> = Vec::new();
    let mut i: usize = 0;
    while i < ips.len()
        invariant
            i <= ips.len(),
            views(r@) == ip_texts(ips@.take(i as int)),
        decreases ips.len() - i,
    {
        let ghost before = r@;
        let t = ips[i].to_text();
        let ghost tv = t@;
        r.push(t);
        assert(views(r@) =~= views(before).push(tv));
        assert(ip_texts(ips@.take(i + 1)) =~= ip_texts(ips@.take(i as int)).push(ip_text(ips@[i as int])));
        i = i + 1;
    }
    assert(ips@.take(i as int) =~= ips@);
    r
}

/// The DNS history of a connection log (oldest first): an entry for each
/// event with a queried domain and port 53 at either end, newest first.
pub fn dns_history(events: &[NetworkEvent]) -> (r: Vec<DnsHistoryEntry>)
    ensures
        r.len() == dns_history_events(events@).len(),
        forall|i: int|
            0 <= i < r.len() ==> lists_dns_entry(#[trigger] r@[i], dns_history_events(events@)[i]),
{
    let mut r: Vec<DnsHistoryEntry> = Vec::new();
    let mut k: usize = events.len();
    assert(events@.subrange(k as int, events.len() as int) =~= Seq::<NetworkEvent>::empty());
    while k > 0
        invariant
            k <= events.len(),
            r.len() == dns_history_events(events@.subrange(k as int, events.len() as int)).len(),
            forall|i: int|
                0 <= i < r.len() ==> lists_dns_entry(
                    #[trigger] r@[i],
                    dns_history_events(events@.subrange(k as int, events.len() as int))[i],
                ),
        decreases k,
    {
        let ghost done = dns_history_events(events@.subrange(k as int, events.len() as int));
        k = k - 1;
        let ghost whole = events@.subrange(k as int, events.len() as int);
        assert(whole.drop_first() =~= events@.subrange(k + 1, events.len() as int));
        assert(whole[0] == events@[k as int]);
        let e = &events[k];
        match dns_history_note(e) {
            Some(note) => {
                let domain = match &e.dns_query_domain {
                    Some(d) => d.clone(),
                    None => String::new(),
                };
                let mut risk_factors: Vec<String> = Vec::new();
                risk_factors.push(note);
                assert(views(risk_factors@) =~= seq![dns_history_note_text(*e)->0]);
                let entry = DnsHistoryEntry {
                    domain,
                    risk_factors,
                    timestamp: timestamp_text(e.timestamp),
                    resolver: e.destination_ip.to_text(),
                    response_ips: ip_strings(&e.dns_response_ips),
                    response_code: e.dns_response_code,
                };
                r.push(entry);
                assert(dns_history_events(whole) == done.push(*e));
                assert forall|i: int| 0 <= i < r.len() implies lists_dns_entry(
                    #[trigger] r@[i],
                    dns_history_events(whole)[i],
                ) by {
                    if i < done.len() {
                        assert(dns_history_events(whole)[i] == done[i]);
                    }
                }
            },
            None => {
                assert(dns_history_events(whole) =~= done);
            },
        }
    }
    assert(events@.subrange(0, events.len() as int) =~= events@);
    r
}

/// A log of the most recent items, holding at most `capacity` of them.
pub struct RecentLog<T> {
    items: Vec<T>,
    capacity: usize,
}

/// What a log holds after one more item: the item at the end, and the oldest
/// dropped when the log was full.
pub open spec fn logged<T>(items: Seq<T>, capacity: nat, item: T) -> Seq<T> {
    if items.len() >= capacity && items.len() > 0 {
        items.drop_first().push(item)
    } else {
        items.push(item)
    }
}

impl<T> RecentLog<T> {
    #[verifier::type_invariant]
    spec fn within_capacity(self) -> bool {
        self.capacity > 0 && self.items.len() <= self.capacity
    }

    /// The items held, oldest first.
    pub closed spec fn entries(self) -> Seq<T> {
        self.items@
    }

    /// The most items the log holds.
    pub closed spec fn limit(self) -> nat {
        self.capacity as nat
    }

    /// An empty log of the given capacity (at least one).
    pub fn new(capacity: usize) -> (log: Self)
        requires
            capacity > 0,
        ensures
            log.entries() == Seq::<T>::empty(),
            log.limit() == capacity,
    {
        RecentLog { items: Vec::new(), capacity }
    }

    /// Appends an item, first dropping the oldest when the log is full.
    pub fn push(&mut self, item: T)
        ensures
            final(self).entries() == logged(old(self).entries(), old(self).limit(), item),
            final(self).limit() == old(self).limit(),
            final(self).entries().len() <= final(self).limit(),
    {
        proof {
            use_type_invariant(&*self);
        }
        let mut items = Vec::new();
        std::mem::swap(&mut items, &mut self.items);
        if items.len() >= self.capacity {
            items.remove(0);
        }
        items.push(item);
        self.items = items;
    }

    /// Removes every item.
    pub fn clear(&mut self)
        ensures
            final(self).entries() == Seq::<T>::empty(),
            final(self).limit() == old(self).limit(),
    {
        proof {
            use_type_invariant(&*self);
        }
        self.items = Vec::new();
    }

    /// The number of items held.
    pub fn len(&self) -> (n: usize)
        ensures
            n == self.entries().len(),
    {
        self.items.len()
    }

    /// The items held, oldest first.
    pub fn items(&self) -> (s: &[T])
        ensures
            s@ == self.entries(),
    {
        self.items.as_slice()
    }
}

/// A law of the log: it never holds more than its capacity, and after a
/// push its newest item is the one pushed, preceded by what was there
/// (less the oldest, when it was full).
pub proof fn lemma_log_keeps_newest<T>(items: Seq<T>, capacity: nat, item: T)
    requires
        capacity > 0,
        items.len() <= capacity,
    ensures
        logged(items, capacity, item).len() <= capacity,
        logged(items, capacity, item).last() == item,
        items.len() < capacity ==> logged(items, capacity, item) == items.push(item),
        items.len() == capacity ==> logged(items, capacity, item).drop_last() == items.drop_first(),
{
}

} // verus!
