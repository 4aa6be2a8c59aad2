//! What the command-line monitor shows: the interface picked from the
//! operator's answer, the report printed for each alert, and the running
//! totals.
use vstd::prelude::*;
use crate::alerts::{Alert, severity_text};
use crate::ipaddr::{ip_text, push_ip_text};
use crate::process::{is_white, parse_unsigned, parse_unsigned_chars};
use crate::text::{chars_of, decimal, push_char, push_decimal, push_str, string_of};

verus! {

/// Whether `t` is `s` with the white space at both ends removed (what `trim`
/// gives).
pub open spec fn white_trimmed(s: Seq<char>, t: Seq<char>) -> bool {
    exists|a: int, b: int|
        #![trigger s.subrange(a, b)]
        0 <= a <= b <= s.len() && t == s.subrange(a, b) && (forall|k: int| 0 <= k < a ==> is_white(s[k]))
            && (forall|k: int| b <= k < s.len() ==> is_white(s[k])) && (a < b ==> !is_white(s[a])
            && !is_white(s[b - 1]))
}

/// The interface picked by an answer: the number it gives, once trimmed, when
/// that is a listed position, else the first.
pub open spec fn picked(count: nat, answer: Seq<char>) -> nat {
    match parse_unsigned(answer, 10, usize::MAX as nat) {
        Some(n) => if n < count { n } else { 0 },
        None => 0,
    }
}

fn is_white_char(c: char) -> (r: bool)
    ensures
        r == is_white(c),
{
    let u = c as u32;
    (0x9 <= u && u <= 0xd) || u == 0x20 || u == 0x85 || u == 0xa0 || u == 0x1680 || (0x2000 <= u
        && u <= 0x200a) || u == 0x2028 || u == 0x2029 || u == 0x202f || u == 0x205f || u == 0x3000
}

/// The position of the interface to capture on, from the operator's answer
/// to a list of `count` interfaces: the number typed (white space around it
/// ignored) when it is a listed position, else 0.
pub fn chosen_interface(count: usize, answer: &str) -> (i: usize)
    requires
        count > 0,
    ensures
        i < count,
        exists|t: Seq<char>| white_trimmed(answer@, t) && i == picked(count as nat, t),
{
    let cs = chars_of(answer);
    let n = cs.len();
    let mut a: usize = 0;
    while a < n && is_white_char(cs[a])
        invariant
            n == cs.len(),
            a <= n,
            forall|k: int| 0 <= k < a ==> is_white(cs@[k]),
        decreases n - a,
    {
        a = a + 1;
    }
    let mut b: usize = n;
    while b > a && is_white_char(cs[b - 1])
        invariant
            n == cs.len(),
            a <= b <= n,
            forall|k: int| b <= k < n ==> is_white(cs@[k]),
        decreases b,
    {
        b = b - 1;
    }
    let mut t: Vec<char> = Vec::new();
    let mut k: usize = a;
    while k < b
        invariant
            a <= k <= b <= n,
            n == cs.len(),
            t@ == cs@.subrange(a as int, k as int),
        decreases b - k,
    {
        t.push(cs[k]);
        k = k + 1;
        assert(t@ =~= cs@.subrange(a as int, k as int));
    }
    assert(cs@ == answer@);
    assert(white_trimmed(answer@, t@));
    let i = match parse_unsigned_chars(&t, 10, usize::MAX as u64) {
        Some(v) => if v < count as u64 { v as usize } else { 0 },
        None => 0,
    };
    assert(i == picked(count as nat, t@));
    i
}

/// A rule of `n` heavy box-drawing lines.
pub open spec fn bars(n: nat) -> Seq<char> {
    Seq::new(n, |i: int| '━')
}

fn push_bars(s: &mut String, n: usize)
    ensures
        final(s)@ == old(s)@ + bars(n as nat),
{
    let mut i: usize = 0;
    while i < n
        invariant
            i <= n,
            s@ == old(s)@ + bars(i as nat),
        decreases n - i,
    {
        push_char(s, '━');
        i = i + 1;
        assert(s@ =~= old(s)@ + bars(i as nat));
    }
}

/// The lines printed for the alert numbered `number`: a blank line, a heading
/// rule with the number, severity, title and detail, the source, destination
/// and port where the alert has them, and a closing rule.
pub open spec fn alert_report_lines(number: u64, a: Alert) -> Seq<Seq<char>> {
    seq![
        Seq::<char>::empty(),
        bars(3) + " ALERT #"@ + decimal(number as nat) + seq![' '] + bars(30),
        "  Severity:  "@ + severity_text(a.severity),
        "  Title:     "@ + a.title@,
        "  Detail:    "@ + a.description@,
    ] + match a.source_ip {
        Some(ip) => seq!["  Source:    "@ + ip_text(ip)],
        None => Seq::empty(),
    } + match a.destination_ip {
        Some(ip) => seq!["  Dest:      "@ + ip_text(ip)],
        None => Seq::empty(),
    } + match a.port {
        Some(p) => seq!["  Port:      "@ + decimal(p as nat)],
        None => Seq::empty(),
    } + seq![bars(39)]
}

/// The views of a sequence of lines.
pub open spec fn line_texts(lines: Seq<String>) -> Seq<Seq<char>> {
    lines.map_values(|l: String| l@)
}

fn push_line(lines: &mut Vec<String>, line: String)
    ensures
        line_texts(final(lines)@) == line_texts(old(lines)@).push(line@),
{
    lines.push(line);
    assert(line_texts(lines@) =~= line_texts(old(lines)@).push(line@));
}

/// The report printed for the alert numbered `number`.
pub fn alert_report(number: u64, a: &Alert) -> (lines: Vec<String>)
    ensures
        line_texts(lines@) == alert_report_lines(number, *a),
{
    let mut lines: Vec<String> = Vec::new();
    push_line(&mut lines, String::new());
    let mut head = String::new();
    push_bars(&mut head, 3);
    push_str(&mut head, " ALERT #");
    push_decimal(&mut head, number);
    push_char(&mut head, ' ');
    push_bars(&mut head, 30);
    assert(head@ =~= bars(3) + " ALERT #"@ + decimal(number as nat) + seq![' '] + bars(30));
    push_line(&mut lines, head);
    let mut sev = string_of("  Severity:  ");
    let st = a.severity.to_text();
    push_str(&mut sev, st.as_str());
    push_line(&mut lines, sev);
    let mut title = string_of("  Title:     ");
    push_str(&mut title, a.title.as_str());
    push_line(&mut lines, title);
    let mut detail = string_of("  Detail:    ");
    push_str(&mut detail, a.description.as_str());
    push_line(&mut lines, detail);
    let ghost fixed = line_texts(lines@);
    assert(fixed =~= seq![
        Seq::<char>::empty(),
        bars(3) + " ALERT #"@ + decimal(number as nat) + seq![' '] + bars(30),
        "  Severity:  "@ + severity_text(a.severity),
        "  Title:     "@ + a.title@,
        "  Detail:    "@ + a.description@,
    ]);
    match a.source_ip {
        Some(ip) => {
            let mut l = string_of("  Source:    ");
            push_ip_text(&mut l, ip);
            push_line(&mut lines, l);
        },
        None => {},
    }
    let ghost with_source = line_texts(lines@);
    match a.destination_ip {
        Some(ip) => {
            let mut l = string_of("  Dest:      ");
            push_ip_text(&mut l, ip);
            push_line(&mut lines, l);
        },
        None => {},
    }
    let ghost with_dest = line_texts(lines@);
    match a.port {
        Some(p) => {
            let mut l = string_of("  Port:      ");
            push_decimal(&mut l, p as u64);
            push_line(&mut lines, l);
        },
        None => {},
    }
    let ghost with_port = line_texts(lines@);
    let mut close = String::new();
    push_bars(&mut close, 39);
    push_line(&mut lines, close);
    proof {
        let src: Seq<Seq<char>> = match a.source_ip {
            Some(ip) => seq!["  Source:    "@ + ip_text(ip)],
            None => Seq::empty(),
        };
        let dst: Seq<Seq<char>> = match a.destination_ip {
            Some(ip) => seq!["  Dest:      "@ + ip_text(ip)],
            None => Seq::empty(),
        };
        let prt: Seq<Seq<char>> = match a.port {
            Some(p) => seq!["  Port:      "@ + decimal(p as nat)],
            None => Seq::empty(),
        };
        assert(with_source =~= fixed + src);
        assert(with_dest =~= fixed + src + dst);
        assert(with_port =~= fixed + src + dst + prt);
        assert(close@ =~= bars(39));
        assert(line_texts(lines@) =~= alert_report_lines(number, *a));
    }
    lines
}

/// The running totals shown after every hundredth event.
pub open spec fn progress_text(events: u64, alerts: u64, scans: usize) -> Seq<char> {
    "\r  Events: "@ + decimal(events as nat) + " | Alerts: "@ + decimal(alerts as nat)
        + " | Port scans tracked: "@ + decimal(scans as nat)
}

/// The running totals to show after `events` events, `alerts` alerts and
/// `scans` port-scan candidates: shown when the event count is a multiple
/// of 100.
pub fn progress_line(events: u64, alerts: u64, scans: usize) -> (r: Option<String>)
    ensures
        events % 100 == 0 ==> (r matches Some(s) && s@ == progress_text(events, alerts, scans)),
        events % 100 != 0 ==> r is None,
{
    if events % 100 != 0 {
        return None;
    }
    let mut s = string_of("\r  Events: ");
    push_decimal(&mut s, events);
    push_str(&mut s, " | Alerts: ");
    push_decimal(&mut s, alerts);
    push_str(&mut s, " | Port scans tracked: ");
    push_decimal(&mut s, scans as u64);
    assert(s@ =~= progress_text(events, alerts, scans));
    Some(s)
}

} // verus!
