//! Detection rules: each looks at one network event and may match it with a
//! severity and a description.
use vstd::prelude::*;
use crate::alerts::AlertSeverity;
use crate::ipaddr::{IpAddress, ip_text, is_local, push_ip_text};
use crate::models::NetworkEvent;
use crate::text::{decimal, push_char, push_decimal, push_str, string_of};

verus! {

/// A rule's match: the rule's name, a severity and a description.
#[derive(Debug)]
pub struct RuleMatch {
    pub rule_name: String,
    pub severity: AlertSeverity,
    pub description: String,
}

/// The severity and description of a match, if any.
pub open spec fn match_outcome(r: Option<RuleMatch>) -> Option<(AlertSeverity, Seq<char>)> {
    match r {
        Some(m) => Some((m.severity, m.description@)),
        None => None,
    }
}

/// A detection rule. Users may add their own.
pub trait DetectionRule: Send + Sync {
    /// The rule's name.
    spec fn rule_name(&self) -> Seq<char>;

    /// Whether `outcome` is a result the rule may give for `event`: `None`
    /// for no match, or the severity and description of a match.
    spec fn permits(&self, event: NetworkEvent, outcome: Option<(AlertSeverity, Seq<char>)>) -> bool;

    fn name(&self) -> (r: &str)
        ensures
            r@ == self.rule_name(),
    ;

    fn evaluate(&self, event: &NetworkEvent) -> (r: Option<RuleMatch>)
        ensures
            self.permits(*event, match_outcome(r)),
            r matches Some(m) ==> m.rule_name@ == self.rule_name(),
    ;
}

/// Ports of remote shells, file sharing, databases, remote desktop and
/// well-known backdoors.
pub open spec fn suspicious_port(p: u16) -> bool {
    p == 22 || p == 23 || p == 135 || p == 445 || p == 1433 || p == 3389 || p == 4444 || p == 5555
        || p == 6666 || p == 6667 || p == 1337 || p == 31337
}

fn is_suspicious_port(p: u16) -> (r: bool)
    ensures
        r == suspicious_port(p),
{
    p == 22 || p == 23 || p == 135 || p == 445 || p == 1433 || p == 3389 || p == 4444 || p == 5555
        || p == 6666 || p == 6667 || p == 1337 || p == 31337
}

/// `a -> b`
pub open spec fn arrow(a: IpAddress, b: IpAddress) -> Seq<char> {
    ip_text(a) + " -> "@ + ip_text(b)
}

fn push_arrow(s: &mut String, a: IpAddress, b: IpAddress)
    ensures
        final(s)@ == old(s)@ + arrow(a, b),
{
    push_ip_text(s, a);
    push_str(s, " -> ");
    push_ip_text(s, b);
    assert(s@ =~= old(s)@ + arrow(a, b));
}

pub open spec fn egress_text(e: NetworkEvent) -> Seq<char> {
    "Email traffic detected on non-standard port: "@ + arrow(e.source_ip, e.destination_ip)
        + seq![':'] + decimal(e.destination_port as nat)
}

pub open spec fn high_port_text(e: NetworkEvent) -> Seq<char> {
    "Traffic between ephemeral ports: "@ + ip_text(e.source_ip) + seq![':'] + decimal(
        e.source_port as nat,
    ) + " -> "@ + ip_text(e.destination_ip) + seq![':'] + decimal(e.destination_port as nat)
}

pub open spec fn unknown_process_text(e: NetworkEvent) -> Seq<char> {
    "Connection from unknown process: "@ + arrow(e.source_ip, e.destination_ip) + seq![':']
        + decimal(e.destination_port as nat)
}

/// The outcome of the suspicious-port rule: a medium match when either port
/// is suspicious.
pub open spec fn suspicious_port_outcome(e: NetworkEvent) -> Option<(AlertSeverity, Seq<char>)> {
    if suspicious_port(e.destination_port) || suspicious_port(e.source_port) {
        Some(
            (
                AlertSeverity::Medium,
                "Connection on suspicious port "@ + decimal(e.destination_port as nat),
            ),
        )
    } else {
        None
    }
}

/// The outcome of the egress rule: a high match for mail traffic (port 25
/// or 587 at either end) from a local to a non-local address.
pub open spec fn egress_outcome(e: NetworkEvent) -> Option<(AlertSeverity, Seq<char>)> {
    if !is_local(e.destination_ip) && is_local(e.source_ip) && (e.destination_port == 25
        || e.destination_port == 587 || e.source_port == 25 || e.source_port == 587) {
        Some(
            (
                AlertSeverity::High,
                egress_text(e),
            ),
        )
    } else {
        None
    }
}

/// The outcome of the high-port rule: a low match when both ports are
/// ephemeral (49152 and up).
pub open spec fn high_port_outcome(e: NetworkEvent) -> Option<(AlertSeverity, Seq<char>)> {
    if e.source_port >= 49152 && e.destination_port >= 49152 {
        Some(
            (
                AlertSeverity::Low,
                high_port_text(e),
            ),
        )
    } else {
        None
    }
}

/// The outcome of the unknown-process rule: a medium match when no process
/// is known for the event.
pub open spec fn unknown_process_outcome(e: NetworkEvent) -> Option<(AlertSeverity, Seq<char>)> {
    if e.process_name is None {
        Some(
            (
                AlertSeverity::Medium,
                unknown_process_text(e),
            ),
        )
    } else {
        None
    }
}

/// The outcome of the DNS rule: a low match when either port is 53.
pub open spec fn dns_query_outcome(e: NetworkEvent) -> Option<(AlertSeverity, Seq<char>)> {
    if e.destination_port == 53 || e.source_port == 53 {
        Some((AlertSeverity::Low, "DNS query: "@ + arrow(e.source_ip, e.destination_ip)))
    } else {
        None
    }
}

/// Matches connections on suspicious ports.
#[derive(Clone, Copy, Debug)]
pub struct SuspiciousPortRule;

/// Matches mail traffic leaving the local network.
#[derive(Clone, Copy, Debug)]
pub struct PrivateIpEgressRule;

/// Matches traffic between two ephemeral ports.
#[derive(Clone, Copy, Debug)]
pub struct HighPortTrafficRule;

/// Matches connections of no known process.
#[derive(Clone, Copy, Debug)]
pub struct UnknownProcessRule;

/// Matches DNS traffic.
#[derive(Clone, Copy, Debug)]
pub struct DnsQueryRule;

impl DetectionRule for SuspiciousPortRule {
    open spec fn rule_name(&self) -> Seq<char> {
        "Suspicious Port"@
    }

    open spec fn permits(&self, event: NetworkEvent, outcome: Option<(AlertSeverity, Seq<char>)>) -> bool {
        outcome == suspicious_port_outcome(event)
    }

    fn name(&self) -> (r: &str) {
        "Suspicious Port"
    }

    fn evaluate(&self, event: &NetworkEvent) -> (r: Option<RuleMatch>) {
        if is_suspicious_port(event.destination_port) || is_suspicious_port(event.source_port) {
            let mut description = string_of("Connection on suspicious port ");
            push_decimal(&mut description, event.destination_port as u64);
            Some(
                RuleMatch {
                    rule_name: string_of(self.name()),
                    severity: AlertSeverity::Medium,
                    description,
                },
            )
        } else {
            None
        }
    }
}

impl DetectionRule for PrivateIpEgressRule {
    open spec fn rule_name(&self) -> Seq<char> {
        "Private IP Egress"@
    }

    open spec fn permits(&self, event: NetworkEvent, outcome: Option<(AlertSeverity, Seq<char>)>) -> bool {
        outcome == egress_outcome(event)
    }

    fn name(&self) -> (r: &str) {
        "Private IP Egress"
    }

    fn evaluate(&self, event: &NetworkEvent) -> (r: Option<RuleMatch>) {
        if !event.destination_ip.is_local() && event.source_ip.is_local() {
            if event.destination_port == 25 || event.destination_port == 587 || event.source_port
                == 25 || event.source_port == 587 {
                let mut description = string_of("Email traffic detected on non-standard port: ");
                push_arrow(&mut description, event.source_ip, event.destination_ip);
                push_char(&mut description, ':');
                push_decimal(&mut description, event.destination_port as u64);
                proof {
                    assert(description@ =~= egress_text(*event));
                }
                Some(
                    RuleMatch {
                        rule_name: string_of(self.name()),
                        severity: AlertSeverity::High,
                        description,
                    },
                )
            } else {
                None
            }
        } else {
            None
        }
    }
}

impl DetectionRule for HighPortTrafficRule {
    open spec fn rule_name(&self) -> Seq<char> {
        "High Port Traffic"@
    }

    open spec fn permits(&self, event: NetworkEvent, outcome: Option<(AlertSeverity, Seq<char>)>) -> bool {
        outcome == high_port_outcome(event)
    }

    fn name(&self) -> (r: &str) {
        "High Port Traffic"
    }

    fn evaluate(&self, event: &NetworkEvent) -> (r: Option<RuleMatch>) {
        if event.source_port >= 49152 && event.destination_port >= 49152 {
            let mut description = string_of("Traffic between ephemeral ports: ");
            push_ip_text(&mut description, event.source_ip);
            push_char(&mut description, ':');
            push_decimal(&mut description, event.source_port as u64);
            push_str(&mut description, " -> ");
            push_ip_text(&mut description, event.destination_ip);
            push_char(&mut description, ':');
            push_decimal(&mut description, event.destination_port as u64);
            proof {
                assert(description@ =~= high_port_text(*event));
            }
            Some(
                RuleMatch {
                    rule_name: string_of(self.name()),
                    severity: AlertSeverity::Low,
                    description,
                },
            )
        } else {
            None
        }
    }
}

impl DetectionRule for UnknownProcessRule {
    open spec fn rule_name(&self) -> Seq<char> {
        "Unknown Process"@
    }

    open spec fn permits(&self, event: NetworkEvent, outcome: Option<(AlertSeverity, Seq<char>)>) -> bool {
        outcome == unknown_process_outcome(event)
    }

    fn name(&self) -> (r: &str) {
        "Unknown Process"
    }

    fn evaluate(&self, event: &NetworkEvent) -> (r: Option<RuleMatch>) {
        if event.process_name.is_none() {
            let mut description = string_of("Connection from unknown process: ");
            push_arrow(&mut description, event.source_ip, event.destination_ip);
            push_char(&mut description, ':');
            push_decimal(&mut description, event.destination_port as u64);
            proof {
                assert(description@ =~= unknown_process_text(*event));
            }
            Some(
                RuleMatch {
                    rule_name: string_of(self.name()),
                    severity: AlertSeverity::Medium,
                    description,
                },
            )
        } else {
            None
        }
    }
}

impl DetectionRule for DnsQueryRule {
    open spec fn rule_name(&self) -> Seq<char> {
        "DNS Query"@
    }

    open spec fn permits(&self, event: NetworkEvent, outcome: Option<(AlertSeverity, Seq<char>)>) -> bool {
        outcome == dns_query_outcome(event)
    }

    fn name(&self) -> (r: &str) {
        "DNS Query"
    }

    fn evaluate(&self, event: &NetworkEvent) -> (r: Option<RuleMatch>) {
        if event.destination_port == 53 || event.source_port == 53 {
            let mut description = string_of("DNS query: ");
            push_arrow(&mut description, event.source_ip, event.destination_ip);
            Some(
                RuleMatch {
                    rule_name: string_of(self.name()),
                    severity: AlertSeverity::Low,
                    description,
                },
            )
        } else {
            None
        }
    }
}

/// A rule of the user's: a name, a severity and a condition on events.
pub struct CustomRule<F: Fn(&NetworkEvent) -> bool + Send + Sync> {
    name: String,
    severity: AlertSeverity,
    condition: F,
}

/// `Rule '<name>' triggered`
pub open spec fn custom_description(name: Seq<char>) -> Seq<char> {
    "Rule '"@ + name + "' triggered"@
}

impl<F: Fn(&NetworkEvent) -> bool + Send + Sync> CustomRule<F> {
    #[verifier::type_invariant]
    spec fn condition_total(self) -> bool {
        forall|e: &NetworkEvent| #[trigger] call_requires(self.condition, (e,))
    }

    /// The rule's severity.
    pub closed spec fn rule_severity(&self) -> AlertSeverity {
        self.severity
    }

    /// Whether the condition may answer `answer` for `event`.
    pub closed spec fn condition_answers(&self, event: NetworkEvent, answer: bool) -> bool {
        call_ensures(self.condition, (&event,), answer)
    }

    /// A rule with the given name, severity and condition; the condition
    /// must accept every event.
    pub fn new(name: &str, severity: AlertSeverity, condition: F) -> (r: Self)
        requires
            forall|e: &NetworkEvent| #[trigger] call_requires(condition, (e,)),
        ensures
            r.rule_name() == name@,
            r.rule_severity() == severity,
            forall|e: NetworkEvent, b: bool| r.condition_answers(e, b) == call_ensures(condition, (&e,), b),
    {
        CustomRule { name: string_of(name), severity, condition }
    }

    /// A law of custom rules: a custom rule matches an event exactly when its
    /// condition holds of it, and the match carries the rule's severity and
    /// the description `Rule '<name>' triggered`; otherwise it gives no match.
    pub proof fn lemma_custom_outcome(&self, event: NetworkEvent, outcome: Option<(AlertSeverity, Seq<char>)>)
        ensures
            self.permits(event, outcome) <==> ((outcome == Some(
                (self.rule_severity(), custom_description(self.rule_name())),
            ) && self.condition_answers(event, true)) || (outcome is None
                && self.condition_answers(event, false))),
    {
    }
}

impl<F: Fn(&NetworkEvent) -> bool + Send + Sync> DetectionRule for CustomRule<F> {
    closed spec fn rule_name(&self) -> Seq<char> {
        self.name@
    }

    /// A match with the rule's severity and `Rule '<name>' triggered` when
    /// the condition holds, no match when it does not.
    closed spec fn permits(&self, event: NetworkEvent, outcome: Option<(AlertSeverity, Seq<char>)>) -> bool {
        ||| (outcome == Some((self.severity, custom_description(self.name@))) && call_ensures(
            self.condition,
            (&event,),
            true,
        ))
        ||| (outcome is None && call_ensures(self.condition, (&event,), false))
    }

    fn name(&self) -> (r: &str) {
        self.name.as_str()
    }

    fn evaluate(&self, event: &NetworkEvent) -> (r: Option<RuleMatch>) {
        proof {
            use_type_invariant(self);
        }
        if (self.condition)(event) {
            let mut description = string_of("Rule '");
            push_str(&mut description, self.name.as_str());
            push_str(&mut description, "' triggered");
            Some(
                RuleMatch {
                    rule_name: self.name.clone(),
                    severity: self.severity,
                    description,
                },
            )
        } else {
            None
        }
    }
}

/// A rule of an engine: one of the built-in rules, or one added by the user.
pub enum Rule {
    SuspiciousPort(SuspiciousPortRule),
    PrivateIpEgress(PrivateIpEgressRule),
    HighPortTraffic(HighPortTrafficRule),
    UnknownProcess(UnknownProcessRule),
    DnsQuery(DnsQueryRule),
    Added(Box<dyn DetectionRule>),
}

impl DetectionRule for Rule {
    open spec fn rule_name(&self) -> Seq<char> {
        match self {
            Rule::SuspiciousPort(r) => r.rule_name(),
            Rule::PrivateIpEgress(r) => r.rule_name(),
            Rule::HighPortTraffic(r) => r.rule_name(),
            Rule::UnknownProcess(r) => r.rule_name(),
            Rule::DnsQuery(r) => r.rule_name(),
            Rule::Added(r) => r.rule_name(),
        }
    }

    open spec fn permits(&self, event: NetworkEvent, outcome: Option<(AlertSeverity, Seq<char>)>) -> bool {
        match self {
            Rule::SuspiciousPort(r) => r.permits(event, outcome),
            Rule::PrivateIpEgress(r) => r.permits(event, outcome),
            Rule::HighPortTraffic(r) => r.permits(event, outcome),
            Rule::UnknownProcess(r) => r.permits(event, outcome),
            Rule::DnsQuery(r) => r.permits(event, outcome),
            Rule::Added(r) => r.permits(event, outcome),
        }
    }

    fn name(&self) -> (r: &str) {
        match self {
            Rule::SuspiciousPort(r) => r.name(),
            Rule::PrivateIpEgress(r) => r.name(),
            Rule::HighPortTraffic(r) => r.name(),
            Rule::UnknownProcess(r) => r.name(),
            Rule::DnsQuery(r) => r.name(),
            Rule::Added(r) => r.name(),
        }
    }

    fn evaluate(&self, event: &NetworkEvent) -> (r: Option<RuleMatch>) {
        match self {
            Rule::SuspiciousPort(r) => r.evaluate(event),
            Rule::PrivateIpEgress(r) => r.evaluate(event),
            Rule::HighPortTraffic(r) => r.evaluate(event),
            Rule::UnknownProcess(r) => r.evaluate(event),
            Rule::DnsQuery(r) => r.evaluate(event),
            Rule::Added(r) => r.evaluate(event),
        }
    }
}

/// The five built-in rules, in the order they are applied.
pub open spec fn builtin_rules() -> Seq<Rule> {
    seq![
        Rule::SuspiciousPort(SuspiciousPortRule),
        Rule::PrivateIpEgress(PrivateIpEgressRule),
        Rule::HighPortTraffic(HighPortTrafficRule),
        Rule::UnknownProcess(UnknownProcessRule),
        Rule::DnsQuery(DnsQueryRule),
    ]
}

/// The ordered rules an engine applies.
pub struct RuleEngine {
    rules: Vec<Rule>,
}

impl RuleEngine {
    /// The rules, in the order they are applied.
    pub closed spec fn rule_list(&self) -> Seq<Rule> {
        self.rules@
    }

    /// The five built-in rules, in order: suspicious port, private-IP
    /// egress, high ports, unknown process, DNS query.
    pub fn new() -> (e: Self)
        ensures
            e.rule_list() == builtin_rules(),
    {
        let mut rules: Vec<Rule> = Vec::new();
        rules.push(Rule::SuspiciousPort(SuspiciousPortRule));
        rules.push(Rule::PrivateIpEgress(PrivateIpEgressRule));
        rules.push(Rule::HighPortTraffic(HighPortTrafficRule));
        rules.push(Rule::UnknownProcess(UnknownProcessRule));
        rules.push(Rule::DnsQuery(DnsQueryRule));
        assert(rules@ =~= builtin_rules());
        RuleEngine { rules }
    }

    /// Appends a rule; it is applied after the others.
    pub fn add_rule(&mut self, rule: Box<dyn DetectionRule>)
        ensures
            final(self).rule_list() == old(self).rule_list().push(Rule::Added(rule)),
    {
        self.rules.push(Rule::Added(rule));
    }

    /// The rules, in the order they are applied.
    pub fn get_rules(&self) -> (r: &[Rule])
        ensures
            r@ == self.rule_list(),
    {
        self.rules.as_slice()
    }
}

impl Default for RuleEngine {
    fn default() -> (e: Self) {
        Self::new()
    }
}

/// A law of the suspicious-port rule: it matches an event exactly when its
/// source or its destination port is one of the remote-shell, file-sharing,
/// database, remote-desktop and backdoor ports 22, 23, 135, 445, 1433, 3389,
/// 4444, 5555, 6666, 6667, 1337 and 31337; a match is of medium severity and
/// names the destination port.
pub proof fn lemma_suspicious_ports(event: NetworkEvent, outcome: Option<(AlertSeverity, Seq<char>)>)
    requires
        SuspiciousPortRule.permits(event, outcome),
    ensures
        (outcome is Some) <==> (set![22u16, 23, 135, 445, 1433, 3389, 4444, 5555, 6666, 6667, 1337, 31337].contains(
            event.destination_port,
        ) || set![22u16, 23, 135, 445, 1433, 3389, 4444, 5555, 6666, 6667, 1337, 31337].contains(
            event.source_port,
        )),
        outcome is Some ==> outcome == Some(
            (
                AlertSeverity::Medium,
                "Connection on suspicious port "@ + decimal(event.destination_port as nat),
            ),
        ),
{
}

} // verus!
