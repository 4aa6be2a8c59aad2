//! Domain reputation: known malware and safe domains, suspicious top-level
//! domains, and a bounded history of queried domains with their risk.
use vstd::prelude::*;
use vstd::utf8::{encode_utf8, is_ascii_chars};
use crate::clock::now_micros;
use crate::text::{
    ascii_lowercase, ascii_upper, ascii_uppercase, chars_equal, chars_ends_with, chars_of, ends_with, lowercase, push_str, string_of, to_lowercase,
    views,
};

verus! {

/// The risk of a domain. Scores are whole points (30 for a suspicious
/// top-level domain, 15 for many subdomains, 10 for a long name, 20 for a
/// high-entropy name).
#[derive(Clone, Debug, PartialEq)]
pub enum DomainRisk {
    Safe,
    Unknown(u32),
    Suspicious(u32, Vec<String>),
    Malware,
}

/// A risk with its factors as text.
pub enum RiskView {
    Safe,
    Unknown(u32),
    Suspicious(u32, Seq<Seq<char>>),
    Malware,
}

pub open spec fn risk_view(r: DomainRisk) -> RiskView {
    match r {
        DomainRisk::Safe => RiskView::Safe,
        DomainRisk::Unknown(s) => RiskView::Unknown(s),
        DomainRisk::Suspicious(s, f) => RiskView::Suspicious(s, views(f@)),
        DomainRisk::Malware => RiskView::Malware,
    }
}

/// One recorded query: the domain as given, when, its score and its risk
/// factors.
#[derive(Debug)]
pub struct DomainQuery {
    pub domain: String,
    pub timestamp: i64,
    pub risk_score: u32,
    pub risk_factors: Vec<String>,
}

/// A recorded query as text.
pub struct QueryView {
    pub domain: Seq<char>,
    pub timestamp: i64,
    pub risk_score: u32,
    pub risk_factors: Seq<Seq<char>>,
}

pub open spec fn query_view(q: DomainQuery) -> QueryView {
    QueryView {
        domain: q.domain@,
        timestamp: q.timestamp,
        risk_score: q.risk_score,
        risk_factors: views(q.risk_factors@),
    }
}

/// The number of times `b` occurs in `data`.
pub open spec fn occurrences(data: Seq<u8>, b: u8) -> nat
    decreases data.len(),
{
    if data.len() == 0 {
        0
    } else {
        occurrences(data.drop_last(), b) + if data.last() == b { 1nat } else { 0nat }
    }
}

proof fn lemma_occurrences_bound(data: Seq<u8>, b: u8)
    ensures
        occurrences(data, b) <= data.len(),
    decreases data.len(),
{
    if data.len() > 0 {
        lemma_occurrences_bound(data.drop_last(), b);
    }
}

/// How often each byte value occurs in `data` (the frequencies that the
/// entropy of a domain name is computed from).
pub fn byte_counts(data: &[u8]) -> (counts: Vec<usize>)
    ensures
        counts.len() == 256,
        forall|b: u8| #[trigger] counts@[b as int] == occurrences(data@, b),
{
    let mut counts: Vec<usize> = Vec::new();
    let mut k: usize = 0;
    while k < 256
        invariant
            k <= 256,
            counts.len() == k,
            forall|j: int| 0 <= j < k ==> counts@[j] == 0,
        decreases 256 - k,
    {
        counts.push(0);
        k = k + 1;
    }
    let mut i: usize = 0;
    while i < data.len()
        invariant
            i <= data.len(),
            counts.len() == 256,
            forall|b: u8| #[trigger] counts@[b as int] == occurrences(data@.take(i as int), b),
        decreases data.len() - i,
    {
        let ghost pre = data@.take(i as int);
        assert(data@.take(i + 1).drop_last() =~= pre);
        assert(data@.take(i + 1).last() == data@[i as int]);
        let x = data[i];
        proof {
            lemma_occurrences_bound(pre, x);
        }
        let c = counts[x as usize];
        counts.set(x as usize, c + 1);
        i = i + 1;
        assert forall|b: u8| #[trigger] counts@[b as int] == occurrences(data@.take(i as int), b) by {
            if b != x {
                assert(counts@[b as int] == occurrences(pre, b));
            }
        }
    }
    assert(data@.take(i as int) =~= data@);
    counts
}

proof fn lemma_push_fresh(s: Seq<Seq<char>>, x: Seq<char>)
    requires
        s.no_duplicates(),
        !s.contains(x),
    ensures
        s.push(x).no_duplicates(),
{
    let t = s.push(x);
    assert forall|i: int, j: int| 0 <= i < t.len() && 0 <= j < t.len() && i != j implies t[i] != t[j] by {
        if i < s.len() && j < s.len() {
            assert(t[i] == s[i] && t[j] == s[j]);
        } else if i < s.len() {
            assert(t[i] == s[i]);
        } else if j < s.len() {
            assert(t[j] == s[j]);
        }
    }
}

proof fn lemma_known_lists_distinct()
    ensures
        known_malware().no_duplicates(),
        known_safe().no_duplicates(),
{
    reveal_strlit("malware.test.xyz");
    reveal_strlit("phishing.example.com");
    reveal_strlit("botnet.c2.server");
    reveal_strlit("ransomware.pay.xyz");
    reveal_strlit("dataexfil.evil.com");
    reveal_strlit("cryptominer.pool.xyz");
    reveal_strlit("driveby.download.cc");
    reveal_strlit("tracker.evil.tk");
    reveal_strlit("maldoc.attach.xyz");
    reveal_strlit("phish.login.cc");
    reveal_strlit("google.com");
    reveal_strlit("github.com");
    reveal_strlit("microsoft.com");
    reveal_strlit("apple.com");
    reveal_strlit("amazon.com");
    reveal_strlit("cloudflare.com");
    reveal_strlit("fastly.com");
    reveal_strlit("akamai.com");
    reveal_strlit("rust-lang.org");
    reveal_strlit("crates.io");
    reveal_strlit("docs.rs");
    let m = known_malware();
    assert forall|i: int, j: int| 0 <= i < m.len() && 0 <= j < m.len() && i != j implies m[i] != m[j] by {
        if m[i] == m[j] {
            assert(m[i].len() == m[j].len());
            assert(m[i][0] == m[j][0]);
            assert(m[i][1] == m[j][1]);
        }
    }
    let k = known_safe();
    assert forall|i: int, j: int| 0 <= i < k.len() && 0 <= j < k.len() && i != j implies k[i] != k[j] by {
        if k[i] == k[j] {
            assert(k[i].len() == k[j].len());
            assert(k[i][0] == k[j][0]);
            assert(k[i][1] == k[j][1]);
        }
    }
}

/// The most queries the history keeps.
pub const HISTORY_LIMIT: usize = 10000;

pub open spec fn known_malware() -> Seq<Seq<char>> {
    seq![
        "malware.test.xyz"@,
        "phishing.example.com"@,
        "botnet.c2.server"@,
        "ransomware.pay.xyz"@,
        "dataexfil.evil.com"@,
        "cryptominer.pool.xyz"@,
        "driveby.download.cc"@,
        "tracker.evil.tk"@,
        "maldoc.attach.xyz"@,
        "phish.login.cc"@,
    ]
}

pub open spec fn suspicious_tlds() -> Seq<Seq<char>> {
    seq![
        ".xyz"@,
        ".top"@,
        ".gq"@,
        ".ml"@,
        ".cf"@,
        ".tk"@,
        ".ga"@,
        ".cam"@,
        ".work"@,
        ".download"@,
        ".review"@,
        ".trade"@,
        ".bid"@,
        ".loan"@,
        ".date"@,
        ".racing"@,
        ".accountant"@,
    ]
}

pub open spec fn known_safe() -> Seq<Seq<char>> {
    seq![
        "google.com"@,
        "github.com"@,
        "microsoft.com"@,
        "apple.com"@,
        "amazon.com"@,
        "cloudflare.com"@,
        "fastly.com"@,
        "akamai.com"@,
        "rust-lang.org"@,
        "crates.io"@,
        "docs.rs"@,
    ]
}

/// The risk factors for the suspicious top-level domains among `tlds` that
/// `domain` ends with, in list order.
pub open spec fn tld_factors(domain: Seq<char>, tlds: Seq<Seq<char>>) -> Seq<Seq<char>>
    decreases tlds.len(),
{
    if tlds.len() == 0 {
        Seq::empty()
    } else if ends_with(domain, tlds.last()) {
        tld_factors(domain, tlds.drop_last()).push("Suspicious TLD: "@ + tlds.last())
    } else {
        tld_factors(domain, tlds.drop_last())
    }
}

/// The number of dots in `s`.
pub open spec fn dot_count(s: Seq<char>) -> nat
    decreases s.len(),
{
    if s.len() == 0 {
        0
    } else {
        dot_count(s.drop_last()) + if s.last() == '.' { 1nat } else { 0nat }
    }
}

/// Whether splitting at dots gives more than three labels.
pub open spec fn many_labels(s: Seq<char>) -> bool {
    dot_count(s) + 1 > 3
}

/// Whether the UTF-8 form of `s` is longer than 50 bytes (its length as a
/// `usize`, which the length of any string in memory is).
pub open spec fn long_name(s: Seq<char>) -> bool {
    (encode_utf8(s).len() as usize) > 50
}

/// The factors of a (lowercased) domain that is neither known malware nor
/// known safe: suspicious top-level domains, many labels, a long name, and
/// the given entropy factor, in that order.
pub open spec fn risk_factors(lower: Seq<char>, entropy: Option<Seq<char>>) -> Seq<Seq<char>> {
    tld_factors(lower, suspicious_tlds()) + (if many_labels(lower) {
        seq!["Excessive subdomains"@]
    } else {
        Seq::empty()
    }) + (if long_name(lower) {
        seq!["Unusually long domain"@]
    } else {
        Seq::empty()
    }) + match entropy {
        Some(f) => seq![f],
        None => Seq::empty(),
    }
}

/// The score of those factors.
pub open spec fn risk_score(lower: Seq<char>, entropy: Option<Seq<char>>) -> nat {
    30 * tld_factors(lower, suspicious_tlds()).len() + (if many_labels(lower) {
        15nat
    } else {
        0
    }) + (if long_name(lower) {
        10nat
    } else {
        0
    }) + (if entropy is Some {
        20nat
    } else {
        0
    })
}

/// The risk of a domain, given its lowercase form and, where its entropy
/// is high, the factor that says so: malware if listed as malware, safe if
/// listed as safe, suspicious from a score of 30, unknown below.
pub open spec fn assess(
    malware: Set<Seq<char>>,
    safe: Set<Seq<char>>,
    lower: Seq<char>,
    entropy: Option<Seq<char>>,
) -> RiskView {
    if malware.contains(lower) {
        RiskView::Malware
    } else if safe.contains(lower) {
        RiskView::Safe
    } else if risk_score(lower, entropy) >= 30 {
        RiskView::Suspicious(risk_score(lower, entropy) as u32, risk_factors(lower, entropy))
    } else {
        RiskView::Unknown(risk_score(lower, entropy) as u32)
    }
}

/// The score a recorded query carries for a risk.
pub open spec fn recorded_score(r: RiskView) -> u32 {
    match r {
        RiskView::Safe => 0,
        RiskView::Unknown(s) => s,
        RiskView::Suspicious(s, _) => s,
        RiskView::Malware => 100,
    }
}

/// The factors a recorded query carries for a risk.
pub open spec fn recorded_factors(r: RiskView) -> Seq<Seq<char>> {
    match r {
        RiskView::Suspicious(_, f) => f,
        RiskView::Malware => seq!["Known malware domain"@],
        _ => Seq::empty(),
    }
}

/// The history after recording `q`: it comes last, and beyond the limit
/// the oldest leaves.
pub open spec fn history_after(h: Seq<QueryView>, q: QueryView) -> Seq<QueryView> {
    if h.len() + 1 > HISTORY_LIMIT {
        h.push(q).drop_first()
    } else {
        h.push(q)
    }
}

pub open spec fn opt_view(o: Option<String>) -> Option<Seq<char>> {
    match o {
        Some(s) => Some(s@),
        None => None,
    }
}

fn contains_text(list: &Vec<String>, s: &String) -> (r: bool)
    ensures
        r == views(list@).contains(s@),
{
    let mut i: usize = 0;
    while i < list.len()
        invariant
            i <= list.len(),
            forall|j: int| 0 <= j < i ==> list@[j]@ != s@,
        decreases list.len() - i,
    {
        if list[i] == *s {
            assert(views(list@)[i as int] == s@);
            return true;
        }
        i = i + 1;
    }
    assert forall|j: int| 0 <= j < views(list@).len() implies views(list@)[j] != s@ by {
        assert(views(list@)[j] == list@[j]@);
    }
    false
}

fn strings_of(Ghost(items): Ghost<Seq<Seq<char>>>, lits: &[&str]) -> (v: Vec<String>)
    requires
        lits@.len() == items.len(),
        forall|i: int| 0 <= i < items.len() ==> #[trigger] lits@[i]@ == items[i],
    ensures
        views(v@) == items,
{
    let mut v: Vec<String> = Vec::new();
    let mut i: usize = 0;
    while i < lits.len()
        invariant
            i <= lits@.len() == items.len(),
            forall|j: int| 0 <= j < items.len() ==> #[trigger] lits@[j]@ == items[j],
            views(v@) == items.take(i as int),
            v@.len() == i,
        decreases lits.len() - i,
    {
        let ghost prev = v@;
        let t = string_of(lits[i]);
        assert(t@ == items[i as int]);
        v.push(t);
        assert forall|k: int| 0 <= k <= i implies #[trigger] views(v@)[k] == items.take(i + 1)[k] by {
            if k < i {
                assert(v@[k] == prev[k]);
                assert(views(prev)[k] == items.take(i as int)[k]);
            }
        }
        i = i + 1;
        assert(views(v@) =~= items.take(i as int));
    }
    assert(items.take(i as int) =~= items);
    v
}

fn clone_strings(v: &Vec<String>) -> (r: Vec<String>)
    ensures
        views(r@) == views(v@),
{
    let mut r: Vec<String> = Vec::new();
    let mut i: usize = 0;
    while i < v.len()
        invariant
            i <= v.len(),
            r@.len() == i,
            forall|k: int| 0 <= k < i ==> #[trigger] r@[k]@ == v@[k]@,
        decreases v.len() - i,
    {
        r.push(v[i].clone());
        i = i + 1;
    }
    assert(views(r@) =~= views(v@));
    r
}

fn count_dots(s: &Vec<char>) -> (n: usize)
    ensures
        n == dot_count(s@),
{
    let mut n: usize = 0;
    let mut i: usize = 0;
    while i < s.len()
        invariant
            i <= s.len(),
            n == dot_count(s@.take(i as int)),
            n <= i,
        decreases s.len() - i,
    {
        assert(s@.take(i + 1).drop_last() =~= s@.take(i as int));
        if s[i] == '.' {
            n = n + 1;
        }
        i = i + 1;
    }
    assert(s@.take(i as int) =~= s@);
    n
}

/// Known malware and safe domains, suspicious top-level domains, and the
/// history of recorded queries.
pub struct DomainReputation {
    malware_domains: Vec<String>,
    safe_domains: Vec<String>,
    suspicious_tlds: Vec<String>,
    query_history: Vec<DomainQuery>,
}

impl DomainReputation {
    #[verifier::type_invariant]
    spec fn well_formed(self) -> bool {
        &&& views(self.suspicious_tlds@) == suspicious_tlds()
        &&& self.query_history.len() <= HISTORY_LIMIT
        &&& views(self.malware_domains@).no_duplicates()
        &&& views(self.safe_domains@).no_duplicates()
    }

    /// The domains known as malware (lowercase).
    pub closed spec fn malware(&self) -> Set<Seq<char>> {
        views(self.malware_domains@).to_set()
    }

    /// The domains known as safe (lowercase).
    pub closed spec fn safe(&self) -> Set<Seq<char>> {
        views(self.safe_domains@).to_set()
    }

    /// The recorded queries, oldest first.
    pub closed spec fn history(&self) -> Seq<QueryView> {
        self.query_history@.map_values(|q: DomainQuery| query_view(q))
    }

    /// The built-in malware, safe and suspicious lists, and no history.
    pub fn new() -> (r: Self)
        ensures
            r.malware() == known_malware().to_set(),
            r.safe() == known_safe().to_set(),
            r.history() == Seq::<QueryView>::empty(),
    {
        let malware_domains = strings_of(
            Ghost(known_malware()),
            &[
                "malware.test.xyz",
                "phishing.example.com",
                "botnet.c2.server",
                "ransomware.pay.xyz",
                "dataexfil.evil.com",
                "cryptominer.pool.xyz",
                "driveby.download.cc",
                "tracker.evil.tk",
                "maldoc.attach.xyz",
                "phish.login.cc",
            ],
        );
        let safe_domains = strings_of(
            Ghost(known_safe()),
            &[
                "google.com",
                "github.com",
                "microsoft.com",
                "apple.com",
                "amazon.com",
                "cloudflare.com",
                "fastly.com",
                "akamai.com",
                "rust-lang.org",
                "crates.io",
                "docs.rs",
            ],
        );
        let suspicious_tlds = strings_of(
            Ghost(suspicious_tlds()),
            &[
                ".xyz",
                ".top",
                ".gq",
                ".ml",
                ".cf",
                ".tk",
                ".ga",
                ".cam",
                ".work",
                ".download",
                ".review",
                ".trade",
                ".bid",
                ".loan",
                ".date",
                ".racing",
                ".accountant",
            ],
        );
        proof {
            lemma_known_lists_distinct();
        }
        let r = DomainReputation {
            malware_domains,
            safe_domains,
            suspicious_tlds,
            query_history: Vec::new(),
        };
        assert(r.history() =~= Seq::<QueryView>::empty());
        r
    }

    /// The risk of a domain (compared in lowercase): see [`assess`]. Where
    /// the entropy of the lowercase name is high, `high_entropy` holds the
    /// factor that says so.
    pub fn check(&self, domain: &str, high_entropy: Option<String>) -> (r: DomainRisk)
        ensures
            risk_view(r) == assess(self.malware(), self.safe(), lowercase(domain@), opt_view(high_entropy)),
            is_ascii_chars(domain@) ==> risk_view(r) == assess(
                self.malware(),
                self.safe(),
                ascii_lowercase(domain@),
                opt_view(high_entropy),
            ),
    {
        proof {
            use_type_invariant(self);
        }
        let lower = to_lowercase(domain);
        if contains_text(&self.malware_domains, &lower) {
            return DomainRisk::Malware;
        }
        if contains_text(&self.safe_domains, &lower) {
            return DomainRisk::Safe;
        }
        let ghost l = lower@;
        let ghost tlds = suspicious_tlds();
        let lower_chars = chars_of(lower.as_str());
        let mut factors: Vec<String> = Vec::new();
        let mut score: u32 = 0;
        let mut i: usize = 0;
        assert(self.suspicious_tlds@.len() == 17) by {
            assert(views(self.suspicious_tlds@).len() == tlds.len());
        }
        while i < self.suspicious_tlds.len()
            invariant
                views(self.suspicious_tlds@) == tlds,
                self.suspicious_tlds@.len() == 17,
                tlds == suspicious_tlds(),
                i <= self.suspicious_tlds.len(),
                lower_chars@ == l,
                views(factors@) == tld_factors(l, tlds.take(i as int)),
                factors@.len() <= i,
                score == 30 * factors@.len(),
            decreases self.suspicious_tlds.len() - i,
        {
            let ghost prev = factors@;
            assert(tlds.take(i + 1).drop_last() =~= tlds.take(i as int));
            assert(tlds.take(i + 1).last() == self.suspicious_tlds@[i as int]@);
            let tld_chars = chars_of(self.suspicious_tlds[i].as_str());
            if chars_ends_with(&lower_chars, &tld_chars) {
                let mut f = string_of("Suspicious TLD: ");
                push_str(&mut f, self.suspicious_tlds[i].as_str());
                factors.push(f);
                score = score + 30;
                assert(views(factors@) =~= views(prev).push(f@));
            }
            i = i + 1;
        }
        assert(tlds.take(i as int) =~= tlds);
        let ghost before_rest = views(factors@);
        let dots = count_dots(&lower_chars);
        let many = dots > 2;
        if many {
            factors.push(string_of("Excessive subdomains"));
            score = score + 15;
        }
        let ghost after_many = views(factors@);
        assert(after_many =~= before_rest + (if many_labels(l) {
            seq!["Excessive subdomains"@]
        } else {
            Seq::empty()
        }));
        let ls = lower.as_str();
        let blen = ls.len();
        let long = blen > 50;
        if long {
            factors.push(string_of("Unusually long domain"));
            score = score + 10;
        }
        let ghost after_long = views(factors@);
        assert(after_long =~= after_many + (if long_name(l) {
            seq!["Unusually long domain"@]
        } else {
            Seq::empty()
        }));
        match high_entropy {
            Some(f) => {
                factors.push(f);
                score = score + 20;
            },
            None => {},
        }
        assert(views(factors@) =~= risk_factors(l, opt_view(high_entropy)));
        if score >= 30 {
            DomainRisk::Suspicious(score, factors)
        } else if score > 0 {
            DomainRisk::Unknown(score)
        } else {
            DomainRisk::Unknown(0)
        }
    }

    /// Records a query of `domain`: its risk (as [`DomainReputation::check`]
    /// gives it) becomes a score (0 for safe, 100 for malware) and factors
    /// (those of a suspicious risk, `Known malware domain` for malware), and
    /// the query joins the history at the current time; beyond 10000
    /// queries the oldest leaves.
    pub fn record_query(&mut self, domain: &str, high_entropy: Option<String>)
        ensures
            final(self).malware() == old(self).malware(),
            final(self).safe() == old(self).safe(),
            exists|t: i64|
                #![trigger history_after(old(self).history(), QueryView { domain: domain@, timestamp: t, risk_score: recorded_score(assess(old(self).malware(), old(self).safe(), lowercase(domain@), opt_view(high_entropy))), risk_factors: recorded_factors(assess(old(self).malware(), old(self).safe(), lowercase(domain@), opt_view(high_entropy))) })]
                final(self).history() == history_after(
                    old(self).history(),
                    QueryView {
                        domain: domain@,
                        timestamp: t,
                        risk_score: recorded_score(
                            assess(old(self).malware(), old(self).safe(), lowercase(domain@), opt_view(high_entropy)),
                        ),
                        risk_factors: recorded_factors(
                            assess(old(self).malware(), old(self).safe(), lowercase(domain@), opt_view(high_entropy)),
                        ),
                    },
                ),
            final(self).history().len() <= HISTORY_LIMIT,
    {
        proof {
            use_type_invariant(&*self);
        }
        let risk = self.check(domain, high_entropy);
        let (risk_score, risk_factors) = match risk {
            DomainRisk::Safe => (0u32, Vec::new()),
            DomainRisk::Unknown(score) => (score, Vec::new()),
            DomainRisk::Suspicious(score, factors) => (score, factors),
            DomainRisk::Malware => {
                let mut v: Vec<String> = Vec::new();
                v.push(string_of("Known malware domain"));
                (100u32, v)
            },
        };
        assert(views(risk_factors@) =~= recorded_factors(risk_view(risk)));
        let query = DomainQuery {
            domain: string_of(domain),
            timestamp: now_micros(),
            risk_score,
            risk_factors,
        };
        let ghost qv = query_view(query);
        let ghost h = self.history();
        let ghost assessed = assess(self.malware(), self.safe(), lowercase(domain@), opt_view(high_entropy));
        assert(qv == QueryView {
            domain: domain@,
            timestamp: qv.timestamp,
            risk_score: recorded_score(assessed),
            risk_factors: recorded_factors(assessed),
        });
        let mut history = Vec::new();
        std::mem::swap(&mut history, &mut self.query_history);
        history.push(query);
        if history.len() > HISTORY_LIMIT {
            history.remove(0);
        }
        self.query_history = history;
        assert(self.history() =~= history_after(h, qv));
    }

    /// The recorded queries, oldest first.
    pub fn get_history(&self) -> (r: Vec<DomainQuery>)
        ensures
            r@.map_values(|q: DomainQuery| query_view(q)) == self.history(),
    {
        let mut out: Vec<DomainQuery> = Vec::new();
        let mut i: usize = 0;
        while i < self.query_history.len()
            invariant
                i <= self.query_history.len(),
                out@.len() == i,
                forall|k: int| 0 <= k < i ==> query_view(#[trigger] out@[k]) == query_view(self.query_history@[k]),
            decreases self.query_history.len() - i,
        {
            let q = &self.query_history[i];
            let copy = DomainQuery {
                domain: q.domain.clone(),
                timestamp: q.timestamp,
                risk_score: q.risk_score,
                risk_factors: clone_strings(&q.risk_factors),
            };
            out.push(copy);
            i = i + 1;
        }
        assert(out@.map_values(|q: DomainQuery| query_view(q)) =~= self.history());
        out
    }

    /// Adds a domain (in lowercase) to the known malware domains.
    pub fn add_malware_domain(&mut self, domain: &str)
        ensures
            final(self).malware() == old(self).malware().insert(lowercase(domain@)),
            is_ascii_chars(domain@) ==> final(self).malware() == old(self).malware().insert(
                ascii_lowercase(domain@),
            ),
            final(self).safe() == old(self).safe(),
            final(self).history() == old(self).history(),
    {
        proof {
            use_type_invariant(&*self);
            broadcast use vstd::seq_lib::group_seq_properties;
        }
        let lower = to_lowercase(domain);
        if !contains_text(&self.malware_domains, &lower) {
            let ghost before = views(self.malware_domains@);
            let ghost lv = lower@;
            let mut list = Vec::new();
            std::mem::swap(&mut list, &mut self.malware_domains);
            list.push(lower);
            proof {
                assert(views(list@) =~= before.push(lv));
                lemma_push_fresh(before, lv);
            }
            self.malware_domains = list;
            assert(views(self.malware_domains@) =~= before.push(lower@));
            assert(self.malware() =~= old(self).malware().insert(lowercase(domain@)));
        } else {
            assert(self.malware() =~= old(self).malware().insert(lowercase(domain@)));
        }
    }

    /// Adds a domain (in lowercase) to the known safe domains.
    pub fn add_safe_domain(&mut self, domain: &str)
        ensures
            final(self).safe() == old(self).safe().insert(lowercase(domain@)),
            is_ascii_chars(domain@) ==> final(self).safe() == old(self).safe().insert(
                ascii_lowercase(domain@),
            ),
            final(self).malware() == old(self).malware(),
            final(self).history() == old(self).history(),
    {
        proof {
            use_type_invariant(&*self);
            broadcast use vstd::seq_lib::group_seq_properties;
        }
        let lower = to_lowercase(domain);
        if !contains_text(&self.safe_domains, &lower) {
            let ghost before = views(self.safe_domains@);
            let ghost lv = lower@;
            let mut list = Vec::new();
            std::mem::swap(&mut list, &mut self.safe_domains);
            list.push(lower);
            proof {
                assert(views(list@) =~= before.push(lv));
                lemma_push_fresh(before, lv);
            }
            self.safe_domains = list;
            assert(views(self.safe_domains@) =~= before.push(lower@));
            assert(self.safe() =~= old(self).safe().insert(lowercase(domain@)));
        } else {
            assert(self.safe() =~= old(self).safe().insert(lowercase(domain@)));
        }
    }
}

/// A law of the reputation list: once a domain is added as malware, checking
/// it (in any case) says malware, whatever else is known of it.
pub proof fn lemma_added_malware_is_malware(
    malware: Set<Seq<char>>,
    safe: Set<Seq<char>>,
    domain: Seq<char>,
    entropy: Option<Seq<char>>,
)
    ensures
        assess(malware.insert(lowercase(domain)), safe, lowercase(domain), entropy) == RiskView::Malware,
{
}

/// A law of the reputation list: once a domain is added as safe, checking it
/// says safe, unless it is listed as malware.
pub proof fn lemma_added_safe_is_safe(
    malware: Set<Seq<char>>,
    safe: Set<Seq<char>>,
    domain: Seq<char>,
    entropy: Option<Seq<char>>,
)
    requires
        !malware.contains(lowercase(domain)),
    ensures
        assess(malware, safe.insert(lowercase(domain)), lowercase(domain), entropy) == RiskView::Safe,
{
}

/// ASCII case does not change the lowercase form: a text in ASCII capitals
/// lowercases as the text does.
pub proof fn lemma_uppercase_lowercases_alike(s: Seq<char>)
    ensures
        ascii_lowercase(ascii_uppercase(s)) == ascii_lowercase(s),
        is_ascii_chars(s) ==> is_ascii_chars(ascii_uppercase(s)),
{
    assert forall|i: int| 0 <= i < s.len() implies #[trigger] ascii_lowercase(ascii_uppercase(s))[i]
        == ascii_lowercase(s)[i] by {
        let c = s[i];
        let u = c as u32;
        if 97 <= u && u <= 122 {
            assert(ascii_upper(c) as u32 == u - 32);
        }
    }
    assert(ascii_lowercase(ascii_uppercase(s)) =~= ascii_lowercase(s));
    if is_ascii_chars(s) {
        assert forall|i: int| 0 <= i < ascii_uppercase(s).len() implies '\0' <= #[trigger] ascii_uppercase(s)[i] <= '\u{7f}' by {
            let c = s[i];
            if 97 <= c as u32 && c as u32 <= 122 {
                assert(ascii_upper(c) as u32 == c as u32 - 32);
            }
        }
    }
}

/// A law of checking: ASCII domains that are equal but for case get the same
/// risk (the check compares their ASCII lowercase forms).
pub proof fn lemma_check_ignores_case(
    malware: Set<Seq<char>>,
    safe: Set<Seq<char>>,
    a: Seq<char>,
    b: Seq<char>,
    entropy: Option<Seq<char>>,
)
    requires
        ascii_lowercase(a) == ascii_lowercase(b),
    ensures
        assess(malware, safe, ascii_lowercase(a), entropy) == assess(malware, safe, ascii_lowercase(b), entropy),
{
}

/// A law of the reputation list: once an ASCII domain is added as malware,
/// checking it in any ASCII case says malware.
pub proof fn lemma_added_malware_any_case(
    malware: Set<Seq<char>>,
    safe: Set<Seq<char>>,
    added: Seq<char>,
    checked: Seq<char>,
    entropy: Option<Seq<char>>,
)
    requires
        ascii_lowercase(checked) == ascii_lowercase(added),
    ensures
        assess(malware.insert(ascii_lowercase(added)), safe, ascii_lowercase(checked), entropy)
            == RiskView::Malware,
{
}

/// A law of checking: a domain on neither list is suspicious exactly when
/// its score reaches 30, and a suspicious domain always has at least one
/// risk factor.
pub proof fn lemma_suspicious_from_thirty(
    malware: Set<Seq<char>>,
    safe: Set<Seq<char>>,
    lower: Seq<char>,
    entropy: Option<Seq<char>>,
)
    requires
        !malware.contains(lower),
        !safe.contains(lower),
    ensures
        (assess(malware, safe, lower, entropy) is Suspicious) == (risk_score(lower, entropy) >= 30),
        assess(malware, safe, lower, entropy) matches RiskView::Suspicious(_, f) ==> f.len() > 0,
{
    if risk_score(lower, entropy) >= 30 {
        lemma_score_needs_factor(lower, suspicious_tlds(), entropy);
    }
}

proof fn lemma_score_needs_factor(lower: Seq<char>, tlds: Seq<Seq<char>>, entropy: Option<Seq<char>>)
    requires
        tlds == suspicious_tlds(),
        risk_score(lower, entropy) >= 30,
    ensures
        risk_factors(lower, entropy).len() > 0,
{
    let t = tld_factors(lower, tlds);
    if t.len() == 0 {
        assert(many_labels(lower) || long_name(lower) || entropy is Some);
    }
    assert(risk_factors(lower, entropy).len() >= t.len());
}

/// A law of the query history: it never holds more than its limit, and the
/// query recorded last is the newest entry.
pub proof fn lemma_history_bounded(h: Seq<QueryView>, q: QueryView)
    requires
        h.len() <= HISTORY_LIMIT,
    ensures
        history_after(h, q).len() <= HISTORY_LIMIT,
        history_after(h, q).last() == q,
        h.len() < HISTORY_LIMIT ==> history_after(h, q).drop_last() == h,
{
}

/// A law of the query history: the score recorded for a query is the score
/// that checking the domain gives when it is unknown or suspicious (with the
/// same factors when suspicious), 100 with the one factor `Known malware
/// domain` for malware, and 0 with no factor for a safe domain.
pub proof fn lemma_recorded_as_checked(r: RiskView)
    ensures
        r matches RiskView::Unknown(s) ==> recorded_score(r) == s && recorded_factors(r).len() == 0,
        r matches RiskView::Suspicious(s, f) ==> recorded_score(r) == s && recorded_factors(r) == f,
        r is Malware ==> recorded_score(r) == 100 && recorded_factors(r) == seq!["Known malware domain"@],
        r is Safe ==> recorded_score(r) == 0 && recorded_factors(r).len() == 0,
{
}

} // verus!
