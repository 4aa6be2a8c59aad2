//! Decoding of DNS messages (RFC 1035 wire format) as the packet engine
//! reads them: the last question's name, the IPv4 answers and the rcode.
use vstd::prelude::*;
use vstd::utf8::encode_utf8;
use crate::clock::{new_uuid, now_micros};
use crate::ipaddr::{IpAddress, v4_value};
use crate::models::DnsEvent;
use crate::text::{from_utf8_lossy, join, join_strings, utf8_lossy, views};

verus! {

/// The big-endian 16-bit value at `i`.
pub open spec fn be16(data: Seq<u8>, i: int) -> nat {
    data[i] as nat * 256 + data[i + 1] as nat
}

/// Follows a (possibly compressed) name from `off`: the raw labels met, the
/// position after the terminating zero byte, and whether a compression
/// pointer was followed. At most one pointer is followed; a second one, a
/// truncated label or running off the data gives `None`.
pub open spec fn walk_name(data: Seq<u8>, off: int, jumped: bool) -> Option<(Seq<Seq<u8>>, int, bool)>
    decreases (if jumped { 0int } else { 1int }), data.len() - off,
{
    if off < 0 || off >= data.len() {
        None
    } else if data[off] == 0 {
        Some((Seq::empty(), off + 1, jumped))
    } else if data[off] >= 0xC0 {
        if off + 1 >= data.len() || jumped {
            None
        } else {
            walk_name(data, (data[off] - 0xC0) * 256 + data[off + 1], true)
        }
    } else if off + 1 + data[off] > data.len() {
        None
    } else {
        match walk_name(data, off + 1 + data[off], jumped) {
            Some((labels, end, j)) => Some(
                (seq![data.subrange(off + 1, off + 1 + data[off])] + labels, end, j),
            ),
            None => None,
        }
    }
}

/// The labels as text.
pub open spec fn label_texts(labels: Seq<Seq<u8>>) -> Seq<Seq<char>> {
    labels.map_values(|l: Seq<u8>| utf8_lossy(l))
}

/// The UTF-8 length plus one of each of the first `n` texts, summed.
pub open spec fn text_span(texts: Seq<Seq<char>>, n: int) -> int
    decreases n,
{
    if n <= 0 {
        0
    } else {
        text_span(texts, n - 1) + encode_utf8(texts[n - 1]).len() + 1
    }
}

/// The length plus one of each of the first `n` raw labels, summed.
pub open spec fn raw_span(labels: Seq<Seq<u8>>, n: int) -> int
    decreases n,
{
    if n <= 0 {
        0
    } else {
        raw_span(labels, n - 1) + labels[n - 1].len() + 1
    }
}

/// The name at `off` and the position after it. The name is the labels'
/// text joined by dots. Without a pointer the position is recomputed from
/// the text lengths of the labels (one more than each, plus the final zero
/// byte); after a pointer it is the position after the pointed-to name.
pub open spec fn parse_name(data: Seq<u8>, off: int) -> Option<(Seq<char>, int)> {
    match walk_name(data, off, false) {
        None => None,
        Some((labels, end, jumped)) => Some(
            (
                join(label_texts(labels), "."@),
                if jumped {
                    end
                } else {
                    off + text_span(label_texts(labels), labels.len() as int) + 1
                },
            ),
        ),
    }
}

/// Reads `remaining` questions from `off`, keeping the name of the last one
/// that decodes; each question moves on by four bytes past its name (or past
/// `off` when the name does not decode).
pub open spec fn questions_walk(data: Seq<u8>, off: int, remaining: nat, domain: Seq<char>) -> (Seq<char>, int)
    decreases remaining,
{
    if remaining == 0 {
        (domain, off)
    } else {
        match parse_name(data, off) {
            Some((name, next)) => questions_walk(data, next + 4, (remaining - 1) as nat, name),
            None => questions_walk(data, off + 4, (remaining - 1) as nat, domain),
        }
    }
}

/// Reads `remaining` answer records from `off`, collecting the IPv4
/// addresses of type-A records with four bytes of data that fit. Stops at
/// the end of the data. `None` when a record header does not fit in what is
/// left (where the decoder indexes past the end).
pub open spec fn answers_walk(data: Seq<u8>, off: int, remaining: nat) -> Option<Seq<IpAddress>>
    decreases remaining,
{
    if remaining == 0 || off >= data.len() {
        Some(Seq::empty())
    } else if off + 11 >= data.len() {
        None
    } else {
        let rtype = be16(data, off + 2);
        let rdlength = be16(data, off + 10);
        let p = off + 12;
        let rest = answers_walk(data, p + rdlength, (remaining - 1) as nat);
        if rtype == 1 && rdlength == 4 && p + 4 <= data.len() {
            match rest {
                Some(ips) => Some(
                    seq![IpAddress::V4(v4_value(data[p], data[p + 1], data[p + 2], data[p + 3]))]
                        + ips,
                ),
                None => None,
            }
        } else {
            rest
        }
    }
}

/// What decoding a DNS message gives.
pub enum DnsOutcome {
    /// No event: fewer than 12 bytes, or no question.
    NoEvent,
    /// The decoder indexes past the end of the data.
    OutOfBounds,
    /// An event with the last question's name, the answers' IPv4 addresses
    /// and the response code (the low four bits of the flags).
    Event { domain: Seq<char>, ips: Seq<IpAddress>, rcode: u16 },
}

pub open spec fn dns_outcome(data: Seq<u8>) -> DnsOutcome {
    if data.len() < 12 || be16(data, 4) == 0 {
        DnsOutcome::NoEvent
    } else {
        let (domain, off) = questions_walk(data, 12, be16(data, 4), Seq::empty());
        match answers_walk(data, off, be16(data, 6)) {
            None => DnsOutcome::OutOfBounds,
            Some(ips) => DnsOutcome::Event { domain, ips, rcode: (be16(data, 2) % 16) as u16 },
        }
    }
}

/// The largest payload whose offset arithmetic fits in `usize`.
pub open spec fn fits(data: Seq<u8>) -> bool {
    data.len() < usize::MAX / 4
}

/// Whether `ev` is the event that `outcome` describes (identifier and
/// timestamp aside).
pub open spec fn dns_event_matches(ev: DnsEvent, outcome: DnsOutcome) -> bool {
    match outcome {
        DnsOutcome::Event { domain, ips, rcode } => {
            &&& ev.query_domain@ == domain
            &&& ev.response_ips@ == ips
            &&& ev.response_code == rcode
            &&& ev.query_type == 1
            &&& ev.process_id is None
            &&& ev.process_name is None
        },
        _ => false,
    }
}

proof fn lemma_raw_span_mono(labels: Seq<Seq<u8>>, i: int, n: int)
    requires
        0 <= i <= n,
    ensures
        raw_span(labels, i) <= raw_span(labels, n),
    decreases n - i,
{
    if i < n {
        lemma_raw_span_mono(labels, i, n - 1);
    }
}

proof fn lemma_walk_bounds(data: Seq<u8>, off: int, jumped: bool)
    requires
        walk_name(data, off, jumped) is Some,
    ensures
        ({
            let (labels, end, j) = walk_name(data, off, jumped)->0;
            &&& end <= data.len()
            &&& (!j ==> !jumped && end == off + raw_span(labels, labels.len() as int) + 1)
            &&& (jumped ==> j)
        }),
    decreases (if jumped { 0int } else { 1int }), data.len() - off,
{
    if data[off] == 0 {
    } else if data[off] >= 0xC0 {
        lemma_walk_bounds(data, (data[off] - 0xC0) * 256 + data[off + 1], true);
    } else {
        let next = off + 1 + data[off];
        lemma_walk_bounds(data, next, jumped);
        let (labels, end, j) = walk_name(data, next, jumped)->0;
        let all = seq![data.subrange(off + 1, next)] + labels;
        if !j {
            lemma_raw_span_prepend(data.subrange(off + 1, next), labels, labels.len() as int);
        }
    }
}

proof fn lemma_raw_span_prepend(first: Seq<u8>, labels: Seq<Seq<u8>>, n: int)
    requires
        0 <= n <= labels.len(),
    ensures
        raw_span(seq![first] + labels, n + 1) == first.len() + 1 + raw_span(labels, n),
    decreases n,
{
    let all = seq![first] + labels;
    if n > 0 {
        lemma_raw_span_prepend(first, labels, n - 1);
        assert(all[n] == labels[n - 1]);
        assert(raw_span(all, n + 1) == raw_span(all, n) + all[n].len() + 1);
        assert(raw_span(labels, n) == raw_span(labels, n - 1) + labels[n - 1].len() + 1);
    } else {
        assert(all[0] == first);
        assert(raw_span(all, 0) == 0);
        assert(raw_span(all, 1) == raw_span(all, 0) + all[0].len() + 1);
    }
}

impl DnsParser {
    /// Reads the name at `offset`: its labels decoded as text (invalid UTF-8
    /// replaced) and joined by dots, and the position after it (see
    /// [`parse_name`]).
    pub fn parse_domain_name(data: &[u8], offset: usize) -> (r: Option<(String, usize)>)
        requires
            fits(data@),
        ensures
            match parse_name(data@, offset as int) {
                None => r is None,
                Some((name, next)) => r matches Some((t, n)) && t@ == name && n == next,
            },
            r matches Some((_, next)) ==> next <= 3 * data@.len() + 1,
    {
        let ghost d = data@;
        let start_offset = offset;
        let mut pos = offset;
        let mut labels: Vec<String> = Vec::new();
        let mut jumped = false;
        let ghost mut raw: Seq<Seq<u8>> = Seq::empty();
        loop
            invariant_except_break
                fits(d),
                d == data@,
                start_offset == offset,
                raw.len() == labels.len(),
                views(labels@) == label_texts(raw),
                forall|k: int|
                    0 <= k < raw.len() ==> #[trigger] encode_utf8(labels@[k]@).len() <= 3
                        * raw[k].len(),
                walk_name(d, start_offset as int, false) == match walk_name(
                    d,
                    pos as int,
                    jumped,
                ) {
                    Some((ls, end, j)) => Some((raw + ls, end, j)),
                    None => None,
                },
                !jumped ==> pos == start_offset + raw_span(raw, raw.len() as int),
            ensures
                start_offset == offset,
                walk_name(d, start_offset as int, false) is Some,
                walk_name(d, start_offset as int, false)->0 == (raw, pos as int, jumped),
                raw.len() == labels.len(),
                views(labels@) == label_texts(raw),
                forall|k: int|
                    0 <= k < raw.len() ==> #[trigger] encode_utf8(labels@[k]@).len() <= 3
                        * raw[k].len(),
            decreases (if jumped { 0int } else { 1int }), d.len() - pos,
        {
            let ghost at = pos as int;
            if pos >= data.len() {
                assert(walk_name(d, at, jumped) is None);
                assert(walk_name(d, start_offset as int, false) is None);
                return None;
            }
            let len = data[pos];
            if len == 0 {
                assert(walk_name(d, at, jumped) == Some((Seq::<Seq<u8>>::empty(), at + 1, jumped)));
                pos = pos + 1;
                assert(raw + Seq::<Seq<u8>>::empty() =~= raw);
                break;
            }
            assert(len & 0xC0 == 0xC0 <==> len >= 0xC0) by (bit_vector);
            if len & 0xC0 == 0xC0 {
                if pos + 1 >= data.len() {
                    assert(walk_name(d, at, jumped) is None);
                    assert(walk_name(d, start_offset as int, false) is None);
                    return None;
                }
                let next = data[pos + 1];
                assert(((len & 0x3F) as usize) << 8 | next as usize == (len - 0xC0) * 256 + next)
                    by (bit_vector)
                    requires
                        len >= 0xC0,
                ;
                let pointer = ((len & 0x3F) as usize) << 8 | next as usize;
                if !jumped {
                    assert(walk_name(d, at, false) == walk_name(d, pointer as int, true));
                    pos = pointer;
                    jumped = true;
                } else {
                    assert(walk_name(d, at, jumped) is None);
                    assert(walk_name(d, start_offset as int, false) is None);
                    return None;
                }
                continue;
            }
            pos = pos + 1;
            if pos + len as usize > data.len() {
                assert(walk_name(d, at, jumped) is None);
                assert(walk_name(d, start_offset as int, false) is None);
                return None;
            }
            let slice = &data[pos..pos + len as usize];
            let ghost bytes = d.subrange(pos as int, pos + len);
            assert(slice@ == bytes);
            let label = from_utf8_lossy(slice);
            proof {
                assert(walk_name(d, at, jumped) == match walk_name(d, at + 1 + len, jumped) {
                    Some((ls, end, j)) => Some((seq![bytes] + ls, end, j)),
                    None => None,
                });
                let old_raw = raw;
                raw = raw.push(bytes);
                match walk_name(d, at + 1 + len, jumped) {
                    Some((ls, end, j)) => {
                        assert(old_raw + (seq![bytes] + ls) =~= raw + ls);
                    },
                    None => {},
                }
                assert(raw_span(raw, raw.len() as int) == raw_span(old_raw, old_raw.len() as int)
                    + bytes.len() + 1) by {
                    assert(raw[raw.len() - 1] == bytes);
                    lemma_raw_span_same(old_raw, raw, old_raw.len() as int);
                };
            }
            let ghost old_labels = labels@;
            labels.push(label);
            proof {
                assert forall|k: int| 0 <= k < raw.len() implies #[trigger] views(labels@)[k]
                    == label_texts(raw)[k] by {
                    if k < raw.len() - 1 {
                        assert(views(old_labels)[k] == label_texts(raw.drop_last())[k]);
                        assert(raw.drop_last()[k] == raw[k]);
                        assert(labels@[k] == old_labels[k]);
                    }
                }
                assert(views(labels@) =~= label_texts(raw));
            }
            pos = pos + len as usize;
        }
        proof {
            lemma_walk_bounds(d, start_offset as int, false);
        }
        if !jumped {
            let mut total: usize = 0;
            let mut i: usize = 0;
            while i < labels.len()
                invariant
                    fits(d),
                    i <= labels.len() == raw.len(),
                    views(labels@) == label_texts(raw),
                    forall|k: int|
                        0 <= k < raw.len() ==> #[trigger] encode_utf8(labels@[k]@).len() <= 3
                            * raw[k].len(),
                    total == text_span(label_texts(raw), i as int),
                    total <= 3 * raw_span(raw, i as int),
                    start_offset + raw_span(raw, raw.len() as int) + 1 <= d.len(),
                decreases labels.len() - i,
            {
                proof {
                    lemma_raw_span_mono(raw, i + 1, raw.len() as int);
                    assert(label_texts(raw)[i as int] == labels@[i as int]@);
                    assert(encode_utf8(labels@[i as int]@).len() <= 3 * raw[i as int].len());
                }
                let n = labels[i].as_str().len();
                total = total + n + 1;
                i = i + 1;
            }
            pos = start_offset + total + 1;
        }
        let name = join_strings(&labels, ".");
        Some((name, pos))
    }
}

proof fn lemma_raw_span_same(a: Seq<Seq<u8>>, b: Seq<Seq<u8>>, n: int)
    requires
        0 <= n <= a.len(),
        n <= b.len(),
        forall|k: int| 0 <= k < n ==> a[k] == b[k],
    ensures
        raw_span(a, n) == raw_span(b, n),
    decreases n,
{
    if n > 0 {
        lemma_raw_span_same(a, b, n - 1);
    }
}


/// Prepends `acc` to a successful walk.
pub open spec fn prepend_ips(acc: Seq<IpAddress>, r: Option<Seq<IpAddress>>) -> Option<Seq<IpAddress>> {
    match r {
        Some(ips) => Some(acc + ips),
        None => None,
    }
}

proof fn lemma_usize_room()
    ensures
        usize::MAX / 4 * 3 + 400000 < usize::MAX,
{
    assert(usize::MAX == 0xffff_ffff || usize::MAX == 0xffff_ffff_ffff_ffff);
}

fn be16_at(data: &[u8], i: usize) -> (v: u16)
    requires
        i + 1 < data@.len(),
    ensures
        v == be16(data@, i as int),
{
    (data[i] as u16) * 256 + (data[i + 1] as u16)
}

impl DnsParser {
    /// Decodes the name, answers and rcode of a message; `Err` exactly where
    /// the decoder would index past the end of the data.
    fn decode(data: &[u8]) -> (r: Result<Option<(String, Vec<IpAddress>, u16)>, ()>)
        requires
            fits(data@),
        ensures
            match dns_outcome(data@) {
                DnsOutcome::NoEvent => r == Ok::<Option<(String, Vec<IpAddress>, u16)>, ()>(None),
                DnsOutcome::OutOfBounds => r is Err,
                DnsOutcome::Event { domain, ips, rcode } => r matches Ok(Some((d, v, c)))
                    && d@ == domain && v@ == ips && c == rcode,
            },
    {
        let ghost d = data@;
        if data.len() < 12 {
            return Ok(None);
        }
        let flags = be16_at(data, 2);
        let questions = be16_at(data, 4);
        let answers = be16_at(data, 6);
        let response_code = flags & 0x0F;
        assert(flags & 0x0F == flags % 16) by (bit_vector);
        if questions == 0 {
            return Ok(None);
        }
        proof {
            lemma_usize_room();
        }
        let mut offset: usize = 12;
        let mut query_domain = String::new();
        let mut q: u16 = 0;
        while q < questions
            invariant
                fits(d),
                d == data@,
                q <= questions,
                questions as nat == be16(d, 4),
                offset <= 3 * d.len() + 13 + 4 * (q as int),
                usize::MAX / 4 * 3 + 400000 < usize::MAX,
                questions_walk(d, 12, be16(d, 4), Seq::empty()) == questions_walk(
                    d,
                    offset as int,
                    (questions - q) as nat,
                    query_domain@,
                ),
            decreases questions - q,
        {
            match Self::parse_domain_name(data, offset) {
                Some((domain, new_offset)) => {
                    query_domain = domain;
                    offset = new_offset;
                },
                None => {},
            }
            offset = offset + 4;
            q = q + 1;
        }
        let ghost start = offset as int;
        assert(questions_walk(d, offset as int, 0, query_domain@) == (query_domain@, start));
        let mut response_ips: Vec<IpAddress> = Vec::new();
        let mut a: u16 = 0;
        while a < answers && offset < data.len()
            invariant
                fits(d),
                d == data@,
                a <= answers,
                answers as nat == be16(d, 6),
                d.len() >= 12,
                be16(d, 4) != 0,
                questions_walk(d, 12, be16(d, 4), Seq::empty()).1 == start,
                offset <= 3 * d.len() + 13 + 4 * 65535 + 65547,
                usize::MAX / 4 * 3 + 400000 < usize::MAX,
                answers_walk(d, start, be16(d, 6)) == prepend_ips(
                    response_ips@,
                    answers_walk(d, offset as int, (answers - a) as nat),
                ),
            decreases answers - a,
        {
            if offset + 11 >= data.len() {
                assert(answers_walk(d, offset as int, (answers - a) as nat) is None);
                return Err(());
            }
            let ghost at = offset as int;
            offset = offset + 2;
            let rtype = be16_at(data, offset);
            offset = offset + 8;
            let rdlength = be16_at(data, offset);
            offset = offset + 2;
            let ghost prev = response_ips@;
            if rtype == 1 && rdlength == 4 && offset + 4 <= data.len() {
                let ip = IpAddress::from_v4_octets(
                    data[offset],
                    data[offset + 1],
                    data[offset + 2],
                    data[offset + 3],
                );
                response_ips.push(ip);
                proof {
                    match answers_walk(d, offset + rdlength, (answers - a - 1) as nat) {
                        Some(rest) => {
                            assert(prev + (seq![ip] + rest) =~= response_ips@ + rest);
                        },
                        None => {},
                    }
                }
            }
            offset = offset + rdlength as usize;
            a = a + 1;
        }
        proof {
            assert(answers_walk(d, offset as int, (answers - a) as nat) == Some(
                Seq::<IpAddress>::empty(),
            ));
            assert(response_ips@ + Seq::<IpAddress>::empty() =~= response_ips@);
        }
        Ok(Some((query_domain, response_ips, response_code)))
    }

    /// Decodes a DNS message. No event when it is shorter than the 12-byte
    /// header or holds no question; otherwise the event carries the last
    /// question's name, the IPv4 addresses of the type-A answers, query type
    /// 1 and the response code, with a fresh identifier and the current time.
    /// Messages whose answer records run past the end are left out: the
    /// decoder would index past the data there.
    pub fn parse(data: &[u8]) -> (r: Option<DnsEvent>)
        requires
            fits(data@),
            !(dns_outcome(data@) is OutOfBounds),
        ensures
            dns_outcome(data@) is NoEvent ==> r is None,
            dns_outcome(data@) is Event ==> (r matches Some(ev) && dns_event_matches(
                ev,
                dns_outcome(data@),
            )),
    {
        match Self::decode(data) {
            Ok(Some((query_domain, response_ips, response_code))) => Some(
                DnsEvent {
                    id: new_uuid(),
                    timestamp: now_micros(),
                    query_domain,
                    query_type: 1,
                    response_ips,
                    response_code,
                    process_id: None,
                    process_name: None,
                },
            ),
            _ => None,
        }
    }

    /// Whether a message can be decoded without indexing past its end (and
    /// fits the offset arithmetic).
    pub fn is_decodable(data: &[u8]) -> (r: bool)
        ensures
            r == (fits(data@) && !(dns_outcome(data@) is OutOfBounds)),
    {
        if data.len() >= usize::MAX / 4 {
            return false;
        }
        match Self::decode(data) {
            Err(()) => false,
            Ok(_) => true,
        }
    }

    /// Like [`DnsParser::parse`], for any input: `None` also for messages
    /// whose answer records run past the end and for payloads too large for
    /// the offset arithmetic.
    pub fn try_parse(data: &[u8]) -> (r: Option<DnsEvent>)
        ensures
            !fits(data@) ==> r is None,
            fits(data@) && !(dns_outcome(data@) is Event) ==> r is None,
            fits(data@) && dns_outcome(data@) is Event ==> (r matches Some(ev) && dns_event_matches(
                ev,
                dns_outcome(data@),
            )),
    {
        if Self::is_decodable(data) {
            Self::parse(data)
        } else {
            None
        }
    }
}

/// Decoder of DNS messages.
#[derive(Clone, Copy, Debug)]
pub struct DnsParser;

/// The wire form of a name without compression: each label as its length
/// byte and its bytes, then a zero byte.
pub open spec fn wire_name(labels: Seq<Seq<u8>>) -> Seq<u8>
    decreases labels.len(),
{
    if labels.len() == 0 {
        seq![0u8]
    } else {
        seq![labels[0].len() as u8] + labels[0] + wire_name(labels.drop_first())
    }
}

/// Whether every label has between 1 and 63 bytes, as the wire form allows.
pub open spec fn valid_labels(labels: Seq<Seq<u8>>) -> bool {
    forall|i: int| 0 <= i < labels.len() ==> 1 <= #[trigger] labels[i].len() <= 63
}

/// A law of name decoding: a name written in wire form, wherever it stands
/// in a message, reads back as the same labels, ending right after its zero
/// byte, and its text is those labels joined by dots.
pub proof fn lemma_wire_name_reads_back(prefix: Seq<u8>, labels: Seq<Seq<u8>>, rest: Seq<u8>)
    requires
        valid_labels(labels),
    ensures
        walk_name(prefix + wire_name(labels) + rest, prefix.len() as int, false) == Some(
            (labels, (prefix.len() + wire_name(labels).len()) as int, false),
        ),
        parse_name(prefix + wire_name(labels) + rest, prefix.len() as int) matches Some((name, _))
            && name == join(label_texts(labels), "."@),
    decreases labels.len(),
{
    let data = prefix + wire_name(labels) + rest;
    let off = prefix.len() as int;
    if labels.len() == 0 {
        assert(data[off] == 0);
    } else {
        let l = labels[0];
        let n = l.len();
        let tail = labels.drop_first();
        assert(valid_labels(tail)) by {
            assert forall|i: int| 0 <= i < tail.len() implies 1 <= #[trigger] tail[i].len() <= 63 by {
                assert(tail[i] == labels[i + 1]);
            }
        }
        let prefix2 = prefix + seq![n as u8] + l;
        assert(data =~= prefix2 + wire_name(tail) + rest);
        lemma_wire_name_reads_back(prefix2, tail, rest);
        assert(data[off] == n as u8);
        assert(data.subrange(off + 1, off + 1 + n) =~= l);
        assert(seq![l] + tail =~= labels);
    }
}

/// A query message: a 12-byte header with identifier bytes `id0 id1`, flag
/// bytes `f0 f1`, one question and no other record, then the question's name
/// in wire form, type A and class IN.
pub open spec fn query_message(id0: u8, id1: u8, f0: u8, f1: u8, labels: Seq<Seq<u8>>) -> Seq<u8> {
    seq![id0, id1, f0, f1, 0u8, 1u8, 0u8, 0u8, 0u8, 0u8, 0u8, 0u8] + wire_name(labels) + seq![
        0u8,
        1u8,
        0u8,
        1u8,
    ]
}

/// A law of DNS decoding: a query for a name decodes to an event for that
/// name (its labels as text, joined by dots), with no answer and the response
/// code of its flags.
pub proof fn lemma_query_reads_back(id0: u8, id1: u8, f0: u8, f1: u8, labels: Seq<Seq<u8>>)
    requires
        valid_labels(labels),
    ensures
        dns_outcome(query_message(id0, id1, f0, f1, labels)) == (DnsOutcome::Event {
            domain: join(label_texts(labels), "."@),
            ips: Seq::empty(),
            rcode: (f1 % 16) as u16,
        }),
{
    let head = seq![id0, id1, f0, f1, 0u8, 1u8, 0u8, 0u8, 0u8, 0u8, 0u8, 0u8];
    let tail = seq![0u8, 1u8, 0u8, 1u8];
    let data = query_message(id0, id1, f0, f1, labels);
    assert(data == head + wire_name(labels) + tail);
    lemma_wire_name_reads_back(head, labels, tail);
    assert(data.len() >= 12);
    assert(be16(data, 4) == 1);
    assert(be16(data, 6) == 0);
    assert(be16(data, 2) % 16 == f1 % 16) by {
        assert(be16(data, 2) == f0 as nat * 256 + f1 as nat);
        assert((f0 as nat * 256 + f1 as nat) % 16 == f1 as nat % 16) by (nonlinear_arith);
    }
    let (name, next) = parse_name(data, 12)->0;
    assert(questions_walk(data, 12, 1, Seq::empty()) == questions_walk(data, next + 4, 0, name));
}

/// An answer record in wire form, its owner name given as a two-byte
/// compression pointer: the pointer, the type, class IN, a TTL of 60, the
/// data length and the data.
pub open spec fn answer_record(rtype: u16, rdata: Seq<u8>) -> Seq<u8> {
    seq![
        0xc0u8,
        0x0cu8,
        (rtype / 256) as u8,
        (rtype % 256) as u8,
        0u8,
        1u8,
        0u8,
        0u8,
        0u8,
        60u8,
        (rdata.len() / 256) as u8,
        (rdata.len() % 256) as u8,
    ] + rdata
}

/// The answer records `records` (type and data) one after another in wire form.
pub open spec fn answer_section(records: Seq<(u16, Seq<u8>)>) -> Seq<u8>
    decreases records.len(),
{
    if records.len() == 0 {
        Seq::empty()
    } else {
        answer_record(records[0].0, records[0].1) + answer_section(records.drop_first())
    }
}

/// The IPv4 addresses of the type-A records with four bytes of data, in
/// order; records of other types or sizes give none.
pub open spec fn a_addresses(records: Seq<(u16, Seq<u8>)>) -> Seq<IpAddress>
    decreases records.len(),
{
    if records.len() == 0 {
        Seq::empty()
    } else {
        let (t, d) = records[0];
        (if t == 1 && d.len() == 4 {
            seq![IpAddress::V4((d[0] as nat * 16777216 + d[1] as nat * 65536 + d[2] as nat * 256 + d[3] as nat) as u32)]
        } else {
            Seq::empty()
        }) + a_addresses(records.drop_first())
    }
}

/// Whether every record's data fits its 16-bit length field.
pub open spec fn records_fit(records: Seq<(u16, Seq<u8>)>) -> bool {
    forall|i: int| 0 <= i < records.len() ==> (#[trigger] records[i]).1.len() < 65536
}

proof fn lemma_answer_bytes(rtype: u16, rdata: Seq<u8>)
    requires
        rdata.len() < 65536,
    ensures
        ((rtype / 256) as u8) as nat * 256 + ((rtype % 256) as u8) as nat == rtype,
        ((rdata.len() / 256) as u8) as nat * 256 + ((rdata.len() % 256) as u8) as nat == rdata.len(),
{
    let n = rdata.len();
    assert((rtype / 256) < 256 && (rtype % 256) < 256);
    assert(n / 256 < 256) by {
        assert(n < 65536);
    }
}

/// A law of answer decoding: answer records one after another, wherever they
/// stand in a message and whatever follows them, give exactly the addresses
/// of their type-A records with four bytes of data, in order; records of
/// other types (a CNAME, say) are passed over by their length, and the
/// records after them are still read.
pub proof fn lemma_answers_read_back(prefix: Seq<u8>, records: Seq<(u16, Seq<u8>)>, rest: Seq<u8>)
    requires
        records_fit(records),
    ensures
        answers_walk(prefix + answer_section(records) + rest, prefix.len() as int, records.len())
            == Some(a_addresses(records)),
    decreases records.len(),
{
    let data = prefix + answer_section(records) + rest;
    let off = prefix.len() as int;
    if records.len() > 0 {
        let (t, d) = records[0];
        let tail = records.drop_first();
        assert(records_fit(tail)) by {
            assert forall|i: int| 0 <= i < tail.len() implies (#[trigger] tail[i]).1.len() < 65536 by {
                assert(tail[i] == records[i + 1]);
            }
        }
        assert(d.len() < 65536) by {
            assert(records[0].1.len() < 65536);
        }
        lemma_answer_bytes(t, d);
        let rec = answer_record(t, d);
        let prefix2 = prefix + rec;
        assert(data =~= prefix2 + answer_section(tail) + rest);
        assert(data.subrange(off, off + rec.len()) =~= rec);
        assert(data[off + 2] == rec[2] && data[off + 3] == rec[3]);
        assert(data[off + 10] == rec[10] && data[off + 11] == rec[11]);
        assert(be16(data, off + 2) == t);
        assert(be16(data, off + 10) == d.len());
        lemma_answers_read_back(prefix2, tail, rest);
        if t == 1 && d.len() == 4 {
            assert(data[off + 12] == d[0] && data[off + 13] == d[1] && data[off + 14] == d[2] && data[off
                + 15] == d[3]);
        }
    }
}

/// A law of DNS decoding: when the answers of a message start where its
/// questions end and are the records `records`, announced in its header,
/// the decoded event carries exactly the addresses of the type-A records
/// with four bytes of data, in order, with the last question's name and the
/// response code of its flags.
pub proof fn lemma_response_reads_back(data: Seq<u8>, records: Seq<(u16, Seq<u8>)>)
    requires
        data.len() >= 12,
        be16(data, 4) > 0,
        be16(data, 6) == records.len(),
        records_fit(records),
        data.subrange(
            questions_walk(data, 12, be16(data, 4), Seq::empty()).1,
            data.len() as int,
        ) == answer_section(records),
        0 <= questions_walk(data, 12, be16(data, 4), Seq::empty()).1 <= data.len(),
    ensures
        dns_outcome(data) == (DnsOutcome::Event {
            domain: questions_walk(data, 12, be16(data, 4), Seq::empty()).0,
            ips: a_addresses(records),
            rcode: (be16(data, 2) % 16) as u16,
        }),
{
    let p = questions_walk(data, 12, be16(data, 4), Seq::empty()).1;
    let prefix = data.subrange(0, p);
    assert(data =~= prefix + answer_section(records) + Seq::<u8>::empty());
    lemma_answers_read_back(prefix, records, Seq::empty());
}

} // verus!
