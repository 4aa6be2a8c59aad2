//! IP addresses as plain integers, their classification and their text form.
use vstd::prelude::*;
use crate::text::{decimal, lower_hex, push_char, push_decimal, push_lower_hex};

verus! {

/// An IPv4 address (its 32 bits, most significant octet first) or an IPv6
/// address (its 128 bits, most significant segment first).
#[derive(Clone, Copy, Debug, PartialEq, Eq, Structural)]
pub enum IpAddress {
    V4(u32),
    V6(u128),
}

/// `256^k` for `0 <= k < 4`.
pub open spec fn pow256(k: int) -> nat {
    if k == 0 { 1 } else if k == 1 { 256 } else if k == 2 { 65536 } else { 16777216 }
}

/// Octet `i` (0 is the first one written) of an IPv4 address.
pub open spec fn octet(v: u32, i: int) -> nat {
    ((v as nat) / pow256(3 - i)) % 256
}

/// `65536^k` for `0 <= k < 8`.
pub open spec fn pow65536(k: int) -> nat {
    if k == 0 { 1 }
    else if k == 1 { 0x1_0000 }
    else if k == 2 { 0x1_0000_0000 }
    else if k == 3 { 0x1_0000_0000_0000 }
    else if k == 4 { 0x1_0000_0000_0000_0000 }
    else if k == 5 { 0x1_0000_0000_0000_0000_0000 }
    else if k == 6 { 0x1_0000_0000_0000_0000_0000_0000 }
    else { 0x1_0000_0000_0000_0000_0000_0000_0000 }
}

/// Segment `i` (0 is the first one written) of an IPv6 address.
pub open spec fn segment(v: u128, i: int) -> nat {
    ((v as nat) / pow65536(7 - i)) % 65536
}

/// The IPv4 address with the four given octets, first one first.
pub open spec fn v4_value(a: u8, b: u8, c: u8, d: u8) -> u32 {
    (a as nat * 16777216 + b as nat * 65536 + c as nat * 256 + d as nat) as u32
}

/// 10.0.0.0/8, 172.16.0.0/12 or 192.168.0.0/16 (std's `Ipv4Addr::is_private`).
pub open spec fn v4_is_private(v: u32) -> bool {
    octet(v, 0) == 10
    || (octet(v, 0) == 172 && 16 <= octet(v, 1) && octet(v, 1) < 32)
    || (octet(v, 0) == 192 && octet(v, 1) == 168)
}

/// 127.0.0.0/8 (std's `Ipv4Addr::is_loopback`).
pub open spec fn v4_is_loopback(v: u32) -> bool {
    octet(v, 0) == 127
}

/// 169.254.0.0/16 (std's `Ipv4Addr::is_link_local`).
pub open spec fn v4_is_link_local(v: u32) -> bool {
    octet(v, 0) == 169 && octet(v, 1) == 254
}

/// `::1` (std's `Ipv6Addr::is_loopback`).
pub open spec fn v6_is_loopback(v: u128) -> bool {
    v == 1
}

/// fe80::/10 (std's `Ipv6Addr::is_unicast_link_local`).
pub open spec fn v6_is_unicast_link_local(v: u128) -> bool {
    segment(v, 0) / 64 == 0xfe80nat / 64
}

/// The addresses that the egress rule counts as local: private, loopback or
/// link-local IPv4, loopback or unicast link-local IPv6.
pub open spec fn is_local(ip: IpAddress) -> bool {
    match ip {
        IpAddress::V4(v) => v4_is_private(v) || v4_is_loopback(v) || v4_is_link_local(v),
        IpAddress::V6(v) => v6_is_loopback(v) || v6_is_unicast_link_local(v),
    }
}

/// The dotted text of an IPv4 address.
pub open spec fn v4_text(v: u32) -> Seq<char> {
    decimal(octet(v, 0)) + seq!['.'] + decimal(octet(v, 1)) + seq!['.'] + decimal(octet(v, 2))
        + seq!['.'] + decimal(octet(v, 3))
}

/// Scans the segments from `i` on for the first longest run of zero segments,
/// `(cs, cl)` being the current run and `(bs, bl)` the best one so far.
pub open spec fn zero_scan(v: u128, i: int, cs: int, cl: int, bs: int, bl: int) -> (int, int)
    decreases 8 - i,
{
    if i >= 8 {
        (bs, bl)
    } else if segment(v, i) == 0 {
        let ncs = if cl == 0 { i } else { cs };
        let ncl = cl + 1;
        if ncl > bl {
            zero_scan(v, i + 1, ncs, ncl, ncs, ncl)
        } else {
            zero_scan(v, i + 1, ncs, ncl, bs, bl)
        }
    } else {
        zero_scan(v, i + 1, 0, 0, bs, bl)
    }
}

/// The first longest run of zero segments, as (start, length).
pub open spec fn zero_span(v: u128) -> (int, int) {
    zero_scan(v, 0, 0, 0, 0, 0)
}

/// Segments `a..b` in hex, separated by colons.
pub open spec fn hex_groups(v: u128, a: int, b: int) -> Seq<char>
    decreases b - a,
{
    if b <= a {
        Seq::empty()
    } else if b == a + 1 {
        lower_hex(segment(v, a))
    } else {
        hex_groups(v, a, b - 1) + seq![':'] + lower_hex(segment(v, b - 1))
    }
}

/// Whether the address is IPv4-mapped (`::ffff:a.b.c.d`).
pub open spec fn v6_is_v4_mapped(v: u128) -> bool {
    (v as nat) / 0x1_0000_0000 == 0xffff
}

/// The text of an IPv6 address as std writes it: IPv4-mapped addresses as
/// `::ffff:a.b.c.d`, otherwise hex segments with the first longest run of
/// two or more zero segments written as `::`.
pub open spec fn v6_text(v: u128) -> Seq<char> {
    if v6_is_v4_mapped(v) {
        seq![':', ':', 'f', 'f', 'f', 'f', ':'] + v4_text(((v as nat) % 0x1_0000_0000) as u32)
    } else {
        let (s, l) = zero_span(v);
        if l > 1 {
            hex_groups(v, 0, s) + seq![':', ':'] + hex_groups(v, s + l, 8)
        } else {
            hex_groups(v, 0, 8)
        }
    }
}

/// The text of an address as std's `Display` writes it.
pub open spec fn ip_text(ip: IpAddress) -> Seq<char> {
    match ip {
        IpAddress::V4(v) => v4_text(v),
        IpAddress::V6(v) => v6_text(v),
    }
}

proof fn lemma_zero_scan_bounds(v: u128, i: int, cs: int, cl: int, bs: int, bl: int)
    requires
        0 <= i <= 8,
        0 <= bs,
        0 <= bl,
        bs + bl <= i,
        0 <= cs,
        0 <= cl,
        cs + cl <= i,
    ensures
        0 <= zero_scan(v, i, cs, cl, bs, bl).0,
        0 <= zero_scan(v, i, cs, cl, bs, bl).1,
        zero_scan(v, i, cs, cl, bs, bl).0 + zero_scan(v, i, cs, cl, bs, bl).1 <= 8,
    decreases 8 - i,
{
    if i < 8 {
        if segment(v, i) == 0 {
            let ncs = if cl == 0 { i } else { cs };
            let ncl = cl + 1;
            if ncl > bl {
                lemma_zero_scan_bounds(v, i + 1, ncs, ncl, ncs, ncl);
            } else {
                lemma_zero_scan_bounds(v, i + 1, ncs, ncl, bs, bl);
            }
        } else {
            lemma_zero_scan_bounds(v, i + 1, 0, 0, bs, bl);
        }
    }
}

impl IpAddress {
    /// The IPv4 address with the given octets (std's `IpAddr::from([a, b, c, d])`).
    pub fn from_v4_octets(a: u8, b: u8, c: u8, d: u8) -> (ip: IpAddress)
        ensures
            ip == IpAddress::V4(v4_value(a, b, c, d)),
    {
        IpAddress::V4((a as u32) * 16777216 + (b as u32) * 65536 + (c as u32) * 256 + (d as u32))
    }
}

fn octet_exec(v: u32, i: usize) -> (o: u64)
    requires
        i < 4,
    ensures
        o == octet(v, i as int),
{
    if i == 0 {
        (v / 16777216) as u64 % 256
    } else if i == 1 {
        (v / 65536) as u64 % 256
    } else if i == 2 {
        (v / 256) as u64 % 256
    } else {
        v as u64 % 256
    }
}

fn segment_exec(v: u128, i: usize) -> (s: u64)
    requires
        i < 8,
    ensures
        s == segment(v, i as int),
{
    let d: u128 = if i == 0 {
        0x1_0000_0000_0000_0000_0000_0000_0000
    } else if i == 1 {
        0x1_0000_0000_0000_0000_0000_0000
    } else if i == 2 {
        0x1_0000_0000_0000_0000_0000
    } else if i == 3 {
        0x1_0000_0000_0000_0000
    } else if i == 4 {
        0x1_0000_0000_0000
    } else if i == 5 {
        0x1_0000_0000
    } else if i == 6 {
        0x1_0000
    } else {
        1
    };
    assert(d as nat == pow65536(7 - i));
    ((v / d) % 0x1_0000) as u64
}

fn push_v4_text(s: &mut String, v: u32)
    ensures
        final(s)@ == old(s)@ + v4_text(v),
{
    push_decimal(s, octet_exec(v, 0));
    push_char(s, '.');
    push_decimal(s, octet_exec(v, 1));
    push_char(s, '.');
    push_decimal(s, octet_exec(v, 2));
    push_char(s, '.');
    push_decimal(s, octet_exec(v, 3));
    assert(s@ =~= old(s)@ + v4_text(v));
}

fn push_hex_groups(s: &mut String, v: u128, a: usize, b: usize)
    requires
        a <= b <= 8,
    ensures
        final(s)@ == old(s)@ + hex_groups(v, a as int, b as int),
{
    let mut j: usize = a;
    while j < b
        invariant
            a <= j <= b <= 8,
            s@ == old(s)@ + hex_groups(v, a as int, j as int),
        decreases b - j,
    {
        if j > a {
            push_char(s, ':');
        }
        push_lower_hex(s, segment_exec(v, j));
        j = j + 1;
        assert(s@ =~= old(s)@ + hex_groups(v, a as int, j as int));
    }
}

fn zero_span_exec(v: u128) -> (r: (usize, usize))
    ensures
        r.0 == zero_span(v).0,
        r.1 == zero_span(v).1,
        r.0 + r.1 <= 8,
{
    let mut cs: usize = 0;
    let mut cl: usize = 0;
    let mut bs: usize = 0;
    let mut bl: usize = 0;
    let mut i: usize = 0;
    while i < 8
        invariant
            i <= 8,
            cs + cl <= i,
            bs + bl <= i,
            zero_scan(v, i as int, cs as int, cl as int, bs as int, bl as int) == zero_span(v),
        decreases 8 - i,
    {
        if segment_exec(v, i) == 0 {
            if cl == 0 {
                cs = i;
            }
            cl = cl + 1;
            if cl > bl {
                bs = cs;
                bl = cl;
            }
        } else {
            cs = 0;
            cl = 0;
        }
        i = i + 1;
    }
    proof {
        lemma_zero_scan_bounds(v, 0, 0, 0, 0, 0);
    }
    (bs, bl)
}

/// Appends the text of an address.
pub fn push_ip_text(s: &mut String, ip: IpAddress)
    ensures
        final(s)@ == old(s)@ + ip_text(ip),
{
    match ip {
        IpAddress::V4(v) => push_v4_text(s, v),
        IpAddress::V6(v) => {
            if v / 0x1_0000_0000 == 0xffff {
                push_char(s, ':');
                push_char(s, ':');
                push_char(s, 'f');
                push_char(s, 'f');
                push_char(s, 'f');
                push_char(s, 'f');
                push_char(s, ':');
                push_v4_text(s, (v % 0x1_0000_0000) as u32);
                assert(s@ =~= old(s)@ + ip_text(ip));
            } else {
                let (zs, zl) = zero_span_exec(v);
                if zl > 1 {
                    push_hex_groups(s, v, 0, zs);
                    push_char(s, ':');
                    push_char(s, ':');
                    push_hex_groups(s, v, zs + zl, 8);
                } else {
                    push_hex_groups(s, v, 0, 8);
                }
                assert(s@ =~= old(s)@ + ip_text(ip));
            }
        },
    }
}

impl IpAddress {
    /// The text of the address (what std's `Display` writes).
    pub fn to_text(&self) -> (s: String)
        ensures
            s@ == ip_text(*self),
    {
        let mut s = String::new();
        push_ip_text(&mut s, *self);
        assert(s@ =~= ip_text(*self));
        s
    }

    /// Whether the address counts as local for the egress rule.
    pub fn is_local(&self) -> (r: bool)
        ensures
            r == is_local(*self),
    {
        match *self {
            IpAddress::V4(v) => {
                let a = octet_exec(v, 0);
                let b = octet_exec(v, 1);
                a == 10 || (a == 172 && 16 <= b && b < 32) || (a == 192 && b == 168) || a == 127
                    || (a == 169 && b == 254)
            },
            IpAddress::V6(v) => v == 1 || segment_exec(v, 0) / 64 == 0xfe80 / 64,
        }
    }
}

} // verus!
