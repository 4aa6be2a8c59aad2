//! Mapping connections to the processes that own them: the process records,
//! and the reading of the kernel's socket tables (`/proc/net/tcp` and
//! `/proc/net/udp`), of `/proc/<pid>/fd` links and of command lines.
use vstd::prelude::*;
use crate::ipaddr::IpAddress;
use crate::models::Protocol;
use crate::text::{decimal, push_decimal, push_str, string_of, chars_of, contains, chars_contains, push_char};

verus! {

/// A process found for a connection.
#[derive(Clone, Debug)]
pub struct ProcessInfo {
    pub pid: u32,
    pub name: String,
    pub path: String,
    pub user: String,
}

/// A connection with the process that holds it.
#[derive(Clone, Debug)]
pub struct ProcessConnection {
    pub pid: u32,
    pub process_name: String,
    pub local_ip: IpAddress,
    pub local_port: u16,
    pub remote_ip: IpAddress,
    pub remote_port: u16,
    pub protocol: String,
}

/// Unicode white space (what `char::is_whitespace` tests).
pub open spec fn is_white(c: char) -> bool {
    let u = c as u32;
    ||| 0x9 <= u && u <= 0xd
    ||| u == 0x20
    ||| u == 0x85
    ||| u == 0xa0
    ||| u == 0x1680
    ||| 0x2000 <= u && u <= 0x200a
    ||| u == 0x2028
    ||| u == 0x2029
    ||| u == 0x202f
    ||| u == 0x205f
    ||| u == 0x3000
}

/// The pieces of `s` closed by a `sep` so far, and the piece still open.
pub open spec fn pieces(s: Seq<char>, sep: char) -> (Seq<Seq<char>>, Seq<char>)
    decreases s.len(),
{
    if s.len() == 0 {
        (Seq::empty(), Seq::empty())
    } else {
        let (done, open) = pieces(s.drop_last(), sep);
        if s.last() == sep {
            (done.push(open), Seq::empty())
        } else {
            (done, open.push(s.last()))
        }
    }
}

/// The pieces of `s` between occurrences of `sep` (what `split` yields).
pub open spec fn split_on(s: Seq<char>, sep: char) -> Seq<Seq<char>> {
    pieces(s, sep).0.push(pieces(s, sep).1)
}

/// The words of `s` closed by white space so far, and the word still open.
pub open spec fn word_pieces(s: Seq<char>) -> (Seq<Seq<char>>, Seq<char>)
    decreases s.len(),
{
    if s.len() == 0 {
        (Seq::empty(), Seq::empty())
    } else {
        let (done, open) = word_pieces(s.drop_last());
        if is_white(s.last()) {
            if open.len() > 0 {
                (done.push(open), Seq::empty())
            } else {
                (done, Seq::empty())
            }
        } else {
            (done, open.push(s.last()))
        }
    }
}

/// The non-empty runs of non-white characters (what `split_whitespace` yields).
pub open spec fn words(s: Seq<char>) -> Seq<Seq<char>> {
    let (done, open) = word_pieces(s);
    if open.len() > 0 {
        done.push(open)
    } else {
        done
    }
}

/// The value of an ASCII digit or letter as a digit (letters count from 10).
pub open spec fn digit_value(c: char) -> Option<nat> {
    let u = c as u32;
    if 48 <= u && u <= 57 {
        Some((u - 48) as nat)
    } else if 97 <= u && u <= 122 {
        Some((u - 87) as nat)
    } else if 65 <= u && u <= 90 {
        Some((u - 55) as nat)
    } else {
        None
    }
}

/// Whether `c` is a digit in base `radix`.
pub open spec fn is_digit(c: char, radix: nat) -> bool {
    digit_value(c) matches Some(d) && d < radix
}

/// The number that the digits `s` write in base `radix`.
pub open spec fn digits_value(s: Seq<char>, radix: nat) -> nat
    decreases s.len(),
{
    if s.len() == 0 {
        0
    } else {
        let d: nat = match digit_value(s.last()) {
            Some(d) => d,
            None => 0,
        };
        digits_value(s.drop_last(), radix) * radix + d
    }
}

/// The digits of a number: the text less one leading `+`.
pub open spec fn unsigned_digits(s: Seq<char>) -> Seq<char> {
    if s.len() > 0 && s[0] == '+' {
        s.drop_first()
    } else {
        s
    }
}

/// Whether every character of `s` is a digit in base `radix`.
pub open spec fn all_digits(s: Seq<char>, radix: nat) -> bool {
    forall|i: int| 0 <= i < s.len() ==> is_digit(#[trigger] s[i], radix)
}

/// What `from_str_radix` gives for an unsigned integer type whose largest
/// value is `max`: an optional `+`, then at least one digit, and a value
/// that fits.
pub open spec fn parse_unsigned(s: Seq<char>, radix: nat, max: nat) -> Option<nat> {
    let digits = unsigned_digits(s);
    if digits.len() == 0 || !all_digits(digits, radix) || digits_value(digits, radix) > max {
        None
    } else {
        Some(digits_value(digits, radix))
    }
}

/// The view of an optional number.
pub open spec fn opt_nat(o: Option<u64>) -> Option<nat> {
    match o {
        Some(v) => Some(v as nat),
        None => None,
    }
}

/// The views of a sequence of character vectors.
pub open spec fn seqs_of(v: Seq<Vec<char>>) -> Seq<Seq<char>> {
    v.map_values(|x: Vec<char>| x@)
}

fn is_white_exec(c: char) -> (r: bool)
    ensures
        r == is_white(c),
{
    let u = c as u32;
    (0x9 <= u && u <= 0xd) || u == 0x20 || u == 0x85 || u == 0xa0 || u == 0x1680 || (0x2000 <= u
        && u <= 0x200a) || u == 0x2028 || u == 0x2029 || u == 0x202f || u == 0x205f || u == 0x3000
}

/// Splits `s` at each `sep`.
pub fn split_chars(s: &Vec<char>, sep: char) -> (v: Vec<Vec<char>>)
    ensures
        seqs_of(v@) == split_on(s@, sep),
{
    let mut done: Vec<Vec<char>> = Vec::new();
    let mut open: Vec<char> = Vec::new();
    let mut i: usize = 0;
    while i < s.len()
        invariant
            i <= s.len(),
            (seqs_of(done@), open@) == pieces(s@.take(i as int), sep),
        decreases s.len() - i,
    {
        let ghost pre = s@.take(i as int);
        assert(s@.take(i + 1).drop_last() =~= pre);
        assert(s@.take(i + 1).last() == s@[i as int]);
        let c = s[i];
        if c == sep {
            let closed = open;
            let ghost before = done@;
            done.push(closed);
            assert(seqs_of(done@) =~= seqs_of(before).push(closed@));
            open = Vec::new();
            assert(open@ =~= Seq::<char>::empty());
        } else {
            open.push(c);
        }
        i = i + 1;
    }
    assert(s@.take(i as int) =~= s@);
    let ghost before = done@;
    let last = open;
    done.push(last);
    assert(seqs_of(done@) =~= seqs_of(before).push(last@));
    done
}

/// The words of `s`, split at white space.
pub fn words_of(s: &Vec<char>) -> (v: Vec<Vec<char>>)
    ensures
        seqs_of(v@) == words(s@),
{
    let mut done: Vec<Vec<char>> = Vec::new();
    let mut open: Vec<char> = Vec::new();
    let mut i: usize = 0;
    while i < s.len()
        invariant
            i <= s.len(),
            (seqs_of(done@), open@) == word_pieces(s@.take(i as int)),
        decreases s.len() - i,
    {
        let ghost pre = s@.take(i as int);
        assert(s@.take(i + 1).drop_last() =~= pre);
        assert(s@.take(i + 1).last() == s@[i as int]);
        let c = s[i];
        if is_white_exec(c) {
            if open.len() > 0 {
                let closed = open;
                let ghost before = done@;
                done.push(closed);
                assert(seqs_of(done@) =~= seqs_of(before).push(closed@));
            }
            open = Vec::new();
            assert(open@ =~= Seq::<char>::empty());
        } else {
            open.push(c);
        }
        i = i + 1;
    }
    assert(s@.take(i as int) =~= s@);
    if open.len() > 0 {
        let ghost before = done@;
        let last = open;
        done.push(last);
        assert(seqs_of(done@) =~= seqs_of(before).push(last@));
    }
    done
}

fn digit_exec(c: char) -> (r: Option<u32>)
    ensures
        match r {
            Some(d) => digit_value(c) == Some(d as nat) && d < 36,
            None => digit_value(c) is None,
        },
{
    let u = c as u32;
    if 48 <= u && u <= 57 {
        Some(u - 48)
    } else if 97 <= u && u <= 122 {
        Some(u - 87)
    } else if 65 <= u && u <= 90 {
        Some(u - 55)
    } else {
        None
    }
}

proof fn lemma_step_bound(acc: nat, radix: nat, d: nat, max: nat)
    requires
        2 <= radix,
        d < radix,
    ensures
        d <= max && acc <= (max - d) / (radix as int) ==> acc * radix + d <= max,
        !(d <= max && acc <= (max - d) / (radix as int)) ==> acc * radix + d > max,
        acc * radix + d >= acc,
{
    if d <= max {
        let q = (max - d) / (radix as int);
        assert(q * radix <= max - d) by (nonlinear_arith)
            requires
                q == (max - d) / (radix as int),
                radix >= 2,
                max - d >= 0,
        ;
        assert(acc <= q ==> acc * radix <= q * radix) by (nonlinear_arith)
            requires
                radix >= 2,
        ;
        assert(acc > q ==> acc * radix > max - d) by (nonlinear_arith)
            requires
                q == (max - d) / (radix as int),
                radix >= 2,
                max - d >= 0,
        ;
    }
    assert(acc * radix >= acc) by (nonlinear_arith)
        requires
            radix >= 2,
    ;
}

/// Parses an unsigned number in base `radix` as `from_str_radix` does, for a
/// type whose largest value is `max`.
pub fn parse_unsigned_chars(s: &Vec<char>, radix: u32, max: u64) -> (r: Option<u64>)
    requires
        2 <= radix <= 36,
    ensures
        opt_nat(r) == parse_unsigned(s@, radix as nat, max as nat),
{
    if s.len() == 0 {
        return None;
    }
    let start: usize = if s[0] == '+' { 1 } else { 0 };
    let ghost digits = s@.subrange(start as int, s.len() as int);
    assert(digits =~= unsigned_digits(s@));
    if start == s.len() {
        return None;
    }
    let mut acc: u64 = 0;
    let mut over = false;
    let mut i: usize = start;
    assert(s@.subrange(start as int, start as int) =~= Seq::<char>::empty());
    while i < s.len()
        invariant
            start <= i <= s.len(),
            2 <= radix <= 36,
            digits == s@.subrange(start as int, s.len() as int),
            digits == unsigned_digits(s@),
            forall|k: int| start <= k < i ==> is_digit(#[trigger] s@[k], radix as nat),
            !over ==> acc == digits_value(s@.subrange(start as int, i as int), radix as nat) && acc <= max,
            over ==> digits_value(s@.subrange(start as int, i as int), radix as nat) > max,
        decreases s.len() - i,
    {
        let ghost pre = s@.subrange(start as int, i as int);
        let ghost next = s@.subrange(start as int, i + 1);
        assert(next.drop_last() =~= pre);
        assert(next.last() == s@[i as int]);
        assert(digits[i - start] == s@[i as int]);
        let d = match digit_exec(s[i]) {
            Some(d) => d,
            None => {
                assert(!is_digit(digits[i - start], radix as nat));
                assert(!all_digits(digits, radix as nat));
                return None;
            },
        };
        if d >= radix {
            assert(!is_digit(digits[i - start], radix as nat));
            assert(!all_digits(digits, radix as nat));
            return None;
        }
        proof {
            lemma_step_bound(digits_value(pre, radix as nat), radix as nat, d as nat, max as nat);
        }
        if !over {
            if (d as u64) <= max && acc <= (max - d as u64) / (radix as u64) {
                acc = acc * (radix as u64) + d as u64;
            } else {
                over = true;
            }
        }
        i = i + 1;
    }
    assert(s@.subrange(start as int, i as int) =~= digits);
    assert forall|k: int| 0 <= k < digits.len() implies is_digit(#[trigger] digits[k], radix as nat) by {
        assert(digits[k] == s@[start + k]);
    }
    if over {
        None
    } else {
        Some(acc)
    }
}

/// Parses a decimal `u32` as `str::parse` does.
pub fn parse_u32(s: &str) -> (r: Option<u32>)
    ensures
        match r {
            Some(v) => parse_unsigned(s@, 10, u32::MAX as nat) == Some(v as nat),
            None => parse_unsigned(s@, 10, u32::MAX as nat) is None,
        },
{
    let cs = chars_of(s);
    match parse_unsigned_chars(&cs, 10, 0xffff_ffff) {
        Some(v) => Some(v as u32),
        None => None,
    }
}

/// The local port field of a socket-table row: what follows the first `:`
/// of its second field, up to any further `:`.
pub open spec fn local_port_field(fields: Seq<Seq<char>>) -> Option<Seq<char>> {
    let addr = split_on(fields[1], ':');
    if addr.len() > 1 {
        Some(addr[1])
    } else {
        None
    }
}

/// Whether a socket-table row has at least ten fields and its local port,
/// in hexadecimal, is `port`.
pub open spec fn row_for_port(row: Seq<char>, port: u16) -> bool {
    let fields = words(row);
    &&& fields.len() >= 10
    &&& local_port_field(fields) matches Some(p) && parse_unsigned(p, 16, 0xffff) == Some(port as nat)
}

/// The inode found in a socket table for a port: the tenth field of the first
/// row after the heading whose local port is `port`, as a decimal `u32`
/// (nothing when that field is not one). Rows are the pieces between line
/// feeds: a piece that `lines` would drop or a trailing carriage return makes
/// no difference, since rows of fewer than ten fields are passed over and
/// white space separates fields.
pub open spec fn table_inode(table: Seq<char>, port: u16) -> Option<nat> {
    let rows = split_on(table, '\n');
    if exists|i: int| 1 <= i < rows.len() && row_for_port(#[trigger] rows[i], port) {
        let i = choose|i: int|
            1 <= i < rows.len() && row_for_port(#[trigger] rows[i], port) && forall|j: int|
                1 <= j < i ==> !row_for_port(#[trigger] rows[j], port);
        parse_unsigned(words(rows[i])[9], 10, u32::MAX as nat)
    } else {
        None
    }
}

/// The text that a `/proc/<pid>/fd` link to socket `inode` holds.
pub open spec fn socket_link(inode: u32) -> Seq<char> {
    "socket:["@ + decimal(inode as nat) + "]"@
}

/// The executable path of a process.
pub open spec fn exe_path(pid: u32) -> Seq<char> {
    "/proc/"@ + decimal(pid as nat) + "/exe"@
}

/// The name given to a process whose command line cannot be read.
pub open spec fn pid_name(pid: u32) -> Seq<char> {
    "pid_"@ + decimal(pid as nat)
}

/// Whether `t` is `s` with every leading and trailing NUL removed (what
/// `trim_matches('\0')` gives).
pub open spec fn nul_trimmed(s: Seq<char>, t: Seq<char>) -> bool {
    exists|a: int, b: int|
        #![trigger s.subrange(a, b)]
        0 <= a <= b <= s.len() && t == s.subrange(a, b) && (forall|k: int| 0 <= k < a ==> s[k] == '\0')
            && (forall|k: int| b <= k < s.len() ==> s[k] == '\0') && (a < b ==> s[a] != '\0' && s[b
            - 1] != '\0')
}

/// The socket table that lists connections of a protocol, for TCP and UDP.
pub open spec fn socket_table(p: Protocol) -> Option<Seq<char>> {
    match p {
        Protocol::TCP => Some("/proc/net/tcp"@),
        Protocol::UDP => Some("/proc/net/udp"@),
        _ => None,
    }
}

/// The process record for what was found: a process by socket inode (its pid
/// and name), else the pid the event carried, named after its number.
pub open spec fn process_record(found: Option<(u32, Seq<char>)>, process_id: Option<u32>) -> Option<(u32, Seq<char>, Seq<char>)> {
    match found {
        Some((pid, name)) => Some((pid, name, exe_path(pid))),
        None => match process_id {
            Some(pid) => Some((pid, pid_name(pid), exe_path(pid))),
            None => None,
        },
    }
}

/// The view of a process record: pid, name and path (the user is always empty).
pub open spec fn info_view(o: Option<ProcessInfo>) -> Option<(u32, Seq<char>, Seq<char>)> {
    match o {
        Some(info) => Some((info.pid, info.name@, info.path@)),
        None => None,
    }
}

/// The view of a found process.
pub open spec fn found_view(o: Option<(u32, String)>) -> Option<(u32, Seq<char>)> {
    match o {
        Some((pid, name)) => Some((pid, name@)),
        None => None,
    }
}

/// The view of an optional string.
pub open spec fn text_view(o: Option<String>) -> Option<Seq<char>> {
    match o {
        Some(s) => Some(s@),
        None => None,
    }
}

/// Finds processes for connections on Linux from `/proc`.
pub struct LinuxProcessMonitor;

impl LinuxProcessMonitor {
    pub fn new() -> (m: Self) {
        LinuxProcessMonitor
    }

    /// The socket table to read for a connection's protocol.
    pub fn socket_table_path(protocol: Protocol) -> (r: Option<String>)
        ensures
            text_view(r) == socket_table(protocol),
    {
        match protocol {
            Protocol::TCP => Some(string_of("/proc/net/tcp")),
            Protocol::UDP => Some(string_of("/proc/net/udp")),
            _ => None,
        }
    }

    /// The inode of the socket bound to `port` in a socket table's text.
    pub fn socket_inode_for_port(table: &str, port: u16) -> (r: Option<u32>)
        ensures
            match r {
                Some(v) => table_inode(table@, port) == Some(v as nat),
                None => table_inode(table@, port) is None,
            },
    {
        let cs = chars_of(table);
        let rows = split_chars(&cs, '\n');
        let ghost srows = split_on(table@, '\n');
        assert(seqs_of(rows@) == srows);
        assert(srows.len() >= 1);
        let mut i: usize = 1;
        while i < rows.len()
            invariant
                1 <= i <= rows.len(),
                seqs_of(rows@) == srows,
                srows == split_on(table@, '\n'),
                forall|j: int| 1 <= j < i ==> !row_for_port(#[trigger] srows[j], port),
            decreases rows.len() - i,
        {
            assert(srows[i as int] == rows@[i as int]@);
            let fields = words_of(&rows[i]);
            let ghost sf = words(srows[i as int]);
            assert(seqs_of(fields@) == sf);
            let mut hit = false;
            if fields.len() >= 10 {
                assert(sf[1] == fields@[1]@);
                let addr = split_chars(&fields[1], ':');
                if addr.len() > 1 {
                    assert(seqs_of(addr@)[1] == addr@[1]@);
                    match parse_unsigned_chars(&addr[1], 16, 0xffff) {
                        Some(p) => {
                            if p == port as u64 {
                                hit = true;
                            }
                        },
                        None => {},
                    }
                }
            }
            if hit {
                assert(row_for_port(srows[i as int], port));
                assert(sf[9] == fields@[9]@);
                let v = parse_unsigned_chars(&fields[9], 10, 0xffff_ffff);
                proof {
                    let k = choose|k: int|
                        1 <= k < srows.len() && row_for_port(#[trigger] srows[k], port) && forall|j: int|
                            1 <= j < k ==> !row_for_port(#[trigger] srows[j], port);
                    assert(1 <= i < srows.len() && row_for_port(srows[i as int], port) && forall|j: int|
                        1 <= j < i ==> !row_for_port(#[trigger] srows[j], port));
                    if k < i {
                    } else if k > i {
                        assert(!row_for_port(srows[i as int], port));
                    }
                    assert(k == i);
                }
                return match v {
                    Some(n) => Some(n as u32),
                    None => None,
                };
            }
            i = i + 1;
        }
        None
    }

    /// Whether a `/proc/<pid>/fd` link target names socket `inode`.
    pub fn links_to_socket(target: &str, inode: u32) -> (r: bool)
        ensures
            r == contains(target@, socket_link(inode)),
    {
        let mut pat = string_of("socket:[");
        push_decimal(&mut pat, inode as u64);
        push_char(&mut pat, ']');
        proof {
            reveal_strlit("]");
        }
        assert(pat@ =~= socket_link(inode));
        let t = chars_of(target);
        let p = chars_of(pat.as_str());
        chars_contains(&t, &p)
    }

    /// A process name from its `/proc/<pid>/cmdline`: the command line with
    /// the NULs at either end removed.
    pub fn name_from_cmdline(cmdline: &str) -> (name: String)
        ensures
            nul_trimmed(cmdline@, name@),
    {
        let cs = chars_of(cmdline);
        let n = cs.len();
        let mut a: usize = 0;
        while a < n && cs[a] == '\0'
            invariant
                n == cs.len(),
                a <= n,
                forall|k: int| 0 <= k < a ==> cs@[k] == '\0',
            decreases n - a,
        {
            a = a + 1;
        }
        let mut b: usize = n;
        while b > a && cs[b - 1] == '\0'
            invariant
                n == cs.len(),
                a <= b <= n,
                forall|k: int| b <= k < n ==> cs@[k] == '\0',
            decreases b,
        {
            b = b - 1;
        }
        let mut name = String::new();
        let mut k: usize = a;
        while k < b
            invariant
                a <= k <= b <= n,
                n == cs.len(),
                name@ == cs@.subrange(a as int, k as int),
            decreases b - k,
        {
            push_char(&mut name, cs[k]);
            k = k + 1;
            assert(name@ =~= cs@.subrange(a as int, k as int));
        }
        assert(cs@ == cmdline@);
        assert(a < b ==> cs@[a as int] != '\0');
        assert(nul_trimmed(cmdline@, cmdline@.subrange(a as int, b as int)));
        name
    }

    /// The record of the process behind a connection: the one found by socket
    /// inode, else the pid the event carried (named `pid_<n>`), with its
    /// executable path under `/proc` and an empty user.
    pub fn process_info(found: Option<(u32, String)>, process_id: Option<u32>) -> (r: Option<ProcessInfo>)
        ensures
            info_view(r) == process_record(found_view(found), process_id),
            r matches Some(info) ==> info.user@ == Seq::<char>::empty(),
    {
        match found {
            Some((pid, name)) => {
                let mut path = string_of("/proc/");
                push_decimal(&mut path, pid as u64);
                push_str(&mut path, "/exe");
                Some(ProcessInfo { pid, name, path, user: String::new() })
            },
            None => match process_id {
                Some(pid) => {
                    let mut name = string_of("pid_");
                    push_decimal(&mut name, pid as u64);
                    let mut path = string_of("/proc/");
                    push_decimal(&mut path, pid as u64);
                    push_str(&mut path, "/exe");
                    Some(ProcessInfo { pid, name, path, user: String::new() })
                },
                None => None,
            },
        }
    }

    /// The name for a process whose command line cannot be read: `pid_<n>`.
    pub fn fallback_name(pid: u32) -> (name: String)
        ensures
            name@ == pid_name(pid),
    {
        let mut name = string_of("pid_");
        push_decimal(&mut name, pid as u64);
        name
    }
}

proof fn lemma_decimal_digits(n: nat)
    ensures
        decimal(n).len() > 0,
        all_digits(decimal(n), 10),
        digits_value(decimal(n), 10) == n,
    decreases n,
{
    if n >= 10 {
        lemma_decimal_digits(n / 10);
        let s = decimal(n / 10);
        let t = decimal(n);
        assert(t == s.push(crate::text::digit_char(n % 10)));
        assert(t.drop_last() =~= s);
        assert(digit_value(t.last()) == Some(n % 10));
        assert(n == 10 * (n / 10) + n % 10);
        assert(digits_value(t, 10) == digits_value(s, 10) * 10 + n % 10);
        assert forall|i: int| 0 <= i < t.len() implies is_digit(#[trigger] t[i], 10) by {
            if i < s.len() {
                assert(t[i] == s[i]);
            }
        }
    } else {
        assert(decimal(n).drop_last() =~= Seq::<char>::empty());
        assert(digit_value(decimal(n).last()) == Some(n));
        assert(digits_value(decimal(n), 10) == digits_value(Seq::<char>::empty(), 10) * 10 + n);
    }
}

proof fn lemma_hex_digits(n: nat)
    ensures
        crate::text::lower_hex(n).len() > 0,
        all_digits(crate::text::lower_hex(n), 16),
        digits_value(crate::text::lower_hex(n), 16) == n,
    decreases n,
{
    if n >= 16 {
        lemma_hex_digits(n / 16);
        let s = crate::text::lower_hex(n / 16);
        let t = crate::text::lower_hex(n);
        assert(t.drop_last() =~= s);
        assert(digit_value(t.last()) == Some(n % 16));
        assert(n == 16 * (n / 16) + n % 16);
        assert(digits_value(t, 16) == digits_value(s, 16) * 16 + n % 16);
        assert forall|i: int| 0 <= i < t.len() implies is_digit(#[trigger] t[i], 16) by {
            if i < s.len() {
                assert(t[i] == s[i]);
            }
        }
    } else {
        assert(crate::text::lower_hex(n).drop_last() =~= Seq::<char>::empty());
        assert(digit_value(crate::text::lower_hex(n).last()) == Some(n));
        assert(digits_value(crate::text::lower_hex(n), 16) == digits_value(Seq::<char>::empty(), 16) * 16 + n);
    }
}

/// A law of number parsing: a number written in decimal (or in lowercase
/// hexadecimal) reads back as itself, when it fits.
pub proof fn lemma_written_number_reads_back(n: nat, max: nat)
    requires
        n <= max,
    ensures
        parse_unsigned(decimal(n), 10, max) == Some(n),
        parse_unsigned(crate::text::lower_hex(n), 16, max) == Some(n),
{
    lemma_decimal_digits(n);
    lemma_hex_digits(n);
    assert(is_digit(decimal(n)[0], 10));
    assert(is_digit(crate::text::lower_hex(n)[0], 16));
}

} // verus!
