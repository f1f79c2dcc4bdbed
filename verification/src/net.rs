//! Socket addresses as text: an IPv4 address or a bracketed IPv6 address,
//! a colon and a port.
//!
//! The grammar is that of the usual textual form. An IPv4 address is four
//! decimal numbers of at most 255, without leading zeros, separated by dots.
//! An IPv6 address is eight groups of one to four hexadecimal digits
//! separated by colons; one run of zero groups may be written `::`, and the
//! last two groups may be written as an IPv4 address. A port is a decimal
//! number of at most 65535. An IPv6 address stands in square brackets and may
//! be followed, inside them, by `%` and a decimal scope number.

use crate::numeral::{
    all_digits, decimal_spec, decimal_string, decimal_text, decimal_value, hex_group_spec,
    hex_string, hex_text, parse_decimal, parse_hex_group,
};
use crate::text::{chars_of, find_char, first_index};
use vstd::prelude::*;
use vstd::string::StringExecFns;

verus! {

/// A socket address: an IP address and a port.
#[derive(Debug, Clone, Copy, PartialEq, Eq)]
pub enum SocketAddr {
    V4 { octets: [u8; 4], port: u16 },
    V6 { segments: [u16; 8], scope_id: u32, port: u16 },
}

/// What a [`SocketAddr`] stands for.
pub enum SocketAddrView {
    V4 { octets: Seq<u8>, port: u16 },
    V6 { segments: Seq<u16>, scope_id: u32, port: u16 },
}

impl View for SocketAddr {
    type V = SocketAddrView;

    open spec fn view(&self) -> SocketAddrView {
        match *self {
            SocketAddr::V4 { octets, port } => SocketAddrView::V4 { octets: octets@, port },
            SocketAddr::V6 { segments, scope_id, port } => SocketAddrView::V6 {
                segments: segments@,
                scope_id,
                port,
            },
        }
    }
}

impl SocketAddrView {
    /// Four octets, or eight segments.
    pub open spec fn wf(self) -> bool {
        match self {
            SocketAddrView::V4 { octets, port } => octets.len() == 4,
            SocketAddrView::V6 { segments, scope_id, port } => segments.len() == 8,
        }
    }
}

/// Reads `s` as one number of an IPv4 address.
pub open spec fn octet_spec(s: Seq<char>) -> Option<u8> {
    if 1 <= s.len() <= 3 && all_digits(s) && (s.len() == 1 || s[0] != '0') && decimal_value(s)
        <= 255 {
        Some(decimal_value(s) as u8)
    } else {
        None
    }
}

/// Reads `s` as an IPv4 address.
pub open spec fn ipv4_spec(s: Seq<char>) -> Option<Seq<u8>> {
    let d1 = first_index(s, '.');
    let s1 = s.skip(d1 + 1);
    let d2 = first_index(s1, '.');
    let s2 = s1.skip(d2 + 1);
    let d3 = first_index(s2, '.');
    let s3 = s2.skip(d3 + 1);
    if d1 < s.len() && d2 < s1.len() && d3 < s2.len() {
        match (octet_spec(s.take(d1)), octet_spec(s1.take(d2)), octet_spec(s2.take(d3)), octet_spec(
            s3,
        )) {
            (Some(a), Some(b), Some(c), Some(d)) => Some(seq![a, b, c, d]),
            _ => None,
        }
    } else {
        None
    }
}

/// The 16-bit group made of two octets.
pub open spec fn octet_pair(hi: u8, lo: u8) -> u16 {
    (hi * 256 + lo) as u16
}

/// Reads `s` as groups of hexadecimal digits separated by single colons.
/// With `v4_last`, the last item may be an IPv4 address, which counts as two
/// groups.
pub open spec fn groups_spec(s: Seq<char>, v4_last: bool) -> Option<Seq<u16>>
    decreases s.len(),
{
    let c = first_index(s, ':');
    if c < 0 || c >= s.len() {
        match ipv4_spec(s) {
            Some(o) if v4_last => Some(seq![octet_pair(o[0], o[1]), octet_pair(o[2], o[3])]),
            _ => match hex_group_spec(s) {
                Some(g) => Some(seq![g]),
                None => None,
            },
        }
    } else {
        match (hex_group_spec(s.take(c)), groups_spec(s.skip(c + 1), v4_last)) {
            (Some(g), Some(rest)) => Some(seq![g] + rest),
            _ => None,
        }
    }
}

/// Whether two colons stand at index `i` of `s`.
pub open spec fn double_colon_at(s: Seq<char>, i: int) -> bool {
    &&& 0 <= i
    &&& i + 2 <= s.len()
    &&& s[i] == ':'
    &&& s[i + 1] == ':'
}

/// Index of the first `::` in `s` at or after `from`; `s.len()` if there is none.
pub open spec fn first_double_colon_from(s: Seq<char>, from: int) -> int
    decreases s.len() - from,
{
    if from < 0 || from >= s.len() {
        s.len() as int
    } else if double_colon_at(s, from) {
        from
    } else {
        first_double_colon_from(s, from + 1)
    }
}

/// Index of the first `::` in `s`; `s.len()` if there is none.
pub open spec fn first_double_colon(s: Seq<char>) -> int {
    first_double_colon_from(s, 0)
}

/// `n` zero groups.
pub open spec fn zero_groups(n: int) -> Seq<u16> {
    Seq::new(n as nat, |i: int| 0u16)
}

/// Reads `s` as an IPv6 address.
pub open spec fn ipv6_spec(s: Seq<char>) -> Option<Seq<u16>> {
    let z = first_double_colon(s);
    if z >= s.len() {
        match groups_spec(s, true) {
            Some(g) if g.len() == 8 => Some(g),
            _ => None,
        }
    } else {
        let head = if z == 0 {
            Some(Seq::<u16>::empty())
        } else {
            groups_spec(s.take(z), false)
        };
        let tail = if z + 2 == s.len() {
            Some(Seq::<u16>::empty())
        } else {
            groups_spec(s.skip(z + 2), true)
        };
        match (head, tail) {
            (Some(h), Some(t)) if h.len() + t.len() <= 7 => Some(
                h + zero_groups(8 - h.len() - t.len()) + t,
            ),
            _ => None,
        }
    }
}

/// Reads `s` as an IPv4 address, a colon and a port.
pub open spec fn socket_v4_spec(s: Seq<char>) -> Option<SocketAddrView> {
    let c = first_index(s, ':');
    if c < s.len() {
        match (ipv4_spec(s.take(c)), decimal_spec(s.skip(c + 1), 65535)) {
            (Some(o), Some(p)) => Some(SocketAddrView::V4 { octets: o, port: p as u16 }),
            _ => None,
        }
    } else {
        None
    }
}

/// Reads `s` as an IPv6 address in square brackets, with or without a scope,
/// a colon and a port.
pub open spec fn socket_v6_spec(s: Seq<char>) -> Option<SocketAddrView> {
    let close = first_index(s, ']');
    let inner = s.subrange(1, close);
    let after = s.skip(close + 1);
    let pct = first_index(inner, '%');
    if s.len() > 0 && s[0] == '[' && close < s.len() && after.len() > 0 && after[0] == ':' {
        let ip = if pct < inner.len() {
            ipv6_spec(inner.take(pct))
        } else {
            ipv6_spec(inner)
        };
        let scope = if pct < inner.len() {
            decimal_spec(inner.skip(pct + 1), u32::MAX)
        } else {
            Some(0u32)
        };
        match (ip, scope, decimal_spec(after.skip(1), 65535)) {
            (Some(g), Some(sc), Some(p)) => Some(
                SocketAddrView::V6 { segments: g, scope_id: sc, port: p as u16 },
            ),
            _ => None,
        }
    } else {
        None
    }
}

/// Reads `s` as a socket address.
pub open spec fn socket_spec(s: Seq<char>) -> Option<SocketAddrView> {
    match socket_v4_spec(s) {
        Some(a) => Some(a),
        None => socket_v6_spec(s),
    }
}

/// An IPv4 address in text.
pub open spec fn ipv4_text(o: Seq<u8>) -> Seq<char> {
    decimal_text(o[0] as nat) + seq!['.'] + decimal_text(o[1] as nat) + seq!['.'] + decimal_text(
        o[2] as nat,
    ) + seq!['.'] + decimal_text(o[3] as nat)
}

/// Groups in hexadecimal, separated by colons.
pub open spec fn hex_join(g: Seq<u16>) -> Seq<char>
    decreases g.len(),
{
    if g.len() == 0 {
        Seq::empty()
    } else if g.len() == 1 {
        hex_text(g[0] as nat)
    } else {
        hex_text(g[0] as nat) + seq![':'] + hex_join(g.drop_first())
    }
}

/// How many zero groups follow one another from index `i` on.
pub open spec fn zero_run(g: Seq<u16>, i: int) -> nat
    decreases g.len() - i,
{
    if 0 <= i < g.len() && g[i] == 0 {
        1 + zero_run(g, i + 1)
    } else {
        0
    }
}

/// The least index below `upto` from which the longest run of zero groups
/// starts.
pub open spec fn longest_zero_run(g: Seq<u16>, upto: int) -> int
    decreases upto,
{
    if upto <= 0 {
        0
    } else {
        let best = longest_zero_run(g, upto - 1);
        if zero_run(g, upto - 1) > zero_run(g, best) {
            upto - 1
        } else {
            best
        }
    }
}

/// Whether the address is an IPv4 address mapped into IPv6.
pub open spec fn is_v4_mapped(g: Seq<u16>) -> bool {
    g[0] == 0 && g[1] == 0 && g[2] == 0 && g[3] == 0 && g[4] == 0 && g[5] == 0xffff
}

/// The IPv4 address held by the last two groups.
pub open spec fn mapped_octets(g: Seq<u16>) -> Seq<u8> {
    seq![(g[6] / 256) as u8, (g[6] % 256) as u8, (g[7] / 256) as u8, (g[7] % 256) as u8]
}

/// An IPv6 address in text. A mapped IPv4 address is written as
/// `::ffff:` and that address. Otherwise the first longest run of two or
/// more zero groups is written `::`.
pub open spec fn ipv6_text(g: Seq<u16>) -> Seq<char> {
    if is_v4_mapped(g) {
        seq![':', ':'] + hex_text(0xffff) + seq![':'] + ipv4_text(mapped_octets(g))
    } else {
        let start = longest_zero_run(g, 8);
        let n = zero_run(g, start);
        if n > 1 {
            hex_join(g.take(start)) + seq![':', ':'] + hex_join(g.skip(start + n))
        } else {
            hex_join(g)
        }
    }
}

/// The IP address of a socket address in text.
pub open spec fn ip_text(a: SocketAddrView) -> Seq<char> {
    match a {
        SocketAddrView::V4 { octets, port } => ipv4_text(octets),
        SocketAddrView::V6 { segments, scope_id, port } => ipv6_text(segments),
    }
}

/// The scope of an IPv6 socket address in text: nothing for scope 0.
pub open spec fn scope_text(scope_id: u32) -> Seq<char> {
    if scope_id == 0 {
        Seq::empty()
    } else {
        seq!['%'] + decimal_text(scope_id as nat)
    }
}

/// A socket address in text.
pub open spec fn socket_text(a: SocketAddrView) -> Seq<char> {
    match a {
        SocketAddrView::V4 { octets, port } => ipv4_text(octets) + seq![':'] + decimal_text(
            port as nat,
        ),
        SocketAddrView::V6 { segments, scope_id, port } => seq!['['] + ipv6_text(segments)
            + scope_text(scope_id) + seq![']', ':'] + decimal_text(port as nat),
    }
}

/// Reads `v[lo..hi]` as one number of an IPv4 address.
fn parse_octet(v: &Vec<char>, lo: usize, hi: usize) -> (r: Option<u8>)
    requires
        lo <= hi <= v.len(),
    ensures
        r == octet_spec(v@.subrange(lo as int, hi as int)),
{
    if hi - lo < 1 || hi - lo > 3 {
        return None;
    }
    if hi - lo > 1 && v[lo] == '0' {
        return None;
    }
    match parse_decimal(v, lo, hi, 255) {
        Some(n) => Some(n as u8),
        None => None,
    }
}

/// Reads `v[lo..hi]` as an IPv4 address.
fn parse_ipv4(v: &Vec<char>, lo: usize, hi: usize) -> (r: Option<[u8; 4]>)
    requires
        lo <= hi <= v.len(),
    ensures
        match r {
            Some(o) => ipv4_spec(v@.subrange(lo as int, hi as int)) == Some(o@),
            None => ipv4_spec(v@.subrange(lo as int, hi as int)) is None,
        },
{
    let ghost s = v@.subrange(lo as int, hi as int);
    let d1 = find_char(v, lo, hi, '.');
    if d1 == hi {
        return None;
    }
    let ghost s1 = s.skip(d1 - lo + 1);
    assert(s1 =~= v@.subrange(d1 + 1, hi as int));
    let d2 = find_char(v, d1 + 1, hi, '.');
    if d2 == hi {
        return None;
    }
    let ghost s2 = s1.skip(d2 - d1);
    assert(s2 =~= v@.subrange(d2 + 1, hi as int));
    let d3 = find_char(v, d2 + 1, hi, '.');
    if d3 == hi {
        return None;
    }
    let ghost s3 = s2.skip(d3 - d2);
    assert(s3 =~= v@.subrange(d3 + 1, hi as int));
    assert(s.take(d1 - lo) =~= v@.subrange(lo as int, d1 as int));
    assert(s1.take(d2 - d1 - 1) =~= v@.subrange(d1 + 1, d2 as int));
    assert(s2.take(d3 - d2 - 1) =~= v@.subrange(d2 + 1, d3 as int));
    let a = parse_octet(v, lo, d1);
    let b = parse_octet(v, d1 + 1, d2);
    let c = parse_octet(v, d2 + 1, d3);
    let d = parse_octet(v, d3 + 1, hi);
    match (a, b, c, d) {
        (Some(a), Some(b), Some(c), Some(d)) => {
            let o: [u8; 4] = [a, b, c, d];
            assert(o@ =~= seq![a, b, c, d]);
            Some(o)
        },
        _ => None,
    }
}

/// Reads `v[lo..hi]` as groups of hexadecimal digits separated by single
/// colons; with `v4_last`, the last item may be an IPv4 address.
fn parse_groups(v: &Vec<char>, lo: usize, hi: usize, v4_last: bool) -> (r: Option<Vec<u16>>)
    requires
        lo <= hi <= v.len(),
    ensures
        match r {
            Some(g) => groups_spec(v@.subrange(lo as int, hi as int), v4_last) == Some(g@),
            None => groups_spec(v@.subrange(lo as int, hi as int), v4_last) is None,
        },
{
    let ghost whole = groups_spec(v@.subrange(lo as int, hi as int), v4_last);
    let mut out: Vec<u16> = Vec::new();
    let mut pos: usize = lo;
    assert(Seq::<u16>::empty() + groups_spec(v@.subrange(pos as int, hi as int), v4_last)->0
        =~= groups_spec(v@.subrange(pos as int, hi as int), v4_last)->0);
    loop
        invariant
            lo <= pos <= hi <= v.len(),
            whole == groups_spec(v@.subrange(lo as int, hi as int), v4_last),
            whole == match groups_spec(v@.subrange(pos as int, hi as int), v4_last) {
                Some(rest) => Some(out@ + rest),
                None => None,
            },
        decreases hi - pos,
    {
        let ghost s = v@.subrange(pos as int, hi as int);
        let c = find_char(v, pos, hi, ':');
        if c == hi {
            if v4_last {
                match parse_ipv4(v, pos, hi) {
                    Some(o) => {
                        let ghost before = out@;
                        let g1: u16 = (o[0] as u16) * 256 + (o[1] as u16);
                        let g2: u16 = (o[2] as u16) * 256 + (o[3] as u16);
                        out.push(g1);
                        out.push(g2);
                        assert(out@ =~= before + seq![
                            octet_pair(o@[0], o@[1]),
                            octet_pair(o@[2], o@[3]),
                        ]);
                        return Some(out);
                    },
                    None => {},
                }
            }
            match parse_hex_group(v, pos, hi) {
                Some(g) => {
                    let ghost before = out@;
                    out.push(g);
                    assert(out@ =~= before + seq![g]);
                    return Some(out);
                },
                None => {
                    return None;
                },
            }
        } else {
            assert(s.take(c - pos) =~= v@.subrange(pos as int, c as int));
            assert(s.skip(c - pos + 1) =~= v@.subrange(c + 1, hi as int));
            match parse_hex_group(v, pos, c) {
                None => {
                    return None;
                },
                Some(g) => {
                    let ghost before = out@;
                    out.push(g);
                    proof {
                        let rest = groups_spec(v@.subrange(c + 1, hi as int), v4_last);
                        if rest is Some {
                            assert(before + (seq![g] + rest->0) =~= out@ + rest->0);
                        }
                    }
                    pos = c + 1;
                },
            }
        }
    }
}

/// Finds the first `::` in `v[lo..hi]`. Returns its index in `v`, or `hi` if
/// there is none.
fn find_double_colon(v: &Vec<char>, lo: usize, hi: usize) -> (r: usize)
    requires
        lo <= hi <= v.len(),
    ensures
        lo <= r <= hi,
        r - lo == first_double_colon(v@.subrange(lo as int, hi as int)),
        r < hi ==> r + 2 <= hi,
{
    let ghost s = v@.subrange(lo as int, hi as int);
    let mut i: usize = lo;
    while i < hi
        invariant
            lo <= i <= hi <= v.len(),
            s == v@.subrange(lo as int, hi as int),
            first_double_colon(s) == first_double_colon_from(s, i - lo),
        decreases hi - i,
    {
        if hi - i >= 2 && v[i] == ':' && v[i + 1] == ':' {
            assert(double_colon_at(s, i - lo));
            return i;
        }
        assert(!double_colon_at(s, i - lo));
        i += 1;
    }
    hi
}

/// Eight groups: those of `head`, zero groups, those of `tail`.
fn assemble(head: &Vec<u16>, tail: &Vec<u16>) -> (r: [u16; 8])
    requires
        head.len() + tail.len() <= 8,
    ensures
        r@ == head@ + zero_groups(8 - head.len() - tail.len()) + tail@,
{
    let h = head.len();
    let t = tail.len();
    let mut out: [u16; 8] = [0, 0, 0, 0, 0, 0, 0, 0];
    let mut i: usize = 0;
    while i < h
        invariant
            i <= h == head.len(),
            h + t <= 8,
            forall|k: int| 0 <= k < i ==> out@[k] == head@[k],
            forall|k: int| i <= k < 8 ==> out@[k] == 0,
        decreases h - i,
    {
        out[i] = head[i];
        i += 1;
    }
    let mut j: usize = 0;
    while j < t
        invariant
            j <= t == tail.len(),
            h == head.len(),
            h + t <= 8,
            forall|k: int| 0 <= k < h ==> out@[k] == head@[k],
            forall|k: int| h <= k < 8 - t ==> out@[k] == 0,
            forall|k: int| 0 <= k < j ==> out@[8 - t + k] == tail@[k],
        decreases t - j,
    {
        out[8 - t + j] = tail[j];
        j += 1;
    }
    assert(out@ =~= head@ + zero_groups(8 - h - t) + tail@);
    out
}

/// Reads `v[lo..hi]` as an IPv6 address.
fn parse_ipv6(v: &Vec<char>, lo: usize, hi: usize) -> (r: Option<[u16; 8]>)
    requires
        lo <= hi <= v.len(),
    ensures
        match r {
            Some(g) => ipv6_spec(v@.subrange(lo as int, hi as int)) == Some(g@),
            None => ipv6_spec(v@.subrange(lo as int, hi as int)) is None,
        },
{
    let ghost s = v@.subrange(lo as int, hi as int);
    let z = find_double_colon(v, lo, hi);
    if z == hi {
        match parse_groups(v, lo, hi, true) {
            Some(g) => {
                if g.len() != 8 {
                    return None;
                }
                let empty: Vec<u16> = Vec::new();
                let out = assemble(&g, &empty);
                assert(out@ =~= g@);
                Some(out)
            },
            None => None,
        }
    } else {
        assert(s.take(z - lo) =~= v@.subrange(lo as int, z as int));
        assert(s.skip(z - lo + 2) =~= v@.subrange(z + 2, hi as int));
        let head: Vec<u16> = if z == lo {
            Vec::new()
        } else {
            match parse_groups(v, lo, z, false) {
                Some(g) => g,
                None => {
                    return None;
                },
            }
        };
        let tail: Vec<u16> = if z + 2 == hi {
            Vec::new()
        } else {
            match parse_groups(v, z + 2, hi, true) {
                Some(g) => g,
                None => {
                    return None;
                },
            }
        };
        if head.len() > 7 || tail.len() > 7 - head.len() {
            return None;
        }
        Some(assemble(&head, &tail))
    }
}

/// Reads `v` as an IPv4 address, a colon and a port.
fn parse_socket_v4(v: &Vec<char>) -> (r: Option<SocketAddr>)
    ensures
        match r {
            Some(a) => socket_v4_spec(v@) == Some(a@),
            None => socket_v4_spec(v@) is None,
        },
{
    let n = v.len();
    assert(v@.subrange(0, n as int) =~= v@);
    let c = find_char(v, 0, n, ':');
    if c == n {
        return None;
    }
    assert(v@.take(c as int) =~= v@.subrange(0, c as int));
    assert(v@.skip(c + 1) =~= v@.subrange(c + 1, n as int));
    match (parse_ipv4(v, 0, c), parse_decimal(v, c + 1, n, 65535)) {
        (Some(octets), Some(p)) => Some(SocketAddr::V4 { octets, port: p as u16 }),
        _ => None,
    }
}

/// Reads `v` as an IPv6 address in square brackets, with or without a scope,
/// a colon and a port.
fn parse_socket_v6(v: &Vec<char>) -> (r: Option<SocketAddr>)
    ensures
        match r {
            Some(a) => socket_v6_spec(v@) == Some(a@),
            None => socket_v6_spec(v@) is None,
        },
{
    let n = v.len();
    if n == 0 || v[0] != '[' {
        return None;
    }
    assert(v@.subrange(0, n as int) =~= v@);
    let close = find_char(v, 0, n, ']');
    if close == n || n - close < 2 || v[close + 1] != ':' {
        return None;
    }
    let ghost inner = v@.subrange(1, close as int);
    let ghost after = v@.skip(close + 1);
    assert(after.skip(1) =~= v@.subrange(close + 2, n as int));
    let pct = find_char(v, 1, close, '%');
    assert(inner.take(pct - 1) =~= v@.subrange(1, pct as int));
    let ip = parse_ipv6(v, 1, pct);
    let scope = if pct < close {
        assert(inner.skip(pct - 1 + 1) =~= v@.subrange(pct + 1, close as int));
        parse_decimal(v, pct + 1, close, u32::MAX)
    } else {
        Some(0u32)
    };
    let port = parse_decimal(v, close + 2, n, 65535);
    match (ip, scope, port) {
        (Some(segments), Some(scope_id), Some(p)) => Some(
            SocketAddr::V6 { segments, scope_id, port: p as u16 },
        ),
        _ => None,
    }
}

/// Writes an IPv4 address.
fn ipv4_string(o: &[u8; 4]) -> (r: String)
    ensures
        r@ == ipv4_text(o@),
{
    proof {
        reveal_strlit(".");
    }
    let mut r = decimal_string(o[0] as u32);
    r.append(".");
    r.append(decimal_string(o[1] as u32).as_str());
    r.append(".");
    r.append(decimal_string(o[2] as u32).as_str());
    r.append(".");
    r.append(decimal_string(o[3] as u32).as_str());
    assert(r@ =~= ipv4_text(o@));
    r
}

/// The groups put behind `s`, separated by colons.
pub proof fn lemma_hex_join_push(g: Seq<u16>, x: u16)
    requires
        g.len() > 0,
    ensures
        hex_join(g.push(x)) == hex_join(g) + seq![':'] + hex_text(x as nat),
    decreases g.len(),
{
    let gx = g.push(x);
    assert(gx.drop_first() =~= g.drop_first().push(x));
    if g.len() == 1 {
        assert(g.drop_first().push(x) =~= seq![x]);
        assert(hex_join(seq![x]) == hex_text(x as nat));
        assert(hex_join(gx) =~= hex_join(g) + seq![':'] + hex_text(x as nat));
    } else {
        lemma_hex_join_push(g.drop_first(), x);
        assert(hex_join(gx) =~= hex_join(g) + seq![':'] + hex_text(x as nat));
    }
}

/// Writes the groups `g[lo..hi]` in hexadecimal, separated by colons.
fn hex_join_string(g: &[u16; 8], lo: usize, hi: usize) -> (r: String)
    requires
        lo <= hi <= 8,
    ensures
        r@ == hex_join(g@.subrange(lo as int, hi as int)),
{
    proof {
        reveal_strlit(":");
    }
    let mut r = String::new();
    if lo == hi {
        assert(g@.subrange(lo as int, hi as int) =~= Seq::<u16>::empty());
        return r;
    }
    r.append(hex_string(g[lo]).as_str());
    assert(g@.subrange(lo as int, lo + 1) =~= seq![g@[lo as int]]);
    assert(r@ =~= hex_join(g@.subrange(lo as int, lo + 1)));
    let mut i: usize = lo + 1;
    while i < hi
        invariant
            lo < i <= hi <= 8,
            r@ == hex_join(g@.subrange(lo as int, i as int)),
        decreases hi - i,
    {
        proof {
            reveal_strlit(":");
            lemma_hex_join_push(g@.subrange(lo as int, i as int), g@[i as int]);
            assert(g@.subrange(lo as int, i as int).push(g@[i as int]) =~= g@.subrange(
                lo as int,
                i + 1,
            ));
        }
        let ghost before = r@;
        r.append(":");
        r.append(hex_string(g[i]).as_str());
        assert(r@ =~= before + seq![':'] + hex_text(g@[i as int] as nat));
        i += 1;
    }
    r
}

/// Counts the zero groups that follow one another from index `i` on.
fn count_zero_run(g: &[u16; 8], i: usize) -> (n: usize)
    requires
        i <= 8,
    ensures
        n == zero_run(g@, i as int),
        i + n <= 8,
{
    let mut j: usize = i;
    while j < 8 && g[j] == 0
        invariant
            i <= j <= 8,
            zero_run(g@, i as int) == (j - i) + zero_run(g@, j as int),
        decreases 8 - j,
    {
        j += 1;
    }
    j - i
}

/// Writes an IPv6 address.
fn ipv6_string(g: &[u16; 8]) -> (r: String)
    ensures
        r@ == ipv6_text(g@),
{
    if g[0] == 0 && g[1] == 0 && g[2] == 0 && g[3] == 0 && g[4] == 0 && g[5] == 0xffff {
        proof {
            reveal_strlit("::");
            reveal_strlit(":");
        }
        let o: [u8; 4] = [(g[6] / 256) as u8, (g[6] % 256) as u8, (g[7] / 256) as u8, (g[7]
            % 256) as u8];
        assert(o@ =~= mapped_octets(g@));
        let mut r = String::from_str("::");
        r.append(hex_string(0xffff).as_str());
        r.append(":");
        r.append(ipv4_string(&o).as_str());
        assert(r@ =~= ipv6_text(g@));
        return r;
    }
    let mut best: usize = 0;
    let mut best_len: usize = count_zero_run(g, 0);
    let mut i: usize = 0;
    while i < 8
        invariant
            i <= 8,
            best == longest_zero_run(g@, i as int),
            best_len == zero_run(g@, best as int),
            best <= 8,
            best + best_len <= 8,
        decreases 8 - i,
    {
        let n = count_zero_run(g, i);
        if n > best_len {
            best = i;
            best_len = n;
        }
        i += 1;
    }
    if best_len > 1 {
        proof {
            reveal_strlit("::");
        }
        assert(g@.take(best as int) =~= g@.subrange(0, best as int));
        assert(g@.skip(best + best_len) =~= g@.subrange(best + best_len, 8));
        let mut r = hex_join_string(g, 0, best);
        r.append("::");
        r.append(hex_join_string(g, best + best_len, 8).as_str());
        assert(r@ =~= ipv6_text(g@));
        r
    } else {
        assert(g@.subrange(0, 8) =~= g@);
        hex_join_string(g, 0, 8)
    }
}

impl SocketAddr {
    /// Reads a socket address: an IPv4 address or a bracketed IPv6 address,
    /// a colon and a port. `None` if `s` is no such text.
    pub fn parse(s: &str) -> (r: Option<SocketAddr>)
        ensures
            match r {
                Some(a) => socket_spec(s@) == Some(a@),
                None => socket_spec(s@) is None,
            },
    {
        let v = chars_of(s);
        match parse_socket_v4(&v) {
            Some(a) => Some(a),
            None => parse_socket_v6(&v),
        }
    }

    /// The port.
    pub fn port(&self) -> (p: u16)
        ensures
            p == match self@ {
                SocketAddrView::V4 { octets, port } => port,
                SocketAddrView::V6 { segments, scope_id, port } => port,
            },
    {
        match self {
            SocketAddr::V4 { octets, port } => *port,
            SocketAddr::V6 { segments, scope_id, port } => *port,
        }
    }

    /// The IP address in text, without brackets, scope or port.
    pub fn ip_string(&self) -> (r: String)
        ensures
            r@ == ip_text(self@),
    {
        match self {
            SocketAddr::V4 { octets, port } => ipv4_string(octets),
            SocketAddr::V6 { segments, scope_id, port } => ipv6_string(segments),
        }
    }

    /// The socket address in text. An IPv6 address stands in brackets; its
    /// scope is written only if it is not 0.
    pub fn to_string(&self) -> (r: String)
        ensures
            r@ == socket_text(self@),
    {
        proof {
            reveal_strlit(":");
            reveal_strlit("[");
            reveal_strlit("%");
            reveal_strlit("]:");
        }
        match self {
            SocketAddr::V4 { octets, port } => {
                let mut r = ipv4_string(octets);
                r.append(":");
                r.append(decimal_string(*port as u32).as_str());
                assert(r@ =~= socket_text(self@));
                r
            },
            SocketAddr::V6 { segments, scope_id, port } => {
                let mut r = String::from_str("[");
                r.append(ipv6_string(segments).as_str());
                if *scope_id != 0 {
                    r.append("%");
                    r.append(decimal_string(*scope_id).as_str());
                }
                r.append("]:");
                r.append(decimal_string(*port as u32).as_str());
                assert(r@ =~= socket_text(self@));
                r
            },
        }
    }
}

} // verus!
