//! What holds of socket addresses in text: reading what was written gives
//! the address back, and which characters a socket address is made of.

use crate::net::{
    double_colon_at, first_double_colon, first_double_colon_from, groups_spec, hex_join,
    ipv4_spec, ipv4_text, ipv6_spec, ipv6_text, is_v4_mapped, longest_zero_run, mapped_octets,
    octet_pair, octet_spec, scope_text, socket_spec, socket_text, socket_v4_spec, socket_v6_spec,
    zero_groups, zero_run, SocketAddrView,
};
use crate::numeral::{
    all_digits, decimal_spec, decimal_text, hex_group_spec, hex_text, is_digit,
    is_hex_digit, lemma_decimal_round_trip, lemma_decimal_text, lemma_hex_text,
};
use crate::text::{
    first_index, free_of, has_char, lemma_first_index, lemma_first_index_concat,
    lemma_free_of_concat, lemma_has_char,
};
use vstd::prelude::*;

verus! {

/// A character of an IP address in canonical text.
pub open spec fn is_addr_char(c: char) -> bool {
    is_digit(c) || 'a' <= c <= 'f' || c == ':' || c == '.'
}

/// Whether `s` is made of the characters of IP addresses in canonical text.
pub open spec fn addr_text(s: Seq<char>) -> bool {
    forall|i: int| 0 <= i < s.len() ==> is_addr_char(#[trigger] s[i])
}

/// Two texts of address characters make one when they are joined.
pub proof fn lemma_addr_concat(a: Seq<char>, b: Seq<char>)
    requires
        addr_text(a),
        addr_text(b),
    ensures
        addr_text(a + b),
{
    let s = a + b;
    assert forall|i: int| 0 <= i < s.len() implies is_addr_char(#[trigger] s[i]) by {
        if i < a.len() {
            assert(s[i] == a[i]);
        } else {
            assert(s[i] == b[i - a.len()]);
        }
    }
}

/// A text of address characters holds no character that is none.
pub proof fn lemma_addr_free_of(s: Seq<char>, c: char)
    requires
        addr_text(s),
        !is_addr_char(c),
    ensures
        free_of(s, c),
{
    assert forall|i: int| 0 <= i < s.len() implies s[i] != c by {
        assert(is_addr_char(s[i]));
    }
}

/// Digits are free of any character that is no digit.
pub proof fn lemma_digits_free(s: Seq<char>, c: char)
    requires
        all_digits(s),
        !is_digit(c),
    ensures
        free_of(s, c),
{
}

/// A sequence is free of `c` if it is so before, at and after an index.
pub proof fn lemma_free_of_cut(s: Seq<char>, i: int, c: char)
    requires
        0 <= i < s.len(),
        free_of(s.take(i), c),
        s[i] != c,
        free_of(s.skip(i + 1), c),
    ensures
        free_of(s, c),
{
    assert forall|j: int| 0 <= j < s.len() implies s[j] != c by {
        if j < i {
            assert(s.take(i)[j] == s[j]);
        } else if j > i {
            assert(s.skip(i + 1)[j - i - 1] == s[j]);
        }
    }
}

/// The text of a number of at most 255 is read as that number.
pub proof fn lemma_octet_round_trip(n: u8)
    ensures
        octet_spec(decimal_text(n as nat)) == Some(n),
        all_digits(decimal_text(n as nat)),
        decimal_text(n as nat).len() > 0,
{
    lemma_decimal_text(n as nat);
}

/// An IPv4 address in text is made of digits and dots, and starts and ends
/// with a digit.
pub proof fn lemma_ipv4_text_shape(o: Seq<u8>)
    requires
        o.len() == 4,
    ensures
        ipv4_text(o).len() > 0,
        is_digit(ipv4_text(o)[0]),
        is_digit(ipv4_text(o).last()),
        addr_text(ipv4_text(o)),
        free_of(ipv4_text(o), ':'),
{
    let a = decimal_text(o[0] as nat);
    let b = decimal_text(o[1] as nat);
    let c = decimal_text(o[2] as nat);
    let d = decimal_text(o[3] as nat);
    lemma_octet_round_trip(o[0]);
    lemma_octet_round_trip(o[1]);
    lemma_octet_round_trip(o[2]);
    lemma_octet_round_trip(o[3]);
    let dot = seq!['.'];
    assert(addr_text(a) && addr_text(b) && addr_text(c) && addr_text(d) && addr_text(dot));
    lemma_addr_concat(a, dot);
    lemma_addr_concat(a + dot, b);
    lemma_addr_concat(a + dot + b, dot);
    lemma_addr_concat(a + dot + b + dot, c);
    lemma_addr_concat(a + dot + b + dot + c, dot);
    lemma_addr_concat(a + dot + b + dot + c + dot, d);
    let s = ipv4_text(o);
    assert(s[0] == a[0]);
    assert(s.last() == d.last());
    assert forall|i: int| 0 <= i < s.len() implies s[i] != ':' by {
        assert(is_addr_char(s[i]));
        assert(is_digit(s[i]) || s[i] == '.');
    }
}

/// Four parts with dots between them are read part by part, where the
/// first three hold no dot.
pub proof fn lemma_ipv4_of_parts(a: Seq<char>, b: Seq<char>, c: Seq<char>, d: Seq<char>)
    requires
        free_of(a, '.'),
        free_of(b, '.'),
        free_of(c, '.'),
    ensures
        ipv4_spec(a + seq!['.'] + (b + seq!['.'] + (c + seq!['.'] + d))) == match (
            octet_spec(a),
            octet_spec(b),
            octet_spec(c),
            octet_spec(d),
        ) {
            (Some(w), Some(x), Some(y), Some(z)) => Some(seq![w, x, y, z]),
            _ => None,
        },
{
    let s2 = c + seq!['.'] + d;
    let s1 = b + seq!['.'] + s2;
    let s = a + seq!['.'] + s1;
    lemma_first_index_concat(a, '.', s1);
    lemma_first_index_concat(b, '.', s2);
    lemma_first_index_concat(c, '.', d);
    assert(first_index(s, '.') == a.len());
    assert(s.skip(first_index(s, '.') + 1) == s1);
    assert(first_index(s1, '.') == b.len());
    assert(s1.skip(first_index(s1, '.') + 1) == s2);
    assert(first_index(s2, '.') == c.len());
    assert(s2.skip(first_index(s2, '.') + 1) == d);
}

/// Four parts that are numbers of an IPv4 address, written with dots
/// between them, are read as those four numbers.
pub proof fn lemma_ipv4_of_octets(
    a: Seq<char>,
    b: Seq<char>,
    c: Seq<char>,
    d: Seq<char>,
    o: Seq<u8>,
)
    requires
        o.len() == 4,
        octet_spec(a) == Some(o[0]),
        octet_spec(b) == Some(o[1]),
        octet_spec(c) == Some(o[2]),
        octet_spec(d) == Some(o[3]),
    ensures
        ipv4_spec(a + seq!['.'] + b + seq!['.'] + c + seq!['.'] + d) == Some(o),
{
    lemma_digits_free(a, '.');
    lemma_digits_free(b, '.');
    lemma_digits_free(c, '.');
    lemma_ipv4_of_parts(a, b, c, d);
    assert(a + seq!['.'] + b + seq!['.'] + c + seq!['.'] + d =~= a + seq!['.'] + (b + seq!['.'] + (c
        + seq!['.'] + d)));
    assert(seq![o[0], o[1], o[2], o[3]] =~= o);
}

/// Reading an IPv4 address in text gives the address back.
pub proof fn lemma_ipv4_round_trip(o: Seq<u8>)
    requires
        o.len() == 4,
    ensures
        ipv4_spec(ipv4_text(o)) == Some(o),
{
    lemma_octet_round_trip(o[0]);
    lemma_octet_round_trip(o[1]);
    lemma_octet_round_trip(o[2]);
    lemma_octet_round_trip(o[3]);
    lemma_ipv4_of_octets(
        decimal_text(o[0] as nat),
        decimal_text(o[1] as nat),
        decimal_text(o[2] as nat),
        decimal_text(o[3] as nat),
        o,
    );
}

/// Only a text that starts with a digit is read as an IPv4 address.
pub proof fn lemma_ipv4_spec_starts_with_digit(s: Seq<char>)
    requires
        ipv4_spec(s) is Some,
    ensures
        s.len() > 0,
        is_digit(s[0]),
{
    let d1 = first_index(s, '.');
    lemma_first_index(s, '.');
    let first = s.take(d1);
    assert(octet_spec(first) is Some);
    assert(is_digit(first[0]));
}

/// A text that is read as an IPv4 address holds digits and dots only.
pub proof fn lemma_ipv4_spec_free(s: Seq<char>, c: char)
    requires
        ipv4_spec(s) is Some,
        !is_digit(c),
        c != '.',
    ensures
        free_of(s, c),
{
    let d1 = first_index(s, '.');
    let s1 = s.skip(d1 + 1);
    let d2 = first_index(s1, '.');
    let s2 = s1.skip(d2 + 1);
    let d3 = first_index(s2, '.');
    let s3 = s2.skip(d3 + 1);
    lemma_first_index(s, '.');
    lemma_first_index(s1, '.');
    lemma_first_index(s2, '.');
    lemma_digits_free(s3, c);
    lemma_digits_free(s2.take(d3), c);
    lemma_free_of_cut(s2, d3, c);
    lemma_digits_free(s1.take(d2), c);
    lemma_free_of_cut(s1, d2, c);
    lemma_digits_free(s.take(d1), c);
    lemma_free_of_cut(s, d1, c);
}

/// The text of a group is read as that group, and holds digits and the
/// letters `a` to `f` only.
pub proof fn lemma_hex_group_round_trip(g: u16)
    ensures
        hex_group_spec(hex_text(g as nat)) == Some(g),
        hex_text(g as nat).len() > 0,
        addr_text(hex_text(g as nat)),
        free_of(hex_text(g as nat), ':'),
        free_of(hex_text(g as nat), '.'),
{
    lemma_hex_text(g as nat);
    let t = hex_text(g as nat);
    assert forall|i: int| 0 <= i < t.len() implies is_addr_char(#[trigger] t[i]) && t[i] != ':'
        && t[i] != '.' by {
        assert(is_digit(t[i]) || 'a' <= t[i] <= 'f');
    }
}

/// Groups written with colons between them: the characters are those of
/// addresses, no colon stands at either end, and no two colons follow one
/// another.
pub proof fn lemma_hex_join_shape(g: Seq<u16>)
    requires
        g.len() > 0,
    ensures
        hex_join(g).len() > 0,
        hex_join(g)[0] != ':',
        hex_join(g).last() != ':',
        addr_text(hex_join(g)),
        free_of(hex_join(g), '.'),
        forall|i: int| !double_colon_at(hex_join(g), i),
    decreases g.len(),
{
    let first = hex_text(g[0] as nat);
    lemma_hex_group_round_trip(g[0]);
    if g.len() > 1 {
        let rest = hex_join(g.drop_first());
        lemma_hex_join_shape(g.drop_first());
        let s = hex_join(g);
        assert(s == first + seq![':'] + rest);
        lemma_addr_concat(first, seq![':']);
        lemma_addr_concat(first + seq![':'], rest);
        lemma_free_of_concat(first, seq![':'], '.');
        lemma_free_of_concat(first + seq![':'], rest, '.');
        assert(s[0] == first[0]);
        assert(s.last() == rest.last());
        assert forall|i: int| !double_colon_at(s, i) by {
            if 0 <= i && i + 2 <= s.len() {
                if i < first.len() {
                    assert(s[i] == first[i]);
                } else if i == first.len() {
                    assert(s[i + 1] == rest[0]);
                } else {
                    let k = i - first.len() - 1;
                    assert(s[i] == rest[k]);
                    assert(s[i + 1] == rest[k + 1]);
                    assert(!double_colon_at(rest, k));
                }
            }
        }
    } else {
        let s = hex_join(g);
        assert forall|i: int| !double_colon_at(s, i) by {
            if 0 <= i && i + 2 <= s.len() {
                assert(s[i] != ':');
            }
        }
    }
}

/// A text without a dot is no IPv4 address.
pub proof fn lemma_ipv4_needs_dot(s: Seq<char>)
    requires
        free_of(s, '.'),
    ensures
        ipv4_spec(s) is None,
{
    lemma_has_char(s, '.');
}

/// Reading groups written with colons between them gives the groups back.
pub proof fn lemma_groups_round_trip(g: Seq<u16>, v4_last: bool)
    requires
        g.len() > 0,
    ensures
        groups_spec(hex_join(g), v4_last) == Some(g),
    decreases g.len(),
{
    let first = hex_text(g[0] as nat);
    lemma_hex_group_round_trip(g[0]);
    if g.len() == 1 {
        lemma_has_char(first, ':');
        lemma_ipv4_needs_dot(first);
        assert(seq![g[0]] =~= g);
    } else {
        let rest = g.drop_first();
        lemma_first_index_concat(first, ':', hex_join(rest));
        lemma_groups_round_trip(rest, v4_last);
        assert(seq![g[0]] + rest =~= g);
    }
}

/// Reading one group, a colon and an IPv4 address gives three groups.
pub proof fn lemma_groups_v4_tail(x: u16, o: Seq<u8>)
    requires
        o.len() == 4,
    ensures
        groups_spec(hex_text(x as nat) + seq![':'] + ipv4_text(o), true) == Some(
            seq![x, octet_pair(o[0], o[1]), octet_pair(o[2], o[3])],
        ),
{
    let first = hex_text(x as nat);
    let v4 = ipv4_text(o);
    lemma_hex_group_round_trip(x);
    lemma_ipv4_text_shape(o);
    lemma_ipv4_round_trip(o);
    lemma_first_index_concat(first, ':', v4);
    lemma_has_char(v4, ':');
    assert(groups_spec(v4, true) == Some(seq![octet_pair(o[0], o[1]), octet_pair(o[2], o[3])]));
    assert(seq![x] + seq![octet_pair(o[0], o[1]), octet_pair(o[2], o[3])] =~= seq![
        x,
        octet_pair(o[0], o[1]),
        octet_pair(o[2], o[3]),
    ]);
}

/// A run of zero groups lies inside the address and holds zeros only.
pub proof fn lemma_zero_run(g: Seq<u16>, i: int)
    requires
        0 <= i <= g.len(),
    ensures
        i + zero_run(g, i) <= g.len(),
        forall|k: int| i <= k < i + zero_run(g, i) ==> g[k] == 0,
    decreases g.len() - i,
{
    if i < g.len() && g[i] == 0 {
        lemma_zero_run(g, i + 1);
    }
}

/// The longest run of zero groups starts inside the address.
pub proof fn lemma_longest_zero_run(g: Seq<u16>, upto: int)
    requires
        0 <= upto <= g.len(),
    ensures
        0 <= longest_zero_run(g, upto),
        longest_zero_run(g, upto) <= g.len(),
    decreases upto,
{
    if upto > 0 {
        lemma_longest_zero_run(g, upto - 1);
    }
}

/// An index with no `::` between `from` and it, and with `::` at it unless
/// it is the length, is what `first_double_colon_from` gives.
pub proof fn lemma_first_double_colon_from_is(s: Seq<char>, from: int, i: int)
    requires
        0 <= from <= i <= s.len(),
        forall|j: int| from <= j < i ==> !double_colon_at(s, j),
        i < s.len() ==> double_colon_at(s, i),
    ensures
        first_double_colon_from(s, from) == i,
    decreases i - from,
{
    if from < i {
        lemma_first_double_colon_from_is(s, from + 1, i);
    }
}

/// An index where `::` stands with none before it is the first such index.
pub proof fn lemma_first_double_colon_is(s: Seq<char>, i: int)
    requires
        0 <= i <= s.len(),
        forall|j: int| 0 <= j < i ==> !double_colon_at(s, j),
        i < s.len() ==> double_colon_at(s, i),
    ensures
        first_double_colon(s) == i,
{
    lemma_first_double_colon_from_is(s, 0, i);
}

/// What `first_double_colon_from` gives: an index from `from` on, at which
/// `::` stands unless it is the length.
pub proof fn lemma_first_double_colon_from(s: Seq<char>, from: int)
    requires
        0 <= from <= s.len(),
    ensures
        from <= first_double_colon_from(s, from) <= s.len(),
        first_double_colon_from(s, from) < s.len() ==> double_colon_at(
            s,
            first_double_colon_from(s, from),
        ),
    decreases s.len() - from,
{
    if from < s.len() && !double_colon_at(s, from) {
        lemma_first_double_colon_from(s, from + 1);
    }
}

/// Groups written with colons between them, or nothing for no groups.
pub proof fn lemma_hex_join_addr(g: Seq<u16>)
    ensures
        addr_text(hex_join(g)),
        g.len() > 0 <==> hex_join(g).len() > 0,
{
    if g.len() > 0 {
        lemma_hex_join_shape(g);
    }
}

/// The text of a mapped IPv4 address is read as the address it was written
/// from.
pub proof fn lemma_ipv6_round_trip_mapped(g: Seq<u16>)
    requires
        g.len() == 8,
        is_v4_mapped(g),
    ensures
        ipv6_spec(ipv6_text(g)) == Some(g),
        addr_text(ipv6_text(g)),
        ipv6_text(g).len() > 0,
{
    let text = ipv6_text(g);
    let colons = seq![':', ':'];
    let o = mapped_octets(g);
    let mark = hex_text(0xffff);
    let v4 = ipv4_text(o);
    let tail = mark + seq![':'] + v4;
    lemma_hex_group_round_trip(0xffff);
    lemma_ipv4_text_shape(o);
    lemma_groups_v4_tail(0xffff, o);
    assert(text =~= colons + tail);
    assert(double_colon_at(text, 0));
    assert(first_double_colon(text) == 0);
    assert(text.skip(2) =~= tail);
    assert(octet_pair(o[0], o[1]) == g[6]);
    assert(octet_pair(o[2], o[3]) == g[7]);
    let t = seq![0xffffu16, g[6], g[7]];
    assert(groups_spec(text.skip(2), true) == Some(t));
    assert(Seq::<u16>::empty() + zero_groups(5) + t =~= g);
    assert(addr_text(text)) by {
        lemma_addr_concat(mark, seq![':']);
        lemma_addr_concat(mark + seq![':'], v4);
        lemma_addr_concat(colons, tail);
    }
}

/// Where `::` stands between two runs of groups, it is the first `::`.
pub proof fn lemma_double_colon_between(head: Seq<u16>, tail: Seq<u16>)
    ensures
        first_double_colon(hex_join(head) + seq![':', ':'] + hex_join(tail)) == hex_join(
            head,
        ).len(),
{
    let ht = hex_join(head);
    let text = ht + seq![':', ':'] + hex_join(tail);
    let z = ht.len() as int;
    assert(double_colon_at(text, z));
    if head.len() > 0 {
        lemma_hex_join_shape(head);
        assert forall|j: int| 0 <= j < z implies !double_colon_at(text, j) by {
            assert(text[j] == ht[j]);
            if j + 1 < z {
                assert(text[j + 1] == ht[j + 1]);
                assert(!double_colon_at(ht, j));
            }
        }
    }
    lemma_first_double_colon_is(text, z);
}

/// The text with a run of zero groups written `::` is read as the address
/// it was written from.
pub proof fn lemma_ipv6_round_trip_short(g: Seq<u16>, start: int, n: int)
    requires
        g.len() == 8,
        0 <= start,
        2 <= n,
        start + n <= 8,
        forall|k: int| start <= k < start + n ==> g[k] == 0,
    ensures
        ipv6_spec(hex_join(g.take(start)) + seq![':', ':'] + hex_join(g.skip(start + n)))
            == Some(g),
        addr_text(hex_join(g.take(start)) + seq![':', ':'] + hex_join(g.skip(start + n))),
{
    let colons = seq![':', ':'];
    let head = g.take(start);
    let tail = g.skip(start + n);
    let ht = hex_join(head);
    let tt = hex_join(tail);
    let text = ht + colons + tt;
    let z = ht.len() as int;
    lemma_hex_join_addr(head);
    lemma_hex_join_addr(tail);
    lemma_addr_concat(ht, colons);
    lemma_addr_concat(ht + colons, tt);
    lemma_double_colon_between(head, tail);
    assert(text.take(z) =~= ht);
    assert(text.skip(z + 2) =~= tt);
    if head.len() > 0 {
        lemma_groups_round_trip(head, false);
    }
    if tail.len() > 0 {
        lemma_groups_round_trip(tail, true);
    }
    let h = if z == 0 {
        Some(Seq::<u16>::empty())
    } else {
        groups_spec(text.take(z), false)
    };
    let t = if z + 2 == text.len() {
        Some(Seq::<u16>::empty())
    } else {
        groups_spec(text.skip(z + 2), true)
    };
    assert(h == Some(head)) by {
        if head.len() == 0 {
            assert(head =~= Seq::<u16>::empty());
        }
    }
    assert(t == Some(tail)) by {
        if tail.len() == 0 {
            assert(tail =~= Seq::<u16>::empty());
        }
    }
    assert(head + zero_groups(8 - head.len() - tail.len()) + tail =~= g);
}

/// Reading an IPv6 address in text gives the address back. The text is made
/// of digits, the letters `a` to `f`, colons and dots.
pub proof fn lemma_ipv6_round_trip(g: Seq<u16>)
    requires
        g.len() == 8,
    ensures
        ipv6_spec(ipv6_text(g)) == Some(g),
        addr_text(ipv6_text(g)),
        ipv6_text(g).len() > 0,
{
    if is_v4_mapped(g) {
        lemma_ipv6_round_trip_mapped(g);
    } else {
        let start = longest_zero_run(g, 8);
        let n = zero_run(g, start);
        lemma_longest_zero_run(g, 8);
        lemma_zero_run(g, start);
        if n > 1 {
            lemma_ipv6_round_trip_short(g, start, n as int);
        } else {
            let text = hex_join(g);
            lemma_hex_join_shape(g);
            lemma_groups_round_trip(g, true);
            lemma_first_double_colon_is(text, text.len() as int);
        }
    }
}

/// Reading an IPv4 socket address in text gives the address back.
pub proof fn lemma_socket_v4_round_trip(octets: Seq<u8>, port: u16)
    requires
        octets.len() == 4,
    ensures
        socket_v4_spec(ipv4_text(octets) + seq![':'] + decimal_text(port as nat)) == Some(
            SocketAddrView::V4 { octets, port },
        ),
{
    let v4 = ipv4_text(octets);
    let pt = decimal_text(port as nat);
    lemma_ipv4_text_shape(octets);
    lemma_ipv4_round_trip(octets);
    lemma_decimal_round_trip(port as u32, 65535);
    lemma_first_index_concat(v4, ':', pt);
}

/// What stands inside the brackets of an IPv6 socket address holds no
/// bracket, and is cut at the `%` into address and scope.
pub proof fn lemma_socket_v6_inner(segments: Seq<u16>, scope_id: u32)
    requires
        segments.len() == 8,
    ensures
        free_of(ipv6_text(segments) + scope_text(scope_id), ']'),
        ({
            let inner = ipv6_text(segments) + scope_text(scope_id);
            let pct = first_index(inner, '%');
            &&& scope_id != 0 ==> pct < inner.len() && inner.take(pct) == ipv6_text(segments)
                && decimal_spec(inner.skip(pct + 1), u32::MAX) == Some(scope_id)
            &&& scope_id == 0 ==> pct >= inner.len() && inner == ipv6_text(segments)
        }),
{
    let ip = ipv6_text(segments);
    let sc = scope_text(scope_id);
    let digits = decimal_text(scope_id as nat);
    let inner = ip + sc;
    lemma_ipv6_round_trip(segments);
    lemma_decimal_round_trip(scope_id, u32::MAX);
    lemma_decimal_text(scope_id as nat);
    lemma_addr_free_of(ip, ']');
    lemma_addr_free_of(ip, '%');
    lemma_digits_free(digits, ']');
    if scope_id != 0 {
        lemma_free_of_concat(seq!['%'], digits, ']');
        lemma_first_index_concat(ip, '%', digits);
        assert(inner =~= ip + seq!['%'] + digits);
    } else {
        assert(inner =~= ip);
        lemma_has_char(ip, '%');
    }
    lemma_free_of_concat(ip, sc, ']');
}

/// Reading an IPv6 socket address in text gives the address back.
pub proof fn lemma_socket_v6_round_trip(segments: Seq<u16>, scope_id: u32, port: u16)
    requires
        segments.len() == 8,
    ensures
        socket_spec(
            seq!['['] + ipv6_text(segments) + scope_text(scope_id) + seq![']', ':'] + decimal_text(
                port as nat,
            ),
        ) == Some(SocketAddrView::V6 { segments, scope_id, port }),
{
    let ip = ipv6_text(segments);
    let sc = scope_text(scope_id);
    let pt = decimal_text(port as nat);
    let inner = ip + sc;
    let text = seq!['['] + ip + sc + seq![']', ':'] + pt;
    let front = seq!['['] + inner;
    let back = seq![':'] + pt;
    lemma_socket_v6_inner(segments, scope_id);
    lemma_ipv6_round_trip(segments);
    lemma_decimal_round_trip(port as u32, 65535);
    lemma_free_of_concat(seq!['['], inner, ']');
    assert(text =~= front + seq![']'] + back);
    lemma_first_index_concat(front, ']', back);
    let close = first_index(text, ']');
    assert(close == front.len());
    assert(text.subrange(1, close) =~= inner);
    assert(text.skip(close + 1) == back);
    assert(back.skip(1) =~= pt);
    assert(back[0] == ':');
    assert(text[0] == '[');
    assert(socket_v6_spec(text) == Some(SocketAddrView::V6 { segments, scope_id, port }));
    assert(socket_v4_spec(text) is None) by {
        lemma_first_index(text, ':');
        if socket_v4_spec(text) is Some {
            let k = first_index(text, ':');
            lemma_ipv4_spec_starts_with_digit(text.take(k));
            assert(text.take(k)[0] == text[0]);
        }
    }
}

/// Reading a socket address in text gives the address back.
pub proof fn lemma_socket_round_trip(a: SocketAddrView)
    requires
        a.wf(),
    ensures
        socket_spec(socket_text(a)) == Some(a),
{
    match a {
        SocketAddrView::V4 { octets, port } => {
            lemma_socket_v4_round_trip(octets, port);
        },
        SocketAddrView::V6 { segments, scope_id, port } => {
            lemma_socket_v6_round_trip(segments, scope_id, port);
        },
    }
}

/// A socket address in text starts with a digit or a bracket, ends with a
/// digit, and holds a colon and no slash.
pub proof fn lemma_socket_text_shape(a: SocketAddrView)
    requires
        a.wf(),
    ensures
        socket_text(a).len() > 0,
        is_digit(socket_text(a)[0]) || socket_text(a)[0] == '[',
        is_digit(socket_text(a).last()),
        free_of(socket_text(a), '/'),
        has_char(socket_text(a), ':'),
{
    let text = socket_text(a);
    match a {
        SocketAddrView::V4 { octets, port } => {
            let v4 = ipv4_text(octets);
            let pt = decimal_text(port as nat);
            lemma_ipv4_text_shape(octets);
            lemma_decimal_text(port as nat);
            lemma_addr_free_of(v4, '/');
            lemma_digits_free(pt, '/');
            lemma_free_of_concat(v4, seq![':'], '/');
            lemma_free_of_concat(v4 + seq![':'], pt, '/');
            assert(text[0] == v4[0]);
            assert(text.last() == pt.last());
            assert(text[v4.len() as int] == ':');
            lemma_has_char(text, ':');
        },
        SocketAddrView::V6 { segments, scope_id, port } => {
            let ip = ipv6_text(segments);
            let sc = scope_text(scope_id);
            let pt = decimal_text(port as nat);
            lemma_ipv6_round_trip(segments);
            lemma_decimal_text(port as nat);
            lemma_decimal_text(scope_id as nat);
            lemma_addr_free_of(ip, '/');
            lemma_digits_free(pt, '/');
            lemma_digits_free(decimal_text(scope_id as nat), '/');
            if scope_id != 0 {
                lemma_free_of_concat(seq!['%'], decimal_text(scope_id as nat), '/');
            }
            lemma_free_of_concat(seq!['['], ip, '/');
            lemma_free_of_concat(seq!['['] + ip, sc, '/');
            lemma_free_of_concat(seq!['['] + ip + sc, seq![']', ':'], '/');
            lemma_free_of_concat(seq!['['] + ip + sc + seq![']', ':'], pt, '/');
            assert(text[0] == '[');
            assert(text.last() == pt.last());
            let at = 1 + ip.len() as int + sc.len() as int + 1;
            assert(text[at] == ':');
            lemma_has_char(text, ':');
        },
    }
}

/// A text that is read as groups holds hexadecimal digits, colons and dots
/// only.
pub proof fn lemma_groups_spec_free(s: Seq<char>, v4_last: bool, c: char)
    requires
        groups_spec(s, v4_last) is Some,
        !is_hex_digit(c),
        c != ':',
        c != '.',
    ensures
        free_of(s, c),
    decreases s.len(),
{
    let k = first_index(s, ':');
    lemma_first_index(s, ':');
    if k >= s.len() {
        if v4_last && ipv4_spec(s) is Some {
            lemma_ipv4_spec_free(s, c);
        } else {
            assert(hex_group_spec(s) is Some);
            assert forall|i: int| 0 <= i < s.len() implies s[i] != c by {
                assert(is_hex_digit(s[i]));
            }
        }
    } else {
        let first = s.take(k);
        assert(hex_group_spec(first) is Some);
        assert forall|i: int| 0 <= i < first.len() implies first[i] != c by {
            assert(is_hex_digit(first[i]));
        }
        lemma_groups_spec_free(s.skip(k + 1), v4_last, c);
        lemma_free_of_cut(s, k, c);
    }
}

/// A text that is read as an IPv6 address holds hexadecimal digits, colons
/// and dots only, and the address has eight groups.
pub proof fn lemma_ipv6_spec_shape(s: Seq<char>, c: char)
    requires
        ipv6_spec(s) is Some,
        !is_hex_digit(c),
        c != ':',
        c != '.',
    ensures
        free_of(s, c),
        ipv6_spec(s)->0.len() == 8,
{
    let z = first_double_colon(s);
    lemma_first_double_colon_from(s, 0);
    if z >= s.len() {
        lemma_groups_spec_free(s, true, c);
    } else {
        if z > 0 {
            lemma_groups_spec_free(s.take(z), false, c);
        }
        if z + 2 < s.len() {
            lemma_groups_spec_free(s.skip(z + 2), true, c);
        }
        assert forall|j: int| 0 <= j < s.len() implies s[j] != c by {
            if j < z {
                assert(s.take(z)[j] == s[j]);
            } else if j >= z + 2 {
                assert(s.skip(z + 2)[j - z - 2] == s[j]);
            }
        }
    }
}

/// A text that is read as a socket address starts with a digit or a
/// bracket, ends with a digit and holds no slash; the address has four
/// octets or eight groups.
pub proof fn lemma_socket_spec_shape(s: Seq<char>)
    requires
        socket_spec(s) is Some,
    ensures
        s.len() > 0,
        is_digit(s[0]) || s[0] == '[',
        is_digit(s.last()),
        free_of(s, '/'),
        socket_spec(s)->0.wf(),
{
    if socket_v4_spec(s) is Some {
        let k = first_index(s, ':');
        lemma_first_index(s, ':');
        let ip = s.take(k);
        let pt = s.skip(k + 1);
        lemma_ipv4_spec_starts_with_digit(ip);
        lemma_ipv4_spec_free(ip, '/');
        assert(decimal_spec(pt, 65535) is Some);
        lemma_digits_free(pt, '/');
        lemma_free_of_cut(s, k, '/');
        assert(s[0] == ip[0]);
        assert(s.last() == pt.last());
        assert(is_digit(pt[pt.len() - 1]));
    } else {
        assert(socket_v6_spec(s) is Some);
        let close = first_index(s, ']');
        lemma_first_index(s, ']');
        let inner = s.subrange(1, close);
        let after = s.skip(close + 1);
        let pct = first_index(inner, '%');
        lemma_first_index(inner, '%');
        let pt = after.skip(1);
        assert(decimal_spec(pt, 65535) is Some);
        assert(s.last() == pt.last());
        assert(is_digit(pt[pt.len() - 1]));
        if pct < inner.len() {
            lemma_ipv6_spec_shape(inner.take(pct), '/');
            assert(decimal_spec(inner.skip(pct + 1), u32::MAX) is Some);
            lemma_digits_free(inner.skip(pct + 1), '/');
            lemma_free_of_cut(inner, pct, '/');
        } else {
            lemma_ipv6_spec_shape(inner, '/');
        }
        assert forall|j: int| 0 <= j < s.len() implies s[j] != '/' by {
            if 1 <= j < close {
                assert(inner[j - 1] == s[j]);
            } else if j > close + 1 {
                assert(pt[j - close - 2] == s[j]);
                assert(is_digit(pt[j - close - 2]));
            } else if j == close + 1 {
                assert(after[0] == s[j]);
            }
        }
    }
}

} // verus!
