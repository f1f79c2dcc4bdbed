//! Decimal and hexadecimal numerals: what they denote, how a number is
//! written, and that reading what was written gives the number back.

use vstd::prelude::*;
use vstd::string::StringExecFns;

verus! {

/// Whether `c` is a decimal digit.
pub open spec fn is_digit(c: char) -> bool {
    '0' <= c <= '9'
}

/// The value of a decimal digit.
pub open spec fn digit_value(c: char) -> nat {
    (c as u32 - 0x30) as nat
}

/// Whether `s` holds decimal digits and nothing else.
pub open spec fn all_digits(s: Seq<char>) -> bool {
    forall|i: int| 0 <= i < s.len() ==> is_digit(#[trigger] s[i])
}

/// The number that the decimal digits `s` denote; leading zeros count for
/// nothing.
pub open spec fn decimal_value(s: Seq<char>) -> nat
    decreases s.len(),
{
    if s.len() == 0 {
        0
    } else {
        decimal_value(s.drop_last()) * 10 + digit_value(s.last())
    }
}

/// Reads `s` as a decimal numeral of at most `max`: one or more digits and
/// nothing else.
pub open spec fn decimal_spec(s: Seq<char>, max: u32) -> Option<u32> {
    if s.len() > 0 && all_digits(s) && decimal_value(s) <= max {
        Some(decimal_value(s) as u32)
    } else {
        None
    }
}

/// The decimal digit of value `d`.
pub open spec fn digit_char(d: nat) -> char {
    if d == 0 {
        '0'
    } else if d == 1 {
        '1'
    } else if d == 2 {
        '2'
    } else if d == 3 {
        '3'
    } else if d == 4 {
        '4'
    } else if d == 5 {
        '5'
    } else if d == 6 {
        '6'
    } else if d == 7 {
        '7'
    } else if d == 8 {
        '8'
    } else {
        '9'
    }
}

/// `n` in decimal, without leading zeros.
pub open spec fn decimal_text(n: nat) -> Seq<char>
    decreases n,
{
    if n < 10 {
        seq![digit_char(n)]
    } else {
        decimal_text(n / 10).push(digit_char(n % 10))
    }
}

/// Whether `c` is a hexadecimal digit of either case.
pub open spec fn is_hex_digit(c: char) -> bool {
    is_digit(c) || 'a' <= c <= 'f' || 'A' <= c <= 'F'
}

/// The value of a hexadecimal digit of either case.
pub open spec fn hex_digit_value(c: char) -> nat {
    if is_digit(c) {
        (c as u32 - 0x30) as nat
    } else if 'a' <= c <= 'f' {
        (c as u32 - 0x61 + 10) as nat
    } else {
        (c as u32 - 0x41 + 10) as nat
    }
}

/// Whether `s` holds hexadecimal digits and nothing else.
pub open spec fn all_hex_digits(s: Seq<char>) -> bool {
    forall|i: int| 0 <= i < s.len() ==> is_hex_digit(#[trigger] s[i])
}

/// The number that the hexadecimal digits `s` denote.
pub open spec fn hex_value(s: Seq<char>) -> nat
    decreases s.len(),
{
    if s.len() == 0 {
        0
    } else {
        hex_value(s.drop_last()) * 16 + hex_digit_value(s.last())
    }
}

/// Reads `s` as a group of one to four hexadecimal digits.
pub open spec fn hex_group_spec(s: Seq<char>) -> Option<u16> {
    if 1 <= s.len() <= 4 && all_hex_digits(s) {
        Some(hex_value(s) as u16)
    } else {
        None
    }
}

/// The lower-case hexadecimal digit of value `d`.
pub open spec fn hex_char(d: nat) -> char {
    if d < 10 {
        digit_char(d)
    } else if d == 10 {
        'a'
    } else if d == 11 {
        'b'
    } else if d == 12 {
        'c'
    } else if d == 13 {
        'd'
    } else if d == 14 {
        'e'
    } else {
        'f'
    }
}

/// `n` in lower-case hexadecimal, without leading zeros.
pub open spec fn hex_text(n: nat) -> Seq<char>
    decreases n,
{
    if n < 16 {
        seq![hex_char(n)]
    } else {
        hex_text(n / 16).push(hex_char(n % 16))
    }
}

/// The digits at the front of a numeral denote no more than the whole.
pub proof fn lemma_decimal_value_take(s: Seq<char>, i: int)
    requires
        0 <= i <= s.len(),
    ensures
        decimal_value(s.take(i)) <= decimal_value(s),
    decreases s.len() - i,
{
    if i == s.len() {
        assert(s.take(i) =~= s);
    } else {
        assert(s.drop_last().take(i) =~= s.take(i));
        lemma_decimal_value_take(s.drop_last(), i);
    }
}

/// Reading `decimal_text(n)` gives `n`; the text is made of digits and has no
/// leading zero.
pub proof fn lemma_decimal_text(n: nat)
    ensures
        decimal_text(n).len() >= 1,
        all_digits(decimal_text(n)),
        decimal_value(decimal_text(n)) == n,
        n > 0 ==> decimal_text(n)[0] != '0',
        n < 10 ==> decimal_text(n).len() == 1,
        n < 100 ==> decimal_text(n).len() <= 2,
        n < 1000 ==> decimal_text(n).len() <= 3,
    decreases n,
{
    let t = decimal_text(n);
    if n < 10 {
        assert(t.drop_last() =~= Seq::<char>::empty());
        assert(decimal_value(t.drop_last()) == 0);
    } else {
        lemma_decimal_text(n / 10);
        assert(t.drop_last() =~= decimal_text(n / 10));
        assert(t[0] == decimal_text(n / 10)[0]);
    }
}

/// Reading `decimal_text(n)` as a numeral of at most `max` gives `n`, where
/// `n` is at most `max`.
pub proof fn lemma_decimal_round_trip(n: u32, max: u32)
    requires
        n <= max,
    ensures
        decimal_spec(decimal_text(n as nat), max) == Some(n),
{
    lemma_decimal_text(n as nat);
}

/// A group of at most four hexadecimal digits denotes less than 65536.
pub proof fn lemma_hex_value_bound(s: Seq<char>)
    requires
        all_hex_digits(s),
    ensures
        s.len() == 0 ==> hex_value(s) == 0,
        s.len() == 1 ==> hex_value(s) < 16,
        s.len() == 2 ==> hex_value(s) < 256,
        s.len() == 3 ==> hex_value(s) < 4096,
        s.len() == 4 ==> hex_value(s) < 65536,
    decreases s.len(),
{
    if s.len() > 0 {
        assert(is_hex_digit(s[s.len() - 1]));
        assert(all_hex_digits(s.drop_last())) by {
            assert forall|i: int| 0 <= i < s.drop_last().len() implies is_hex_digit(
                #[trigger] s.drop_last()[i],
            ) by {
                assert(s.drop_last()[i] == s[i]);
            }
        }
        lemma_hex_value_bound(s.drop_last());
    }
}

/// Reading `hex_text(n)` gives `n`; the text is made of digits and the
/// letters `a` to `f`.
pub proof fn lemma_hex_text(n: nat)
    ensures
        hex_text(n).len() >= 1,
        forall|i: int|
            0 <= i < hex_text(n).len() ==> is_digit(#[trigger] hex_text(n)[i]) || 'a'
                <= hex_text(n)[i] <= 'f',
        all_hex_digits(hex_text(n)),
        hex_value(hex_text(n)) == n,
        n < 16 ==> hex_text(n).len() == 1,
        n < 256 ==> hex_text(n).len() <= 2,
        n < 4096 ==> hex_text(n).len() <= 3,
        n < 65536 ==> hex_text(n).len() <= 4,
    decreases n,
{
    let t = hex_text(n);
    if n < 16 {
        assert(t.drop_last() =~= Seq::<char>::empty());
        assert(hex_value(t.drop_last()) == 0);
    } else {
        lemma_hex_text(n / 16);
        assert(t.drop_last() =~= hex_text(n / 16));
    }
}

/// Reads `v[lo..hi]` as a decimal numeral of at most `max`.
pub fn parse_decimal(v: &Vec<char>, lo: usize, hi: usize, max: u32) -> (r: Option<u32>)
    requires
        lo <= hi <= v.len(),
    ensures
        r == decimal_spec(v@.subrange(lo as int, hi as int), max),
{
    if lo == hi {
        return None;
    }
    let ghost part = v@.subrange(lo as int, hi as int);
    let mut acc: u32 = 0;
    let mut i: usize = lo;
    while i < hi
        invariant
            lo <= i <= hi <= v.len(),
            part == v@.subrange(lo as int, hi as int),
            all_digits(part.take(i - lo)),
            acc == decimal_value(part.take(i - lo)),
            acc <= max,
        decreases hi - i,
    {
        let c = v[i];
        if !('0' <= c && c <= '9') {
            assert(!is_digit(part[i - lo]));
            return None;
        }
        let d: u64 = (c as u32 - 0x30) as u64;
        let next: u64 = (acc as u64) * 10 + d;
        proof {
            let before = part.take(i - lo);
            let after = part.take(i + 1 - lo);
            assert(after.drop_last() =~= before);
            assert(after.last() == c);
            assert(decimal_value(after) == next);
            assert forall|k: int| 0 <= k < after.len() implies is_digit(#[trigger] after[k]) by {
                if k < before.len() {
                    assert(after[k] == before[k]);
                }
            }
            lemma_decimal_value_take(part, i + 1 - lo);
        }
        if next > max as u64 {
            return None;
        }
        acc = next as u32;
        i += 1;
    }
    assert(part.take(hi - lo) =~= part);
    Some(acc)
}

/// The value of the hexadecimal digit `c`, if it is one.
pub fn hex_digit(c: char) -> (r: Option<u32>)
    ensures
        r is Some <==> is_hex_digit(c),
        r matches Some(d) ==> d == hex_digit_value(c) && d < 16,
{
    if '0' <= c && c <= '9' {
        Some(c as u32 - 0x30)
    } else if 'a' <= c && c <= 'f' {
        Some(c as u32 - 0x61 + 10)
    } else if 'A' <= c && c <= 'F' {
        Some(c as u32 - 0x41 + 10)
    } else {
        None
    }
}

/// Reads `v[lo..hi]` as a group of one to four hexadecimal digits.
pub fn parse_hex_group(v: &Vec<char>, lo: usize, hi: usize) -> (r: Option<u16>)
    requires
        lo <= hi <= v.len(),
    ensures
        r == hex_group_spec(v@.subrange(lo as int, hi as int)),
{
    if lo == hi || hi - lo > 4 {
        return None;
    }
    let ghost part = v@.subrange(lo as int, hi as int);
    let mut acc: u32 = 0;
    let mut i: usize = lo;
    while i < hi
        invariant
            lo <= i <= hi <= v.len(),
            hi - lo <= 4,
            part == v@.subrange(lo as int, hi as int),
            all_hex_digits(part.take(i - lo)),
            acc == hex_value(part.take(i - lo)),
            acc < 65536,
        decreases hi - i,
    {
        let c = v[i];
        match hex_digit(c) {
            None => {
                assert(!is_hex_digit(part[i - lo]));
                return None;
            },
            Some(d) => {
                proof {
                    let before = part.take(i - lo);
                    let after = part.take(i + 1 - lo);
                    assert(after.drop_last() =~= before);
                    assert(after.last() == c);
                    assert forall|k: int| 0 <= k < after.len() implies is_hex_digit(
                        #[trigger] after[k],
                    ) by {
                        if k < before.len() {
                            assert(after[k] == before[k]);
                        }
                    }
                    lemma_hex_value_bound(before);
                    lemma_hex_value_bound(after);
                }
                acc = acc * 16 + d;
                i += 1;
            },
        }
    }
    assert(part.take(hi - lo) =~= part);
    Some(acc as u16)
}

/// The decimal or hexadecimal digit of value `d`, as a string of one
/// character.
pub fn digit_str(d: u32) -> (r: &'static str)
    requires
        d < 16,
    ensures
        r@ == seq![hex_char(d as nat)],
{
    proof {
        reveal_strlit("0");
        reveal_strlit("1");
        reveal_strlit("2");
        reveal_strlit("3");
        reveal_strlit("4");
        reveal_strlit("5");
        reveal_strlit("6");
        reveal_strlit("7");
        reveal_strlit("8");
        reveal_strlit("9");
        reveal_strlit("a");
        reveal_strlit("b");
        reveal_strlit("c");
        reveal_strlit("d");
        reveal_strlit("e");
        reveal_strlit("f");
    }
    let r = if d == 0 {
        "0"
    } else if d == 1 {
        "1"
    } else if d == 2 {
        "2"
    } else if d == 3 {
        "3"
    } else if d == 4 {
        "4"
    } else if d == 5 {
        "5"
    } else if d == 6 {
        "6"
    } else if d == 7 {
        "7"
    } else if d == 8 {
        "8"
    } else if d == 9 {
        "9"
    } else if d == 10 {
        "a"
    } else if d == 11 {
        "b"
    } else if d == 12 {
        "c"
    } else if d == 13 {
        "d"
    } else if d == 14 {
        "e"
    } else {
        "f"
    };
    assert(r@ =~= seq![hex_char(d as nat)]);
    r
}

/// Writes `n` in decimal, without leading zeros.
pub fn decimal_string(n: u32) -> (r: String)
    ensures
        r@ == decimal_text(n as nat),
    decreases n,
{
    if n < 10 {
        String::from_str(digit_str(n))
    } else {
        let mut r = decimal_string(n / 10);
        r.append(digit_str(n % 10));
        assert(r@ =~= decimal_text(n as nat));
        r
    }
}

/// Writes `n` in lower-case hexadecimal, without leading zeros.
pub fn hex_string(n: u16) -> (r: String)
    ensures
        r@ == hex_text(n as nat),
    decreases n,
{
    if n < 16 {
        String::from_str(digit_str(n as u32))
    } else {
        let mut r = hex_string(n / 16);
        r.append(digit_str((n % 16) as u32));
        assert(r@ =~= hex_text(n as nat));
        r
    }
}

} // verus!
