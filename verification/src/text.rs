//! Searching and trimming of character sequences.
//!
//! Strings are handled as sequences of `char`. Positions are indices into
//! such a sequence; a search that finds nothing returns the length of the
//! sequence (or `-1` when it searched from the end).

use vstd::prelude::*;
use vstd::string::StrSliceExecFns;

verus! {

/// Whether `c` carries the Unicode property `White_Space`.
pub open spec fn is_white_space(c: char) -> bool {
    let n = c as u32;
    ||| 0x09 <= n <= 0x0d
    ||| n == 0x20
    ||| n == 0x85
    ||| n == 0xa0
    ||| n == 0x1680
    ||| 0x2000 <= n <= 0x200a
    ||| n == 0x2028
    ||| n == 0x2029
    ||| n == 0x202f
    ||| n == 0x205f
    ||| n == 0x3000
}

/// Index of the first `c` in `s` at or after `from`; `s.len()` if there is none.
pub open spec fn first_index_from(s: Seq<char>, c: char, from: int) -> int
    decreases s.len() - from,
{
    if from < 0 || from >= s.len() {
        s.len() as int
    } else if s[from] == c {
        from
    } else {
        first_index_from(s, c, from + 1)
    }
}

/// Index of the first `c` in `s`; `s.len()` if there is none.
pub open spec fn first_index(s: Seq<char>, c: char) -> int {
    first_index_from(s, c, 0)
}

/// Whether `c` occurs in `s`.
pub open spec fn has_char(s: Seq<char>, c: char) -> bool {
    first_index(s, c) < s.len()
}

/// Index of the last `c` among the first `upto` items of `s`; `-1` if there is none.
pub open spec fn last_index_upto(s: Seq<char>, c: char, upto: int) -> int
    decreases upto,
{
    if upto <= 0 || upto > s.len() {
        -1
    } else if s[upto - 1] == c {
        upto - 1
    } else {
        last_index_upto(s, c, upto - 1)
    }
}

/// Index of the last `c` in `s`; `-1` if there is none.
pub open spec fn last_index(s: Seq<char>, c: char) -> int {
    last_index_upto(s, c, s.len() as int)
}

/// Whether the three characters `://` stand at index `i` of `s`.
pub open spec fn scheme_mark_at(s: Seq<char>, i: int) -> bool {
    &&& 0 <= i
    &&& i + 3 <= s.len()
    &&& s[i] == ':'
    &&& s[i + 1] == '/'
    &&& s[i + 2] == '/'
}

/// Index of the first `://` in `s` at or after `from`; `s.len()` if there is none.
pub open spec fn first_scheme_mark_from(s: Seq<char>, from: int) -> int
    decreases s.len() - from,
{
    if from < 0 || from >= s.len() {
        s.len() as int
    } else if scheme_mark_at(s, from) {
        from
    } else {
        first_scheme_mark_from(s, from + 1)
    }
}

/// Index of the first `://` in `s`; `s.len()` if there is none.
pub open spec fn first_scheme_mark(s: Seq<char>) -> int {
    first_scheme_mark_from(s, 0)
}

/// Index of the first character at or after `from` that is no white space;
/// `s.len()` if there is none.
pub open spec fn first_solid_from(s: Seq<char>, from: int) -> int
    decreases s.len() - from,
{
    if from < 0 || from >= s.len() {
        s.len() as int
    } else if !is_white_space(s[from]) {
        from
    } else {
        first_solid_from(s, from + 1)
    }
}

/// One more than the index of the last character before `upto` that is no
/// white space; `0` if there is none.
pub open spec fn solid_end_upto(s: Seq<char>, upto: int) -> int
    decreases upto,
{
    if upto <= 0 || upto > s.len() {
        0
    } else if !is_white_space(s[upto - 1]) {
        upto
    } else {
        solid_end_upto(s, upto - 1)
    }
}

/// Where the trimmed part of `s` starts.
pub open spec fn trim_start(s: Seq<char>) -> int {
    first_solid_from(s, 0)
}

/// Where the trimmed part of `s` ends. Never before `trim_start(s)`.
pub open spec fn trim_end(s: Seq<char>) -> int {
    if trim_start(s) >= s.len() {
        s.len() as int
    } else {
        solid_end_upto(s, s.len() as int)
    }
}

/// `s` without its leading and trailing white space.
pub open spec fn trim(s: Seq<char>) -> Seq<char> {
    s.subrange(trim_start(s), trim_end(s))
}

/// What `first_index_from` gives: no `c` stands between `from` and the
/// index, and `c` stands at the index unless it is the length.
pub proof fn lemma_first_index_from(s: Seq<char>, c: char, from: int)
    requires
        0 <= from <= s.len(),
    ensures
        from <= first_index_from(s, c, from) <= s.len(),
        forall|j: int| from <= j < first_index_from(s, c, from) ==> s[j] != c,
        first_index_from(s, c, from) < s.len() ==> s[first_index_from(s, c, from)] == c,
    decreases s.len() - from,
{
    if from < s.len() && s[from] != c {
        lemma_first_index_from(s, c, from + 1);
    }
}

/// What `first_index` returns: the least index that holds `c`, or the length.
pub proof fn lemma_first_index(s: Seq<char>, c: char)
    ensures
        0 <= first_index(s, c) <= s.len(),
        forall|j: int| 0 <= j < first_index(s, c) ==> s[j] != c,
        first_index(s, c) < s.len() ==> s[first_index(s, c)] == c,
{
    lemma_first_index_from(s, c, 0);
}

/// An index with no `c` between `from` and it, and with `c` at it unless it
/// is the length, is what `first_index_from` gives.
pub proof fn lemma_first_index_from_is(s: Seq<char>, c: char, from: int, i: int)
    requires
        0 <= from <= i <= s.len(),
        forall|j: int| from <= j < i ==> s[j] != c,
        i < s.len() ==> s[i] == c,
    ensures
        first_index_from(s, c, from) == i,
    decreases i - from,
{
    if from < i {
        lemma_first_index_from_is(s, c, from + 1, i);
    }
}

/// An index that holds `c` with no `c` before it is the first index.
pub proof fn lemma_first_index_is(s: Seq<char>, c: char, i: int)
    requires
        0 <= i <= s.len(),
        forall|j: int| 0 <= j < i ==> s[j] != c,
        i < s.len() ==> s[i] == c,
    ensures
        first_index(s, c) == i,
{
    lemma_first_index_from_is(s, c, 0, i);
}

/// What `last_index_upto` gives: no `c` stands between the index and
/// `upto`, and `c` stands at the index unless it is `-1`.
pub proof fn lemma_last_index_upto(s: Seq<char>, c: char, upto: int)
    requires
        0 <= upto <= s.len(),
    ensures
        -1 <= last_index_upto(s, c, upto) < upto,
        forall|j: int| last_index_upto(s, c, upto) < j < upto ==> s[j] != c,
        last_index_upto(s, c, upto) >= 0 ==> s[last_index_upto(s, c, upto)] == c,
    decreases upto,
{
    if upto > 0 && s[upto - 1] != c {
        lemma_last_index_upto(s, c, upto - 1);
    }
}

/// What `last_index` returns: the greatest index that holds `c`, or `-1`.
pub proof fn lemma_last_index(s: Seq<char>, c: char)
    ensures
        -1 <= last_index(s, c) < s.len(),
        forall|j: int| last_index(s, c) < j < s.len() ==> s[j] != c,
        last_index(s, c) >= 0 ==> s[last_index(s, c)] == c,
{
    lemma_last_index_upto(s, c, s.len() as int);
}

/// An index with no `c` between it and `upto`, and with `c` at it unless it
/// is `-1`, is what `last_index_upto` gives.
pub proof fn lemma_last_index_upto_is(s: Seq<char>, c: char, upto: int, i: int)
    requires
        -1 <= i < upto <= s.len(),
        forall|j: int| i < j < upto ==> s[j] != c,
        i >= 0 ==> s[i] == c,
    ensures
        last_index_upto(s, c, upto) == i,
    decreases upto - i,
{
    if i < upto - 1 {
        lemma_last_index_upto_is(s, c, upto - 1, i);
    }
}

/// An index that holds `c` with no `c` after it is the last index.
pub proof fn lemma_last_index_is(s: Seq<char>, c: char, i: int)
    requires
        -1 <= i < s.len(),
        forall|j: int| i < j < s.len() ==> s[j] != c,
        i >= 0 ==> s[i] == c,
    ensures
        last_index(s, c) == i,
{
    if s.len() > 0 {
        lemma_last_index_upto_is(s, c, s.len() as int, i);
    }
}

/// What `first_scheme_mark_from` gives: no `://` stands between `from` and
/// the index, and `://` stands at the index unless it is the length.
pub proof fn lemma_first_scheme_mark_from(s: Seq<char>, from: int)
    requires
        0 <= from <= s.len(),
    ensures
        from <= first_scheme_mark_from(s, from) <= s.len(),
        forall|j: int| from <= j < first_scheme_mark_from(s, from) ==> !scheme_mark_at(s, j),
        first_scheme_mark_from(s, from) < s.len() ==> scheme_mark_at(
            s,
            first_scheme_mark_from(s, from),
        ),
    decreases s.len() - from,
{
    if from < s.len() && !scheme_mark_at(s, from) {
        lemma_first_scheme_mark_from(s, from + 1);
    }
}

/// What `first_scheme_mark` returns: the least index where `://` stands, or
/// the length.
pub proof fn lemma_first_scheme_mark(s: Seq<char>)
    ensures
        0 <= first_scheme_mark(s) <= s.len(),
        forall|j: int| 0 <= j < first_scheme_mark(s) ==> !scheme_mark_at(s, j),
        first_scheme_mark(s) < s.len() ==> scheme_mark_at(s, first_scheme_mark(s)),
{
    lemma_first_scheme_mark_from(s, 0);
}

/// An index with no `://` between `from` and it, and with `://` at it
/// unless it is the length, is what `first_scheme_mark_from` gives.
pub proof fn lemma_first_scheme_mark_from_is(s: Seq<char>, from: int, i: int)
    requires
        0 <= from <= i <= s.len(),
        forall|j: int| from <= j < i ==> !scheme_mark_at(s, j),
        i < s.len() ==> scheme_mark_at(s, i),
    ensures
        first_scheme_mark_from(s, from) == i,
    decreases i - from,
{
    if from < i {
        lemma_first_scheme_mark_from_is(s, from + 1, i);
    }
}

/// An index where `://` stands with none before it is the first such index.
pub proof fn lemma_first_scheme_mark_is(s: Seq<char>, i: int)
    requires
        0 <= i <= s.len(),
        forall|j: int| 0 <= j < i ==> !scheme_mark_at(s, j),
        i < s.len() ==> scheme_mark_at(s, i),
    ensures
        first_scheme_mark(s) == i,
{
    lemma_first_scheme_mark_from_is(s, 0, i);
}

/// What `first_solid_from` gives: white space stands between `from` and
/// the index, and none at the index unless it is the length.
pub proof fn lemma_first_solid_from(s: Seq<char>, from: int)
    requires
        0 <= from <= s.len(),
    ensures
        from <= first_solid_from(s, from) <= s.len(),
        forall|j: int| from <= j < first_solid_from(s, from) ==> is_white_space(s[j]),
        first_solid_from(s, from) < s.len() ==> !is_white_space(s[first_solid_from(s, from)]),
    decreases s.len() - from,
{
    if from < s.len() && is_white_space(s[from]) {
        lemma_first_solid_from(s, from + 1);
    }
}

/// What `solid_end_upto` gives: white space stands between the index and
/// `upto`, and none before the index unless it is 0.
pub proof fn lemma_solid_end_upto(s: Seq<char>, upto: int)
    requires
        0 <= upto <= s.len(),
    ensures
        0 <= solid_end_upto(s, upto) <= upto,
        forall|j: int| solid_end_upto(s, upto) <= j < upto ==> is_white_space(s[j]),
        solid_end_upto(s, upto) > 0 ==> !is_white_space(s[solid_end_upto(s, upto) - 1]),
    decreases upto,
{
    if upto > 0 && is_white_space(s[upto - 1]) {
        lemma_solid_end_upto(s, upto - 1);
    }
}

/// The trimmed part lies inside `s`; what is cut off is white space; what is
/// left neither starts nor ends with white space.
pub proof fn lemma_trim(s: Seq<char>)
    ensures
        0 <= trim_start(s) <= trim_end(s) <= s.len(),
        forall|j: int| 0 <= j < trim_start(s) ==> is_white_space(s[j]),
        forall|j: int| trim_end(s) <= j < s.len() ==> is_white_space(s[j]),
        trim(s).len() == trim_end(s) - trim_start(s),
        trim(s).len() > 0 ==> !is_white_space(trim(s).first()) && !is_white_space(trim(s).last()),
{
    lemma_first_solid_from(s, 0);
    lemma_solid_end_upto(s, s.len() as int);
    if trim_start(s) < s.len() {
        let a = trim_start(s);
        let b = solid_end_upto(s, s.len() as int);
        if b <= a {
            assert(is_white_space(s[a]));
        }
    }
}

/// A sequence that neither starts nor ends with white space is its own
/// trimmed part.
pub proof fn lemma_trim_solid(s: Seq<char>)
    requires
        s.len() > 0,
        !is_white_space(s.first()),
        !is_white_space(s.last()),
    ensures
        trim(s) == s,
{
    assert(trim_start(s) == 0);
    assert(trim_end(s) == s.len());
    assert(s.subrange(0, s.len() as int) =~= s);
}

/// Whether `c` occurs nowhere in `s`.
pub open spec fn free_of(s: Seq<char>, c: char) -> bool {
    forall|i: int| 0 <= i < s.len() ==> s[i] != c
}

/// `c` occurs in `s` exactly if `s` is not free of it.
pub proof fn lemma_has_char(s: Seq<char>, c: char)
    ensures
        has_char(s, c) <==> !free_of(s, c),
        free_of(s, c) ==> first_index(s, c) == s.len() && last_index(s, c) == -1,
{
    lemma_first_index(s, c);
    if free_of(s, c) {
        lemma_last_index_is(s, c, -1);
    }
}

/// A sequence is free of `c` exactly if its two parts are.
pub proof fn lemma_free_of_concat(a: Seq<char>, b: Seq<char>, c: char)
    ensures
        free_of(a + b, c) <==> free_of(a, c) && free_of(b, c),
{
    let s = a + b;
    if free_of(a, c) && free_of(b, c) {
        assert forall|i: int| 0 <= i < s.len() implies s[i] != c by {
            if i < a.len() {
                assert(s[i] == a[i]);
            } else {
                assert(s[i] == b[i - a.len()]);
            }
        }
    }
    if free_of(s, c) {
        assert forall|i: int| 0 <= i < a.len() implies a[i] != c by {
            assert(s[i] == a[i]);
        }
        assert forall|i: int| 0 <= i < b.len() implies b[i] != c by {
            assert(s[i + a.len()] == b[i]);
        }
    }
}

/// A sequence is made of what stands before an index, the item there, and
/// what stands after it.
pub proof fn lemma_cut(s: Seq<char>, i: int)
    requires
        0 <= i < s.len(),
    ensures
        s == s.take(i) + seq![s[i]] + s.skip(i + 1),
{
    assert(s =~= s.take(i) + seq![s[i]] + s.skip(i + 1));
}

/// In `a`, then `c`, then `b`, with `a` free of `c`, the first `c` is the
/// one in the middle.
pub proof fn lemma_first_index_concat(a: Seq<char>, c: char, b: Seq<char>)
    requires
        free_of(a, c),
    ensures
        first_index(a + seq![c] + b, c) == a.len(),
        (a + seq![c] + b).take(a.len() as int) == a,
        (a + seq![c] + b).skip(a.len() as int + 1) == b,
{
    let s = a + seq![c] + b;
    assert forall|j: int| 0 <= j < a.len() implies s[j] != c by {
        assert(s[j] == a[j]);
    }
    lemma_first_index_is(s, c, a.len() as int);
    assert(s.take(a.len() as int) =~= a);
    assert(s.skip(a.len() as int + 1) =~= b);
}

/// In `a`, then `c`, then `b`, with `b` free of `c`, the last `c` is the
/// one in the middle.
pub proof fn lemma_last_index_concat(a: Seq<char>, c: char, b: Seq<char>)
    requires
        free_of(b, c),
    ensures
        last_index(a + seq![c] + b, c) == a.len(),
        (a + seq![c] + b).take(a.len() as int) == a,
        (a + seq![c] + b).skip(a.len() as int + 1) == b,
{
    let s = a + seq![c] + b;
    assert forall|j: int| a.len() < j < s.len() implies s[j] != c by {
        assert(s[j] == b[j - a.len() - 1]);
    }
    lemma_last_index_is(s, c, a.len() as int);
    assert(s.take(a.len() as int) =~= a);
    assert(s.skip(a.len() as int + 1) =~= b);
}

/// Tells whether `c` carries the Unicode property `White_Space`.
pub fn white_space(c: char) -> (b: bool)
    ensures
        b == is_white_space(c),
{
    let n: u32 = c as u32;
    (0x09 <= n && n <= 0x0d) || n == 0x20 || n == 0x85 || n == 0xa0 || n == 0x1680 || (0x2000 <= n
        && n <= 0x200a) || n == 0x2028 || n == 0x2029 || n == 0x202f || n == 0x205f || n == 0x3000
}

/// The characters of `s`, in order.
pub fn chars_of(s: &str) -> (v: Vec<char>)
    ensures
        v@ == s@,
{
    let mut v: Vec<char> = Vec::new();
    for c in it: s.chars()
        invariant
            v@ == s@.take(it.index() as int),
            it.seq() == s@,
    {
        v.push(c);
    }
    v
}

/// The part of `s` from character `lo` up to character `hi`, as a new string.
pub fn substring(s: &str, lo: usize, hi: usize) -> (r: String)
    requires
        lo <= hi <= s@.len(),
    ensures
        r@ == s@.subrange(lo as int, hi as int),
{
    s.substring_char(lo, hi).to_owned()
}

/// Finds the first `c` in `v[lo..hi]`. Returns its index in `v`, or `hi` if
/// there is none.
pub fn find_char(v: &Vec<char>, lo: usize, hi: usize, c: char) -> (r: usize)
    requires
        lo <= hi <= v.len(),
    ensures
        lo <= r <= hi,
        r - lo == first_index(v@.subrange(lo as int, hi as int), c),
        forall|j: int| lo <= j < r ==> v@[j] != c,
        r < hi ==> v@[r as int] == c,
{
    let ghost part = v@.subrange(lo as int, hi as int);
    let mut i: usize = lo;
    while i < hi
        invariant
            lo <= i <= hi <= v.len(),
            part == v@.subrange(lo as int, hi as int),
            forall|j: int| lo <= j < i ==> v@[j] != c,
        decreases hi - i,
    {
        if v[i] == c {
            proof {
                assert forall|j: int| 0 <= j < i - lo implies part[j] != c by {
                    assert(part[j] == v@[lo + j]);
                }
                lemma_first_index_is(part, c, i - lo);
            }
            return i;
        }
        i += 1;
    }
    proof {
        assert forall|j: int| 0 <= j < hi - lo implies part[j] != c by {
            assert(part[j] == v@[lo + j]);
        }
        lemma_first_index_is(part, c, hi - lo);
    }
    hi
}

/// Finds the last `c` in `v[lo..hi]`. Returns its index in `v`, or `None` if
/// there is none.
pub fn rfind_char(v: &Vec<char>, lo: usize, hi: usize, c: char) -> (r: Option<usize>)
    requires
        lo <= hi <= v.len(),
    ensures
        match r {
            Some(i) => lo <= i < hi && i - lo == last_index(v@.subrange(lo as int, hi as int), c)
                && v@[i as int] == c,
            None => last_index(v@.subrange(lo as int, hi as int), c) == -1,
        },
        forall|j: int|
            lo <= j < hi && (match r {
                Some(i) => i < j,
                None => true,
            }) ==> v@[j] != c,
{
    let ghost part = v@.subrange(lo as int, hi as int);
    let mut i: usize = hi;
    while i > lo
        invariant
            lo <= i <= hi <= v.len(),
            part == v@.subrange(lo as int, hi as int),
            forall|j: int| i <= j < hi ==> v@[j] != c,
        decreases i - lo,
    {
        i -= 1;
        if v[i] == c {
            proof {
                assert forall|j: int| i - lo < j < part.len() implies part[j] != c by {
                    assert(part[j] == v@[lo + j]);
                }
                lemma_last_index_is(part, c, i - lo);
            }
            return Some(i);
        }
    }
    proof {
        assert forall|j: int| -1 < j < part.len() implies part[j] != c by {
            assert(part[j] == v@[lo + j]);
        }
        lemma_last_index_is(part, c, -1);
    }
    None
}

/// Finds the first `://` in `v`. Returns its index, or `v.len()` if there is
/// none.
pub fn find_scheme_mark(v: &Vec<char>) -> (r: usize)
    ensures
        r == first_scheme_mark(v@),
        r <= v.len(),
        r < v.len() ==> r + 3 <= v.len(),
{
    let n = v.len();
    let mut i: usize = 0;
    while i < n
        invariant
            i <= n == v.len(),
            first_scheme_mark(v@) == first_scheme_mark_from(v@, i as int),
        decreases n - i,
    {
        if n - i >= 3 && v[i] == ':' && v[i + 1] == '/' && v[i + 2] == '/' {
            return i;
        }
        i += 1;
    }
    n
}

/// Finds the trimmed part of `v`: returns `(lo, hi)` such that `v[lo..hi]` is
/// `v` without its leading and trailing white space.
pub fn trim_bounds(v: &Vec<char>) -> (r: (usize, usize))
    ensures
        r.0 == trim_start(v@),
        r.1 == trim_end(v@),
        r.0 <= r.1 <= v.len(),
{
    let n = v.len();
    let mut lo: usize = 0;
    while lo < n && white_space(v[lo])
        invariant
            lo <= n == v.len(),
            trim_start(v@) == first_solid_from(v@, lo as int),
        decreases n - lo,
    {
        lo += 1;
    }
    if lo == n {
        return (n, n);
    }
    let mut hi: usize = n;
    while hi > 0 && white_space(v[hi - 1])
        invariant
            hi <= n == v.len(),
            solid_end_upto(v@, n as int) == solid_end_upto(v@, hi as int),
        decreases hi,
    {
        hi -= 1;
    }
    proof {
        lemma_trim(v@);
    }
    (lo, hi)
}

/// The text of a string that may be missing.
pub open spec fn opt_text(o: Option<String>) -> Option<Seq<char>> {
    match o {
        Some(s) => Some(s@),
        None => None,
    }
}

} // verus!
