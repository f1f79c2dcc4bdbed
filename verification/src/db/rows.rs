//! What holds of the rows of any table: keys that are found, keys that
//! differ, and rows that refer to rows of another table.

use vstd::prelude::*;

verus! {

/// Whether a row with this key is among the rows.
pub open spec fn has_key<A, K>(s: Seq<A>, key: spec_fn(A) -> K, k: K) -> bool {
    exists|i: int| 0 <= i < s.len() && key(#[trigger] s[i]) == k
}

/// Whether no two rows have the same key.
pub open spec fn keys_differ<A, K>(s: Seq<A>, key: spec_fn(A) -> K) -> bool {
    forall|i: int, j: int| 0 <= i < j < s.len() ==> key(#[trigger] s[i]) != key(#[trigger] s[j])
}

/// Whether every row that refers to a row of another table refers to one
/// that is there.
pub open spec fn all_refer<A, B>(
    from: Seq<A>,
    link: spec_fn(A) -> Option<u64>,
    to: Seq<B>,
    key: spec_fn(B) -> u64,
) -> bool {
    forall|i: int|
        0 <= i < from.len() ==> (link(#[trigger] from[i]) matches Some(k) ==> has_key(to, key, k))
}

/// A key that is found among the rows is found after one more row is put
/// in, and so is the key of that row.
pub proof fn lemma_has_key_push<A, K>(s: Seq<A>, key: spec_fn(A) -> K, x: A)
    ensures
        forall|k: K| has_key(s, key, k) ==> has_key(s.push(x), key, k),
        has_key(s.push(x), key, key(x)),
{
    let t = s.push(x);
    assert forall|k: K| has_key(s, key, k) implies has_key(t, key, k) by {
        let i = choose|i: int| 0 <= i < s.len() && key(#[trigger] s[i]) == k;
        assert(t[i] == s[i]);
    }
    assert(t[s.len() as int] == x);
}

/// Every row that is left after filtering was there before, and passes
/// the filter.
pub proof fn lemma_filter_from<A>(s: Seq<A>, pred: spec_fn(A) -> bool)
    ensures
        forall|i: int|
            0 <= i < s.filter(pred).len() ==> s.contains(#[trigger] s.filter(pred)[i]) && pred(
                s.filter(pred)[i],
            ),
        s.filter(pred).len() <= s.len(),
{
    let f = s.filter(pred);
    #[allow(deprecated)]
    s.filter_lemma(pred);
    assert forall|i: int| 0 <= i < f.len() implies s.contains(#[trigger] f[i]) by {
        assert(f.contains(f[i]));
        s.lemma_filter_contains_rev(pred, f[i]);
    }
}

/// What holds of every row still holds of every row after filtering.
pub proof fn lemma_filter_holds<A>(s: Seq<A>, pred: spec_fn(A) -> bool, holds: spec_fn(A) -> bool)
    requires
        forall|i: int| 0 <= i < s.len() ==> holds(#[trigger] s[i]),
    ensures
        forall|i: int| 0 <= i < s.filter(pred).len() ==> holds(#[trigger] s.filter(pred)[i]),
{
    lemma_filter_from(s, pred);
    let f = s.filter(pred);
    assert forall|i: int| 0 <= i < f.len() implies holds(#[trigger] f[i]) by {
        assert(s.contains(f[i]));
        let k = choose|k: int| 0 <= k < s.len() && s[k] == f[i];
        assert(holds(s[k]));
    }
}

/// Rows whose keys differ still have keys that differ after filtering.
pub proof fn lemma_filter_keys_differ<A, K>(
    s: Seq<A>,
    pred: spec_fn(A) -> bool,
    key: spec_fn(A) -> K,
)
    requires
        keys_differ(s, key),
    ensures
        keys_differ(s.filter(pred), key),
    decreases s.len(),
{
    reveal(Seq::filter);
    if s.len() > 0 {
        let rest = s.drop_last();
        lemma_filter_keys_differ(rest, pred, key);
        lemma_filter_from(rest, pred);
        let f = s.filter(pred);
        assert forall|i: int, j: int| 0 <= i < j < f.len() implies key(#[trigger] f[i]) != key(
            #[trigger] f[j],
        ) by {
            if j < rest.filter(pred).len() {
                assert(f[i] == rest.filter(pred)[i]);
                assert(f[j] == rest.filter(pred)[j]);
            } else {
                assert(f[i] == rest.filter(pred)[i]);
                assert(rest.contains(rest.filter(pred)[i]));
                let k = choose|k: int| 0 <= k < rest.len() && rest[k] == f[i];
                assert(s[k] == f[i]);
                assert(f[j] == s[s.len() - 1]);
            }
        }
    }
}

/// A key that is found among the rows is found after filtering, if the
/// filter lets every row with this key pass.
pub proof fn lemma_filter_has_key<A, K>(
    s: Seq<A>,
    pred: spec_fn(A) -> bool,
    key: spec_fn(A) -> K,
    k: K,
)
    requires
        has_key(s, key, k),
        forall|i: int| 0 <= i < s.len() && key(#[trigger] s[i]) == k ==> pred(s[i]),
    ensures
        has_key(s.filter(pred), key, k),
{
    let i = choose|i: int| 0 <= i < s.len() && key(#[trigger] s[i]) == k;
    s.lemma_filter_contains(pred, i);
    let f = s.filter(pred);
    let j = choose|j: int| 0 <= j < f.len() && f[j] == s[i];
    assert(key(f[j]) == k);
}

/// Rows that refer to rows that are there still do after a row is put
/// into the table that they refer to.
pub proof fn lemma_refer_push_to<A, B>(
    from: Seq<A>,
    link: spec_fn(A) -> Option<u64>,
    to: Seq<B>,
    key: spec_fn(B) -> u64,
    y: B,
)
    requires
        all_refer(from, link, to, key),
    ensures
        all_refer(from, link, to.push(y), key),
{
    lemma_has_key_push(to, key, y);
}

/// Rows that refer to rows that are there still do after a row is put in
/// among them that refers to a row that is there, or to none.
pub proof fn lemma_refer_push_from<A, B>(
    from: Seq<A>,
    link: spec_fn(A) -> Option<u64>,
    to: Seq<B>,
    key: spec_fn(B) -> u64,
    x: A,
)
    requires
        all_refer(from, link, to, key),
        link(x) matches Some(k) ==> has_key(to, key, k),
    ensures
        all_refer(from.push(x), link, to, key),
{
    let t = from.push(x);
    assert forall|i: int| 0 <= i < t.len() implies (link(#[trigger] t[i]) matches Some(k)
        ==> has_key(to, key, k)) by {
        if i < from.len() {
            assert(t[i] == from[i]);
        }
    }
}

/// Rows that refer to rows that are there still do after some of them are
/// taken away.
pub proof fn lemma_refer_filter_from<A, B>(
    from: Seq<A>,
    pred: spec_fn(A) -> bool,
    link: spec_fn(A) -> Option<u64>,
    to: Seq<B>,
    key: spec_fn(B) -> u64,
)
    requires
        all_refer(from, link, to, key),
    ensures
        all_refer(from.filter(pred), link, to, key),
{
    lemma_filter_holds(
        from,
        pred,
        |r: A| (link(r) matches Some(k) ==> has_key(to, key, k)),
    );
}

/// Rows that refer to rows that are there still do after a row is taken
/// away together with all the rows that refer to it.
pub proof fn lemma_refer_cascade<A, B>(
    from: Seq<A>,
    others: spec_fn(A) -> bool,
    link: spec_fn(A) -> Option<u64>,
    to: Seq<B>,
    rest: spec_fn(B) -> bool,
    key: spec_fn(B) -> u64,
    id: u64,
)
    requires
        all_refer(from, link, to, key),
        forall|r: A| #[trigger] others(r) ==> link(r) != Some(id),
        forall|t: B| #[trigger] rest(t) <==> key(t) != id,
    ensures
        all_refer(from.filter(others), link, to.filter(rest), key),
{
    let f = from.filter(others);
    lemma_filter_from(from, others);
    assert forall|i: int| 0 <= i < f.len() implies (link(#[trigger] f[i]) matches Some(k)
        ==> has_key(to.filter(rest), key, k)) by {
        if let Some(k) = link(f[i]) {
            assert(from.contains(f[i]));
            let j = choose|j: int| 0 <= j < from.len() && from[j] == f[i];
            assert(link(from[j]) == Some(k));
            assert(has_key(to, key, k));
            assert(others(f[i]));
            lemma_filter_has_key(to, rest, key, k);
        }
    }
}

/// Rows that refer to rows that are there still do after a row is taken
/// away and every row that referred to it is made to refer to none.
pub proof fn lemma_refer_set_null<A, B>(
    from: Seq<A>,
    unlink: spec_fn(A) -> A,
    link: spec_fn(A) -> Option<u64>,
    to: Seq<B>,
    rest: spec_fn(B) -> bool,
    key: spec_fn(B) -> u64,
    id: u64,
)
    requires
        all_refer(from, link, to, key),
        forall|r: A|
            link(#[trigger] unlink(r)) == (if link(r) == Some(id) {
                None
            } else {
                link(r)
            }),
        forall|t: B| #[trigger] rest(t) <==> key(t) != id,
    ensures
        all_refer(from.map_values(unlink), link, to.filter(rest), key),
{
    let m = from.map_values(unlink);
    assert forall|i: int| 0 <= i < m.len() implies (link(#[trigger] m[i]) matches Some(k)
        ==> has_key(to.filter(rest), key, k)) by {
        if let Some(k) = link(m[i]) {
            assert(m[i] == unlink(from[i]));
            assert(link(from[i]) == Some(k));
            assert(has_key(to, key, k));
            lemma_filter_has_key(to, rest, key, k);
        }
    }
}

/// Rows that refer to rows that are there still do after they are changed
/// in a way that leaves the references as they were.
pub proof fn lemma_refer_map_from<A, B>(
    from: Seq<A>,
    change: spec_fn(A) -> A,
    link: spec_fn(A) -> Option<u64>,
    to: Seq<B>,
    key: spec_fn(B) -> u64,
)
    requires
        all_refer(from, link, to, key),
        forall|r: A| link(#[trigger] change(r)) == link(r),
    ensures
        all_refer(from.map_values(change), link, to, key),
{
    let m = from.map_values(change);
    assert forall|i: int| 0 <= i < m.len() implies (link(#[trigger] m[i]) matches Some(k)
        ==> has_key(to, key, k)) by {
        assert(m[i] == change(from[i]));
        assert(link(from[i]) == link(m[i]));
    }
}

/// Rows that refer to rows that are there still do after the rows that
/// they refer to are changed in a way that leaves the keys as they were.
pub proof fn lemma_refer_map_to<A, B>(
    from: Seq<A>,
    link: spec_fn(A) -> Option<u64>,
    to: Seq<B>,
    change: spec_fn(B) -> B,
    key: spec_fn(B) -> u64,
)
    requires
        all_refer(from, link, to, key),
        forall|t: B| key(#[trigger] change(t)) == key(t),
    ensures
        all_refer(from, link, to.map_values(change), key),
{
    let m = to.map_values(change);
    assert forall|i: int| 0 <= i < from.len() implies (link(#[trigger] from[i]) matches Some(k)
        ==> has_key(m, key, k)) by {
        if let Some(k) = link(from[i]) {
            let j = choose|j: int| 0 <= j < to.len() && key(#[trigger] to[j]) == k;
            assert(m[j] == change(to[j]));
            assert(key(m[j]) == k);
        }
    }
}

/// Rows whose keys differ still have keys that differ after they are
/// changed in a way that leaves the keys as they were.
pub proof fn lemma_map_keys_differ<A, K>(s: Seq<A>, change: spec_fn(A) -> A, key: spec_fn(A) -> K)
    requires
        keys_differ(s, key),
        forall|r: A| key(#[trigger] change(r)) == key(r),
    ensures
        keys_differ(s.map_values(change), key),
{
    let m = s.map_values(change);
    assert forall|i: int, j: int| 0 <= i < j < m.len() implies key(#[trigger] m[i]) != key(
        #[trigger] m[j],
    ) by {
        assert(m[i] == change(s[i]));
        assert(m[j] == change(s[j]));
    }
}

} // verus!
