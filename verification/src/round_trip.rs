//! Reading a reference, writing it and reading it again gives the same
//! reference.
//!
//! The canonical text of a URL of a scheme such as `https` ends with a `/`,
//! so that a reference written with it is read with a namespace that starts
//! with `/`. The law is stated for references whose registry is read back as
//! it was written: every reference without a registry or with a socket
//! address, and those with a URL that [`url_is_stable`].

use crate::models::{
    authority_split, looks_like_registry, namespace_split, path_spec, reference_spec,
    reference_text, registry_spec, repo_tag_split, tag_spec,
    tag_text, Error, OciIdentifierView, RegistryView, };
use crate::net::{socket_spec, socket_text, SocketAddrView};
use crate::net_laws::{lemma_socket_round_trip, lemma_socket_spec_shape, lemma_socket_text_shape};
use crate::numeral::is_digit;
use crate::semver::{lemma_semver_round_trip, lemma_semver_text_shape, semver_spec};
use crate::text::{
    first_index, first_scheme_mark, free_of, is_white_space, last_index,
    lemma_cut, lemma_first_index, lemma_first_index_concat, lemma_first_index_is,
    lemma_first_scheme_mark, lemma_first_scheme_mark_is, lemma_free_of_concat, lemma_has_char,
    lemma_last_index, lemma_last_index_concat, lemma_trim, lemma_trim_solid, scheme_mark_at, trim,
};
use crate::weburl::{no_scheme_start, url_spec, UrlView};
use vstd::prelude::*;

verus! {

/// Whether the canonical text of a URL, with a `/` behind it, is read as
/// this URL again: the text holds `://` and no `/` after it, and it is read
/// as the URL itself.
pub open spec fn url_is_stable(u: UrlView) -> bool {
    let h = u.serialization;
    let p = first_scheme_mark(h);
    &&& p < h.len()
    &&& free_of(h.skip(p + 3), '/')
    &&& registry_spec(h) == Some(RegistryView::Url(u))
}

/// Whether a registry is read back as it was written.
pub open spec fn registry_is_stable(r: Option<RegistryView>) -> bool {
    match r {
        Some(RegistryView::Url(u)) => url_is_stable(u),
        _ => true,
    }
}

/// The repository of a last segment: what stands before its first colon.
pub open spec fn tail_repository(last: Seq<char>) -> Seq<char> {
    last.take(first_index(last, ':'))
}

/// The tag of a last segment: what stands behind its first colon.
pub open spec fn tail_tag(last: Seq<char>) -> Seq<char> {
    last.skip(first_index(last, ':') + 1)
}

/// The registry that is cut off the front of `t`, if any.
pub open spec fn split_registry(t: Seq<char>) -> Option<RegistryView> {
    match authority_split(t) {
        Ok((registry, path)) => registry,
        Err(e) => None,
    }
}

/// The path that is left of `t` once its registry is cut off.
pub open spec fn split_path(t: Seq<char>) -> Seq<char> {
    match authority_split(t) {
        Ok((registry, path)) => path,
        Err(e) => t,
    }
}

/// Repository and tag in canonical text.
pub open spec fn canonical_tail(repository: Seq<char>, tag: Seq<char>) -> Seq<char> {
    repository + seq![':'] + tag_text(tag_spec(tag))
}

/// A last segment in canonical text is cut as the segment it was written
/// from, and its tag is read as the same tag.
pub proof fn lemma_tail(last: Seq<char>)
    requires
        repo_tag_split(last) is Some,
        free_of(last, '/'),
        !is_white_space(last.last()),
    ensures
        ({
            let repository = tail_repository(last);
            let tag = tail_tag(last);
            let tail = canonical_tail(repository, tag);
            &&& repo_tag_split(tail) == Some((repository, tag_text(tag_spec(tag))))
            &&& tag_spec(tag_text(tag_spec(tag))) == tag_spec(tag)
            &&& free_of(tail, '/')
            &&& tail.len() > 0
            &&& !is_white_space(tail.last())
        }),
{
    let k = first_index(last, ':');
    lemma_first_index(last, ':');
    let repository = last.take(k);
    let tag = last.skip(k + 1);
    assert(repo_tag_split(last) == Some((repository, tag)));
    lemma_has_char(tag, ':');
    assert(free_of(repository, ':')) by {
        assert forall|i: int| 0 <= i < repository.len() implies repository[i] != ':' by {
            assert(repository[i] == last[i]);
        }
    }
    assert(free_of(repository, '/')) by {
        assert forall|i: int| 0 <= i < repository.len() implies repository[i] != '/' by {
            assert(repository[i] == last[i]);
        }
    }
    assert(free_of(tag, '/')) by {
        assert forall|i: int| 0 <= i < tag.len() implies tag[i] != '/' by {
            assert(tag[i] == last[i + k + 1]);
        }
    }
    assert(tag.last() == last.last());
    let text = tag_text(tag_spec(tag));
    match semver_spec(tag) {
        Some(v) => {
            lemma_semver_text_shape(v);
            lemma_semver_round_trip(v);
            assert forall|i: int| 0 <= i < text.len() implies text[i] != ':' && text[i] != '/' by {
                assert(is_digit(text[i]) || text[i] == '.');
            }
            assert(is_digit(text.last()));
        },
        None => {},
    }
    assert(free_of(text, ':') && free_of(text, '/'));
    assert(text.len() > 0 && !is_white_space(text.last()));
    let tail = canonical_tail(repository, tag);
    lemma_first_index_concat(repository, ':', text);
    lemma_has_char(text, ':');
    lemma_free_of_concat(repository, seq![':'], '/');
    lemma_free_of_concat(repository + seq![':'], text, '/');
    assert(tail.last() == text.last());
}

/// A path made of a head, a `/` and a last segment without `/` is read from
/// these two parts.
pub proof fn lemma_path_of_parts(registry: Option<RegistryView>, head: Seq<char>, last: Seq<char>)
    requires
        free_of(last, '/'),
    ensures
        path_spec(registry, head + seq!['/'] + last) == match repo_tag_split(last) {
            None => Err::<OciIdentifierView, Error>(Error::InvalidFormat),
            Some((repository, tag)) => match namespace_split(registry, head).1 {
                Some(namespace) if namespace.len() > 0 => Ok(
                    OciIdentifierView {
                        registry: namespace_split(registry, head).0,
                        namespace,
                        repository,
                        tag: tag_spec(tag),
                    },
                ),
                _ => Err(Error::MissingNamespace),
            },
        },
{
    lemma_last_index_concat(head, '/', last);
}

/// Where the text before and the text after a middle part hold no `/`, and
/// the text before does not end with a colon, every `://` lies in the middle
/// part.
pub proof fn lemma_marks_in_middle(x: Seq<char>, mid: Seq<char>, e: Seq<char>)
    requires
        free_of(x, '/'),
        free_of(e, '/'),
        x.len() > 0 ==> x.last() != ':',
    ensures
        forall|j: int|
            scheme_mark_at(x + mid + e, j) <==> (j >= x.len() && scheme_mark_at(
                mid,
                j - x.len(),
            )),
{
    let a = x + mid + e;
    let n = x.len() as int;
    let m = mid.len() as int;
    assert forall|j: int| scheme_mark_at(a, j) <==> (j >= n && scheme_mark_at(mid, j - n)) by {
        if scheme_mark_at(a, j) {
            if j + 1 < n {
                assert(a[j + 1] == x[j + 1]);
            }
            if j + 2 >= n + m {
                assert(a[j + 2] == e[j + 2 - n - m]);
            }
            if j < n {
                assert(a[j] == x[j]);
            }
            assert(a[j] == mid[j - n]);
            assert(a[j + 1] == mid[j + 1 - n]);
            assert(a[j + 2] == mid[j + 2 - n]);
        }
        if j >= n && scheme_mark_at(mid, j - n) {
            assert(a[j] == mid[j - n]);
            assert(a[j + 1] == mid[j + 1 - n]);
            assert(a[j + 2] == mid[j + 2 - n]);
        }
    }
}

/// How a text is cut at its registry, told from its middle part alone.
pub open spec fn split_of_parts(x: Seq<char>, mid: Seq<char>, e: Seq<char>) -> Result<
    (Option<RegistryView>, Seq<char>),
    Error,
> {
    let p = first_scheme_mark(mid);
    let q = p + 3 + first_index(mid.skip(p + 3), '/');
    if p >= mid.len() {
        Ok((None, x + mid + e))
    } else if q >= mid.len() {
        Err(Error::InvalidFormat)
    } else {
        match registry_spec(x + mid.take(q)) {
            Some(r) => Ok((Some(r), mid.skip(q + 1) + e)),
            None => Ok((None, x + mid + e)),
        }
    }
}

/// Where the text before and the text after a middle part hold no `/`, and
/// the text before does not end with a colon, the middle part alone decides
/// how the text is cut at its registry.
pub proof fn lemma_split_of_parts(x: Seq<char>, mid: Seq<char>, e: Seq<char>)
    requires
        free_of(x, '/'),
        free_of(e, '/'),
        x.len() > 0 ==> x.last() != ':',
    ensures
        authority_split(x + mid + e) == split_of_parts(x, mid, e),
{
    let a = x + mid + e;
    let n = x.len() as int;
    lemma_marks_in_middle(x, mid, e);
    lemma_first_scheme_mark(mid);
    let pm = first_scheme_mark(mid);
    if pm >= mid.len() {
        assert forall|j: int| 0 <= j < a.len() implies !scheme_mark_at(a, j) by {
            if j >= n {
                assert(!scheme_mark_at(mid, j - n));
            }
        }
        lemma_first_scheme_mark_is(a, a.len() as int);
    } else {
        let pa = n + pm;
        assert(scheme_mark_at(a, pa));
        assert forall|j: int| 0 <= j < pa implies !scheme_mark_at(a, j) by {
            if j >= n {
                assert(!scheme_mark_at(mid, j - n));
            }
        }
        lemma_first_scheme_mark_is(a, pa);
        let rest_m = mid.skip(pm + 3);
        let rest_a = a.skip(pa + 3);
        assert(rest_a =~= rest_m + e);
        let fm = first_index(rest_m, '/');
        lemma_first_index(rest_m, '/');
        if fm >= rest_m.len() {
            lemma_free_of_concat(rest_m, e, '/');
            lemma_has_char(rest_a, '/');
        } else {
            assert forall|j: int| 0 <= j < fm implies rest_a[j] != '/' by {
                assert(rest_a[j] == rest_m[j]);
            }
            assert(rest_a[fm] == rest_m[fm]);
            lemma_first_index_is(rest_a, '/', fm);
            let qm = pm + 3 + fm;
            let qa = pa + 3 + fm;
            assert(a.take(qa) =~= x + mid.take(qm));
            assert(a.skip(qa + 1) =~= mid.skip(qm + 1) + e);
        }
    }
}

/// A reference without a registry, written with its tag in canonical text,
/// is read as the same reference.
pub proof fn lemma_case_none(t: Seq<char>, head: Seq<char>, last: Seq<char>)
    requires
        t == head + seq!['/'] + last,
        !is_white_space(t[0]),
        !is_white_space(t.last()),
        head.len() > 0,
        free_of(last, '/'),
        repo_tag_split(last) is Some,
        authority_split(t) == Ok::<(Option<RegistryView>, Seq<char>), Error>((None, t)),
        namespace_split(None, head) == (None::<RegistryView>, Some(head)),
    ensures
        ({
            let id = OciIdentifierView {
                registry: None,
                namespace: head,
                repository: tail_repository(last),
                tag: tag_spec(tail_tag(last)),
            };
            reference_spec(reference_text(id)) == Ok::<OciIdentifierView, Error>(id)
        }),
{
    let repository = tail_repository(last);
    let tag = tail_tag(last);
    let id = OciIdentifierView {
        registry: None,
        namespace: head,
        repository,
        tag: tag_spec(tag),
    };
    let tail = canonical_tail(repository, tag);
    assert(last.len() > 0);
    assert(t.last() == last.last());
    lemma_tail(last);
    let mid = head + seq!['/'];
    let none = Seq::<char>::empty();
    let t2 = none + mid + tail;
    assert(reference_text(id) =~= t2);
    assert(t =~= none + mid + last);
    assert(t2 =~= head + seq!['/'] + tail);
    lemma_split_of_parts(none, mid, last);
    lemma_split_of_parts(none, mid, tail);
    assert(authority_split(t2) == Ok::<(Option<RegistryView>, Seq<char>), Error>((None, t2)));
    assert(t2[0] == t[0]);
    assert(t2.last() == tail.last());
    lemma_trim_solid(t2);
    lemma_path_of_parts(None, head, tail);
}

/// In a text that starts with a stable URL and a `/`, the URL is the
/// registry and what follows the `/` is the path.
pub proof fn lemma_split_after_url(u: UrlView, rest: Seq<char>)
    requires
        url_is_stable(u),
    ensures
        authority_split(u.serialization + seq!['/'] + rest) == Ok::<
            (Option<RegistryView>, Seq<char>),
            Error,
        >((Some(RegistryView::Url(u)), rest)),
        u.serialization.len() > 0,
        !is_white_space(u.serialization[0]),
{
    let h = u.serialization;
    let t = h + seq!['/'] + rest;
    let p = first_scheme_mark(h);
    lemma_first_scheme_mark(h);
    assert(scheme_mark_at(t, p)) by {
        assert(t[p] == h[p]);
        assert(t[p + 1] == h[p + 1]);
        assert(t[p + 2] == h[p + 2]);
    }
    assert forall|j: int| 0 <= j < p implies !scheme_mark_at(t, j) by {
        assert(t[j] == h[j]);
        assert(t[j + 1] == h[j + 1]);
        assert(t[j + 2] == h[j + 2]);
        assert(!scheme_mark_at(h, j));
    }
    lemma_first_scheme_mark_is(t, p);
    let after = h.skip(p + 3);
    assert(t.skip(p + 3) =~= after + seq!['/'] + rest);
    lemma_first_index_concat(after, '/', rest);
    let q = p + 3 + after.len();
    assert(q == h.len());
    assert(t.take(q) =~= h);
    assert(t.skip(q + 1) =~= rest);
    // the canonical text starts with a letter
    assert(socket_spec(h) is None);
    let text = if first_scheme_mark(h) < h.len() {
        h
    } else {
        crate::models::https_prefix() + h
    };
    assert(url_spec(text) == Some(u));
}

/// A reference with a stable URL, written with its tag in canonical text, is
/// read as the same reference.
pub proof fn lemma_case_url(u: UrlView, namespace: Seq<char>, last: Seq<char>)
    requires
        url_is_stable(u),
        namespace.len() > 0,
        free_of(last, '/'),
        repo_tag_split(last) is Some,
        !is_white_space(last.last()),
    ensures
        ({
            let id = OciIdentifierView {
                registry: Some(RegistryView::Url(u)),
                namespace,
                repository: tail_repository(last),
                tag: tag_spec(tail_tag(last)),
            };
            reference_spec(reference_text(id)) == Ok::<OciIdentifierView, Error>(id)
        }),
{
    let repository = tail_repository(last);
    let tag = tail_tag(last);
    let registry = Some(RegistryView::Url(u));
    let id = OciIdentifierView { registry, namespace, repository, tag: tag_spec(tag) };
    let tail = canonical_tail(repository, tag);
    lemma_tail(last);
    let h = u.serialization;
    let path = namespace + seq!['/'] + tail;
    let t2 = h + seq!['/'] + path;
    assert(reference_text(id) =~= t2);
    lemma_split_after_url(u, path);
    assert(t2[0] == h[0]);
    assert(t2.last() == tail.last());
    lemma_trim_solid(t2);
    lemma_path_of_parts(registry, namespace, tail);
}

/// A socket address in text with a `/` and more behind it is no registry,
/// where the whole holds `://`.
pub proof fn lemma_socket_then_slash(a: SocketAddrView, rest: Seq<char>)
    requires
        a.wf(),
        first_scheme_mark(socket_text(a) + seq!['/'] + rest) < (socket_text(a) + seq!['/']
            + rest).len(),
    ensures
        registry_spec(socket_text(a) + seq!['/'] + rest) is None,
{
    let r = socket_text(a);
    let c = r + seq!['/'] + rest;
    lemma_socket_text_shape(a);
    assert(c[r.len() as int] == '/');
    if socket_spec(c) is Some {
        lemma_socket_spec_shape(c);
    }
    assert(c[0] == r[0]);
    assert(no_scheme_start(c));
}

/// A text that starts with a socket address in canonical text is a path as
/// a whole, unless it holds `://` with no `/` after it.
pub proof fn lemma_socket_reparse_split(a: SocketAddrView, mid: Seq<char>, tail: Seq<char>)
    requires
        a.wf(),
        mid.len() > 0,
        mid[0] == '/',
        free_of(tail, '/'),
        split_of_parts(socket_text(a), mid, tail) is Ok,
    ensures
        authority_split(socket_text(a) + mid + tail) == Ok::<
            (Option<RegistryView>, Seq<char>),
            Error,
        >((None, socket_text(a) + mid + tail)),
{
    let r = socket_text(a);
    lemma_socket_text_shape(a);
    lemma_split_of_parts(r, mid, tail);
    let p = first_scheme_mark(mid);
    let q = p + 3 + first_index(mid.skip(p + 3), '/');
    lemma_first_scheme_mark(mid);
    if p < mid.len() {
        lemma_first_index(mid.skip(p + 3), '/');
        let candidate = r + mid.take(q);
        let rest = mid.take(q).skip(1);
        assert(candidate =~= r + seq!['/'] + rest);
        assert(scheme_mark_at(candidate, r.len() + p)) by {
            assert(candidate[r.len() + p] == mid[p]);
            assert(candidate[r.len() + p + 1] == mid[p + 1]);
            assert(candidate[r.len() + p + 2] == mid[p + 2]);
        }
        lemma_first_scheme_mark(candidate);
        lemma_socket_then_slash(a, rest);
    }
}

/// In a path that starts with a socket address in canonical text, the
/// address is the registry and what follows it is the namespace.
pub proof fn lemma_socket_reparse_path(a: SocketAddrView, namespace: Seq<char>, tail: Seq<char>)
    requires
        a.wf(),
        namespace.len() > 0,
        free_of(tail, '/'),
        repo_tag_split(tail) is Some,
    ensures
        path_spec(None, socket_text(a) + seq!['/'] + namespace + seq!['/'] + tail) == Ok::<
            OciIdentifierView,
            Error,
        >(
            OciIdentifierView {
                registry: Some(RegistryView::SocketAddr(a)),
                namespace,
                repository: tail_repository(tail),
                tag: tag_spec(tail_tag(tail)),
            },
        ),
{
    let r = socket_text(a);
    let registry = Some(RegistryView::SocketAddr(a));
    lemma_socket_text_shape(a);
    lemma_socket_round_trip(a);
    let head = r + seq!['/'] + namespace;
    lemma_path_of_parts(None, head, tail);
    lemma_first_index_concat(r, '/', namespace);
    assert(looks_like_registry(r));
    assert(registry_spec(r) == registry);
    assert(namespace_split(None, head) == (registry, Some(namespace)));
}

/// A reference with a socket address, written in canonical text, is read as
/// the same reference.
pub proof fn lemma_case_socket(
    x: Seq<char>,
    a: SocketAddrView,
    namespace: Seq<char>,
    last: Seq<char>,
)
    requires
        socket_spec(x) == Some(a),
        authority_split(x + seq!['/'] + namespace + seq!['/'] + last) is Ok,
        namespace.len() > 0,
        free_of(last, '/'),
        repo_tag_split(last) is Some,
        !is_white_space(last.last()),
    ensures
        ({
            let id = OciIdentifierView {
                registry: Some(RegistryView::SocketAddr(a)),
                namespace,
                repository: tail_repository(last),
                tag: tag_spec(tail_tag(last)),
            };
            reference_spec(reference_text(id)) == Ok::<OciIdentifierView, Error>(id)
        }),
{
    let repository = tail_repository(last);
    let tag = tail_tag(last);
    let registry = Some(RegistryView::SocketAddr(a));
    let id = OciIdentifierView { registry, namespace, repository, tag: tag_spec(tag) };
    let tail = canonical_tail(repository, tag);
    lemma_tail(last);
    lemma_socket_spec_shape(x);
    lemma_socket_text_shape(a);
    let r = socket_text(a);
    let mid = seq!['/'] + namespace + seq!['/'];
    let t2 = r + mid + tail;
    assert(x + mid + last =~= x + seq!['/'] + namespace + seq!['/'] + last);
    assert(reference_text(id) =~= t2);
    assert(t2 =~= r + seq!['/'] + namespace + seq!['/'] + tail);
    lemma_split_of_parts(x, mid, last);
    assert(split_of_parts(r, mid, tail) is Ok);
    lemma_socket_reparse_split(a, mid, tail);
    lemma_socket_reparse_path(a, namespace, tail);
    assert(t2[0] == r[0]);
    assert(t2.last() == tail.last());
    lemma_trim_solid(t2);
    assert(tail_repository(tail) == repository);
    assert(tag_spec(tail_tag(tail)) == tag_spec(tag));
}

/// Reading a reference, writing it and reading it again gives the same
/// reference, where the registry is read back as it was written.
pub proof fn lemma_round_trip(s: Seq<char>)
    requires
        reference_spec(s) is Ok,
        registry_is_stable(reference_spec(s)->Ok_0.registry),
    ensures
        reference_spec(reference_text(reference_spec(s)->Ok_0)) == reference_spec(s),
{
    let id = reference_spec(s)->Ok_0;
    let t = trim(s);
    lemma_trim(s);
    let p = first_scheme_mark(t);
    let q = p + 3 + first_index(t.skip(p + 3), '/');
    let r0 = split_registry(t);
    let path = split_path(t);
    assert(authority_split(t) is Ok);
    assert(path_spec(r0, path) == Ok::<OciIdentifierView, Error>(id));
    let l = last_index(path, '/');
    lemma_last_index(path, '/');
    let head = path.take(l);
    let last = path.skip(l + 1);
    lemma_cut(path, l);
    assert(free_of(last, '/')) by {
        assert forall|i: int| 0 <= i < last.len() implies last[i] != '/' by {
            assert(last[i] == path[i + l + 1]);
        }
    }
    assert(repo_tag_split(last) is Some);
    assert(last.len() > 0);
    assert(last.last() == path.last());
    lemma_first_scheme_mark(t);
    lemma_first_index(t.skip(p + 3), '/');
    assert(path == t || (q < t.len() && path == t.skip(q + 1)));
    assert(path.last() == t.last());
    let r1 = namespace_split(r0, head).0;
    let namespace = namespace_split(r0, head).1->0;
    assert(id.registry == r1 && id.namespace == namespace && namespace.len() > 0);
    match r1 {
        None => {
            assert(path == t);
            assert(t[0] == head[0]);
            lemma_case_none(t, head, last);
        },
        Some(RegistryView::Url(u)) => {
            lemma_case_url(u, namespace, last);
        },
        Some(RegistryView::SocketAddr(a)) => {
            let f = first_index(head, '/');
            lemma_first_index(head, '/');
            let x = if r0 is Some {
                t.take(q)
            } else {
                head.take(f)
            };
            if r0 is Some {
                lemma_first_index(t.skip(p + 3), '/');
                lemma_first_scheme_mark(t);
                lemma_cut(t, q);
            } else {
                lemma_cut(head, f);
            }
            assert(socket_spec(x) == Some(a));
            assert(t =~= x + seq!['/'] + namespace + seq!['/'] + last);
            lemma_case_socket(x, a, namespace, last);
        },
    }
}

} // verus!
