//! Publishing a package under a reference, and reading the store.
//!
//! A publish succeeds as a whole or leaves the store as it was.

use crate::db::entities::{index, source};
use crate::db::graph::{count_package_ids, lemma_add_package_frame};
use crate::db::store::{package_ids, Store, StoreView};
use crate::error::Error;
use crate::extractor::{path_reference, OciId};
use crate::models::{registry_text, tag_text, OciIdentifier, OciIdentifierView};
use crate::pkg::WasmPkg;
use vstd::prelude::*;

verus! {

/// The registry of a reference as the index holds it: in text.
pub open spec fn index_registry(oid: OciIdentifierView) -> Seq<char>
    recommends
        oid.registry is Some,
{
    registry_text(oid.registry->Some_0)
}

/// Whether the index holds an entry with the registry, namespace and tag
/// of the reference.
pub open spec fn key_taken(st: StoreView, oid: OciIdentifierView) -> bool {
    oid.registry is Some && st.has_index_key(index_registry(oid), oid.namespace, tag_text(oid.tag))
}

/// Whether two references give the same key of the index: both name a
/// registry, and registry, namespace and tag are the same in text.
pub open spec fn same_key(a: OciIdentifierView, b: OciIdentifierView) -> bool {
    &&& a.registry is Some
    &&& b.registry is Some
    &&& index_registry(a) == index_registry(b)
    &&& a.namespace == b.namespace
    &&& tag_text(a.tag) == tag_text(b.tag)
}

/// Why a package cannot be published under a reference, if it cannot. The
/// first of these that holds is the reason:
/// the source is not of exactly one kind (`InvalidSource`);
/// the digest or the remote registry of the source is in the store
/// (`Conflict`);
/// the reference names no registry (`MissingRegistry`);
/// the index holds the key of the reference (`Conflict`);
/// the store has not an id for each row (`Storage`).
pub open spec fn publish_error(st: StoreView, oid: OciIdentifierView, p: WasmPkg) -> Option<
    Error,
> {
    if !p.source.valid() {
        Some(Error::InvalidSource)
    } else if st.source_conflict(p.source) {
        Some(Error::Conflict)
    } else if oid.registry is None {
        Some(Error::MissingRegistry)
    } else if key_taken(st, oid) {
        Some(Error::Conflict)
    } else if !st.room(package_ids(p) + 1) {
        Some(Error::Storage)
    } else {
        None
    }
}

/// The store with a package and the index entry that refers to it. The
/// entry is made at `now`.
pub open spec fn published(st: StoreView, oid: OciIdentifierView, p: WasmPkg, now: i64) -> StoreView
    recommends
        oid.registry is Some,
{
    let with_package = st.add_package(p, now);
    with_package.add_index(
        (with_package.next_id - 1) as u64,
        index_registry(oid),
        oid.namespace,
        oid.repository,
        tag_text(oid.tag),
        now,
    )
}

/// The store after a publish: with the package and its index entry where
/// nothing stands in the way, and as it was where something does.
pub open spec fn publish_state(
    st: StoreView,
    oid: OciIdentifierView,
    p: WasmPkg,
    now: i64,
) -> StoreView {
    if publish_error(st, oid, p) is None {
        published(st, oid, p, now)
    } else {
        st
    }
}

/// Publishes a package under a reference, at the time `now`. Returns the
/// id of the index entry.
///
/// The rows are put in in this order: metadata and authors, capabilities
/// and URLs, git information or remote registry, the source, the package,
/// the index entry. The entry is neither yanked nor deprecated. Where
/// something stands in the way the result says what, and the store is as
/// it was.
pub fn publish(store: &mut Store, oid: OciId, pkg: WasmPkg, now: i64) -> (r: Result<u64, Error>)
    requires
        old(store)@.wf(),
    ensures
        final(store)@.wf(),
        final(store)@ == publish_state(old(store)@, oid.0@, pkg, now),
        match r {
            Ok(id) => publish_error(old(store)@, oid.0@, pkg) is None && id + 1 == final(store)@.next_id,
            Err(e) => publish_error(old(store)@, oid.0@, pkg) == Some(e),
        },
{
    let OciId(reference) = oid;
    let OciIdentifier { registry, namespace, repository, tag } = reference;
    if !pkg.source.is_valid() {
        return Err(Error::InvalidSource);
    }
    if store.has_source_conflict(&pkg.source) {
        return Err(Error::Conflict);
    }
    let registry_name = match registry {
        Some(r) => r.to_string(),
        None => {
            return Err(Error::MissingRegistry);
        },
    };
    let tag_name = tag.to_string();
    if store.has_index_key(&registry_name, &namespace, &tag_name) {
        return Err(Error::Conflict);
    }
    if !store.has_room(count_package_ids(&pkg) + 1) {
        return Err(Error::Storage);
    }
    proof {
        lemma_add_package_frame(store@, pkg, now);
    }
    let pkg_id = store.add_package(pkg, now);
    let id = store.add_index(pkg_id, registry_name, namespace, repository, tag_name, now);
    Ok(id)
}

/// Publishes a package under the reference that the path of a request
/// holds, at the time `now`. Returns the id of the index entry.
///
/// The path is decoded and read first; where that fails the result is the
/// error of the path and the store is as it was. Else the package is
/// published as [`publish`] does.
pub fn publish_path(store: &mut Store, path: &str, pkg: WasmPkg, now: i64) -> (r: Result<
    u64,
    Error,
>)
    requires
        old(store)@.wf(),
    ensures
        final(store)@.wf(),
        match path_reference(path@) {
            Err(e) => r == Err::<u64, Error>(e) && final(store)@ == old(store)@,
            Ok(oid) => final(store)@ == publish_state(old(store)@, oid, pkg, now) && match r {
                Ok(id) => publish_error(old(store)@, oid, pkg) is None && id + 1 == final(store)@.next_id,
                Err(e) => publish_error(old(store)@, oid, pkg) == Some(e),
            },
        },
{
    match OciId::from_path(path) {
        Ok(oid) => publish(store, oid, pkg, now),
        Err(e) => Err(e),
    }
}

/// A publish puts in one package that is linked in full, and one index
/// entry for it.
///
/// Where nothing stands in the way of a publish, the store holds after it
/// one more index entry, package, source and row of metadata than before,
/// and the older ones are as they were. The new entry refers to the new
/// package and has the registry, namespace, repository and tag of the
/// reference; it is neither yanked nor deprecated. The new package refers
/// to the new source and to the new metadata, and the new source has the
/// digest of the package. So the index holds the key of the reference, and
/// the store the digest.
pub proof fn lemma_publish_links(st: StoreView, oid: OciIdentifierView, pkg: WasmPkg, now: i64)
    requires
        publish_error(st, oid, pkg) is None,
    ensures
        ({
            let after = publish_state(st, oid, pkg, now);
            &&& after.index.len() == st.index.len() + 1
            &&& after.index.drop_last() == st.index
            &&& after.packages.len() == st.packages.len() + 1
            &&& after.packages.drop_last() == st.packages
            &&& after.sources.len() == st.sources.len() + 1
            &&& after.sources.drop_last() == st.sources
            &&& after.metas.len() == st.metas.len() + 1
            &&& after.metas.drop_last() == st.metas
            &&& after.index.last().pkg_id == after.packages.last().id
            &&& after.index.last().registry == index_registry(oid)
            &&& after.index.last().namespace == oid.namespace
            &&& after.index.last().repository == oid.repository
            &&& after.index.last().tag == tag_text(oid.tag)
            &&& after.index.last().created_at == now
            &&& !after.index.last().yank
            &&& !after.index.last().deprecated
            &&& after.packages.last().source_id == after.sources.last().id
            &&& after.packages.last().meta_id == after.metas.last().id
            &&& after.sources.last().digest == pkg.source.digest@
            &&& key_taken(after, oid)
            &&& after.has_digest(pkg.source.digest@)
        }),
{
    lemma_add_package_frame(st, pkg, now);
    let after = published(st, oid, pkg, now);
    assert(after.index.drop_last() =~= st.index);
    let at = after.index.len() - 1;
    assert(after.index[at].registry == index_registry(oid));
    assert(after.index[at].namespace == oid.namespace);
    assert(after.index[at].tag == tag_text(oid.tag));
    let src = after.sources.len() - 1;
    assert(after.sources[src].digest == pkg.source.digest@);
}

/// A second publish under the key of a first one is a conflict.
///
/// Where a package was published under a reference, a package with a
/// source of exactly one kind that is then published under a reference
/// with the same registry, namespace and tag gives `Conflict`, and the
/// store stays as the first publish left it.
pub proof fn lemma_second_publish_conflicts(
    st: StoreView,
    first: OciIdentifierView,
    pkg_a: WasmPkg,
    now_a: i64,
    second: OciIdentifierView,
    pkg_b: WasmPkg,
    now_b: i64,
)
    requires
        publish_error(st, first, pkg_a) is None,
        same_key(first, second),
        pkg_b.source.valid(),
    ensures
        ({
            let after = publish_state(st, first, pkg_a, now_a);
            &&& publish_error(after, second, pkg_b) == Some(Error::Conflict)
            &&& publish_state(after, second, pkg_b, now_b) == after
        }),
{
    lemma_publish_links(st, first, pkg_a, now_a);
}

/// A publish of a digest that the store holds is a conflict, whatever the
/// reference is.
///
/// Where the store holds a source with the digest of a package whose
/// source is of exactly one kind, publishing the package gives `Conflict`
/// under every reference, and the store stays as it was.
pub proof fn lemma_known_digest_conflicts(
    st: StoreView,
    oid: OciIdentifierView,
    p: WasmPkg,
    now: i64,
)
    requires
        st.has_digest(p.source.digest@),
        p.source.valid(),
    ensures
        publish_error(st, oid, p) == Some(Error::Conflict),
        publish_state(st, oid, p, now) == st,
{
}

/// After a publish no package with the same digest can be published,
/// whatever the reference is: a package with this digest and a source of
/// exactly one kind gives `Conflict`, and the store stays as the first
/// publish left it.
pub proof fn lemma_published_digest_conflicts(
    st: StoreView,
    first: OciIdentifierView,
    pkg_a: WasmPkg,
    now_a: i64,
    second: OciIdentifierView,
    pkg_b: WasmPkg,
    now_b: i64,
)
    requires
        publish_error(st, first, pkg_a) is None,
        pkg_b.source.digest@ == pkg_a.source.digest@,
        pkg_b.source.valid(),
    ensures
        ({
            let after = publish_state(st, first, pkg_a, now_a);
            &&& publish_error(after, second, pkg_b) == Some(Error::Conflict)
            &&& publish_state(after, second, pkg_b, now_b) == after
        }),
{
    lemma_publish_links(st, first, pkg_a, now_a);
}

/// The index entries whose repository is `query`, in the order of the
/// index.
pub open spec fn search_spec(st: StoreView, query: Seq<char>) -> Seq<index::ModelView> {
    st.index.filter(|e: index::ModelView| e.repository == query)
}

/// Finds the index entries of a repository: those whose repository is
/// `query`, in the order in which they were entered. Yanked and deprecated
/// entries are among them, with their marks.
pub fn search(store: &Store, query: &str) -> (r: Vec<index::Model>)
    ensures
        index::table_view(r@) == search_spec(store@, query@),
{
    let rows = store.index();
    let wanted = query.to_owned();
    let ghost pred = |e: index::ModelView| e.repository == query@;
    let mut found: Vec<index::Model> = Vec::new();
    let n = rows.len();
    let mut i: usize = 0;
    proof {
        reveal(Seq::filter);
        assert(index::table_view(found@) =~= index::table_view(rows@).take(0).filter(pred));
    }
    while i < n
        invariant
            i <= n == rows.len(),
            wanted@ == query@,
            index::table_view(rows@) == store@.index,
            pred == (|e: index::ModelView| e.repository == query@),
            index::table_view(found@) == index::table_view(rows@).take(i as int).filter(pred),
        decreases n - i,
    {
        let ghost before = index::table_view(found@);
        let ghost views = index::table_view(rows@);
        proof {
            assert(views.take(i + 1) =~= views.take(i as int).push(views[i as int]));
            views.take(i as int).lemma_filter_push(views[i as int], pred);
        }
        if rows[i].repository == wanted {
            let row = rows[i].duplicate();
            found.push(row);
            assert(index::table_view(found@) =~= before.push(views[i as int]));
        }
        i += 1;
    }
    proof {
        assert(index::table_view(rows@).take(n as int) =~= index::table_view(rows@));
    }
    found
}

/// What was published is found.
///
/// After a publish, a search for the repository of the reference gives
/// what it gave before, and then the new index entry. A search for another
/// repository gives what it gave before.
pub proof fn lemma_published_is_found(
    st: StoreView,
    oid: OciIdentifierView,
    pkg: WasmPkg,
    now: i64,
    query: Seq<char>,
)
    requires
        publish_error(st, oid, pkg) is None,
    ensures
        ({
            let after = publish_state(st, oid, pkg, now);
            search_spec(after, query) == (if query == oid.repository {
                search_spec(st, query).push(after.index.last())
            } else {
                search_spec(st, query)
            })
        }),
{
    let after = published(st, oid, pkg, now);
    let entry = after.index.last();
    lemma_add_package_frame(st, pkg, now);
    assert(after.index == st.index.push(entry));
    st.index.lemma_filter_push(entry, |e: index::ModelView| e.repository == query);
}

/// Whether a blob is the code that the store holds under a digest.
pub open spec fn holds_blob(st: StoreView, digest: Seq<char>, blob: Seq<u8>) -> bool {
    exists|i: int|
        0 <= i < st.sources.len() && (#[trigger] st.sources[i]).digest == digest
            && st.sources[i].wasm_blob == Some(blob)
}

/// Whether the store holds code under a digest.
pub open spec fn holds_code(st: StoreView, digest: Seq<char>) -> bool {
    exists|i: int|
        0 <= i < st.sources.len() && (#[trigger] st.sources[i]).digest == digest
            && st.sources[i].wasm_blob is Some
}

/// Gives the code that the store holds under a digest. Where the store
/// has no source with this digest, or the source holds no code because a
/// remote registry does, the result is `NotFound`.
pub fn download(store: &Store, digest: &str) -> (r: Result<Vec<u8>, Error>)
    ensures
        match r {
            Ok(blob) => holds_blob(store@, digest@, blob@),
            Err(e) => e == Error::NotFound && !holds_code(store@, digest@),
        },
{
    let rows = store.sources();
    let wanted = digest.to_owned();
    let n = rows.len();
    let mut i: usize = 0;
    while i < n
        invariant
            i <= n == rows.len(),
            wanted@ == digest@,
            source::table_view(rows@) == store@.sources,
            forall|j: int|
                0 <= j < i ==> !((#[trigger] store@.sources[j]).digest == digest@
                    && store@.sources[j].wasm_blob is Some),
        decreases n - i,
    {
        if rows[i].digest == wanted {
            if let Some(blob) = &rows[i].wasm_blob {
                let copy = blob.clone();
                assert(copy@ =~= blob@);
                assert(store@.sources[i as int].wasm_blob == Some(copy@));
                return Ok(copy);
            }
        }
        assert(store@.sources[i as int] == rows@[i as int]@);
        i += 1;
    }
    Err(Error::NotFound)
}

/// What was published with its code can be downloaded: after a publish of
/// a package that holds its code, the store holds that code under the
/// digest of the package.
pub proof fn lemma_published_is_held(
    st: StoreView,
    oid: OciIdentifierView,
    pkg: WasmPkg,
    now: i64,
)
    requires
        publish_error(st, oid, pkg) is None,
        pkg.source.wasm is Some,
    ensures
        holds_blob(publish_state(st, oid, pkg, now), pkg.source.digest@, pkg.source.wasm->Some_0@),
{
    let after = published(st, oid, pkg, now);
    lemma_add_package_frame(st, pkg, now);
    let at = after.sources.len() - 1;
    assert(after.sources[at].digest == pkg.source.digest@);
    assert(after.sources[at].wasm_blob == Some(pkg.source.wasm->Some_0@));
}

} // verus!
