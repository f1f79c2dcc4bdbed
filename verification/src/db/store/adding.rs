//! Putting rows in keeps the rules of the store.

use crate::db::entities::package;
use crate::db::rows::{lemma_has_key_push, lemma_refer_push_from, lemma_refer_push_to};
use crate::db::store::{
    author_key, capabilities_key, git_info_key, meta_key, package_capabilities, package_meta,
    package_source, registry_key, source_git_info, source_key, source_registry, tie_author,
    tie_key, tie_meta, url_capabilities, StoreView,
};
use crate::pkg::{Author, Capabilities, GitInfo, PkgMeta, Registry};
use vstd::prelude::*;

verus! {

/// An author that is put in keeps the rules, and is in the store.
pub proof fn lemma_add_author(st: StoreView, a: Author)
    requires
        st.wf(),
        st.room(1),
    ensures
        st.add_author(a).wf(),
        st.add_author(a).has_author(st.next_id),
{
    let row = st.add_author(a).authors.last();
    assert(st.add_author(a).authors == st.authors.push(row));
    lemma_has_key_push(st.authors, author_key(), row);
    lemma_refer_push_to(st.package_authors, tie_author(), st.authors, author_key(), row);
}

/// A tie between metadata and an author that are in the store, and that
/// are not tied yet, keeps the rules.
pub proof fn lemma_add_package_author(st: StoreView, meta_id: u64, author_id: u64)
    requires
        st.wf(),
        st.has_meta(meta_id),
        st.has_author(author_id),
        !st.has_tie(meta_id, author_id),
    ensures
        st.add_package_author(meta_id, author_id).wf(),
{
    let row = st.add_package_author(meta_id, author_id).package_authors.last();
    assert(st.add_package_author(meta_id, author_id).package_authors == st.package_authors.push(
        row,
    ));
    lemma_refer_push_from(st.package_authors, tie_meta(), st.metas, meta_key(), row);
    lemma_refer_push_from(st.package_authors, tie_author(), st.authors, author_key(), row);
}

/// A row of metadata that is put in keeps the rules, and is in the store.
pub proof fn lemma_add_meta_row(st: StoreView, m: PkgMeta)
    requires
        st.wf(),
        st.room(1),
    ensures
        st.add_meta_row(m).wf(),
        st.add_meta_row(m).has_meta(st.next_id),
{
    let row = st.add_meta_row(m).metas.last();
    assert(st.add_meta_row(m).metas == st.metas.push(row));
    lemma_has_key_push(st.metas, meta_key(), row);
    lemma_refer_push_to(st.package_authors, tie_meta(), st.metas, meta_key(), row);
    lemma_refer_push_to(st.packages, package_meta(), st.metas, meta_key(), row);
}

/// A URL of capabilities that are in the store keeps the rules.
pub proof fn lemma_add_url(st: StoreView, capability_id: u64, url: String)
    requires
        st.wf(),
        st.room(1),
        st.has_capabilities(capability_id),
    ensures
        st.add_url(capability_id, url).wf(),
{
    let row = st.add_url(capability_id, url).url_whitelist.last();
    assert(st.add_url(capability_id, url).url_whitelist == st.url_whitelist.push(row));
    lemma_refer_push_from(
        st.url_whitelist,
        url_capabilities(),
        st.capabilities,
        capabilities_key(),
        row,
    );
}

/// A row of capabilities that is put in keeps the rules, and is in the
/// store.
pub proof fn lemma_add_capabilities_row(st: StoreView, c: Capabilities)
    requires
        st.wf(),
        st.room(1),
    ensures
        st.add_capabilities_row(c).wf(),
        st.add_capabilities_row(c).has_capabilities(st.next_id),
{
    let row = st.add_capabilities_row(c).capabilities.last();
    assert(st.add_capabilities_row(c).capabilities == st.capabilities.push(row));
    lemma_has_key_push(st.capabilities, capabilities_key(), row);
    lemma_refer_push_to(
        st.url_whitelist,
        url_capabilities(),
        st.capabilities,
        capabilities_key(),
        row,
    );
    lemma_refer_push_to(
        st.packages,
        package_capabilities(),
        st.capabilities,
        capabilities_key(),
        row,
    );
}

/// Git information that is put in keeps the rules, and is in the store.
pub proof fn lemma_add_git_info(st: StoreView, g: GitInfo)
    requires
        st.wf(),
        st.room(1),
    ensures
        st.add_git_info(g).wf(),
        st.add_git_info(g).has_git_info(st.next_id),
{
    let row = st.add_git_info(g).git_infos.last();
    assert(st.add_git_info(g).git_infos == st.git_infos.push(row));
    lemma_has_key_push(st.git_infos, git_info_key(), row);
    lemma_refer_push_to(st.sources, source_git_info(), st.git_infos, git_info_key(), row);
}

/// A remote registry whose host name and namespace are not in the store
/// keeps the rules when it is put in, and is in the store.
pub proof fn lemma_add_registry(st: StoreView, r: Registry)
    requires
        st.wf(),
        st.room(1),
        !st.has_registry(r.registry_hostname@, r.namespace@),
    ensures
        st.add_registry(r).wf(),
        st.add_registry(r).has_registry_row(st.next_id),
{
    let row = st.add_registry(r).registries.last();
    assert(st.add_registry(r).registries == st.registries.push(row));
    lemma_has_key_push(st.registries, registry_key(), row);
    lemma_refer_push_to(st.sources, source_registry(), st.registries, registry_key(), row);
}

/// The row of a source whose digest is not in the store, and that refers
/// to a registry and to git information that are, keeps the rules, and is
/// in the store.
pub proof fn lemma_add_source_row(
    st: StoreView,
    version: Seq<char>,
    digest: Seq<char>,
    wasm_blob: Option<Seq<u8>>,
    registry_id: Option<u64>,
    git_info_id: Option<u64>,
)
    requires
        st.wf(),
        st.room(1),
        !st.has_digest(digest),
        registry_id matches Some(r) ==> st.has_registry_row(r),
        git_info_id matches Some(g) ==> st.has_git_info(g),
    ensures
        st.add_source_row(version, digest, wasm_blob, registry_id, git_info_id).wf(),
        st.add_source_row(version, digest, wasm_blob, registry_id, git_info_id).has_source(
            st.next_id,
        ),
{
    let after = st.add_source_row(version, digest, wasm_blob, registry_id, git_info_id);
    let row = after.sources.last();
    assert(after.sources == st.sources.push(row));
    lemma_has_key_push(st.sources, source_key(), row);
    lemma_refer_push_from(st.sources, source_registry(), st.registries, registry_key(), row);
    lemma_refer_push_from(st.sources, source_git_info(), st.git_infos, git_info_key(), row);
    lemma_refer_push_to(st.packages, package_source(), st.sources, source_key(), row);
}

/// The row of a package that gets the next id, and that refers to
/// metadata, a source and capabilities that are in the store, keeps the
/// rules.
pub proof fn lemma_add_package_row(st: StoreView, row: package::ModelView)
    requires
        st.wf(),
        st.room(1),
        row.id == st.next_id,
        st.has_meta(row.meta_id),
        st.has_source(row.source_id),
        row.capabilities_id matches Some(c) ==> st.has_capabilities(c),
    ensures
        st.add_package_row(row).wf(),
{
    lemma_refer_push_from(st.packages, package_meta(), st.metas, meta_key(), row);
    lemma_refer_push_from(st.packages, package_source(), st.sources, source_key(), row);
    lemma_refer_push_from(
        st.packages,
        package_capabilities(),
        st.capabilities,
        capabilities_key(),
        row,
    );
}

/// An index entry whose key is not in the store keeps the rules.
pub proof fn lemma_add_index(
    st: StoreView,
    pkg_id: u64,
    registry: Seq<char>,
    namespace: Seq<char>,
    repository: Seq<char>,
    tag: Seq<char>,
    now: i64,
)
    requires
        st.wf(),
        st.room(1),
        !st.has_index_key(registry, namespace, tag),
    ensures
        st.add_index(pkg_id, registry, namespace, repository, tag, now).wf(),
{
}

/// No tie refers to the author that comes next: every author that a tie
/// refers to is in the store, and has an id that was handed out before.
pub proof fn lemma_fresh_author_untied(st: StoreView, meta_id: u64)
    requires
        st.wf(),
    ensures
        !st.has_tie(meta_id, st.next_id),
{
    if st.has_tie(meta_id, st.next_id) {
        let i = choose|i: int|
            0 <= i < st.package_authors.len() && tie_key()(#[trigger] st.package_authors[i]) == (
                meta_id,
                st.next_id,
            );
        assert(tie_author()(st.package_authors[i]) == Some(st.next_id));
        assert(st.has_author(st.next_id));
    }
}

} // verus!
