//! Deleting rows, with what the tables that refer to them ask for: a
//! package goes with its source and with its metadata; a source stays
//! without its registry and without its git information.

use crate::db::entities::{
    author, capabilities, git_info, meta, package, package_author, registry, source,
    url_white_list,
};
use crate::db::rows::{
    lemma_filter_from, lemma_filter_holds, lemma_filter_keys_differ, lemma_map_keys_differ,
    lemma_refer_cascade, lemma_refer_filter_from, lemma_refer_map_from, lemma_refer_map_to,
    lemma_refer_set_null,
};
use crate::db::store::{
    author_key, capabilities_key, git_info_key, meta_key, package_capabilities, package_key,
    package_meta, package_source, registry_key, registry_name, source_digest, source_git_info,
    source_key, source_registry, tie_author, tie_key, tie_meta, url_capabilities, url_key, Store,
    StoreView,
};
use std::mem::swap;
use vstd::prelude::*;

verus! {

/// Whether a source is another than the one with this id.
pub open spec fn source_is_not(id: u64) -> spec_fn(source::ModelView) -> bool {
    |r: source::ModelView| r.id != id
}

/// Whether metadata are other than those with this id.
pub open spec fn meta_is_not(id: u64) -> spec_fn(meta::ModelView) -> bool {
    |r: meta::ModelView| r.id != id
}

/// Whether a registry is another than the one with this id.
pub open spec fn registry_is_not(id: u64) -> spec_fn(registry::ModelView) -> bool {
    |r: registry::ModelView| r.id != id
}

/// Whether git information is other than that with this id.
pub open spec fn git_info_is_not(id: u64) -> spec_fn(git_info::ModelView) -> bool {
    |r: git_info::ModelView| r.id != id
}

/// Whether capabilities are other than those with this id.
pub open spec fn capabilities_are_not(id: u64) -> spec_fn(capabilities::ModelView) -> bool {
    |r: capabilities::ModelView| r.id != id
}

/// Whether an author is another than the one with this id.
pub open spec fn author_is_not(id: u64) -> spec_fn(author::ModelView) -> bool {
    |r: author::ModelView| r.id != id
}

/// Whether a package refers to another source than the one with this id.
pub open spec fn package_not_of_source(id: u64) -> spec_fn(package::ModelView) -> bool {
    |r: package::ModelView| r.source_id != id
}

/// Whether a package refers to other metadata than those with this id.
pub open spec fn package_not_of_meta(id: u64) -> spec_fn(package::ModelView) -> bool {
    |r: package::ModelView| r.meta_id != id
}

/// Whether a tie belongs to other metadata than those with this id.
pub open spec fn tie_not_of_meta(id: u64) -> spec_fn(package_author::ModelView) -> bool {
    |r: package_author::ModelView| r.meta_id != id
}

/// Whether a tie belongs to another author than the one with this id.
pub open spec fn tie_not_of_author(id: u64) -> spec_fn(package_author::ModelView) -> bool {
    |r: package_author::ModelView| r.author_id != id
}

/// Whether a URL belongs to other capabilities than those with this id.
pub open spec fn url_not_of_capabilities(id: u64) -> spec_fn(url_white_list::ModelView) -> bool {
    |r: url_white_list::ModelView| r.capability_id != id
}

/// A source without its registry, where that is the one with this id.
pub open spec fn without_registry(id: u64) -> spec_fn(source::ModelView) -> source::ModelView {
    |r: source::ModelView|
        if r.registry_id == Some(id) {
            source::ModelView { registry_id: None, ..r }
        } else {
            r
        }
}

/// A source without its git information, where that is the one with this id.
pub open spec fn without_git_info(id: u64) -> spec_fn(source::ModelView) -> source::ModelView {
    |r: source::ModelView|
        if r.git_info_id == Some(id) {
            source::ModelView { git_info_id: None, ..r }
        } else {
            r
        }
}

/// A package without its capabilities, where those are the ones with this id.
pub open spec fn without_capabilities(id: u64) -> spec_fn(package::ModelView) -> package::ModelView {
    |r: package::ModelView|
        if r.capabilities_id == Some(id) {
            package::ModelView { capabilities_id: None, ..r }
        } else {
            r
        }
}

impl StoreView {
    /// The store without the source with this id and without the packages
    /// that refer to it.
    pub open spec fn delete_source(self, id: u64) -> StoreView {
        StoreView {
            sources: self.sources.filter(source_is_not(id)),
            packages: self.packages.filter(package_not_of_source(id)),
            ..self
        }
    }

    /// The store without the metadata with this id, without the packages
    /// that refer to them and without their ties to authors.
    pub open spec fn delete_meta(self, id: u64) -> StoreView {
        StoreView {
            metas: self.metas.filter(meta_is_not(id)),
            packages: self.packages.filter(package_not_of_meta(id)),
            package_authors: self.package_authors.filter(tie_not_of_meta(id)),
            ..self
        }
    }

    /// The store without the registry with this id. The sources that
    /// referred to it stay and refer to none.
    pub open spec fn delete_registry(self, id: u64) -> StoreView {
        StoreView {
            registries: self.registries.filter(registry_is_not(id)),
            sources: self.sources.map_values(without_registry(id)),
            ..self
        }
    }

    /// The store without the git information with this id. The sources
    /// that referred to it stay and refer to none.
    pub open spec fn delete_git_info(self, id: u64) -> StoreView {
        StoreView {
            git_infos: self.git_infos.filter(git_info_is_not(id)),
            sources: self.sources.map_values(without_git_info(id)),
            ..self
        }
    }

    /// The store without the capabilities with this id and without their
    /// URLs. The packages that referred to them stay and refer to none.
    pub open spec fn delete_capabilities(self, id: u64) -> StoreView {
        StoreView {
            capabilities: self.capabilities.filter(capabilities_are_not(id)),
            url_whitelist: self.url_whitelist.filter(url_not_of_capabilities(id)),
            packages: self.packages.map_values(without_capabilities(id)),
            ..self
        }
    }

    /// The store without the author with this id and without the ties of
    /// that author to metadata.
    pub open spec fn delete_author(self, id: u64) -> StoreView {
        StoreView {
            authors: self.authors.filter(author_is_not(id)),
            package_authors: self.package_authors.filter(tie_not_of_author(id)),
            ..self
        }
    }
}

/// The rows that pass a test, in their order.
fn keep_rows<T: View>(
    rows: Vec<T>,
    test: impl Fn(&T) -> bool,
    Ghost(pred): Ghost<spec_fn(T::V) -> bool>,
) -> (kept: Vec<T>)
    requires
        forall|r: &T| #[trigger] test.requires((r,)),
        forall|r: &T, b: bool| #[trigger] test.ensures((r,), b) ==> b == pred(r@),
    ensures
        kept@.map_values(|r: T| r@) == rows@.map_values(|r: T| r@).filter(pred),
{
    let mut kept: Vec<T> = Vec::new();
    let ghost views = rows@.map_values(|r: T| r@);
    proof {
        reveal(Seq::filter);
        assert(kept@.map_values(|r: T| r@) =~= views.take(0).filter(pred));
    }
    for row in it: rows
        invariant
            it.seq() == rows@,
            views == rows@.map_values(|r: T| r@),
            forall|r: &T| #[trigger] test.requires((r,)),
            forall|r: &T, b: bool| #[trigger] test.ensures((r,), b) ==> b == pred(r@),
            kept@.map_values(|r: T| r@) == views.take(it.index() as int).filter(pred),
    {
        let ghost before = kept@.map_values(|r: T| r@);
        let ghost i = it.index() as int;
        proof {
            assert(views.take(i + 1) =~= views.take(i).push(views[i]));
            views.take(i).lemma_filter_push(views[i], pred);
        }
        if test(&row) {
            kept.push(row);
            assert(kept@.map_values(|r: T| r@) =~= before.push(views[i]));
        }
    }
    proof {
        assert(views.take(rows@.len() as int) =~= views);
    }
    kept
}

/// The rows with a change made to each of them, in their order.
fn change_rows<T: View>(
    rows: Vec<T>,
    change: impl Fn(T) -> T,
    Ghost(changed): Ghost<spec_fn(T::V) -> T::V>,
) -> (out: Vec<T>)
    requires
        forall|r: T| #[trigger] change.requires((r,)),
        forall|r: T, o: T| #[trigger] change.ensures((r,), o) ==> o@ == changed(r@),
    ensures
        out@.map_values(|r: T| r@) == rows@.map_values(|r: T| r@).map_values(changed),
{
    let mut out: Vec<T> = Vec::new();
    for row in it: rows
        invariant
            it.seq() == rows@,
            out@.len() == it.index(),
            forall|r: T| #[trigger] change.requires((r,)),
            forall|r: T, o: T| #[trigger] change.ensures((r,), o) ==> o@ == changed(r@),
            forall|j: int| 0 <= j < out@.len() ==> (#[trigger] out@[j])@ == changed(rows@[j]@),
    {
        out.push(change(row));
    }
    assert(out@.map_values(|r: T| r@) =~= rows@.map_values(|r: T| r@).map_values(changed));
    out
}

/// Takes the registry with this id from a source that refers to it.
fn drop_registry(row: source::Model, id: u64) -> (r: source::Model)
    ensures
        r@ == without_registry(id)(row@),
{
    match row.registry_id {
        Some(r) if r == id => source::Model { registry_id: None, ..row },
        _ => row,
    }
}

/// Takes the git information with this id from a source that refers to it.
fn drop_git_info(row: source::Model, id: u64) -> (r: source::Model)
    ensures
        r@ == without_git_info(id)(row@),
{
    match row.git_info_id {
        Some(r) if r == id => source::Model { git_info_id: None, ..row },
        _ => row,
    }
}

/// Takes the capabilities with this id from a package that refers to them.
fn drop_capabilities(row: package::Model, id: u64) -> (r: package::Model)
    ensures
        r@ == without_capabilities(id)(row@),
{
    match row.capabilities_id {
        Some(r) if r == id => package::Model { capabilities_id: None, ..row },
        _ => row,
    }
}

/// Deleting a source keeps the rules of the store.
pub proof fn lemma_delete_source_wf(st: StoreView, id: u64)
    requires
        st.wf(),
    ensures
        st.delete_source(id).wf(),
{
    let bound = st.next_id;
    let sources = source_is_not(id);
    let packages = package_not_of_source(id);
    lemma_filter_holds(st.sources, sources, |r: source::ModelView| r.id < bound);
    lemma_filter_holds(st.packages, packages, |r: package::ModelView| r.id < bound);
    lemma_filter_keys_differ(st.sources, sources, source_key());
    lemma_filter_keys_differ(st.sources, sources, source_digest());
    lemma_filter_keys_differ(st.packages, packages, package_key());
    lemma_refer_filter_from(st.sources, sources, source_registry(), st.registries, registry_key());
    lemma_refer_filter_from(st.sources, sources, source_git_info(), st.git_infos, git_info_key());
    lemma_refer_filter_from(st.packages, packages, package_meta(), st.metas, meta_key());
    lemma_refer_filter_from(
        st.packages,
        packages,
        package_capabilities(),
        st.capabilities,
        capabilities_key(),
    );
    lemma_refer_cascade(
        st.packages,
        packages,
        package_source(),
        st.sources,
        sources,
        source_key(),
        id,
    );
}

/// Deleting metadata keeps the rules of the store.
pub proof fn lemma_delete_meta_wf(st: StoreView, id: u64)
    requires
        st.wf(),
    ensures
        st.delete_meta(id).wf(),
{
    let bound = st.next_id;
    let metas = meta_is_not(id);
    let packages = package_not_of_meta(id);
    let ties = tie_not_of_meta(id);
    lemma_filter_holds(st.metas, metas, |r: meta::ModelView| r.id < bound);
    lemma_filter_holds(st.packages, packages, |r: package::ModelView| r.id < bound);
    lemma_filter_keys_differ(st.metas, metas, meta_key());
    lemma_filter_keys_differ(st.packages, packages, package_key());
    lemma_filter_keys_differ(st.package_authors, ties, tie_key());
    lemma_refer_cascade(st.package_authors, ties, tie_meta(), st.metas, metas, meta_key(), id);
    lemma_refer_filter_from(st.package_authors, ties, tie_author(), st.authors, author_key());
    lemma_refer_cascade(st.packages, packages, package_meta(), st.metas, metas, meta_key(), id);
    lemma_refer_filter_from(st.packages, packages, package_source(), st.sources, source_key());
    lemma_refer_filter_from(
        st.packages,
        packages,
        package_capabilities(),
        st.capabilities,
        capabilities_key(),
    );
}

/// Deleting a registry keeps the rules of the store.
pub proof fn lemma_delete_registry_wf(st: StoreView, id: u64)
    requires
        st.wf(),
    ensures
        st.delete_registry(id).wf(),
{
    let after = st.delete_registry(id);
    let bound = st.next_id;
    let registries = registry_is_not(id);
    let unlink = without_registry(id);
    lemma_filter_holds(st.registries, registries, |r: registry::ModelView| r.id < bound);
    assert forall|i: int| 0 <= i < after.sources.len() implies (#[trigger] after.sources[i]).id
        < bound by {
        assert(after.sources[i] == unlink(st.sources[i]));
    }
    lemma_filter_keys_differ(st.registries, registries, registry_key());
    lemma_filter_keys_differ(st.registries, registries, registry_name());
    lemma_map_keys_differ(st.sources, unlink, source_key());
    lemma_map_keys_differ(st.sources, unlink, source_digest());
    lemma_refer_set_null(
        st.sources,
        unlink,
        source_registry(),
        st.registries,
        registries,
        registry_key(),
        id,
    );
    lemma_refer_map_from(st.sources, unlink, source_git_info(), st.git_infos, git_info_key());
    lemma_refer_map_to(st.packages, package_source(), st.sources, unlink, source_key());
}

/// Deleting git information keeps the rules of the store.
pub proof fn lemma_delete_git_info_wf(st: StoreView, id: u64)
    requires
        st.wf(),
    ensures
        st.delete_git_info(id).wf(),
{
    let after = st.delete_git_info(id);
    let bound = st.next_id;
    let git_infos = git_info_is_not(id);
    let unlink = without_git_info(id);
    lemma_filter_holds(st.git_infos, git_infos, |r: git_info::ModelView| r.id < bound);
    assert forall|i: int| 0 <= i < after.sources.len() implies (#[trigger] after.sources[i]).id
        < bound by {
        assert(after.sources[i] == unlink(st.sources[i]));
    }
    lemma_filter_keys_differ(st.git_infos, git_infos, git_info_key());
    lemma_map_keys_differ(st.sources, unlink, source_key());
    lemma_map_keys_differ(st.sources, unlink, source_digest());
    lemma_refer_set_null(
        st.sources,
        unlink,
        source_git_info(),
        st.git_infos,
        git_infos,
        git_info_key(),
        id,
    );
    lemma_refer_map_from(st.sources, unlink, source_registry(), st.registries, registry_key());
    lemma_refer_map_to(st.packages, package_source(), st.sources, unlink, source_key());
}

/// Deleting capabilities keeps the rules of the store.
pub proof fn lemma_delete_capabilities_wf(st: StoreView, id: u64)
    requires
        st.wf(),
    ensures
        st.delete_capabilities(id).wf(),
{
    let after = st.delete_capabilities(id);
    let bound = st.next_id;
    let capabilities = capabilities_are_not(id);
    let urls = url_not_of_capabilities(id);
    let unlink = without_capabilities(id);
    lemma_filter_holds(st.capabilities, capabilities, |r: capabilities::ModelView| r.id < bound);
    lemma_filter_holds(st.url_whitelist, urls, |r: url_white_list::ModelView| r.id < bound);
    assert forall|i: int| 0 <= i < after.packages.len() implies (#[trigger] after.packages[i]).id
        < bound by {
        assert(after.packages[i] == unlink(st.packages[i]));
    }
    lemma_filter_keys_differ(st.capabilities, capabilities, capabilities_key());
    lemma_filter_keys_differ(st.url_whitelist, urls, url_key());
    lemma_map_keys_differ(st.packages, unlink, package_key());
    lemma_refer_cascade(
        st.url_whitelist,
        urls,
        url_capabilities(),
        st.capabilities,
        capabilities,
        capabilities_key(),
        id,
    );
    lemma_refer_set_null(
        st.packages,
        unlink,
        package_capabilities(),
        st.capabilities,
        capabilities,
        capabilities_key(),
        id,
    );
    lemma_refer_map_from(st.packages, unlink, package_meta(), st.metas, meta_key());
    lemma_refer_map_from(st.packages, unlink, package_source(), st.sources, source_key());
}

/// Deleting an author keeps the rules of the store.
pub proof fn lemma_delete_author_wf(st: StoreView, id: u64)
    requires
        st.wf(),
    ensures
        st.delete_author(id).wf(),
{
    let bound = st.next_id;
    let authors = author_is_not(id);
    let ties = tie_not_of_author(id);
    lemma_filter_holds(st.authors, authors, |r: author::ModelView| r.id < bound);
    lemma_filter_keys_differ(st.authors, authors, author_key());
    lemma_filter_keys_differ(st.package_authors, ties, tie_key());
    lemma_refer_cascade(
        st.package_authors,
        ties,
        tie_author(),
        st.authors,
        authors,
        author_key(),
        id,
    );
    lemma_refer_filter_from(st.package_authors, ties, tie_meta(), st.metas, meta_key());
}

/// A package goes with its source.
///
/// After a source is deleted no source has its id and no package refers to
/// it. Every other source and every package of another source is still
/// there, and the other tables are as they were.
pub proof fn lemma_delete_source_cascades(st: StoreView, id: u64)
    ensures
        ({
            let after = st.delete_source(id);
            &&& forall|i: int| 0 <= i < after.sources.len() ==> (#[trigger] after.sources[i]).id != id
            &&& forall|i: int|
                0 <= i < after.packages.len() ==> (#[trigger] after.packages[i]).source_id != id
            &&& forall|i: int|
                0 <= i < st.sources.len() && st.sources[i].id != id ==> after.sources.contains(
                    #[trigger] st.sources[i],
                )
            &&& forall|i: int|
                0 <= i < st.packages.len() && st.packages[i].source_id != id
                    ==> after.packages.contains(#[trigger] st.packages[i])
            &&& forall|i: int|
                0 <= i < after.packages.len() ==> st.packages.contains(#[trigger] after.packages[i])
            &&& after.metas == st.metas
            &&& after.registries == st.registries
            &&& after.git_infos == st.git_infos
            &&& after.capabilities == st.capabilities
            &&& after.index == st.index
        }),
{
    let after = st.delete_source(id);
    lemma_filter_from(st.sources, source_is_not(id));
    lemma_filter_from(st.packages, package_not_of_source(id));
    assert forall|i: int|
        0 <= i < st.sources.len() && st.sources[i].id != id implies after.sources.contains(
        #[trigger] st.sources[i],
    ) by {
        st.sources.lemma_filter_contains(source_is_not(id), i);
    }
    assert forall|i: int|
        0 <= i < st.packages.len() && st.packages[i].source_id != id implies after.packages.contains(
        #[trigger] st.packages[i],
    ) by {
        st.packages.lemma_filter_contains(package_not_of_source(id), i);
    }
}

/// A package goes with its metadata.
///
/// After metadata are deleted no metadata have their id and no package
/// refers to them. Every package of other metadata is still there, and
/// sources and index are as they were.
pub proof fn lemma_delete_meta_cascades(st: StoreView, id: u64)
    ensures
        ({
            let after = st.delete_meta(id);
            &&& forall|i: int| 0 <= i < after.metas.len() ==> (#[trigger] after.metas[i]).id != id
            &&& forall|i: int|
                0 <= i < after.packages.len() ==> (#[trigger] after.packages[i]).meta_id != id
            &&& forall|i: int|
                0 <= i < after.package_authors.len() ==> (
                #[trigger] after.package_authors[i]).meta_id != id
            &&& forall|i: int|
                0 <= i < st.metas.len() && st.metas[i].id != id ==> after.metas.contains(
                    #[trigger] st.metas[i],
                )
            &&& forall|i: int|
                0 <= i < st.packages.len() && st.packages[i].meta_id != id
                    ==> after.packages.contains(#[trigger] st.packages[i])
            &&& forall|i: int|
                0 <= i < after.packages.len() ==> st.packages.contains(#[trigger] after.packages[i])
            &&& after.sources == st.sources
            &&& after.authors == st.authors
            &&& after.index == st.index
        }),
{
    let after = st.delete_meta(id);
    lemma_filter_from(st.metas, meta_is_not(id));
    lemma_filter_from(st.packages, package_not_of_meta(id));
    lemma_filter_from(st.package_authors, tie_not_of_meta(id));
    assert forall|i: int|
        0 <= i < st.metas.len() && st.metas[i].id != id implies after.metas.contains(
        #[trigger] st.metas[i],
    ) by {
        st.metas.lemma_filter_contains(meta_is_not(id), i);
    }
    assert forall|i: int|
        0 <= i < st.packages.len() && st.packages[i].meta_id != id implies after.packages.contains(
        #[trigger] st.packages[i],
    ) by {
        st.packages.lemma_filter_contains(package_not_of_meta(id), i);
    }
}

/// A source stays without its registry.
///
/// After a registry is deleted no registry has its id. Every source is
/// still there, in its place: one that referred to the registry refers to
/// none and is as it was in all else, and every other source is as it was.
/// The packages are as they were.
pub proof fn lemma_delete_registry_keeps_sources(st: StoreView, id: u64)
    ensures
        ({
            let after = st.delete_registry(id);
            &&& forall|i: int|
                0 <= i < after.registries.len() ==> (#[trigger] after.registries[i]).id != id
            &&& after.sources.len() == st.sources.len()
            &&& forall|i: int|
                0 <= i < st.sources.len() ==> (#[trigger] after.sources[i]) == (if st.sources[i].registry_id
                    == Some(id) {
                    source::ModelView { registry_id: None, ..st.sources[i] }
                } else {
                    st.sources[i]
                })
            &&& after.packages == st.packages
            &&& after.git_infos == st.git_infos
            &&& after.index == st.index
        }),
{
    lemma_filter_from(st.registries, registry_is_not(id));
}

/// A source stays without its git information.
///
/// After git information is deleted no git information has its id. Every
/// source is still there, in its place: one that referred to the git
/// information refers to none and is as it was in all else, and every
/// other source is as it was. The packages are as they were.
pub proof fn lemma_delete_git_info_keeps_sources(st: StoreView, id: u64)
    ensures
        ({
            let after = st.delete_git_info(id);
            &&& forall|i: int|
                0 <= i < after.git_infos.len() ==> (#[trigger] after.git_infos[i]).id != id
            &&& after.sources.len() == st.sources.len()
            &&& forall|i: int|
                0 <= i < st.sources.len() ==> (#[trigger] after.sources[i]) == (if st.sources[i].git_info_id
                    == Some(id) {
                    source::ModelView { git_info_id: None, ..st.sources[i] }
                } else {
                    st.sources[i]
                })
            &&& after.packages == st.packages
            &&& after.registries == st.registries
            &&& after.index == st.index
        }),
{
    lemma_filter_from(st.git_infos, git_info_is_not(id));
}

/// URLs go with their capabilities, and a package stays without them.
///
/// After capabilities are deleted no capabilities have their id and no URL
/// belongs to them. Every package is still there, in its place: one that
/// referred to the capabilities refers to none and is as it was in all
/// else.
pub proof fn lemma_delete_capabilities_cascades(st: StoreView, id: u64)
    ensures
        ({
            let after = st.delete_capabilities(id);
            &&& forall|i: int|
                0 <= i < after.capabilities.len() ==> (#[trigger] after.capabilities[i]).id != id
            &&& forall|i: int|
                0 <= i < after.url_whitelist.len() ==> (
                #[trigger] after.url_whitelist[i]).capability_id != id
            &&& after.packages.len() == st.packages.len()
            &&& forall|i: int|
                0 <= i < st.packages.len() ==> (#[trigger] after.packages[i]) == (if st.packages[i].capabilities_id
                    == Some(id) {
                    package::ModelView { capabilities_id: None, ..st.packages[i] }
                } else {
                    st.packages[i]
                })
            &&& after.sources == st.sources
            &&& after.index == st.index
        }),
{
    lemma_filter_from(st.capabilities, capabilities_are_not(id));
    lemma_filter_from(st.url_whitelist, url_not_of_capabilities(id));
}

impl Store {
    /// Deletes the source with this id, and with it the packages that
    /// refer to it.
    pub fn delete_source(&mut self, id: u64)
        requires
            old(self)@.wf(),
        ensures
            final(self)@ == old(self)@.delete_source(id),
            final(self)@.wf(),
    {
        let ghost before = self@;
        let mut sources: Vec<source::Model> = Vec::new();
        swap(&mut self.sources, &mut sources);
        let stays = |r: &source::Model| -> (b: bool)
            ensures
                b == (r.id != id),
            { r.id != id };
        self.sources = keep_rows(sources, stays, Ghost(source_is_not(id)));
        let mut packages: Vec<package::Model> = Vec::new();
        swap(&mut self.packages, &mut packages);
        let stays = |r: &package::Model| -> (b: bool)
            ensures
                b == (r.source_id != id),
            { r.source_id != id };
        self.packages = keep_rows(packages, stays, Ghost(package_not_of_source(id)));
        proof {
            assert(self@ =~= before.delete_source(id));
            lemma_delete_source_wf(before, id);
        }
    }

    /// Deletes the metadata with this id, and with them the packages that
    /// refer to them and their ties to authors.
    pub fn delete_meta(&mut self, id: u64)
        requires
            old(self)@.wf(),
        ensures
            final(self)@ == old(self)@.delete_meta(id),
            final(self)@.wf(),
    {
        let ghost before = self@;
        let mut metas: Vec<meta::Model> = Vec::new();
        swap(&mut self.metas, &mut metas);
        let stays = |r: &meta::Model| -> (b: bool)
            ensures
                b == (r.id != id),
            { r.id != id };
        self.metas = keep_rows(metas, stays, Ghost(meta_is_not(id)));
        let mut packages: Vec<package::Model> = Vec::new();
        swap(&mut self.packages, &mut packages);
        let stays = |r: &package::Model| -> (b: bool)
            ensures
                b == (r.meta_id != id),
            { r.meta_id != id };
        self.packages = keep_rows(packages, stays, Ghost(package_not_of_meta(id)));
        let mut ties: Vec<package_author::Model> = Vec::new();
        swap(&mut self.package_authors, &mut ties);
        let stays = |r: &package_author::Model| -> (b: bool)
            ensures
                b == (r.meta_id != id),
            { r.meta_id != id };
        self.package_authors = keep_rows(ties, stays, Ghost(tie_not_of_meta(id)));
        proof {
            assert(self@ =~= before.delete_meta(id));
            lemma_delete_meta_wf(before, id);
        }
    }

    /// Deletes the registry with this id. The sources that referred to it
    /// stay and refer to none.
    pub fn delete_registry(&mut self, id: u64)
        requires
            old(self)@.wf(),
        ensures
            final(self)@ == old(self)@.delete_registry(id),
            final(self)@.wf(),
    {
        let ghost before = self@;
        let mut registries: Vec<registry::Model> = Vec::new();
        swap(&mut self.registries, &mut registries);
        let stays = |r: &registry::Model| -> (b: bool)
            ensures
                b == (r.id != id),
            { r.id != id };
        self.registries = keep_rows(registries, stays, Ghost(registry_is_not(id)));
        let mut sources: Vec<source::Model> = Vec::new();
        swap(&mut self.sources, &mut sources);
        let change = |r: source::Model| -> (o: source::Model)
            ensures
                o@ == without_registry(id)(r@),
            { drop_registry(r, id) };
        self.sources = change_rows(sources, change, Ghost(without_registry(id)));
        proof {
            assert(self@ =~= before.delete_registry(id));
            lemma_delete_registry_wf(before, id);
        }
    }

    /// Deletes the git information with this id. The sources that referred
    /// to it stay and refer to none.
    pub fn delete_git_info(&mut self, id: u64)
        requires
            old(self)@.wf(),
        ensures
            final(self)@ == old(self)@.delete_git_info(id),
            final(self)@.wf(),
    {
        let ghost before = self@;
        let mut git_infos: Vec<git_info::Model> = Vec::new();
        swap(&mut self.git_infos, &mut git_infos);
        let stays = |r: &git_info::Model| -> (b: bool)
            ensures
                b == (r.id != id),
            { r.id != id };
        self.git_infos = keep_rows(git_infos, stays, Ghost(git_info_is_not(id)));
        let mut sources: Vec<source::Model> = Vec::new();
        swap(&mut self.sources, &mut sources);
        let change = |r: source::Model| -> (o: source::Model)
            ensures
                o@ == without_git_info(id)(r@),
            { drop_git_info(r, id) };
        self.sources = change_rows(sources, change, Ghost(without_git_info(id)));
        proof {
            assert(self@ =~= before.delete_git_info(id));
            lemma_delete_git_info_wf(before, id);
        }
    }

    /// Deletes the capabilities with this id, and with them their URLs.
    /// The packages that referred to them stay and refer to none.
    pub fn delete_capabilities(&mut self, id: u64)
        requires
            old(self)@.wf(),
        ensures
            final(self)@ == old(self)@.delete_capabilities(id),
            final(self)@.wf(),
    {
        let ghost before = self@;
        let mut capabilities: Vec<capabilities::Model> = Vec::new();
        swap(&mut self.capabilities, &mut capabilities);
        let stays = |r: &capabilities::Model| -> (b: bool)
            ensures
                b == (r.id != id),
            { r.id != id };
        self.capabilities = keep_rows(capabilities, stays, Ghost(capabilities_are_not(id)));
        let mut urls: Vec<url_white_list::Model> = Vec::new();
        swap(&mut self.url_whitelist, &mut urls);
        let stays = |r: &url_white_list::Model| -> (b: bool)
            ensures
                b == (r.capability_id != id),
            { r.capability_id != id };
        self.url_whitelist = keep_rows(urls, stays, Ghost(url_not_of_capabilities(id)));
        let mut packages: Vec<package::Model> = Vec::new();
        swap(&mut self.packages, &mut packages);
        let change = |r: package::Model| -> (o: package::Model)
            ensures
                o@ == without_capabilities(id)(r@),
            { drop_capabilities(r, id) };
        self.packages = change_rows(packages, change, Ghost(without_capabilities(id)));
        proof {
            assert(self@ =~= before.delete_capabilities(id));
            lemma_delete_capabilities_wf(before, id);
        }
    }

    /// Deletes the author with this id, and with it the ties of the author
    /// to metadata.
    pub fn delete_author(&mut self, id: u64)
        requires
            old(self)@.wf(),
        ensures
            final(self)@ == old(self)@.delete_author(id),
            final(self)@.wf(),
    {
        let ghost before = self@;
        let mut authors: Vec<author::Model> = Vec::new();
        swap(&mut self.authors, &mut authors);
        let stays = |r: &author::Model| -> (b: bool)
            ensures
                b == (r.id != id),
            { r.id != id };
        self.authors = keep_rows(authors, stays, Ghost(author_is_not(id)));
        let mut ties: Vec<package_author::Model> = Vec::new();
        swap(&mut self.package_authors, &mut ties);
        let stays = |r: &package_author::Model| -> (b: bool)
            ensures
                b == (r.author_id != id),
            { r.author_id != id };
        self.package_authors = keep_rows(ties, stays, Ghost(tie_not_of_author(id)));
        proof {
            assert(self@ =~= before.delete_author(id));
            lemma_delete_author_wf(before, id);
        }
    }
}

} // verus!
