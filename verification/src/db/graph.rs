//! A package in the store: the rows that it is made of, and what stands in
//! the way of putting them in.

use crate::db::entities::{opt_bytes, package};
use crate::db::store::{capabilities_ids, meta_ids, package_ids, source_ids, Store, StoreView};
use crate::error::Error;
use crate::pkg::{Capabilities, PkgMeta, Source, WasmPkg};
use vstd::prelude::*;

verus! {

impl StoreView {
    /// Whether a source is at odds with what the store holds: its digest is
    /// there already, or its registry is.
    pub open spec fn source_conflict(self, s: Source) -> bool {
        ||| self.has_digest(s.digest@)
        ||| (s.registry matches Some(r) && self.has_registry(r.registry_hostname@, r.namespace@))
    }

    /// Why a source cannot be put in, if it cannot: it is not of exactly
    /// one kind; or it is at odds with the store; or the store has no ids
    /// left for it. The first of these that holds is the reason.
    pub open spec fn source_error(self, s: Source) -> Option<Error> {
        if !s.valid() {
            Some(Error::InvalidSource)
        } else if self.source_conflict(s) {
            Some(Error::Conflict)
        } else if !self.room(source_ids(s)) {
            Some(Error::Storage)
        } else {
            None
        }
    }

    /// Why a package cannot be put in, if it cannot. The reasons are those
    /// of its source, with the ids that the whole package takes.
    pub open spec fn package_error(self, p: WasmPkg) -> Option<Error> {
        if !p.source.valid() {
            Some(Error::InvalidSource)
        } else if self.source_conflict(p.source) {
            Some(Error::Conflict)
        } else if !self.room(package_ids(p)) {
            Some(Error::Storage)
        } else {
            None
        }
    }
}

/// Adding authors changes the authors and their ties to the metadata, and
/// nothing else. Each author takes one id.
pub proof fn lemma_add_authors_frame(st: StoreView, meta_id: u64, authors: Seq<crate::pkg::Author>)
    requires
        st.room(authors.len() as int),
    ensures
        ({
            let r = st.add_authors(meta_id, authors);
            &&& r.next_id == st.next_id + authors.len()
            &&& r.authors.len() == st.authors.len() + authors.len()
            &&& r.package_authors.len() == st.package_authors.len() + authors.len()
            &&& r.metas == st.metas
            &&& r.capabilities == st.capabilities
            &&& r.url_whitelist == st.url_whitelist
            &&& r.git_infos == st.git_infos
            &&& r.registries == st.registries
            &&& r.sources == st.sources
            &&& r.packages == st.packages
            &&& r.index == st.index
        }),
    decreases authors.len(),
{
    if authors.len() > 0 {
        let next = st.add_author(authors[0]).add_package_author(meta_id, st.next_id);
        lemma_add_authors_frame(next, meta_id, authors.drop_first());
    }
}

/// Adding URLs changes the URLs and nothing else. Each URL takes one id.
pub proof fn lemma_add_urls_frame(st: StoreView, capability_id: u64, urls: Seq<String>)
    requires
        st.room(urls.len() as int),
    ensures
        ({
            let r = st.add_urls(capability_id, urls);
            &&& r.next_id == st.next_id + urls.len()
            &&& r.url_whitelist.len() == st.url_whitelist.len() + urls.len()
            &&& r.authors == st.authors
            &&& r.package_authors == st.package_authors
            &&& r.metas == st.metas
            &&& r.capabilities == st.capabilities
            &&& r.git_infos == st.git_infos
            &&& r.registries == st.registries
            &&& r.sources == st.sources
            &&& r.packages == st.packages
            &&& r.index == st.index
        }),
    decreases urls.len(),
{
    if urls.len() > 0 {
        lemma_add_urls_frame(st.add_url(capability_id, urls[0]), capability_id, urls.drop_first());
    }
}

/// Adding metadata takes the ids that [`meta_ids`] counts, adds one row of
/// metadata, and leaves capabilities, sources, packages and the index as
/// they were.
pub proof fn lemma_add_meta_frame(st: StoreView, m: PkgMeta)
    requires
        st.room(meta_ids(m)),
    ensures
        ({
            let r = st.add_meta(m);
            &&& r.next_id == st.next_id + meta_ids(m)
            &&& r.metas == st.add_meta_row(m).metas
            &&& r.capabilities == st.capabilities
            &&& r.url_whitelist == st.url_whitelist
            &&& r.git_infos == st.git_infos
            &&& r.registries == st.registries
            &&& r.sources == st.sources
            &&& r.packages == st.packages
            &&& r.index == st.index
        }),
{
    lemma_add_authors_frame(st.add_meta_row(m), st.next_id, m.authors@);
}

/// Adding capabilities takes the ids that [`capabilities_ids`] counts,
/// adds one row of capabilities, and leaves metadata, sources, packages and
/// the index as they were.
pub proof fn lemma_add_capabilities_frame(st: StoreView, c: Capabilities)
    requires
        st.room(capabilities_ids(c)),
    ensures
        ({
            let r = st.add_capabilities(c);
            &&& r.next_id == st.next_id + capabilities_ids(c)
            &&& r.capabilities == st.add_capabilities_row(c).capabilities
            &&& r.authors == st.authors
            &&& r.package_authors == st.package_authors
            &&& r.metas == st.metas
            &&& r.git_infos == st.git_infos
            &&& r.registries == st.registries
            &&& r.sources == st.sources
            &&& r.packages == st.packages
            &&& r.index == st.index
        }),
{
    lemma_add_urls_frame(st.add_capabilities_row(c), st.next_id, c.url_whitelist@);
}

/// Adding a package takes the ids that [`package_ids`] counts. It adds one
/// source, whose digest is that of the package, one package that refers to
/// it, and leaves the index as it was.
pub proof fn lemma_add_package_frame(st: StoreView, p: WasmPkg, now: i64)
    requires
        st.room(package_ids(p)),
    ensures
        ({
            let r = st.add_package(p, now);
            &&& r.next_id == st.next_id + package_ids(p)
            &&& r.index == st.index
            &&& r.sources.len() == st.sources.len() + 1
            &&& r.sources.drop_last() == st.sources
            &&& r.sources.last().digest == p.source.digest@
            &&& r.sources.last().wasm_blob == opt_bytes(p.source.wasm)
            &&& r.sources.last().id == r.packages.last().source_id
            &&& r.packages.len() == st.packages.len() + 1
            &&& r.packages.drop_last() == st.packages
            &&& r.packages.last().id == r.next_id - 1
            &&& r.packages.last().meta_id == st.next_id
            &&& r.metas.len() == st.metas.len() + 1
            &&& r.metas.drop_last() == st.metas
            &&& r.metas.last().id == st.next_id
        }),
{
    lemma_add_meta_frame(st, p.meta);
    let with_meta = st.add_meta(p.meta);
    if let Some(c) = p.capabilities {
        lemma_add_capabilities_frame(with_meta, c);
    }
    let r = st.add_package(p, now);
    assert(r.sources.drop_last() =~= st.sources);
    assert(r.packages.drop_last() =~= st.packages);
    assert(r.metas.drop_last() =~= st.metas);
}

/// Counts the ids that a source takes.
pub fn count_source_ids(s: &Source) -> (n: u128)
    ensures
        n == source_ids(*s),
{
    let mut n: u128 = 1;
    if s.git_info.is_some() {
        n = n + 1;
    }
    if s.registry.is_some() {
        n = n + 1;
    }
    n
}

/// Counts the ids that a package takes with all that belongs to it.
pub fn count_package_ids(p: &WasmPkg) -> (n: u128)
    ensures
        n == package_ids(*p),
        n <= 6 + 2 * usize::MAX,
{
    let mut n: u128 = 2 + p.meta.authors.len() as u128;
    if let Some(c) = &p.capabilities {
        n = n + 1 + c.url_whitelist.len() as u128;
    }
    n + count_source_ids(&p.source)
}

impl Store {
    /// Tells whether a source is at odds with what the store holds.
    pub fn has_source_conflict(&self, s: &Source) -> (b: bool)
        ensures
            b == self@.source_conflict(*s),
    {
        if self.has_digest(&s.digest) {
            return true;
        }
        match &s.registry {
            Some(r) => self.has_registry(&r.registry_hostname, &r.namespace),
            None => false,
        }
    }

    /// Tells why a source cannot be put in, if it cannot.
    pub fn source_check(&self, s: &Source) -> (r: Option<Error>)
        ensures
            r == self@.source_error(*s),
    {
        if !s.is_valid() {
            Some(Error::InvalidSource)
        } else if self.has_source_conflict(s) {
            Some(Error::Conflict)
        } else if !self.has_room(count_source_ids(s)) {
            Some(Error::Storage)
        } else {
            None
        }
    }

    /// Tells why a package cannot be put in, if it cannot.
    pub fn package_check(&self, p: &WasmPkg) -> (r: Option<Error>)
        ensures
            r == self@.package_error(*p),
    {
        if !p.source.is_valid() {
            Some(Error::InvalidSource)
        } else if self.has_source_conflict(&p.source) {
            Some(Error::Conflict)
        } else if !self.has_room(count_package_ids(p)) {
            Some(Error::Storage)
        } else {
            None
        }
    }

    /// Puts in a source that is not at odds with the store: first its git
    /// information and its registry, where it has them, then its own row,
    /// which refers to them. Returns the id of the source.
    pub(crate) fn add_source(&mut self, s: Source) -> (id: u64)
        requires
            old(self)@.wf(),
            old(self)@.room(source_ids(s)),
            !old(self)@.source_conflict(s),
        ensures
            final(self)@ == old(self)@.add_source(s),
            final(self)@.wf(),
            final(self)@.has_source(id),
            id + 1 == final(self)@.next_id,
            final(self)@.next_id == old(self)@.next_id + source_ids(s),
            final(self)@.metas == old(self)@.metas,
            final(self)@.capabilities == old(self)@.capabilities,
    {
        let Source { version, digest, wasm, git_info, registry } = s;
        let git_info_id = match &git_info {
            Some(g) => Some(self.add_git_info(g)),
            None => None,
        };
        let registry_id = match &registry {
            Some(r) => Some(self.add_registry(r)),
            None => None,
        };
        let text = version.to_string();
        self.add_source_row(text, digest, wasm, registry_id, git_info_id)
    }

    /// Puts in a package whose source is not at odds with the store: its
    /// metadata with their authors, its capabilities with their URLs, its
    /// source, and then its own row, which refers to them. Returns the id
    /// of the package.
    pub(crate) fn add_package(&mut self, p: WasmPkg, now: i64) -> (id: u64)
        requires
            old(self)@.wf(),
            old(self)@.room(package_ids(p)),
            !old(self)@.source_conflict(p.source),
        ensures
            final(self)@ == old(self)@.add_package(p, now),
            final(self)@.wf(),
            id + 1 == final(self)@.next_id,
            final(self)@.next_id == old(self)@.next_id + package_ids(p),
    {
        let WasmPkg { name, app_name, app_module, capabilities, pkg_type, meta, source } = p;
        let meta_id = self.add_meta(&meta);
        let capabilities_id = match &capabilities {
            Some(c) => Some(self.add_capabilities(c)),
            None => None,
        };
        let source_id = self.add_source(source);
        let row = package::Model {
            id: source_id + 1,
            name,
            app_name,
            app_module,
            pkg_type: pkg_type.to_string(),
            meta_id,
            source_id,
            capabilities_id,
            created_at: now,
            updated_at: now,
        };
        self.add_package_row(row)
    }
}

} // verus!
