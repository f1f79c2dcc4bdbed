//! The store: the tables of the registry, with the rules that hold of them.
//!
//! Every row that has an id gets it from one counter, so that an id is never
//! handed out twice. No two sources have the same digest, no two remote
//! registries the same host name and namespace, and no two index entries the
//! same registry, namespace and tag. A row that refers to a row of another
//! table refers to one that is there.

use crate::db::entities::{
    author, capabilities, clone_text, git_info, index, meta, opt_bytes, opt_text, package,
    package_author, registry, source, url_white_list,
};
use crate::db::rows::{all_refer, has_key, keys_differ};
use crate::db::store::adding::{
    lemma_add_author, lemma_add_capabilities_row, lemma_add_git_info, lemma_add_index,
    lemma_add_meta_row, lemma_add_package_author, lemma_add_package_row, lemma_add_registry,
    lemma_add_source_row, lemma_add_url, lemma_fresh_author_untied,
};
use crate::pkg::{Author, Capabilities, GitInfo, PkgMeta, Registry, Source, WasmPkg};
use crate::semver::semver_text;
use vstd::prelude::*;

pub mod adding;
pub mod delete;

verus! {

/// The tables of the registry.
pub struct Store {
    authors: Vec<author::Model>,
    metas: Vec<meta::Model>,
    package_authors: Vec<package_author::Model>,
    capabilities: Vec<capabilities::Model>,
    url_whitelist: Vec<url_white_list::Model>,
    git_infos: Vec<git_info::Model>,
    registries: Vec<registry::Model>,
    sources: Vec<source::Model>,
    packages: Vec<package::Model>,
    index: Vec<index::Model>,
    next_id: u64,
}

/// What a [`Store`] stands for: the rows of its tables, in the order in
/// which they were put in, and the next id that it hands out.
#[verifier::ext_equal]
pub struct StoreView {
    pub authors: Seq<author::ModelView>,
    pub metas: Seq<meta::ModelView>,
    pub package_authors: Seq<package_author::ModelView>,
    pub capabilities: Seq<capabilities::ModelView>,
    pub url_whitelist: Seq<url_white_list::ModelView>,
    pub git_infos: Seq<git_info::ModelView>,
    pub registries: Seq<registry::ModelView>,
    pub sources: Seq<source::ModelView>,
    pub packages: Seq<package::ModelView>,
    pub index: Seq<index::ModelView>,
    pub next_id: u64,
}

impl View for Store {
    type V = StoreView;

    closed spec fn view(&self) -> StoreView {
        StoreView {
            authors: author::table_view(self.authors@),
            metas: meta::table_view(self.metas@),
            package_authors: package_author::table_view(self.package_authors@),
            capabilities: capabilities::table_view(self.capabilities@),
            url_whitelist: url_white_list::table_view(self.url_whitelist@),
            git_infos: git_info::table_view(self.git_infos@),
            registries: registry::table_view(self.registries@),
            sources: source::table_view(self.sources@),
            packages: package::table_view(self.packages@),
            index: index::table_view(self.index@),
            next_id: self.next_id,
        }
    }
}

/// How many ids the metadata of a package take: one for the metadata and
/// one for each author.
pub open spec fn meta_ids(m: PkgMeta) -> int {
    1 + m.authors@.len() as int
}

/// How many ids capabilities take: one for the capabilities and one for
/// each URL.
pub open spec fn capabilities_ids(c: Capabilities) -> int {
    1 + c.url_whitelist@.len() as int
}

/// How many ids a source takes: one for the source, and one for its git
/// information or its registry, where it has one.
pub open spec fn source_ids(s: Source) -> int {
    1 + (if s.git_info is Some {
        1int
    } else {
        0int
    }) + (if s.registry is Some {
        1int
    } else {
        0int
    })
}

/// How many ids a package takes with all that belongs to it.
pub open spec fn package_ids(p: WasmPkg) -> int {
    meta_ids(p.meta) + (match p.capabilities {
        Some(c) => capabilities_ids(c),
        None => 0,
    }) + source_ids(p.source) + 1
}

/// The id of an author.
pub open spec fn author_key() -> spec_fn(author::ModelView) -> u64 {
    |r: author::ModelView| r.id
}

/// The id of metadata.
pub open spec fn meta_key() -> spec_fn(meta::ModelView) -> u64 {
    |r: meta::ModelView| r.id
}

/// The id of capabilities.
pub open spec fn capabilities_key() -> spec_fn(capabilities::ModelView) -> u64 {
    |r: capabilities::ModelView| r.id
}

/// The id of git information.
pub open spec fn git_info_key() -> spec_fn(git_info::ModelView) -> u64 {
    |r: git_info::ModelView| r.id
}

/// The id of a remote registry.
pub open spec fn registry_key() -> spec_fn(registry::ModelView) -> u64 {
    |r: registry::ModelView| r.id
}

/// The id of a source.
pub open spec fn source_key() -> spec_fn(source::ModelView) -> u64 {
    |r: source::ModelView| r.id
}

/// The id of a URL.
pub open spec fn url_key() -> spec_fn(url_white_list::ModelView) -> u64 {
    |r: url_white_list::ModelView| r.id
}

/// The id of a package.
pub open spec fn package_key() -> spec_fn(package::ModelView) -> u64 {
    |r: package::ModelView| r.id
}

/// The id of an index entry.
pub open spec fn index_key() -> spec_fn(index::ModelView) -> u64 {
    |r: index::ModelView| r.id
}

/// The metadata and the author of a tie.
pub open spec fn tie_key() -> spec_fn(package_author::ModelView) -> (u64, u64) {
    |r: package_author::ModelView| (r.meta_id, r.author_id)
}

/// The digest of a source.
pub open spec fn source_digest() -> spec_fn(source::ModelView) -> Seq<char> {
    |r: source::ModelView| r.digest
}

/// The host name and the namespace of a remote registry.
pub open spec fn registry_name() -> spec_fn(registry::ModelView) -> (Seq<char>, Seq<char>) {
    |r: registry::ModelView| (r.hostname, r.namespace)
}

/// The registry, the namespace and the tag of an index entry.
pub open spec fn index_name() -> spec_fn(index::ModelView) -> (Seq<char>, Seq<char>, Seq<char>) {
    |r: index::ModelView| (r.registry, r.namespace, r.tag)
}

/// The metadata that a tie refers to.
pub open spec fn tie_meta() -> spec_fn(package_author::ModelView) -> Option<u64> {
    |r: package_author::ModelView| Some(r.meta_id)
}

/// The author that a tie refers to.
pub open spec fn tie_author() -> spec_fn(package_author::ModelView) -> Option<u64> {
    |r: package_author::ModelView| Some(r.author_id)
}

/// The capabilities that a URL refers to.
pub open spec fn url_capabilities() -> spec_fn(url_white_list::ModelView) -> Option<u64> {
    |r: url_white_list::ModelView| Some(r.capability_id)
}

/// The remote registry that a source refers to, if it refers to one.
pub open spec fn source_registry() -> spec_fn(source::ModelView) -> Option<u64> {
    |r: source::ModelView| r.registry_id
}

/// The git information that a source refers to, if it refers to any.
pub open spec fn source_git_info() -> spec_fn(source::ModelView) -> Option<u64> {
    |r: source::ModelView| r.git_info_id
}

/// The metadata that a package refers to.
pub open spec fn package_meta() -> spec_fn(package::ModelView) -> Option<u64> {
    |r: package::ModelView| Some(r.meta_id)
}

/// The source that a package refers to.
pub open spec fn package_source() -> spec_fn(package::ModelView) -> Option<u64> {
    |r: package::ModelView| Some(r.source_id)
}

/// The capabilities that a package refers to, if it refers to any.
pub open spec fn package_capabilities() -> spec_fn(package::ModelView) -> Option<u64> {
    |r: package::ModelView| r.capabilities_id
}

impl StoreView {
    /// A store without rows, whose first id is 1.
    pub open spec fn empty() -> StoreView {
        StoreView {
            authors: Seq::empty(),
            metas: Seq::empty(),
            package_authors: Seq::empty(),
            capabilities: Seq::empty(),
            url_whitelist: Seq::empty(),
            git_infos: Seq::empty(),
            registries: Seq::empty(),
            sources: Seq::empty(),
            packages: Seq::empty(),
            index: Seq::empty(),
            next_id: 1,
        }
    }

    /// Every id in the store was handed out before: it is below the next id.
    pub open spec fn ids_below(self) -> bool {
        &&& forall|i: int|
            0 <= i < self.authors.len() ==> (#[trigger] self.authors[i]).id < self.next_id
        &&& forall|i: int| 0 <= i < self.metas.len() ==> (#[trigger] self.metas[i]).id < self.next_id
        &&& forall|i: int|
            0 <= i < self.capabilities.len() ==> (#[trigger] self.capabilities[i]).id
                < self.next_id
        &&& forall|i: int|
            0 <= i < self.url_whitelist.len() ==> (#[trigger] self.url_whitelist[i]).id
                < self.next_id
        &&& forall|i: int|
            0 <= i < self.git_infos.len() ==> (#[trigger] self.git_infos[i]).id < self.next_id
        &&& forall|i: int|
            0 <= i < self.registries.len() ==> (#[trigger] self.registries[i]).id < self.next_id
        &&& forall|i: int|
            0 <= i < self.sources.len() ==> (#[trigger] self.sources[i]).id < self.next_id
        &&& forall|i: int|
            0 <= i < self.packages.len() ==> (#[trigger] self.packages[i]).id < self.next_id
        &&& forall|i: int| 0 <= i < self.index.len() ==> (#[trigger] self.index[i]).id < self.next_id
    }

    /// Whether a source with this digest is in the store.
    pub open spec fn has_digest(self, digest: Seq<char>) -> bool {
        exists|i: int| 0 <= i < self.sources.len() && (#[trigger] self.sources[i]).digest == digest
    }

    /// Whether a remote registry with this host name and namespace is in the
    /// store.
    pub open spec fn has_registry(self, hostname: Seq<char>, namespace: Seq<char>) -> bool {
        exists|i: int|
            0 <= i < self.registries.len() && (#[trigger] self.registries[i]).hostname == hostname
                && self.registries[i].namespace == namespace
    }

    /// Whether an index entry with this registry, namespace and tag is in
    /// the store.
    pub open spec fn has_index_key(
        self,
        registry: Seq<char>,
        namespace: Seq<char>,
        tag: Seq<char>,
    ) -> bool {
        exists|i: int|
            0 <= i < self.index.len() && (#[trigger] self.index[i]).registry == registry
                && self.index[i].namespace == namespace && self.index[i].tag == tag
    }

    /// No two sources have the same digest.
    pub open spec fn digests_unique(self) -> bool {
        keys_differ(self.sources, source_digest())
    }

    /// No two remote registries have the same host name and namespace.
    pub open spec fn registries_unique(self) -> bool {
        keys_differ(self.registries, registry_name())
    }

    /// No two index entries have the same registry, namespace and tag.
    pub open spec fn index_unique(self) -> bool {
        keys_differ(self.index, index_name())
    }

    /// Whether an author with this id is in the store.
    pub open spec fn has_author(self, id: u64) -> bool {
        has_key(self.authors, author_key(), id)
    }

    /// Whether metadata with this id are in the store.
    pub open spec fn has_meta(self, id: u64) -> bool {
        has_key(self.metas, meta_key(), id)
    }

    /// Whether capabilities with this id are in the store.
    pub open spec fn has_capabilities(self, id: u64) -> bool {
        has_key(self.capabilities, capabilities_key(), id)
    }

    /// Whether git information with this id is in the store.
    pub open spec fn has_git_info(self, id: u64) -> bool {
        has_key(self.git_infos, git_info_key(), id)
    }

    /// Whether a remote registry with this id is in the store.
    pub open spec fn has_registry_row(self, id: u64) -> bool {
        has_key(self.registries, registry_key(), id)
    }

    /// Whether a source with this id is in the store.
    pub open spec fn has_source(self, id: u64) -> bool {
        has_key(self.sources, source_key(), id)
    }

    /// Whether this author is tied to these metadata.
    pub open spec fn has_tie(self, meta_id: u64, author_id: u64) -> bool {
        has_key(self.package_authors, tie_key(), (meta_id, author_id))
    }

    /// No two rows of a table have the same id, and no author is tied twice
    /// to the same metadata.
    pub open spec fn ids_unique(self) -> bool {
        &&& keys_differ(self.authors, author_key())
        &&& keys_differ(self.metas, meta_key())
        &&& keys_differ(self.capabilities, capabilities_key())
        &&& keys_differ(self.url_whitelist, url_key())
        &&& keys_differ(self.git_infos, git_info_key())
        &&& keys_differ(self.registries, registry_key())
        &&& keys_differ(self.sources, source_key())
        &&& keys_differ(self.packages, package_key())
        &&& keys_differ(self.index, index_key())
        &&& keys_differ(self.package_authors, tie_key())
    }

    /// Every row that a row refers to is in the store: the metadata and the
    /// author of a tie, the capabilities of a URL, the registry and the git
    /// information of a source, and the metadata, the source and the
    /// capabilities of a package.
    pub open spec fn links(self) -> bool {
        &&& all_refer(self.package_authors, tie_meta(), self.metas, meta_key())
        &&& all_refer(self.package_authors, tie_author(), self.authors, author_key())
        &&& all_refer(self.url_whitelist, url_capabilities(), self.capabilities, capabilities_key())
        &&& all_refer(self.sources, source_registry(), self.registries, registry_key())
        &&& all_refer(self.sources, source_git_info(), self.git_infos, git_info_key())
        &&& all_refer(self.packages, package_meta(), self.metas, meta_key())
        &&& all_refer(self.packages, package_source(), self.sources, source_key())
        &&& all_refer(self.packages, package_capabilities(), self.capabilities, capabilities_key())
    }

    /// The rules of the store.
    pub open spec fn wf(self) -> bool {
        &&& self.ids_below()
        &&& self.ids_unique()
        &&& self.digests_unique()
        &&& self.registries_unique()
        &&& self.index_unique()
        &&& self.links()
    }

    /// Whether the store can still hand out `n` ids.
    pub open spec fn room(self, n: int) -> bool {
        self.next_id + n <= u64::MAX
    }

    /// The id after the next.
    pub open spec fn bump(self) -> u64 {
        (self.next_id + 1) as u64
    }

    /// The store with one more author.
    pub open spec fn add_author(self, a: Author) -> StoreView {
        StoreView {
            authors: self.authors.push(
                author::ModelView { id: self.next_id, name: a.name@, email: opt_text(a.email) },
            ),
            next_id: self.bump(),
            ..self
        }
    }

    /// The store with an author tied to metadata.
    pub open spec fn add_package_author(self, meta_id: u64, author_id: u64) -> StoreView {
        StoreView {
            package_authors: self.package_authors.push(
                package_author::ModelView { meta_id, author_id },
            ),
            ..self
        }
    }

    /// The store with these authors, each tied to the metadata.
    pub open spec fn add_authors(self, meta_id: u64, authors: Seq<Author>) -> StoreView
        decreases authors.len(),
    {
        if authors.len() == 0 {
            self
        } else {
            self.add_author(authors[0]).add_package_author(meta_id, self.next_id).add_authors(
                meta_id,
                authors.drop_first(),
            )
        }
    }

    /// The store with the row of the metadata alone.
    pub open spec fn add_meta_row(self, m: PkgMeta) -> StoreView {
        StoreView {
            metas: self.metas.push(
                meta::ModelView {
                    id: self.next_id,
                    description: opt_text(m.description),
                    documentation: opt_text(m.documentation),
                    license: opt_text(m.license),
                    repository: opt_text(m.repository),
                },
            ),
            next_id: self.bump(),
            ..self
        }
    }

    /// The store with metadata and their authors. The metadata get the next
    /// id, the authors those that follow.
    pub open spec fn add_meta(self, m: PkgMeta) -> StoreView {
        self.add_meta_row(m).add_authors(self.next_id, m.authors@)
    }

    /// The store with one more URL of capabilities.
    pub open spec fn add_url(self, capability_id: u64, url: String) -> StoreView {
        StoreView {
            url_whitelist: self.url_whitelist.push(
                url_white_list::ModelView { id: self.next_id, capability_id, url: url@ },
            ),
            next_id: self.bump(),
            ..self
        }
    }

    /// The store with these URLs of capabilities.
    pub open spec fn add_urls(self, capability_id: u64, urls: Seq<String>) -> StoreView
        decreases urls.len(),
    {
        if urls.len() == 0 {
            self
        } else {
            self.add_url(capability_id, urls[0]).add_urls(capability_id, urls.drop_first())
        }
    }

    /// The store with the row of the capabilities alone.
    pub open spec fn add_capabilities_row(self, c: Capabilities) -> StoreView {
        StoreView {
            capabilities: self.capabilities.push(
                capabilities::ModelView {
                    id: self.next_id,
                    network: c.network,
                    websocket: c.websocket,
                },
            ),
            next_id: self.bump(),
            ..self
        }
    }

    /// The store with capabilities and their URLs.
    pub open spec fn add_capabilities(self, c: Capabilities) -> StoreView {
        self.add_capabilities_row(c).add_urls(self.next_id, c.url_whitelist@)
    }

    /// The store with git information.
    pub open spec fn add_git_info(self, g: GitInfo) -> StoreView {
        StoreView {
            git_infos: self.git_infos.push(
                git_info::ModelView {
                    id: self.next_id,
                    commit_hash_short: g.commit_hash_short@,
                    commits_past_tag: g.commits_past_tag,
                    tag: opt_text(g.tag),
                    dirty: g.dirty,
                },
            ),
            next_id: self.bump(),
            ..self
        }
    }

    /// The store with a remote registry.
    pub open spec fn add_registry(self, r: Registry) -> StoreView {
        StoreView {
            registries: self.registries.push(
                registry::ModelView {
                    id: self.next_id,
                    registry_type: opt_text(r.registry_type),
                    hostname: r.registry_hostname@,
                    namespace: r.namespace@,
                },
            ),
            next_id: self.bump(),
            ..self
        }
    }

    /// The store with the row of a source alone.
    pub open spec fn add_source_row(
        self,
        version: Seq<char>,
        digest: Seq<char>,
        wasm_blob: Option<Seq<u8>>,
        registry_id: Option<u64>,
        git_info_id: Option<u64>,
    ) -> StoreView {
        StoreView {
            sources: self.sources.push(
                source::ModelView {
                    id: self.next_id,
                    version,
                    digest,
                    wasm_blob,
                    registry_id,
                    git_info_id,
                },
            ),
            next_id: self.bump(),
            ..self
        }
    }

    /// The store with the row of a package alone.
    pub open spec fn add_package_row(self, row: package::ModelView) -> StoreView {
        StoreView { packages: self.packages.push(row), next_id: self.bump(), ..self }
    }

    /// The store before the row of a source is put in: with the git
    /// information and the registry of the source.
    pub open spec fn add_source_parts(self, s: Source) -> StoreView {
        let with_git = match s.git_info {
            Some(g) => self.add_git_info(g),
            None => self,
        };
        match s.registry {
            Some(r) => with_git.add_registry(r),
            None => with_git,
        }
    }

    /// The id that the registry of a source gets.
    pub open spec fn registry_id_for(self, s: Source) -> u64 {
        match s.git_info {
            Some(g) => self.bump(),
            None => self.next_id,
        }
    }

    /// The store with a source. Git information and registry come first and
    /// the source refers to them.
    pub open spec fn add_source(self, s: Source) -> StoreView {
        let parts = self.add_source_parts(s);
        StoreView {
            sources: parts.sources.push(
                source::ModelView {
                    id: parts.next_id,
                    version: semver_text(s.version),
                    digest: s.digest@,
                    wasm_blob: opt_bytes(s.wasm),
                    registry_id: match s.registry {
                        Some(r) => Some(self.registry_id_for(s)),
                        None => None,
                    },
                    git_info_id: match s.git_info {
                        Some(g) => Some(self.next_id),
                        None => None,
                    },
                },
            ),
            next_id: parts.bump(),
            ..parts
        }
    }

    /// The store before the row of a package is put in: with its metadata,
    /// its capabilities and its source, in this order.
    pub open spec fn add_package_parts(self, p: WasmPkg) -> StoreView {
        let with_meta = self.add_meta(p.meta);
        let with_capabilities = match p.capabilities {
            Some(c) => with_meta.add_capabilities(c),
            None => with_meta,
        };
        with_capabilities.add_source(p.source)
    }

    /// The store with a package and all that belongs to it. The package
    /// refers to its metadata, its source and its capabilities.
    pub open spec fn add_package(self, p: WasmPkg, now: i64) -> StoreView {
        let parts = self.add_package_parts(p);
        StoreView {
            packages: parts.packages.push(
                package::ModelView {
                    id: parts.next_id,
                    name: p.name@,
                    app_name: opt_text(p.app_name),
                    app_module: opt_text(p.app_module),
                    pkg_type: p.pkg_type.text(),
                    meta_id: self.next_id,
                    source_id: (parts.next_id - 1) as u64,
                    capabilities_id: match p.capabilities {
                        Some(c) => Some(self.add_meta(p.meta).next_id),
                        None => None,
                    },
                    created_at: now,
                    updated_at: now,
                },
            ),
            next_id: parts.bump(),
            ..parts
        }
    }

    /// The store with an index entry for a package. The entry is neither
    /// yanked nor deprecated.
    pub open spec fn add_index(
        self,
        pkg_id: u64,
        registry: Seq<char>,
        namespace: Seq<char>,
        repository: Seq<char>,
        tag: Seq<char>,
        now: i64,
    ) -> StoreView {
        StoreView {
            index: self.index.push(
                index::ModelView {
                    id: self.next_id,
                    pkg_id,
                    registry,
                    namespace,
                    repository,
                    tag,
                    yank: false,
                    deprecated: false,
                    created_at: now,
                },
            ),
            next_id: self.bump(),
            ..self
        }
    }
}

impl Store {
    /// A store without rows.
    pub fn new() -> (s: Store)
        ensures
            s@ == StoreView::empty(),
            s@.wf(),
    {
        let s = Store {
            authors: Vec::new(),
            metas: Vec::new(),
            package_authors: Vec::new(),
            capabilities: Vec::new(),
            url_whitelist: Vec::new(),
            git_infos: Vec::new(),
            registries: Vec::new(),
            sources: Vec::new(),
            packages: Vec::new(),
            index: Vec::new(),
            next_id: 1,
        };
        assert(s@ =~= StoreView::empty());
        s
    }

    /// The authors.
    pub fn authors(&self) -> (r: &Vec<author::Model>)
        ensures
            author::table_view(r@) == self@.authors,
    {
        &self.authors
    }

    /// The metadata.
    pub fn metas(&self) -> (r: &Vec<meta::Model>)
        ensures
            meta::table_view(r@) == self@.metas,
    {
        &self.metas
    }

    /// Which author belongs to which metadata.
    pub fn package_authors(&self) -> (r: &Vec<package_author::Model>)
        ensures
            package_author::table_view(r@) == self@.package_authors,
    {
        &self.package_authors
    }

    /// The capabilities.
    pub fn capabilities(&self) -> (r: &Vec<capabilities::Model>)
        ensures
            capabilities::table_view(r@) == self@.capabilities,
    {
        &self.capabilities
    }

    /// The URLs of the capabilities.
    pub fn url_whitelist(&self) -> (r: &Vec<url_white_list::Model>)
        ensures
            url_white_list::table_view(r@) == self@.url_whitelist,
    {
        &self.url_whitelist
    }

    /// The git information.
    pub fn git_infos(&self) -> (r: &Vec<git_info::Model>)
        ensures
            git_info::table_view(r@) == self@.git_infos,
    {
        &self.git_infos
    }

    /// The remote registries.
    pub fn registries(&self) -> (r: &Vec<registry::Model>)
        ensures
            registry::table_view(r@) == self@.registries,
    {
        &self.registries
    }

    /// The sources.
    pub fn sources(&self) -> (r: &Vec<source::Model>)
        ensures
            source::table_view(r@) == self@.sources,
    {
        &self.sources
    }

    /// The packages.
    pub fn packages(&self) -> (r: &Vec<package::Model>)
        ensures
            package::table_view(r@) == self@.packages,
    {
        &self.packages
    }

    /// The registry index.
    pub fn index(&self) -> (r: &Vec<index::Model>)
        ensures
            index::table_view(r@) == self@.index,
    {
        &self.index
    }

    /// The id that the next row gets.
    pub fn next_id(&self) -> (id: u64)
        ensures
            id == self@.next_id,
    {
        self.next_id
    }

    /// Tells whether the store can still hand out `n` ids.
    pub fn has_room(&self, n: u128) -> (b: bool)
        ensures
            b == self@.room(n as int),
    {
        n <= u64::MAX as u128 && self.next_id as u128 + n <= u64::MAX as u128
    }

    /// Tells whether a source with this digest is in the store.
    pub fn has_digest(&self, digest: &String) -> (b: bool)
        ensures
            b == self@.has_digest(digest@),
    {
        let n = self.sources.len();
        let mut i: usize = 0;
        while i < n
            invariant
                i <= n == self.sources.len(),
                forall|j: int| 0 <= j < i ==> (#[trigger] self@.sources[j]).digest != digest@,
            decreases n - i,
        {
            if self.sources[i].digest == *digest {
                assert(self@.sources[i as int].digest == digest@);
                return true;
            }
            i += 1;
        }
        false
    }

    /// Tells whether a remote registry with this host name and namespace is
    /// in the store.
    pub fn has_registry(&self, hostname: &String, namespace: &String) -> (b: bool)
        ensures
            b == self@.has_registry(hostname@, namespace@),
    {
        let n = self.registries.len();
        let mut i: usize = 0;
        while i < n
            invariant
                i <= n == self.registries.len(),
                forall|j: int|
                    0 <= j < i ==> !((#[trigger] self@.registries[j]).hostname == hostname@
                        && self@.registries[j].namespace == namespace@),
            decreases n - i,
        {
            if self.registries[i].hostname == *hostname && self.registries[i].namespace
                == *namespace {
                assert(self@.registries[i as int].hostname == hostname@);
                return true;
            }
            i += 1;
        }
        false
    }

    /// Tells whether an index entry with this registry, namespace and tag is
    /// in the store.
    pub fn has_index_key(&self, registry: &String, namespace: &String, tag: &String) -> (b: bool)
        ensures
            b == self@.has_index_key(registry@, namespace@, tag@),
    {
        let n = self.index.len();
        let mut i: usize = 0;
        while i < n
            invariant
                i <= n == self.index.len(),
                forall|j: int|
                    0 <= j < i ==> !((#[trigger] self@.index[j]).registry == registry@
                        && self@.index[j].namespace == namespace@ && self@.index[j].tag == tag@),
            decreases n - i,
        {
            if self.index[i].registry == *registry && self.index[i].namespace == *namespace
                && self.index[i].tag == *tag {
                assert(self@.index[i as int].registry == registry@);
                return true;
            }
            i += 1;
        }
        false
    }

    /// Tells whether an author with this id is in the store.
    pub fn has_author(&self, id: u64) -> (b: bool)
        ensures
            b == self@.has_author(id),
    {
        let n = self.authors.len();
        let mut i: usize = 0;
        while i < n
            invariant
                i <= n == self.authors.len(),
                forall|j: int| 0 <= j < i ==> (#[trigger] self@.authors[j]).id != id,
            decreases n - i,
        {
            if self.authors[i].id == id {
                assert(author_key()(self@.authors[i as int]) == id);
                return true;
            }
            i += 1;
        }
        false
    }

    /// Tells whether metadata with this id are in the store.
    pub fn has_meta(&self, id: u64) -> (b: bool)
        ensures
            b == self@.has_meta(id),
    {
        let n = self.metas.len();
        let mut i: usize = 0;
        while i < n
            invariant
                i <= n == self.metas.len(),
                forall|j: int| 0 <= j < i ==> (#[trigger] self@.metas[j]).id != id,
            decreases n - i,
        {
            if self.metas[i].id == id {
                assert(meta_key()(self@.metas[i as int]) == id);
                return true;
            }
            i += 1;
        }
        false
    }

    /// Tells whether capabilities with this id are in the store.
    pub fn has_capabilities(&self, id: u64) -> (b: bool)
        ensures
            b == self@.has_capabilities(id),
    {
        let n = self.capabilities.len();
        let mut i: usize = 0;
        while i < n
            invariant
                i <= n == self.capabilities.len(),
                forall|j: int| 0 <= j < i ==> (#[trigger] self@.capabilities[j]).id != id,
            decreases n - i,
        {
            if self.capabilities[i].id == id {
                assert(capabilities_key()(self@.capabilities[i as int]) == id);
                return true;
            }
            i += 1;
        }
        false
    }

    /// Tells whether this author is tied to these metadata.
    pub fn has_tie(&self, meta_id: u64, author_id: u64) -> (b: bool)
        ensures
            b == self@.has_tie(meta_id, author_id),
    {
        let n = self.package_authors.len();
        let mut i: usize = 0;
        while i < n
            invariant
                i <= n == self.package_authors.len(),
                forall|j: int|
                    0 <= j < i ==> !((#[trigger] self@.package_authors[j]).meta_id == meta_id
                        && self@.package_authors[j].author_id == author_id),
            decreases n - i,
        {
            if self.package_authors[i].meta_id == meta_id && self.package_authors[i].author_id
                == author_id {
                assert(tie_key()(self@.package_authors[i as int]) == (meta_id, author_id));
                return true;
            }
            i += 1;
        }
        false
    }

    /// Puts in an author. Returns the id.
    pub(crate) fn add_author(&mut self, a: &Author) -> (id: u64)
        requires
            old(self)@.wf(),
            old(self)@.room(1),
        ensures
            final(self)@ == old(self)@.add_author(*a),
            final(self)@.wf(),
            final(self)@.has_author(id),
            id == old(self)@.next_id,
    {
        let id = self.next_id;
        let row = author::Model { id, name: a.name.clone(), email: clone_text(&a.email) };
        let ghost before = self@;
        let ghost rows = self.authors@;
        self.authors.push(row);
        self.next_id = id + 1;
        proof {
            assert(author::table_view(self.authors@) =~= author::table_view(rows).push(row@));
            assert(self@ =~= before.add_author(*a));
            lemma_add_author(before, *a);
        }
        id
    }

    /// Ties an author to metadata. Both are in the store and are not tied
    /// yet.
    pub(crate) fn add_package_author(&mut self, meta_id: u64, author_id: u64)
        requires
            old(self)@.wf(),
            old(self)@.has_meta(meta_id),
            old(self)@.has_author(author_id),
            !old(self)@.has_tie(meta_id, author_id),
        ensures
            final(self)@ == old(self)@.add_package_author(meta_id, author_id),
            final(self)@.wf(),
    {
        let row = package_author::Model { meta_id, author_id };
        let ghost before = self@;
        let ghost rows = self.package_authors@;
        self.package_authors.push(row);
        proof {
            assert(package_author::table_view(self.package_authors@)
                =~= package_author::table_view(rows).push(row@));
            assert(self@ =~= before.add_package_author(meta_id, author_id));
            lemma_add_package_author(before, meta_id, author_id);
        }
    }

    /// Puts in metadata and their authors. Returns the id of the metadata.
    pub(crate) fn add_meta(&mut self, m: &PkgMeta) -> (id: u64)
        requires
            old(self)@.wf(),
            old(self)@.room(meta_ids(*m)),
        ensures
            final(self)@ == old(self)@.add_meta(*m),
            final(self)@.wf(),
            final(self)@.has_meta(id),
            id == old(self)@.next_id,
            final(self)@.next_id == old(self)@.next_id + meta_ids(*m),
            final(self)@.capabilities == old(self)@.capabilities,
            final(self)@.sources == old(self)@.sources,
            final(self)@.registries == old(self)@.registries,
            final(self)@.index == old(self)@.index,
    {
        let id = self.next_id;
        let ghost before = self@;
        let ghost target = before.add_meta(*m);
        let row = meta::Model {
            id,
            description: clone_text(&m.description),
            documentation: clone_text(&m.documentation),
            license: clone_text(&m.license),
            repository: clone_text(&m.repository),
        };
        let ghost rows = self.metas@;
        self.metas.push(row);
        self.next_id = id + 1;
        proof {
            assert(meta::table_view(self.metas@) =~= meta::table_view(rows).push(row@));
            assert(self@ =~= before.add_meta_row(*m));
            lemma_add_meta_row(before, *m);
        }
        let n = m.authors.len();
        let mut i: usize = 0;
        assert(m.authors@.skip(0) =~= m.authors@);
        while i < n
            invariant
                i <= n == m.authors.len(),
                self@.wf(),
                self@.has_meta(id),
                self@.room(n - i),
                target == self@.add_authors(id, m.authors@.skip(i as int)),
                self@.next_id == id + 1 + i,
                self@.capabilities == before.capabilities,
                self@.sources == before.sources,
                self@.registries == before.registries,
                self@.index == before.index,
            decreases n - i,
        {
            assert(m.authors@.skip(i as int).drop_first() =~= m.authors@.skip(i + 1));
            assert(m.authors@.skip(i as int)[0] == m.authors@[i as int]);
            proof {
                lemma_fresh_author_untied(self@, id);
            }
            let author_id = self.add_author(&m.authors[i]);
            self.add_package_author(id, author_id);
            i += 1;
        }
        id
    }

    /// Puts in a URL of capabilities. Returns the id.
    pub(crate) fn add_url(&mut self, capability_id: u64, url: &String) -> (id: u64)
        requires
            old(self)@.wf(),
            old(self)@.room(1),
            old(self)@.has_capabilities(capability_id),
        ensures
            final(self)@ == old(self)@.add_url(capability_id, *url),
            final(self)@.wf(),
            id == old(self)@.next_id,
    {
        let id = self.next_id;
        let row = url_white_list::Model { id, capability_id, url: url.clone() };
        let ghost before = self@;
        let ghost rows = self.url_whitelist@;
        self.url_whitelist.push(row);
        self.next_id = id + 1;
        proof {
            assert(url_white_list::table_view(self.url_whitelist@)
                =~= url_white_list::table_view(rows).push(row@));
            assert(self@ =~= before.add_url(capability_id, *url));
            lemma_add_url(before, capability_id, *url);
        }
        id
    }

    /// Puts in capabilities and their URLs. Returns the id of the
    /// capabilities.
    pub(crate) fn add_capabilities(&mut self, c: &Capabilities) -> (id: u64)
        requires
            old(self)@.wf(),
            old(self)@.room(capabilities_ids(*c)),
        ensures
            final(self)@ == old(self)@.add_capabilities(*c),
            final(self)@.wf(),
            final(self)@.has_capabilities(id),
            id == old(self)@.next_id,
            final(self)@.next_id == old(self)@.next_id + capabilities_ids(*c),
            final(self)@.metas == old(self)@.metas,
            final(self)@.sources == old(self)@.sources,
            final(self)@.registries == old(self)@.registries,
            final(self)@.index == old(self)@.index,
    {
        let id = self.next_id;
        let ghost before = self@;
        let ghost target = before.add_capabilities(*c);
        let row = capabilities::Model { id, network: c.network, websocket: c.websocket };
        let ghost rows = self.capabilities@;
        self.capabilities.push(row);
        self.next_id = id + 1;
        proof {
            assert(capabilities::table_view(self.capabilities@) =~= capabilities::table_view(
                rows,
            ).push(row@));
            assert(self@ =~= before.add_capabilities_row(*c));
            lemma_add_capabilities_row(before, *c);
        }
        let n = c.url_whitelist.len();
        let mut i: usize = 0;
        assert(c.url_whitelist@.skip(0) =~= c.url_whitelist@);
        while i < n
            invariant
                i <= n == c.url_whitelist.len(),
                self@.wf(),
                self@.has_capabilities(id),
                self@.room(n - i),
                target == self@.add_urls(id, c.url_whitelist@.skip(i as int)),
                self@.next_id == id + 1 + i,
                self@.metas == before.metas,
                self@.sources == before.sources,
                self@.registries == before.registries,
                self@.index == before.index,
            decreases n - i,
        {
            assert(c.url_whitelist@.skip(i as int).drop_first() =~= c.url_whitelist@.skip(i + 1));
            assert(c.url_whitelist@.skip(i as int)[0] == c.url_whitelist@[i as int]);
            self.add_url(id, &c.url_whitelist[i]);
            i += 1;
        }
        id
    }

    /// Puts in git information. Returns the id.
    pub(crate) fn add_git_info(&mut self, g: &GitInfo) -> (id: u64)
        requires
            old(self)@.wf(),
            old(self)@.room(1),
        ensures
            final(self)@ == old(self)@.add_git_info(*g),
            final(self)@.wf(),
            final(self)@.has_git_info(id),
            id == old(self)@.next_id,
    {
        let id = self.next_id;
        let row = git_info::Model {
            id,
            commit_hash_short: g.commit_hash_short.clone(),
            commits_past_tag: g.commits_past_tag,
            tag: clone_text(&g.tag),
            dirty: g.dirty,
        };
        let ghost before = self@;
        let ghost rows = self.git_infos@;
        self.git_infos.push(row);
        self.next_id = id + 1;
        proof {
            assert(git_info::table_view(self.git_infos@) =~= git_info::table_view(rows).push(
                row@,
            ));
            assert(self@ =~= before.add_git_info(*g));
            lemma_add_git_info(before, *g);
        }
        id
    }

    /// Puts in a remote registry that is not in the store yet. Returns the
    /// id.
    pub(crate) fn add_registry(&mut self, r: &Registry) -> (id: u64)
        requires
            old(self)@.wf(),
            old(self)@.room(1),
            !old(self)@.has_registry(r.registry_hostname@, r.namespace@),
        ensures
            final(self)@ == old(self)@.add_registry(*r),
            final(self)@.wf(),
            final(self)@.has_registry_row(id),
            id == old(self)@.next_id,
    {
        let id = self.next_id;
        let row = registry::Model {
            id,
            registry_type: clone_text(&r.registry_type),
            hostname: r.registry_hostname.clone(),
            namespace: r.namespace.clone(),
        };
        let ghost before = self@;
        let ghost rows = self.registries@;
        self.registries.push(row);
        self.next_id = id + 1;
        proof {
            assert(registry::table_view(self.registries@) =~= registry::table_view(rows).push(
                row@,
            ));
            assert(self@ =~= before.add_registry(*r));
            lemma_add_registry(before, *r);
        }
        id
    }

    /// Puts in the row of a source whose digest is not in the store yet. The
    /// registry and the git information that it refers to are in the store.
    /// Returns the id.
    pub(crate) fn add_source_row(
        &mut self,
        version: String,
        digest: String,
        wasm_blob: Option<Vec<u8>>,
        registry_id: Option<u64>,
        git_info_id: Option<u64>,
    ) -> (id: u64)
        requires
            old(self)@.wf(),
            old(self)@.room(1),
            !old(self)@.has_digest(digest@),
            registry_id matches Some(r) ==> old(self)@.has_registry_row(r),
            git_info_id matches Some(g) ==> old(self)@.has_git_info(g),
        ensures
            final(self)@ == old(self)@.add_source_row(
                version@,
                digest@,
                opt_bytes(wasm_blob),
                registry_id,
                git_info_id,
            ),
            final(self)@.wf(),
            final(self)@.has_source(id),
            id == old(self)@.next_id,
    {
        let id = self.next_id;
        let row = source::Model { id, version, digest, wasm_blob, registry_id, git_info_id };
        let ghost before = self@;
        let ghost rows = self.sources@;
        let ghost rv = row@;
        self.sources.push(row);
        self.next_id = id + 1;
        proof {
            assert(source::table_view(self.sources@) =~= source::table_view(rows).push(rv));
            assert(self@ =~= before.add_source_row(
                rv.version,
                rv.digest,
                rv.wasm_blob,
                registry_id,
                git_info_id,
            ));
            lemma_add_source_row(
                before,
                rv.version,
                rv.digest,
                rv.wasm_blob,
                registry_id,
                git_info_id,
            );
        }
        id
    }

    /// Puts in the row of a package. The metadata, the source and the
    /// capabilities that it refers to are in the store. Returns the id.
    pub(crate) fn add_package_row(&mut self, row: package::Model) -> (id: u64)
        requires
            old(self)@.wf(),
            old(self)@.room(1),
            row.id == old(self)@.next_id,
            old(self)@.has_meta(row.meta_id),
            old(self)@.has_source(row.source_id),
            row.capabilities_id matches Some(c) ==> old(self)@.has_capabilities(c),
        ensures
            final(self)@ == old(self)@.add_package_row(row@),
            final(self)@.wf(),
            id == old(self)@.next_id,
    {
        let id = self.next_id;
        let ghost before = self@;
        let ghost rows = self.packages@;
        let ghost rv = row@;
        self.packages.push(row);
        self.next_id = id + 1;
        proof {
            assert(package::table_view(self.packages@) =~= package::table_view(rows).push(rv));
            assert(self@ =~= before.add_package_row(rv));
            lemma_add_package_row(before, rv);
        }
        id
    }

    /// Puts in an index entry whose key is not in the store yet. Returns the
    /// id.
    pub(crate) fn add_index(
        &mut self,
        pkg_id: u64,
        registry: String,
        namespace: String,
        repository: String,
        tag: String,
        now: i64,
    ) -> (id: u64)
        requires
            old(self)@.wf(),
            old(self)@.room(1),
            !old(self)@.has_index_key(registry@, namespace@, tag@),
        ensures
            final(self)@ == old(self)@.add_index(
                pkg_id,
                registry@,
                namespace@,
                repository@,
                tag@,
                now,
            ),
            final(self)@.wf(),
            id == old(self)@.next_id,
    {
        let id = self.next_id;
        let row = index::Model {
            id,
            pkg_id,
            registry,
            namespace,
            repository,
            tag,
            yank: false,
            deprecated: false,
            created_at: now,
        };
        let ghost before = self@;
        let ghost rows = self.index@;
        let ghost rv = row@;
        self.index.push(row);
        self.next_id = id + 1;
        proof {
            assert(index::table_view(self.index@) =~= index::table_view(rows).push(rv));
            assert(self@ =~= before.add_index(
                pkg_id,
                rv.registry,
                rv.namespace,
                rv.repository,
                rv.tag,
                now,
            ));
            lemma_add_index(before, pkg_id, rv.registry, rv.namespace, rv.repository, rv.tag, now);
        }
        id
    }
}

} // verus!
