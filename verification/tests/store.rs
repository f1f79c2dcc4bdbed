use pkg_registry::db::entities::author::ActiveAuthor;
use pkg_registry::db::entities::capabilities::ActiveCapabilities;
use pkg_registry::db::entities::git_info::ActiveGitInfo;
use pkg_registry::db::entities::meta::ActiveMeta;
use pkg_registry::db::entities::package::ActivePackage;
use pkg_registry::db::entities::package_author::ActivePackageAuthors;
use pkg_registry::db::entities::registry::ActiveRegistry;
use pkg_registry::db::entities::source::ActiveSource;
use pkg_registry::db::entities::url_white_list::ActiveUrlWhitelist;
use pkg_registry::db::entities::{package, source, ForeignKeyAction};
use pkg_registry::db::graph::{count_package_ids, count_source_ids};
use pkg_registry::db::store::Store;
use pkg_registry::error::{Error, ErrorClass};
use pkg_registry::extractor::OciId;
use pkg_registry::models::OciIdentifier;
use pkg_registry::pkg::{
    Author, Capabilities, GitInfo, PkgMeta, PkgType, Registry, Source, WasmPkg,
};
use pkg_registry::publish::{download, publish, publish_path, search};
use pkg_registry::semver::SemVer;

fn author(name: &str, email: Option<&str>) -> Author {
    Author { name: name.to_string(), email: email.map(|e| e.to_string()) }
}

fn meta() -> PkgMeta {
    PkgMeta {
        authors: vec![author("Ada", Some("ada@example.org")), author("Bob", None)],
        description: Some("a counter".to_string()),
        documentation: None,
        license: Some("MIT".to_string()),
        repository: None,
    }
}

fn git() -> GitInfo {
    GitInfo {
        commit_hash_short: "abc1234".to_string(),
        commits_past_tag: Some(3),
        tag: Some("v1.2.3".to_string()),
        dirty: false,
    }
}

fn embedded(digest: &str) -> Source {
    Source {
        version: SemVer { major: 1, minor: 2, patch: 3 },
        digest: digest.to_string(),
        wasm: Some(vec![0, 97, 115, 109]),
        git_info: Some(git()),
        registry: None,
    }
}

fn remote(digest: &str, host: &str, namespace: &str) -> Source {
    Source {
        version: SemVer { major: 0, minor: 1, patch: 0 },
        digest: digest.to_string(),
        wasm: None,
        git_info: None,
        registry: Some(Registry {
            registry_type: Some("oci".to_string()),
            registry_hostname: host.to_string(),
            namespace: namespace.to_string(),
        }),
    }
}

fn capabilities() -> Capabilities {
    Capabilities {
        network: true,
        websocket: false,
        url_whitelist: vec!["https://a.example".to_string(), "https://b.example".to_string()],
    }
}

fn package(name: &str, source: Source) -> WasmPkg {
    WasmPkg {
        name: name.to_string(),
        app_name: Some("app".to_string()),
        app_module: None,
        capabilities: Some(capabilities()),
        pkg_type: PkgType::Contract,
        meta: meta(),
        source,
    }
}

fn reference(s: &str) -> OciId {
    OciId(OciIdentifier::from_str(s).unwrap())
}

#[test]
fn new_store_is_empty_and_starts_at_one() {
    let store = Store::new();
    assert!(store.authors().is_empty());
    assert!(store.metas().is_empty());
    assert!(store.package_authors().is_empty());
    assert!(store.capabilities().is_empty());
    assert!(store.url_whitelist().is_empty());
    assert!(store.git_infos().is_empty());
    assert!(store.registries().is_empty());
    assert!(store.sources().is_empty());
    assert!(store.packages().is_empty());
    assert!(store.index().is_empty());
    assert_eq!(store.next_id(), 1);
    assert!(store.has_room(10));
    assert!(!store.has_room(u64::MAX as u128));
    assert!(store.has_room(u64::MAX as u128 - 1));
}

#[test]
fn publish_writes_the_whole_graph_in_order() {
    let mut store = Store::new();
    let id = publish(
        &mut store,
        reference("127.0.0.1:5000/myorg/myapp:1.2.3"),
        package("counter", embedded("d1")),
        1700,
    )
    .unwrap();

    // meta 1, authors 2 and 3, capabilities 4, urls 5 and 6, git info 7,
    // source 8, package 9, index entry 10
    assert_eq!(id, 10);
    assert_eq!(store.next_id(), 11);

    assert_eq!(store.metas().len(), 1);
    assert_eq!(store.metas()[0].id, 1);
    assert_eq!(store.metas()[0].description, Some("a counter".to_string()));
    assert_eq!(store.metas()[0].license, Some("MIT".to_string()));
    assert_eq!(store.metas()[0].documentation, None);

    assert_eq!(store.authors().len(), 2);
    assert_eq!(store.authors()[0].id, 2);
    assert_eq!(store.authors()[0].name, "Ada");
    assert_eq!(store.authors()[0].email, Some("ada@example.org".to_string()));
    assert_eq!(store.authors()[1].id, 3);
    assert_eq!(store.authors()[1].name, "Bob");
    assert_eq!(store.authors()[1].email, None);

    assert_eq!(store.package_authors().len(), 2);
    assert_eq!(store.package_authors()[0].meta_id, 1);
    assert_eq!(store.package_authors()[0].author_id, 2);
    assert_eq!(store.package_authors()[1].meta_id, 1);
    assert_eq!(store.package_authors()[1].author_id, 3);

    assert_eq!(store.capabilities().len(), 1);
    assert_eq!(store.capabilities()[0].id, 4);
    assert!(store.capabilities()[0].network);
    assert!(!store.capabilities()[0].websocket);

    assert_eq!(store.url_whitelist().len(), 2);
    assert_eq!(store.url_whitelist()[0].id, 5);
    assert_eq!(store.url_whitelist()[0].capability_id, 4);
    assert_eq!(store.url_whitelist()[0].url, "https://a.example");
    assert_eq!(store.url_whitelist()[1].id, 6);
    assert_eq!(store.url_whitelist()[1].url, "https://b.example");

    assert_eq!(store.git_infos().len(), 1);
    assert_eq!(store.git_infos()[0].id, 7);
    assert_eq!(store.git_infos()[0].commit_hash_short, "abc1234");
    assert_eq!(store.git_infos()[0].commits_past_tag, Some(3));
    assert_eq!(store.git_infos()[0].tag, Some("v1.2.3".to_string()));
    assert!(!store.git_infos()[0].dirty);

    assert!(store.registries().is_empty());

    assert_eq!(store.sources().len(), 1);
    assert_eq!(
        store.sources()[0],
        source::Model {
            id: 8,
            version: "1.2.3".to_string(),
            digest: "d1".to_string(),
            wasm_blob: Some(vec![0, 97, 115, 109]),
            registry_id: None,
            git_info_id: Some(7),
        }
    );

    assert_eq!(store.packages().len(), 1);
    assert_eq!(
        store.packages()[0],
        package::Model {
            id: 9,
            name: "counter".to_string(),
            app_name: Some("app".to_string()),
            app_module: None,
            pkg_type: "contract".to_string(),
            meta_id: 1,
            source_id: 8,
            capabilities_id: Some(4),
            created_at: 1700,
            updated_at: 1700,
        }
    );

    assert_eq!(store.index().len(), 1);
    let entry = &store.index()[0];
    assert_eq!(entry.id, 10);
    assert_eq!(entry.pkg_id, 9);
    assert_eq!(entry.registry, "127.0.0.1:5000");
    assert_eq!(entry.namespace, "myorg");
    assert_eq!(entry.repository, "myapp");
    assert_eq!(entry.tag, "1.2.3");
    assert!(!entry.yank);
    assert!(!entry.deprecated);
    assert_eq!(entry.created_at, 1700);
}

#[test]
fn publish_of_a_remote_source_writes_its_registry() {
    let mut store = Store::new();
    let mut pkg = package("agent", remote("d2", "ghcr.io", "acme"));
    pkg.capabilities = None;
    pkg.pkg_type = PkgType::Agent;
    pkg.meta.authors = vec![];
    let id = publish(&mut store, reference("127.0.0.1:5000/org/app:latest"), pkg, 5).unwrap();
    // meta 1, registry 2, source 3, package 4, index entry 5
    assert_eq!(id, 5);
    assert!(store.authors().is_empty());
    assert!(store.package_authors().is_empty());
    assert!(store.capabilities().is_empty());
    assert!(store.git_infos().is_empty());
    assert_eq!(store.registries().len(), 1);
    assert_eq!(store.registries()[0].id, 2);
    assert_eq!(store.registries()[0].registry_type, Some("oci".to_string()));
    assert_eq!(store.registries()[0].hostname, "ghcr.io");
    assert_eq!(store.registries()[0].namespace, "acme");
    assert_eq!(store.sources()[0].id, 3);
    assert_eq!(store.sources()[0].version, "0.1.0");
    assert_eq!(store.sources()[0].wasm_blob, None);
    assert_eq!(store.sources()[0].registry_id, Some(2));
    assert_eq!(store.sources()[0].git_info_id, None);
    assert_eq!(store.packages()[0].id, 4);
    assert_eq!(store.packages()[0].pkg_type, "agent");
    assert_eq!(store.packages()[0].capabilities_id, None);
    assert_eq!(store.packages()[0].meta_id, 1);
    assert_eq!(store.packages()[0].source_id, 3);
    assert_eq!(store.index()[0].tag, "latest");
    assert_eq!(store.index()[0].pkg_id, 4);
}

fn snapshot(store: &Store) -> (usize, usize, usize, usize, usize, usize, usize, usize, usize, usize, u64) {
    (
        store.authors().len(),
        store.metas().len(),
        store.package_authors().len(),
        store.capabilities().len(),
        store.url_whitelist().len(),
        store.git_infos().len(),
        store.registries().len(),
        store.sources().len(),
        store.packages().len(),
        store.index().len(),
        store.next_id(),
    )
}

#[test]
fn second_publish_under_the_same_key_is_a_conflict() {
    let mut store = Store::new();
    let first = publish(
        &mut store,
        reference("127.0.0.1:5000/myorg/myapp:1.2.3"),
        package("counter", embedded("d1")),
        1,
    );
    assert_eq!(first, Ok(10));
    let found = search(&store, "myapp");
    assert_eq!(found.len(), 1);
    assert_eq!(found[0].pkg_id, 9);
    let before = snapshot(&store);
    let packages = store.packages().clone();
    let sources = store.sources().clone();
    let index = store.index().clone();

    // another repository and another digest, the same registry, namespace
    // and tag; the tag is written otherwise and means the same version
    let second = publish(
        &mut store,
        reference("127.0.0.1:5000/myorg/other:1.02.3"),
        package("other", embedded("d2")),
        2,
    );
    assert_eq!(second, Err(Error::Conflict));
    assert_eq!(snapshot(&store), before);
    assert_eq!(store.packages(), &packages);
    assert_eq!(store.sources(), &sources);
    assert_eq!(store.index(), &index);
}

#[test]
fn publish_of_a_known_digest_is_a_conflict_under_any_reference() {
    let mut store = Store::new();
    assert!(publish(
        &mut store,
        reference("127.0.0.1:5000/myorg/myapp:1.2.3"),
        package("counter", embedded("d1")),
        1,
    )
    .is_ok());
    let before = snapshot(&store);
    for target in [
        "127.0.0.1:5000/myorg/myapp:1.2.3",
        "127.0.0.1:5000/myorg/myapp:2.0.0",
        "127.0.0.1:6000/other/thing:latest",
        "[::1]:80/a/b:c",
        "plain/repo:latest",
    ] {
        let again = publish(&mut store, reference(target), package("other", embedded("d1")), 2);
        assert_eq!(again, Err(Error::Conflict));
        assert_eq!(snapshot(&store), before);
    }
}

#[test]
fn publish_of_a_known_remote_registry_is_a_conflict() {
    let mut store = Store::new();
    assert!(publish(
        &mut store,
        reference("127.0.0.1:5000/org/a:1.0.0"),
        package("a", remote("d1", "ghcr.io", "acme")),
        1,
    )
    .is_ok());
    let before = snapshot(&store);
    let again = publish(
        &mut store,
        reference("127.0.0.1:5000/org/b:2.0.0"),
        package("b", remote("d2", "ghcr.io", "acme")),
        2,
    );
    assert_eq!(again, Err(Error::Conflict));
    assert_eq!(snapshot(&store), before);
    let other = publish(
        &mut store,
        reference("127.0.0.1:5000/org/b:2.0.0"),
        package("b", remote("d2", "ghcr.io", "other")),
        2,
    );
    assert!(other.is_ok());
}

#[test]
fn publish_without_registry_is_refused() {
    let mut store = Store::new();
    let r = publish(&mut store, reference("myorg/myapp:1.2.3"), package("c", embedded("d1")), 1);
    assert_eq!(r, Err(Error::MissingRegistry));
    assert_eq!(snapshot(&store), snapshot(&Store::new()));
    assert_eq!(Error::MissingRegistry.class(), ErrorClass::Client);
}

#[test]
fn publish_of_a_mixed_or_empty_source_is_refused() {
    let mut store = Store::new();
    let mut both = embedded("d1");
    both.registry = remote("x", "ghcr.io", "acme").registry;
    let mut neither = embedded("d2");
    neither.wasm = None;
    neither.git_info = None;
    let mut remote_with_git = remote("d3", "ghcr.io", "acme");
    remote_with_git.git_info = Some(git());
    for source in [both, neither, remote_with_git] {
        assert!(!source.is_valid());
        let r = publish(
            &mut store,
            reference("127.0.0.1:5000/myorg/myapp:1.2.3"),
            package("c", source),
            1,
        );
        assert_eq!(r, Err(Error::InvalidSource));
        assert_eq!(snapshot(&store), snapshot(&Store::new()));
    }
    assert!(embedded("d").is_valid());
    assert!(remote("d", "h", "n").is_valid());
    let mut bare = embedded("d");
    bare.git_info = None;
    assert!(bare.is_valid());
}

#[test]
fn publish_checks_the_source_before_the_reference() {
    let mut store = Store::new();
    assert!(publish(
        &mut store,
        reference("127.0.0.1:5000/myorg/myapp:1.2.3"),
        package("counter", embedded("d1")),
        1,
    )
    .is_ok());
    let mut both = embedded("d1");
    both.registry = remote("x", "ghcr.io", "acme").registry;
    assert_eq!(
        publish(&mut store, reference("plain/repo:latest"), package("c", both), 1),
        Err(Error::InvalidSource)
    );
    assert_eq!(
        publish(&mut store, reference("plain/repo:latest"), package("c", embedded("d1")), 1),
        Err(Error::Conflict)
    );
    assert_eq!(
        publish(&mut store, reference("plain/repo:latest"), package("c", embedded("d9")), 1),
        Err(Error::MissingRegistry)
    );
}

#[test]
fn two_publishes_make_rows_of_their_own() {
    let mut store = Store::new();
    assert_eq!(
        publish(
            &mut store,
            reference("127.0.0.1:5000/myorg/myapp:1.0.0"),
            package("counter", embedded("d1")),
            1,
        ),
        Ok(10)
    );
    assert_eq!(
        publish(
            &mut store,
            reference("127.0.0.1:5000/myorg/myapp:1.0.1"),
            package("counter", embedded("d2")),
            2,
        ),
        Ok(20)
    );
    // the same authors come twice
    assert_eq!(store.authors().len(), 4);
    assert_eq!(store.authors()[2].name, "Ada");
    assert_eq!(store.authors()[2].id, 12);
    assert_eq!(store.package_authors()[2].meta_id, 11);
    assert_eq!(store.metas().len(), 2);
    assert_eq!(store.sources().len(), 2);
    assert_eq!(store.packages().len(), 2);
    assert_eq!(store.packages()[1].id, 19);
    assert_eq!(store.packages()[1].source_id, 18);
    assert_eq!(store.packages()[1].meta_id, 11);
    assert_eq!(store.packages()[1].capabilities_id, Some(14));
    assert_eq!(store.index().len(), 2);
    assert_eq!(store.index()[1].pkg_id, 19);
    let found = search(&store, "myapp");
    assert_eq!(found.len(), 2);
    assert_eq!(found[0].tag, "1.0.0");
    assert_eq!(found[1].tag, "1.0.1");
    assert!(search(&store, "myap").is_empty());
    assert!(search(&store, "").is_empty());
}

#[test]
fn publish_path_decodes_and_reads_the_reference() {
    let mut store = Store::new();
    let r = publish_path(
        &mut store,
        "127.0.0.1%3A5000/my%20org/myapp%3Anightly",
        package("counter", embedded("d1")),
        7,
    );
    assert_eq!(r, Ok(10));
    assert_eq!(store.index()[0].registry, "127.0.0.1:5000");
    assert_eq!(store.index()[0].namespace, "my org");
    assert_eq!(store.index()[0].repository, "myapp");
    assert_eq!(store.index()[0].tag, "nightly");

    let before = snapshot(&store);
    let bad = publish_path(&mut store, "namespace/repo", package("c", embedded("d2")), 7);
    assert_eq!(bad, Err(Error::Oci(pkg_registry::models::Error::InvalidFormat)));
    let bad = publish_path(&mut store, "repo:tag", package("c", embedded("d2")), 7);
    assert_eq!(bad, Err(Error::Oci(pkg_registry::models::Error::InvalidFormat)));
    let bad = publish_path(&mut store, "a/b%ff:c", package("c", embedded("d2")), 7);
    assert_eq!(bad, Err(Error::UTF8));
    assert_eq!(snapshot(&store), before);
}

#[test]
fn download_gives_the_code_of_a_digest() {
    let mut store = Store::new();
    assert!(publish(
        &mut store,
        reference("127.0.0.1:5000/myorg/myapp:1.0.0"),
        package("counter", embedded("d1")),
        1,
    )
    .is_ok());
    assert!(publish(
        &mut store,
        reference("127.0.0.1:5000/myorg/far:2.0.0"),
        package("far", remote("d2", "ghcr.io", "acme")),
        1,
    )
    .is_ok());
    assert_eq!(download(&store, "d1"), Ok(vec![0, 97, 115, 109]));
    assert_eq!(download(&store, "d2"), Err(Error::NotFound));
    assert_eq!(download(&store, "d3"), Err(Error::NotFound));
    assert_eq!(download(&store, ""), Err(Error::NotFound));
}

#[test]
fn single_rows_are_put_in_by_their_front_doors() {
    let mut store = Store::new();
    assert_eq!(ActiveAuthor::from_model(&mut store, author("Ada", None)), Ok(1));
    // no metadata yet
    assert_eq!(ActivePackageAuthors::from_ids(&mut store, 2, 1), Err(Error::NotFound));
    assert!(store.package_authors().is_empty());
    assert_eq!(store.next_id(), 2);
    assert_eq!(ActiveMeta::from_model(&mut store, meta()), Ok(2));
    assert_eq!(store.next_id(), 5);
    assert_eq!(store.package_authors().len(), 2);
    assert_eq!(store.package_authors()[0].meta_id, 2);
    assert_eq!(store.package_authors()[0].author_id, 3);
    assert_eq!(store.package_authors()[1].author_id, 4);
    // the first author and the metadata are there now
    assert_eq!(ActivePackageAuthors::from_ids(&mut store, 2, 1), Ok(()));
    assert_eq!(store.package_authors().len(), 3);
    assert_eq!(store.package_authors()[2].meta_id, 2);
    assert_eq!(store.package_authors()[2].author_id, 1);
    assert_eq!(store.next_id(), 5);
    // tied already
    assert_eq!(ActivePackageAuthors::from_ids(&mut store, 2, 1), Err(Error::Conflict));
    assert_eq!(ActivePackageAuthors::from_ids(&mut store, 2, 3), Err(Error::Conflict));
    // an author that is not there, metadata that are not there
    assert_eq!(ActivePackageAuthors::from_ids(&mut store, 2, 2), Err(Error::NotFound));
    assert_eq!(ActivePackageAuthors::from_ids(&mut store, 1, 1), Err(Error::NotFound));
    assert_eq!(store.package_authors().len(), 3);

    assert_eq!(
        ActiveUrlWhitelist::from_id_and_url(&mut store, 5, "https://c.example".to_string()),
        Err(Error::NotFound)
    );
    assert_eq!(ActiveCapabilities::from_model(&mut store, capabilities()), Ok(5));
    assert_eq!(store.next_id(), 8);
    assert_eq!(
        ActiveUrlWhitelist::from_id_and_url(&mut store, 5, "https://c.example".to_string()),
        Ok(8)
    );
    assert_eq!(
        ActiveUrlWhitelist::from_id_and_url(&mut store, 6, "https://c.example".to_string()),
        Err(Error::NotFound)
    );
    assert_eq!(store.url_whitelist().len(), 3);
    assert_eq!(store.url_whitelist()[2].capability_id, 5);
    assert_eq!(ActiveGitInfo::from_model(&mut store, git()), Ok(9));
    let registry = remote("d", "ghcr.io", "acme").registry.unwrap();
    assert_eq!(ActiveRegistry::from_model(&mut store, registry.clone()), Ok(10));
    assert_eq!(ActiveRegistry::from_model(&mut store, registry), Err(Error::Conflict));
    assert_eq!(store.next_id(), 11);
    assert_eq!(ActiveSource::from_model(&mut store, embedded("d1")), Ok(12));
    assert_eq!(store.sources()[0].git_info_id, Some(11));
    assert_eq!(ActiveSource::from_model(&mut store, embedded("d1")), Err(Error::Conflict));
    assert_eq!(
        ActiveSource::from_model(&mut store, remote("d2", "ghcr.io", "acme")),
        Err(Error::Conflict)
    );
    let mut both = embedded("d3");
    both.registry = remote("x", "h", "n").registry;
    assert_eq!(ActiveSource::from_model(&mut store, both), Err(Error::InvalidSource));
    assert_eq!(store.next_id(), 13);
    let row = ActivePackage::from_model(&mut store, package("p", embedded("d4")), 44).unwrap();
    // meta 13, authors 14 and 15, capabilities 16, urls 17 and 18, git
    // info 19, source 20, package 21
    assert_eq!(row.id, 21);
    assert_eq!(row.meta_id, 13);
    assert_eq!(row.source_id, 20);
    assert_eq!(row.capabilities_id, Some(16));
    assert_eq!(row.created_at, 44);
    assert_eq!(&row, store.packages().last().unwrap());
    assert_eq!(
        ActivePackage::from_model(&mut store, package("p", embedded("d4")), 45),
        Err(Error::Conflict)
    );
    assert_eq!(store.next_id(), 22);
    assert!(store.has_meta(13));
    assert!(!store.has_meta(14));
    assert!(store.has_author(14));
    assert!(store.has_capabilities(16));
    assert!(!store.has_capabilities(17));
    assert!(store.has_tie(13, 15));
    assert!(!store.has_tie(13, 1));
}

#[test]
fn ids_are_counted_as_they_are_handed_out() {
    assert_eq!(count_source_ids(&embedded("d")), 2);
    assert_eq!(count_source_ids(&remote("d", "h", "n")), 2);
    let mut bare = embedded("d");
    bare.git_info = None;
    assert_eq!(count_source_ids(&bare), 1);
    assert_eq!(count_package_ids(&package("p", embedded("d"))), 9);
    let mut small = package("p", bare);
    small.capabilities = None;
    small.meta.authors = vec![];
    assert_eq!(count_package_ids(&small), 3);
}

fn filled() -> Store {
    let mut store = Store::new();
    // meta 1, authors 2 3, capabilities 4, urls 5 6, git info 7, source 8,
    // package 9, index 10
    assert_eq!(
        publish(
            &mut store,
            reference("127.0.0.1:5000/myorg/one:1.0.0"),
            package("one", embedded("d1")),
            1,
        ),
        Ok(10)
    );
    // meta 11, authors 12 13, capabilities 14, urls 15 16, registry 17,
    // source 18, package 19, index 20
    assert_eq!(
        publish(
            &mut store,
            reference("127.0.0.1:5000/myorg/two:1.0.0-x"),
            package("two", remote("d2", "ghcr.io", "acme")),
            2,
        ),
        Ok(20)
    );
    store
}

#[test]
fn deleting_a_source_removes_its_package() {
    let mut store = filled();
    store.delete_source(8);
    assert_eq!(store.sources().len(), 1);
    assert_eq!(store.sources()[0].id, 18);
    assert_eq!(store.packages().len(), 1);
    assert_eq!(store.packages()[0].id, 19);
    assert_eq!(store.packages()[0].source_id, 18);
    assert_eq!(store.metas().len(), 2);
    assert_eq!(store.git_infos().len(), 1);
    assert_eq!(store.index().len(), 2);
    assert_eq!(store.next_id(), 21);
    // an id that no source has
    store.delete_source(9);
    assert_eq!(store.sources().len(), 1);
    assert_eq!(store.packages().len(), 1);
    assert_eq!(package::Relation::Sources.on_delete(), ForeignKeyAction::Cascade);
}

#[test]
fn deleting_metadata_removes_their_package() {
    let mut store = filled();
    store.delete_meta(11);
    assert_eq!(store.metas().len(), 1);
    assert_eq!(store.metas()[0].id, 1);
    assert_eq!(store.packages().len(), 1);
    assert_eq!(store.packages()[0].id, 9);
    assert_eq!(store.package_authors().len(), 2);
    assert_eq!(store.package_authors()[0].meta_id, 1);
    assert_eq!(store.package_authors()[1].meta_id, 1);
    assert_eq!(store.authors().len(), 4);
    assert_eq!(store.sources().len(), 2);
    assert_eq!(package::Relation::Meta.on_delete(), ForeignKeyAction::Cascade);
}

#[test]
fn deleting_a_registry_leaves_the_source_without_it() {
    let mut store = filled();
    let before = store.sources().clone();
    store.delete_registry(17);
    assert!(store.registries().is_empty());
    assert_eq!(store.sources().len(), 2);
    assert_eq!(store.sources()[0], before[0]);
    assert_eq!(store.sources()[1].registry_id, None);
    assert_eq!(store.sources()[1].id, 18);
    assert_eq!(store.sources()[1].digest, "d2");
    assert_eq!(store.sources()[1].version, before[1].version);
    assert_eq!(store.packages().len(), 2);
    assert_eq!(source::Relation::Registries.on_delete(), ForeignKeyAction::SetNull);
    // the host name and namespace are free again
    assert!(!store.has_registry(&"ghcr.io".to_string(), &"acme".to_string()));
}

#[test]
fn deleting_git_information_leaves_the_source_without_it() {
    let mut store = filled();
    let before = store.sources().clone();
    store.delete_git_info(7);
    assert!(store.git_infos().is_empty());
    assert_eq!(store.sources().len(), 2);
    assert_eq!(store.sources()[0].git_info_id, None);
    assert_eq!(store.sources()[0].wasm_blob, before[0].wasm_blob);
    assert_eq!(store.sources()[0].digest, "d1");
    assert_eq!(store.sources()[1], before[1]);
    assert_eq!(store.packages().len(), 2);
    assert_eq!(source::Relation::GitInfo.on_delete(), ForeignKeyAction::SetNull);
}

#[test]
fn deleting_capabilities_removes_their_urls() {
    let mut store = filled();
    store.delete_capabilities(4);
    assert_eq!(store.capabilities().len(), 1);
    assert_eq!(store.capabilities()[0].id, 14);
    assert_eq!(store.url_whitelist().len(), 2);
    assert_eq!(store.url_whitelist()[0].capability_id, 14);
    assert_eq!(store.url_whitelist()[1].capability_id, 14);
    assert_eq!(store.packages().len(), 2);
    assert_eq!(store.packages()[0].capabilities_id, None);
    assert_eq!(store.packages()[1].capabilities_id, Some(14));
    assert_eq!(package::Relation::Capabilities.on_delete(), ForeignKeyAction::SetNull);
}

#[test]
fn deleting_an_author_removes_the_ties() {
    let mut store = filled();
    store.delete_author(3);
    assert_eq!(store.authors().len(), 3);
    assert_eq!(store.package_authors().len(), 3);
    assert_eq!(store.package_authors()[0].author_id, 2);
    assert_eq!(store.package_authors()[1].author_id, 12);
    assert_eq!(store.metas().len(), 2);
}

#[test]
fn a_deleted_digest_can_be_published_again() {
    let mut store = filled();
    store.delete_source(8);
    assert!(!store.has_digest(&"d1".to_string()));
    assert!(store.has_digest(&"d2".to_string()));
    let r = publish(
        &mut store,
        reference("127.0.0.1:5000/myorg/one:2.0.0"),
        package("one", embedded("d1")),
        3,
    );
    assert_eq!(r, Ok(30));
}

#[test]
fn errors_have_their_class_and_status() {
    let cases = [
        (Error::Oci(pkg_registry::models::Error::InvalidFormat), ErrorClass::Client, 400),
        (Error::Oci(pkg_registry::models::Error::MissingNamespace), ErrorClass::Client, 400),
        (Error::Oci(pkg_registry::models::Error::MissingRepoOrTag), ErrorClass::Client, 400),
        (Error::UTF8, ErrorClass::Client, 400),
        (Error::InvalidPath, ErrorClass::Client, 400),
        (Error::MissingRegistry, ErrorClass::Client, 400),
        (Error::InvalidSource, ErrorClass::Client, 400),
        (Error::Conflict, ErrorClass::AlreadyExists, 409),
        (Error::NotFound, ErrorClass::Missing, 404),
        (Error::Storage, ErrorClass::Server, 500),
    ];
    for (e, class, status) in cases {
        assert_eq!(e.class(), class);
        assert_eq!(e.status(), status);
    }
    assert_eq!(Error::InvalidSource.to_string(), "Invalid source type");
    assert_eq!(Error::InvalidPath.to_string(), "Invalid path!");
    assert_eq!(
        Error::Oci(pkg_registry::models::Error::InvalidFormat).to_string(),
        "Oci path error - Invalid format: the identifier format is invalid"
    );
    assert_eq!(PkgType::Contract.to_string(), "contract");
    assert_eq!(PkgType::Agent.to_string(), "agent");
}
