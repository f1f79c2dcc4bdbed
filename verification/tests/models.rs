use pkg_registry::models::{Error, OciIdentifier, Registry, Tag};
use pkg_registry::net::SocketAddr;
use pkg_registry::semver::SemVer;
use pkg_registry::weburl::Url;

// ===== SUCCESSFUL PARSING TESTS =====

#[test]
fn parse_basic_oci_identifier() -> Result<(), Error> {
    let oci = OciIdentifier::from_str("nginx/nginx:latest")?;

    assert!(oci.registry.is_none());
    assert_eq!(oci.namespace, "nginx");
    assert_eq!(oci.repository, "nginx");
    assert_eq!(oci.tag, Tag::Keyword("latest".to_string()));

    Ok(())
}

#[test]
fn parse_oci_with_semver_tag() -> Result<(), Error> {
    let oci = OciIdentifier::from_str("library/ubuntu:22.04.3")?;

    assert_eq!(oci.namespace, "library");
    assert_eq!(oci.repository, "ubuntu");
    assert!(matches!(oci.tag, Tag::Version(_)));

    Ok(())
}

#[test]
fn parse_oci_with_url_registry() -> Result<(), Error> {
    let oci = OciIdentifier::from_str("https://registry.docker.io/library/postgres:15.2")?;

    assert!(oci.registry.is_some());
    assert!(matches!(oci.registry.as_ref().unwrap(), Registry::Url(_)));
    assert_eq!(oci.namespace, "library");
    assert_eq!(oci.repository, "postgres");

    Ok(())
}

#[test]
fn parse_oci_with_socket_registry() -> Result<(), Error> {
    let oci = OciIdentifier::from_str("127.0.0.1:5000/myorg/myapp:nightly")?;

    assert!(oci.registry.is_some());
    if let Some(Registry::SocketAddr(addr)) = &oci.registry {
        assert_eq!(*addr, SocketAddr::V4 { octets: [127, 0, 0, 1], port: 5000 });
        assert_eq!(addr.ip_string(), "127.0.0.1");
        assert_eq!(addr.port(), 5000);
    } else {
        panic!("Expected SocketAddr registry");
    }
    assert_eq!(oci.namespace, "myorg");
    assert_eq!(oci.repository, "myapp");
    assert_eq!(oci.tag, Tag::Keyword("nightly".to_string()));

    Ok(())
}

#[test]
fn parse_oci_with_hostname_registry() -> Result<(), Error> {
    let oci = OciIdentifier::from_str("gcr.io/google-containers/pause:3.9")?;

    assert!(oci.registry.is_some());
    assert_eq!(oci.namespace, "google-containers");
    assert_eq!(oci.repository, "pause");

    Ok(())
}

#[test]
fn parse_oci_with_port_in_hostname() -> Result<(), Error> {
    let oci = OciIdentifier::from_str("registry.example.com:443/company/service:1.2.3")?;

    assert!(oci.registry.is_some());
    assert_eq!(oci.namespace, "company");
    assert_eq!(oci.repository, "service");

    Ok(())
}

#[test]
fn parse_different_keyword_tags() -> Result<(), Error> {
    let test_cases = vec![("user/app:latest", "latest"), ("user/app:nightly", "nightly")];

    for (input, expected_keyword) in test_cases {
        let oci = OciIdentifier::from_str(input)?;
        if let Tag::Keyword(keyword) = &oci.tag {
            assert_eq!(keyword, expected_keyword);
        } else {
            panic!("Expected keyword tag for {}", input);
        }
    }

    Ok(())
}

#[test]
fn parse_with_whitespace() -> Result<(), Error> {
    let oci = OciIdentifier::from_str("  nginx/nginx:latest  ")?;

    assert_eq!(oci.namespace, "nginx");
    assert_eq!(oci.repository, "nginx");
    assert_eq!(oci.tag, Tag::Keyword("latest".to_string()));

    Ok(())
}

// ===== ERROR HANDLING TESTS =====

#[test]
fn parse_empty_string_fails() {
    let result = OciIdentifier::from_str("");
    assert!(matches!(result, Err(Error::InvalidFormat)));
}

#[test]
fn parse_whitespace_only_fails() {
    let result = OciIdentifier::from_str("   ");
    assert!(matches!(result, Err(Error::InvalidFormat)));
}

#[test]
fn parse_missing_namespace_fails() {
    let result = OciIdentifier::from_str("repo:tag");
    assert!(matches!(result, Err(Error::InvalidFormat)));
}

#[test]
fn parse_missing_tag_fails() {
    let result = OciIdentifier::from_str("namespace/repo");
    assert!(matches!(result, Err(Error::InvalidFormat)));
}

#[test]
fn parse_missing_repository_fails() {
    let result = OciIdentifier::from_str("namespace/:tag");
    assert!(result.is_err());
}

#[test]
fn parse_invalid_colon_format_fails() {
    let test_cases = vec!["namespace/repo:", "namespace/repo::", "namespace/repo:tag:extra"];

    for case in test_cases {
        let result = OciIdentifier::from_str(case);
        assert!(result.is_err(), "Should fail for: {}", case);
    }
}

// ===== REAL-WORLD EXAMPLES =====

#[test]
fn parse_real_world_examples() -> Result<(), Error> {
    let examples = vec![
        "library/nginx:1.21.6",
        "library/node:18-alpine",
        "gcr.io/google-containers/pause:3.9",
        "123456789012.dkr.ecr.us-west-2.amazonaws.com/my-org/my-app:latest",
        "myregistry.azurecr.io/samples/nginx:latest",
        "harbor.example.com/library/redis:6.2",
        "localhost:5000/myproject/myimage:dev",
    ];

    for example in examples {
        let result = OciIdentifier::from_str(example);
        assert!(result.is_ok(), "Failed to parse: {}", example);

        let oci = result?;
        assert!(!oci.namespace.is_empty());
        assert!(!oci.repository.is_empty());
    }

    Ok(())
}

// ===== EDGE CASES =====

#[test]
fn parse_deep_namespace_path() -> Result<(), Error> {
    let oci = OciIdentifier::from_str("registry.io/org/team/project/service:1.0.0")?;

    assert!(oci.registry.is_some());
    assert_eq!(oci.namespace, "org/team/project");
    assert_eq!(oci.repository, "service");
    assert_eq!(oci.tag, Tag::Version(SemVer { major: 1, minor: 0, patch: 0 }));

    Ok(())
}

#[test]
fn parse_numeric_tags() -> Result<(), Error> {
    let oci = OciIdentifier::from_str("library/node:18")?;

    assert!(matches!(oci.tag, Tag::Keyword(_)));

    Ok(())
}

// ===== ROUNDTRIP TESTS =====

#[test]
fn roundtrip_test() -> Result<(), Error> {
    let test_cases = vec![
        ("nginx/nginx:latest", "nginx/nginx:latest"),
        ("library/ubuntu:22.04.3", "library/ubuntu:22.4.3"),
        ("myorg/myapp:1.2.3", "myorg/myapp:1.2.3"),
        ("deep/namespace/path/repo:1.0.0", "deep/namespace/path/repo:1.0.0"),
    ];

    for (original, expected_output) in test_cases {
        let oci = OciIdentifier::from_str(original)?;
        let serialized = oci.to_string();
        let reparsed = OciIdentifier::from_str(&serialized)?;

        assert_eq!(oci, reparsed, "Roundtrip failed for: {}", original);
        assert_eq!(serialized, expected_output, "String representation mismatch for: {}", original);
    }

    Ok(())
}

// ===== HELPER METHOD TESTS =====

#[test]
fn test_registry_detection_logic() -> Result<(), Error> {
    let non_registries = vec!["nginx/nginx:latest", "library/ubuntu:22.04.3", "user/app:latest"];

    for input in non_registries {
        let oci = OciIdentifier::from_str(input)?;
        assert!(oci.registry.is_none(), "Should not detect registry for: {}", input);
    }

    let with_registries = vec![
        "gcr.io/google-containers/pause:3.9",
        "127.0.0.1:5000/myorg/myapp:nightly",
        "https://registry.docker.io/library/postgres:15.2",
        "localhost:5000/myproject/myimage:dev",
        "registry.example.com:443/company/service:1.2.3",
    ];

    for input in with_registries {
        let oci = OciIdentifier::from_str(input)?;
        assert!(oci.registry.is_some(), "Should detect registry for: {}", input);
    }

    Ok(())
}

#[test]
fn test_helper_methods() -> Result<(), Error> {
    let oci = OciIdentifier::from_str("gcr.io/google-containers/pause:3.9")?;

    assert!(oci.has_registry());
    assert_eq!(oci.full_repository_path(), "google-containers/pause");
    assert_eq!(oci.registry_host(), Some("gcr.io".to_string()));

    let simple_oci = OciIdentifier::from_str("nginx/nginx:latest")?;
    assert!(!simple_oci.has_registry());
    assert_eq!(simple_oci.registry_host(), None);

    Ok(())
}

// ===== CONSTRUCTOR TESTS =====

#[test]
fn test_constructors() {
    let tag = Tag::Keyword("latest".to_string());

    let oci = OciIdentifier::new("nginx".to_string(), "nginx".to_string(), tag.clone());

    assert!(oci.registry.is_none());
    assert_eq!(oci.namespace, "nginx");
    assert_eq!(oci.repository, "nginx");
    assert_eq!(oci.tag, tag);

    let registry = Registry::Url(Url::parse("https://gcr.io").unwrap());
    let oci_with_registry = OciIdentifier::with_registry(
        registry.clone(),
        "google-containers".to_string(),
        "pause".to_string(),
        Tag::Keyword("3.9".to_string()),
    );

    assert_eq!(oci_with_registry.registry, Some(registry));
}

// ===== FURTHER CASES =====

#[test]
fn parse_gives_every_field() {
    let oci = OciIdentifier::from_str("nginx/nginx:latest").unwrap();
    assert_eq!(
        oci,
        OciIdentifier {
            registry: None,
            namespace: "nginx".to_string(),
            repository: "nginx".to_string(),
            tag: Tag::Keyword("latest".to_string()),
        }
    );
}

#[test]
fn url_registry_keeps_canonical_text_and_host() {
    let oci = OciIdentifier::from_str("https://Registry.Docker.io/library/postgres:15.2").unwrap();
    match &oci.registry {
        Some(Registry::Url(u)) => {
            assert_eq!(u.as_str(), "https://registry.docker.io/");
            assert_eq!(u.host, Some("registry.docker.io".to_string()));
        }
        other => panic!("expected a URL, got {:?}", other),
    }
    assert_eq!(oci.tag, Tag::Keyword("15.2".to_string()));
    assert_eq!(oci.to_string(), "https://registry.docker.io//library/postgres:15.2");
}

#[test]
fn host_name_gets_https() {
    let oci = OciIdentifier::from_str("localhost:5000/myproject/myimage:dev").unwrap();
    match &oci.registry {
        Some(Registry::Url(u)) => {
            assert_eq!(u.as_str(), "https://localhost:5000/");
            assert_eq!(u.host, Some("localhost".to_string()));
        }
        other => panic!("expected a URL, got {:?}", other),
    }
    assert_eq!(oci.registry_host(), Some("localhost".to_string()));
}

#[test]
fn url_without_path_is_refused() {
    assert!(matches!(OciIdentifier::from_str("https://gcr.io"), Err(Error::InvalidFormat)));
    assert!(matches!(OciIdentifier::from_str("x://repo:tag"), Err(Error::InvalidFormat)));
}

#[test]
fn registry_without_namespace_is_missing_namespace() {
    assert!(matches!(OciIdentifier::from_str("gcr.io/pause:3.9"), Err(Error::MissingNamespace)));
    assert!(matches!(
        OciIdentifier::from_str("127.0.0.1:5000/myapp:nightly"),
        Err(Error::MissingNamespace)
    ));
}

#[test]
fn url_registry_needs_two_segments_after_it() {
    assert!(matches!(OciIdentifier::from_str("https://gcr.io/pause:3.9"), Err(Error::InvalidFormat)));
}

#[test]
fn empty_namespace_is_missing_namespace() {
    assert!(matches!(OciIdentifier::from_str("/repo:tag"), Err(Error::MissingNamespace)));
    assert!(matches!(OciIdentifier::from_str("gcr.io//repo:tag"), Err(Error::MissingNamespace)));
}

#[test]
fn dotted_segment_is_taken_for_a_registry() {
    let oci = OciIdentifier::from_str("my.org/team/repo:tag").unwrap();
    assert!(matches!(oci.registry, Some(Registry::Url(_))));
    assert_eq!(oci.namespace, "team");
}

#[test]
fn segment_with_a_dot_at_its_edge_is_namespace() {
    let oci = OciIdentifier::from_str(".hidden/repo:tag").unwrap();
    assert!(oci.registry.is_none());
    assert_eq!(oci.namespace, ".hidden");
    let oci = OciIdentifier::from_str("trailing./repo:tag").unwrap();
    assert!(oci.registry.is_none());
    assert_eq!(oci.namespace, "trailing.");
}

#[test]
fn failed_candidate_leaves_the_whole_text_as_path() {
    let oci = OciIdentifier::from_str("://b/ns/r:t").unwrap();
    assert!(oci.registry.is_none());
    assert_eq!(oci.namespace, "://b/ns");
    assert_eq!(oci.repository, "r");
}

#[test]
fn ipv6_socket_registry() {
    let oci = OciIdentifier::from_str("[::1]:5000/ns/repo:1.2.3").unwrap();
    assert_eq!(
        oci.registry,
        Some(Registry::SocketAddr(SocketAddr::V6 {
            segments: [0, 0, 0, 0, 0, 0, 0, 1],
            scope_id: 0,
            port: 5000
        }))
    );
    assert_eq!(oci.registry_host(), Some("::1".to_string()));
    assert_eq!(oci.to_string(), "[::1]:5000/ns/repo:1.2.3");
}

#[test]
fn roundtrip_with_socket_registry() {
    for original in [
        "127.0.0.1:5000/myorg/myapp:nightly",
        "127.0.0.1:05000/myorg/myapp:01.2.3",
        "[::1]:80/a/b/c:latest",
        "[2001:db8:0:0:1:0:0:1%7]:443/a/b:1.0.0",
        "[::ffff:1.2.3.4]:1/x/y:z",
    ] {
        let oci = OciIdentifier::from_str(original).unwrap();
        let reparsed = OciIdentifier::from_str(&oci.to_string()).unwrap();
        assert_eq!(oci, reparsed, "Roundtrip failed for: {}", original);
    }
}

#[test]
fn roundtrip_with_plain_scheme_url() {
    let oci = OciIdentifier::from_str("oci://registry/ns/repo:1.0.0").unwrap();
    match &oci.registry {
        Some(Registry::Url(u)) => assert_eq!(u.as_str(), "oci://registry"),
        other => panic!("expected a URL, got {:?}", other),
    }
    assert_eq!(oci.to_string(), "oci://registry/ns/repo:1.0.0");
    assert_eq!(OciIdentifier::from_str(&oci.to_string()).unwrap(), oci);
}

#[test]
fn https_registry_does_not_round_trip() {
    let oci = OciIdentifier::from_str("gcr.io/google-containers/pause:3.9").unwrap();
    let reparsed = OciIdentifier::from_str(&oci.to_string()).unwrap();
    assert_eq!(reparsed.namespace, "/google-containers");
    assert_ne!(oci, reparsed);
}

#[test]
fn tag_from_str_and_to_string() {
    assert_eq!(Tag::from_str("latest"), Ok(Tag::Keyword("latest".to_string())));
    assert_eq!(Tag::from_str("stable"), Ok(Tag::Keyword("stable".to_string())));
    assert_eq!(Tag::from_str("1.2.3"), Ok(Tag::Version(SemVer { major: 1, minor: 2, patch: 3 })));
    assert_eq!(Tag::from_str(""), Err(Error::InvalidFormat));
    assert_eq!(Tag::Version(SemVer { major: 22, minor: 4, patch: 3 }).to_string(), "22.4.3");
    assert_eq!(Tag::Keyword("nightly".to_string()).to_string(), "nightly");
}

#[test]
fn semver_reads_three_numbers() {
    assert_eq!(SemVer::from_str("1.1.23"), Some(SemVer { major: 1, minor: 1, patch: 23 }));
    assert_eq!(SemVer::from_str("+1.02.3"), Some(SemVer { major: 1, minor: 2, patch: 3 }));
    assert_eq!(SemVer::from_str("1.2.3.4"), Some(SemVer { major: 1, minor: 2, patch: 3 }));
    assert_eq!(SemVer::from_str("4294967295.0.0"), Some(SemVer { major: u32::MAX, minor: 0, patch: 0 }));
    for bad in ["1.23", "1.", "1", "asdf", "a.b.c", "v1.0.3", "1.0.-10", "4294967296.0.0", "1..2", ""] {
        assert_eq!(SemVer::from_str(bad), None, "{}", bad);
    }
    assert_eq!(SemVer { major: 1, minor: 2, patch: 3 }.to_string(), "1.2.3");
    assert_eq!(SemVer { major: 0, minor: 10, patch: 4294967295 }.to_string(), "0.10.4294967295");
}

#[test]
fn registry_from_str_and_to_string() {
    assert_eq!(
        Registry::from_str("10.0.0.1:80"),
        Ok(Registry::SocketAddr(SocketAddr::V4 { octets: [10, 0, 0, 1], port: 80 }))
    );
    assert_eq!(Registry::from_str("10.0.0.1:80").unwrap().to_string(), "10.0.0.1:80");
    assert_eq!(Registry::from_str("gcr.io").unwrap().to_string(), "https://gcr.io/");
    assert_eq!(Registry::from_str("http://gcr.io").unwrap().to_string(), "http://gcr.io/");
    assert_eq!(Registry::from_str(""), Err(Error::InvalidFormat));
    assert_eq!(Registry::from_str("://x"), Err(Error::InvalidFormat));
    assert_eq!(Registry::from_str("1://x"), Err(Error::InvalidFormat));
}

#[test]
fn url_parse_refuses_a_text_without_scheme() {
    assert_eq!(Url::parse(""), None);
    assert_eq!(Url::parse("127.0.0.1:80/x://y"), None);
    assert_eq!(Url::parse("[::1]:80/x://y"), None);
    assert_eq!(Url::parse("gcr.io"), None);
    let u = Url::parse("HTTPS://GCR.io").unwrap();
    assert_eq!(u.as_str(), "https://gcr.io/");
    assert_eq!(u.host, Some("gcr.io".to_string()));
    let u = Url::parse("data:text/plain,Stuff").unwrap();
    assert_eq!(u.host, None);
}

#[test]
fn error_in_words() {
    assert_eq!(Error::InvalidFormat.to_string(), "Invalid format: the identifier format is invalid");
    assert_eq!(
        Error::MissingRepoOrTag.to_string(),
        "Missing repository or tag: repository and tag are required"
    );
    assert_eq!(Error::MissingNamespace.to_string(), "Missing namespace: namespace is required");
}

#[test]
fn candidates_for_a_registry_are_cut_out_of_the_text() {
    assert_eq!(
        OciIdentifier::scheme_candidate("  https://registry.docker.io/library/postgres:15.2 "),
        Some("https://registry.docker.io".to_string())
    );
    assert_eq!(OciIdentifier::scheme_candidate("a://b/c"), Some("a://b".to_string()));
    assert_eq!(OciIdentifier::scheme_candidate("://x/y:z"), Some("://x".to_string()));
    // no `/` after the `://`
    assert_eq!(OciIdentifier::scheme_candidate("https://registry.docker.io"), None);
    assert_eq!(OciIdentifier::scheme_candidate("gcr.io/google-containers/pause:3.9"), None);
    assert_eq!(OciIdentifier::scheme_candidate(""), None);
    assert_eq!(OciIdentifier::scheme_candidate("   "), None);

    assert_eq!(
        OciIdentifier::segment_candidate(" gcr.io/google-containers/pause:3.9 "),
        Some("gcr.io".to_string())
    );
    assert_eq!(
        OciIdentifier::segment_candidate("localhost:5000/myproject/myimage:dev"),
        Some("localhost:5000".to_string())
    );
    assert_eq!(OciIdentifier::segment_candidate("my.org/repo:tag"), Some("my.org".to_string()));
    // a first segment that does not look like a registry
    assert_eq!(OciIdentifier::segment_candidate("nginx/nginx:latest"), None);
    assert_eq!(OciIdentifier::segment_candidate(".hidden/repo:tag"), None);
    assert_eq!(OciIdentifier::segment_candidate("dot./repo:tag"), None);
    // a last segment that is not repository and tag
    assert_eq!(OciIdentifier::segment_candidate("gcr.io/google-containers/pause"), None);
    assert_eq!(OciIdentifier::segment_candidate("gcr.io/a/b:c:d"), None);
    // no `/` at all
    assert_eq!(OciIdentifier::segment_candidate("repo:tag"), None);
    assert_eq!(OciIdentifier::segment_candidate(""), None);
}

#[test]
fn reference_is_read_given_its_candidates() {
    let registry = Registry::from_str("10.0.0.1:80").unwrap();
    let other = Registry::from_str("10.0.0.2:81").unwrap();

    // the first segment is the registry where it was read as one
    let id = OciIdentifier::from_parts("my.org/team/repo:tag", None, Some(registry.clone()));
    let id = id.unwrap();
    assert_eq!(id.registry, Some(registry.clone()));
    assert_eq!(id.namespace, "team");
    assert_eq!(id.repository, "repo");
    assert_eq!(id.tag, Tag::Keyword("tag".to_string()));

    // and is namespace where it was not
    let id = OciIdentifier::from_parts("my.org/team/repo:1.2.3", None, None).unwrap();
    assert_eq!(id.registry, None);
    assert_eq!(id.namespace, "my.org/team");
    assert_eq!(id.tag, Tag::Version(SemVer { major: 1, minor: 2, patch: 3 }));

    // a first segment that does not look like a registry is not one
    let id = OciIdentifier::from_parts("nginx/nginx:latest", None, Some(registry.clone()));
    let id = id.unwrap();
    assert_eq!(id.registry, None);
    assert_eq!(id.namespace, "nginx");

    // a registry and nothing left for the namespace
    assert!(matches!(
        OciIdentifier::from_parts("my.org/repo:tag", None, Some(registry.clone())),
        Err(Error::MissingNamespace)
    ));

    // the candidate with `://` comes first, and the segment is not asked for
    let id = OciIdentifier::from_parts(
        " x://h/a.b/c/repo:tag ",
        Some(registry.clone()),
        Some(other.clone()),
    )
    .unwrap();
    assert_eq!(id.registry, Some(registry.clone()));
    assert_eq!(id.namespace, "a.b/c");
    assert_eq!(id.repository, "repo");

    // where it is no registry the whole text is the path
    let id = OciIdentifier::from_parts("x://h/a.b/c/repo:tag", None, Some(other.clone())).unwrap();
    assert_eq!(id.registry, Some(other.clone()));
    assert_eq!(id.namespace, "/h/a.b/c");
    let id = OciIdentifier::from_parts("x://h/a.b/c/repo:tag", None, None).unwrap();
    assert_eq!(id.registry, None);
    assert_eq!(id.namespace, "x://h/a.b/c");

    // a text without the candidate does not look at what is given for it
    let id = OciIdentifier::from_parts("ns/repo:tag", Some(registry.clone()), None).unwrap();
    assert_eq!(id.registry, None);

    assert!(matches!(
        OciIdentifier::from_parts("x://h", Some(registry.clone()), None),
        Err(Error::InvalidFormat)
    ));
    assert!(matches!(
        OciIdentifier::from_parts("", Some(registry.clone()), Some(other.clone())),
        Err(Error::InvalidFormat)
    ));
    assert!(matches!(
        OciIdentifier::from_parts("ns/repo", None, None),
        Err(Error::InvalidFormat)
    ));
    assert!(matches!(
        OciIdentifier::from_parts("/repo:tag", None, None),
        Err(Error::MissingNamespace)
    ));
}

#[test]
fn registry_is_read_as_a_url_with_https_where_it_has_no_scheme() {
    assert_eq!(Registry::url_text("gcr.io"), "https://gcr.io");
    assert_eq!(Registry::url_text("http://gcr.io"), "http://gcr.io");
    assert_eq!(Registry::url_text(""), "https://");
    assert_eq!(Registry::url_text("a:/b"), "https://a:/b");
    assert!(matches!(Registry::from_url(None), Err(Error::InvalidFormat)));
    let url = Url::parse("https://gcr.io").unwrap();
    assert_eq!(Registry::from_url(Some(url.clone())), Ok(Registry::Url(url)));
}
