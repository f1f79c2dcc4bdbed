use pkg_registry::error::Error;
use pkg_registry::extractor::OciId;
use pkg_registry::models;
use pkg_registry::models::{OciIdentifier, Tag};

fn text(path: &str) -> Result<String, Error> {
    OciId::from_path(path).map(|id| id.0.to_string())
}

#[test]
fn test_oci_extractor_simple() {
    let id = OciId::from_path("nginx/nginx:latest");
    assert!(id.is_ok());
    let id = id.unwrap().0;
    assert_eq!(id, OciIdentifier::from_str("nginx/nginx:latest").unwrap());
}

#[test]
fn test_oci_extractor_with_registry() {
    let encoded_oci = urlencoding::encode("gcr.io/google-containers/pause:3.9");
    let id = OciId::from_path(&encoded_oci);
    assert!(id.is_ok());
    let id = id.unwrap().0;
    assert!(id.has_registry());
    assert_eq!(id.registry_host(), Some("gcr.io".to_string()));
    assert_eq!(id.namespace, "google-containers");
    assert_eq!(id.repository, "pause");
}

#[test]
fn test_path_extractor_alternative() {
    let id = OciId::from_path("nginx/nginx:latest").unwrap().0;
    assert_eq!(id.to_string(), "nginx/nginx:latest");
    assert_eq!(id.namespace, "nginx");
    assert_eq!(id.repository, "nginx");
    assert_eq!(id.tag, Tag::Keyword("latest".to_string()));
}

#[test]
fn escapes_are_decoded_before_the_reference_is_read() {
    assert_eq!(text("a%2Fb%3Ac"), Ok("a/b:c".to_string()));
    assert_eq!(text("n%61me/repo:t%41g"), Ok("name/repo:tAg".to_string()));
    assert_eq!(text("a/b:%31.%32.%33"), Ok("a/b:1.2.3".to_string()));
    // hexadecimal digits of either case
    assert_eq!(text("a/b:%4a%4A"), Ok("a/b:JJ".to_string()));
    // bytes that make one character together
    assert_eq!(text("a/b:caf%C3%A9"), Ok("a/b:café".to_string()));
    // a plus sign stays
    assert_eq!(text("a/b:c+d"), Ok("a/b:c+d".to_string()));
    // white space that comes out of the escapes is trimmed
    assert_eq!(text("%20a/b:c%20"), Ok("a/b:c".to_string()));
}

#[test]
fn percent_signs_that_start_no_escape_stay() {
    assert_eq!(text("a/b:c%"), Ok("a/b:c%".to_string()));
    assert_eq!(text("a/b:c%4"), Ok("a/b:c%4".to_string()));
    assert_eq!(text("a/b:c%zz"), Ok("a/b:c%zz".to_string()));
    assert_eq!(text("a/b:c%4z"), Ok("a/b:c%4z".to_string()));
    assert_eq!(text("a/b:c%%41"), Ok("a/b:c%A".to_string()));
    assert_eq!(text("a/b:c%4%41"), Ok("a/b:c%4A".to_string()));
    assert_eq!(text("a/b:c%%"), Ok("a/b:c%%".to_string()));
}

#[test]
fn bytes_that_are_no_text_are_refused() {
    assert!(matches!(OciId::from_path("a/b:%ff"), Err(Error::UTF8)));
    assert!(matches!(OciId::from_path("a/b:%C3"), Err(Error::UTF8)));
    assert!(matches!(OciId::from_path("%80"), Err(Error::UTF8)));
}

#[test]
fn a_decoded_text_that_is_no_reference_gives_its_error() {
    assert!(matches!(OciId::from_path(""), Err(Error::Oci(models::Error::InvalidFormat))));
    assert!(matches!(OciId::from_path("%20%20"), Err(Error::Oci(models::Error::InvalidFormat))));
    assert!(matches!(
        OciId::from_path("namespace%2Frepo"),
        Err(Error::Oci(models::Error::InvalidFormat))
    ));
    assert!(matches!(
        OciId::from_path("127.0.0.1%3A5000/repo:tag"),
        Err(Error::Oci(models::Error::MissingNamespace))
    ));
    assert!(matches!(OciId::from_decoded(None), Err(Error::UTF8)));
    assert!(matches!(
        OciId::from_decoded(Some("a/b".to_string())),
        Err(Error::Oci(models::Error::InvalidFormat))
    ));
    assert!(OciId::from_decoded(Some("a/b:c".to_string())).is_ok());
}
