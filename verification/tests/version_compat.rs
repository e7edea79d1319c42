use version_sync::parse::parse_package_version;
use version_sync::parse::parse_version_req;
use version_sync::version_matches_request;

fn version(s: &str) -> version_sync::version::Version {
    parse_package_version(s).unwrap()
}

fn request(s: &str) -> version_sync::version::VersionReq {
    parse_version_req(s).unwrap()
}

#[test]
fn implicit_compatible() {
    let version = version("1.2.3");
    let request = request("1.2.3");
    assert_eq!(version_matches_request(&version, &request), Ok(()));

    let request = self::request("1.2.0");
    assert!(version_matches_request(&version, &request).is_err());
}

#[test]
fn compatible() {
    let version = version("1.2.3");
    let request = request("^1.2.3");
    assert_eq!(version_matches_request(&version, &request), Ok(()));

    let request = self::request("^1.2.0");
    assert!(version_matches_request(&version, &request).is_err());
}

#[test]
fn tilde() {
    let version = version("1.2.3");
    let request = request("~1.2.3");
    assert_eq!(version_matches_request(&version, &request), Ok(()));

    let request = self::request("~1.2.0");
    assert!(version_matches_request(&version, &request).is_err());
}

#[test]
fn exact() {
    let version = version("1.2.3");
    let request = request("=1.2.3");
    assert_eq!(version_matches_request(&version, &request), Ok(()));

    let request = self::request("=1.2.0");
    assert!(version_matches_request(&version, &request).is_err());
}

#[test]
fn greater_or_equal() {
    let version = version("1.2.3");
    let request = request(">=1.2.3");
    assert_eq!(version_matches_request(&version, &request), Ok(()));

    let request = self::request(">=1.2.0");
    assert!(version_matches_request(&version, &request).is_err());
}

#[test]
fn wildcard() {
    let version = version("1.2.3");
    let request = request("1.2.*");
    assert_eq!(version_matches_request(&version, &request), Ok(()));

    let request = self::request("1.3.*");
    assert!(version_matches_request(&version, &request).is_err());
}

#[test]
fn greater() {
    let version = version("1.2.3");
    let request = request(">1.2.3");
    assert_eq!(version_matches_request(&version, &request), Ok(()));

    let request = self::request(">1.2.0");
    assert!(version_matches_request(&version, &request).is_err());
}

#[test]
fn no_patch() {
    let version = version("1.2.3");
    let request = request("1.2");
    assert_eq!(version_matches_request(&version, &request), Ok(()));
}

#[test]
fn no_minor() {
    let version = version("1.2.3");
    let request = request("1");
    assert_eq!(version_matches_request(&version, &request), Ok(()));
}

#[test]
fn multiple_comparators() {
    // A requirement with more than one comparator cannot be checked
    // component-wise and passes unverified, whatever the components say.
    let version = version("1.2.3");
    let request = request(">= 1.2.3, < 2.0");
    assert_eq!(version_matches_request(&version, &request), Ok(()));

    let request = self::request(">= 1.2.0, < 2.0");
    assert_eq!(version_matches_request(&version, &request), Ok(()));
}

#[test]
fn unhandled_operator() {
    let version = version("1.2.3");
    let request = request("< 2.0");
    assert_eq!(version_matches_request(&version, &request), Ok(()));
}

#[test]
fn bad_major() {
    let version = version("2.0.0");
    let request = request("1.2.3");
    assert_eq!(
        version_matches_request(&version, &request),
        Err(String::from("expected major version 2, found 1"))
    );
}

#[test]
fn bad_minor() {
    let version = version("1.3.0");
    let request = request("1.2.3");
    assert_eq!(
        version_matches_request(&version, &request),
        Err(String::from("expected minor version 3, found 2"))
    );
}

#[test]
fn bad_patch() {
    let version = version("1.2.4");
    let request = request("1.2.3");
    assert_eq!(
        version_matches_request(&version, &request),
        Err(String::from("expected patch version 4, found 3"))
    );
}

#[test]
fn bad_pre_release() {
    let version = version("1.2.3-rc2");
    let request = request("1.2.3-rc1");
    assert_eq!(
        version_matches_request(&version, &request),
        Err(String::from("expected pre-release \"rc2\", found \"rc1\""))
    );
}

#[test]
fn pre_release_ignored_without_patch() {
    // An omitted patch component makes the comparator a prefix wildcard:
    // the pre-release of the version is then not compared at all.
    let version = version("1.2.3-rc1");
    let request = request("1.2");
    assert_eq!(version_matches_request(&version, &request), Ok(()));

    let request = self::request("1");
    assert_eq!(version_matches_request(&version, &request), Ok(()));
}

#[test]
fn multi_digit_components_in_messages() {
    let version = version("123.456.789");
    let request = request("120");
    assert_eq!(
        version_matches_request(&version, &request),
        Err(String::from("expected major version 123, found 120"))
    );

    let request = self::request("123.450");
    assert_eq!(
        version_matches_request(&version, &request),
        Err(String::from("expected minor version 456, found 450"))
    );
}
