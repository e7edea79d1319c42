use version_sync::check_html_root_url;
use version_sync::html_root_url::DocAttr;
use version_sync::parse::parse_package_version;
use version_sync::url_matches;
use version_sync::version::Version;

fn version(s: &str) -> Version {
    parse_package_version(s).unwrap()
}

#[test]
fn good_url() {
    let ver = version("1.2.3");
    assert_eq!(url_matches("https://docs.rs/foo/1.2.3", "foo", &ver), Ok(()));
}

#[test]
fn trailing_slash() {
    let ver = version("1.2.3");
    assert_eq!(url_matches("https://docs.rs/foo/1.2.3/", "foo", &ver), Ok(()));
}

#[test]
fn without_patch() {
    let ver = version("1.2.3");
    assert_eq!(url_matches("https://docs.rs/foo/1.2/", "foo", &ver), Ok(()));
}

#[test]
fn without_minor() {
    let ver = version("1.2.3");
    assert_eq!(url_matches("https://docs.rs/foo/1/", "foo", &ver), Ok(()));
}

#[test]
fn different_domain() {
    let ver = version("1.2.3");
    assert_eq!(url_matches("https://example.net/foo/", "bar", &ver), Ok(()));
}

#[test]
fn different_domain_http() {
    let ver = version("1.2.3");
    assert_eq!(url_matches("http://example.net/foo/1.2.3", "foo", &ver), Ok(()));
}

#[test]
fn http_url() {
    let ver = version("1.2.3");
    assert_eq!(
        url_matches("http://docs.rs/foo/1.2.3", "foo", &ver),
        Err(String::from("expected \"https\", found \"http\""))
    );
}

#[test]
fn bad_scheme() {
    let ver = version("1.2.3");
    assert_eq!(
        url_matches("mailto:foo@example.net", "foo", &ver),
        Err(String::from("expected \"https\", found \"mailto\""))
    );
}

#[test]
fn no_package() {
    let ver = version("1.2.3");
    assert_eq!(
        url_matches("https://docs.rs", "foo", &ver),
        Err(String::from("missing package name"))
    );
}

#[test]
fn no_package_trailing_slash() {
    let ver = version("1.2.3");
    assert_eq!(
        url_matches("https://docs.rs/", "foo", &ver),
        Err(String::from("missing package name"))
    );
}

#[test]
fn no_version() {
    let ver = version("1.2.3");
    assert_eq!(
        url_matches("https://docs.rs/foo", "foo", &ver),
        Err(String::from("missing version number"))
    );
}

#[test]
fn no_version_trailing_slash() {
    let ver = version("1.2.3");
    assert_eq!(
        url_matches("https://docs.rs/foo/", "foo", &ver),
        Err(String::from("missing version number"))
    );
}

#[test]
fn bad_url() {
    let ver = version("1.2.3");
    assert_eq!(
        url_matches("docs.rs/foo/bar", "foo", &ver),
        Err(String::from("parse error: relative URL without a base"))
    );
}

#[test]
fn bad_pkg_version() {
    let ver = version("1.2.3");
    assert_eq!(
        url_matches("https://docs.rs/foo/1.2.bad/", "foo", &ver),
        Err(String::from(
            "could not parse version in URL: \
             unexpected character 'b' while parsing patch version number"
        ))
    );
}

#[test]
fn wrong_pkg_name() {
    let ver = version("1.2.3");
    assert_eq!(
        url_matches("https://docs.rs/foo/1.2.3/", "bar", &ver),
        Err(String::from("expected package \"bar\", found \"foo\""))
    );
}

#[test]
fn html_root_url_bad_pkg_version() {
    assert_eq!(
        check_html_root_url("src/lib.rs", &Vec::new(), "foobar", "1.2"),
        Err(String::from(
            "bad package version \"1.2\": unexpected end of input while parsing minor version number"
        ))
    );
}

#[test]
fn html_root_url_attrs_checked() {
    let good = DocAttr {
        url: Some(String::from("https://docs.rs/foo/1.2.3")),
        line: 1,
    };
    let stale = DocAttr {
        url: Some(String::from("https://docs.rs/foo/1.1.0")),
        line: 1,
    };
    let missing = DocAttr { url: None, line: 3 };
    assert_eq!(
        check_html_root_url("src/lib.rs", &vec![good.clone()], "foo", "1.2.3"),
        Ok(())
    );
    assert_eq!(
        check_html_root_url("src/lib.rs", &vec![good.clone(), stale], "foo", "1.2.3"),
        Err(String::from("html_root_url errors in src/lib.rs"))
    );
    assert_eq!(
        check_html_root_url("src/lib.rs", &vec![good, missing], "foo", "1.2.3"),
        Err(String::from("html_root_url errors in src/lib.rs"))
    );
}
