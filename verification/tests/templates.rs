use version_sync::template::expand;
use version_sync::template::ExpandMode;

#[test]
fn pattern_round_trip() {
    // Metacharacters in the substituted name must be escaped: the
    // expansion matches the literal name and nothing else.
    let pattern = expand("{name}-{version}", "foo*bar", "1.2.3", ExpandMode::Pattern);
    assert_eq!(pattern, r"foo\*bar-1\.2\.3");
    let re = regex::Regex::new(&pattern).unwrap();
    assert!(re.is_match("foo*bar-1.2.3"));
    assert!(!re.is_match("fooXbar-1.2.3"));
}

#[test]
fn literal_expansion_is_plain() {
    assert_eq!(
        expand("{name}-{version}", "foo*bar", "1.2.3", ExpandMode::Literal),
        "foo*bar-1.2.3"
    );
}

#[test]
fn placeholders_may_be_absent_or_repeated() {
    assert_eq!(expand("no placeholders", "a", "b", ExpandMode::Literal), "no placeholders");
    assert_eq!(expand("{name}{name}", "x", "y", ExpandMode::Literal), "xx");
    assert_eq!(expand("", "x", "y", ExpandMode::Pattern), "");
}

#[test]
fn any_version_expansion_matches_old_versions() {
    let pattern = expand("v{version}!", "foo", "2.0.0", ExpandMode::PatternAnyVersion);
    let re = regex::Regex::new(&pattern).unwrap();
    assert!(re.is_match("v1.0.0!"));
    assert!(re.is_match("v2.0.0!"));
    assert!(re.is_match("v3!"));
    assert!(!re.is_match("vx!"));
}

#[test]
fn indent_prefixes_every_line() {
    assert_eq!(version_sync::indent("a\nb"), "    a\n    b");
    assert_eq!(version_sync::indent("a\n"), "    a");
    assert_eq!(version_sync::indent(""), "");
}

#[test]
fn join_with_separator() {
    let items = vec![String::from("a"), String::from("b"), String::from("c")];
    assert_eq!(version_sync::join(&items, ", "), "a, b, c");
    assert_eq!(version_sync::join(&vec![], ", "), "");
    assert_eq!(version_sync::join(&vec![String::from("x")], ", "), "x");
}

#[test]
fn escape_agrees_with_regex_crate() {
    // The pattern-mode expansion escapes exactly the characters that
    // regex::escape escapes.
    let hairy = r"a\.+*?()|[]{}^$#&-~z%/!";
    assert_eq!(
        expand("{name}", hairy, "", ExpandMode::Pattern),
        regex::escape(hairy)
    );
}

#[test]
fn normalization_matches_plain_replacement() {
    let text = "a\r\nb\r\r\nc\rd\n";
    assert_eq!(
        version_sync::normalize_line_endings(text),
        text.replace("\r\n", "\n")
    );
}
