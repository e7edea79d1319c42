use version_sync::check_contains_regex;
use version_sync::check_only_contains_regex;
use version_sync::find_all_and_validate;
use version_sync::find_first_regex;
use version_sync::normalize_line_endings;
use version_sync::template::semver_re;

#[test]
fn bad_regex() {
    // The error from a bad pattern must not leak the multi-line flag,
    // which the caller never wrote.
    assert_eq!(
        check_contains_regex("README.md", "", "Version {version} [ups", "foobar", "1.2.3"),
        Err([
            r"could not parse template: regex parse error:",
            r"    Version 1\.2\.3 [ups",
            r"                    ^",
            r"error: unclosed character class"
        ]
        .join("\n"))
    )
}

#[test]
fn not_found() {
    assert_eq!(
        check_contains_regex(
            "README.md",
            "# version-sync\nSome text.\n",
            "should not be found",
            "foobar",
            "1.2.3"
        ),
        Err(String::from(
            "could not find \"should not be found\" in README.md"
        ))
    )
}

#[test]
fn escaping() {
    assert_eq!(
        check_contains_regex(
            "README.md",
            "",
            "escaped: {name}-{version}, not escaped: foo*bar-1.2.3",
            "foo*bar",
            "1.2.3"
        ),
        Err([
            r#"could not find "escaped: foo\*bar-1\.2\.3,"#,
            r#"not escaped: foo*bar-1.2.3" in README.md"#
        ]
        .join(" "))
    )
}

#[test]
fn good_pattern() {
    assert_eq!(
        check_contains_regex(
            "README.md",
            "# version-sync\nThis is version-sync.\n",
            "{name}",
            "version-sync",
            "1.2.3"
        ),
        Ok(())
    )
}

#[test]
fn line_boundaries() {
    // "\r\n" is not a line boundary for the regex crate, so texts are
    // normalized to "\n" endings before the multi-line search.
    let text = normalize_line_endings("first line\r\nsecond line\r\nthird line\r\n");
    assert_eq!(
        check_contains_regex("file.txt", &text, "^second line$", "", ""),
        Ok(())
    )
}

#[test]
fn semver_regex() {
    // We anchor the regex here to better match the behavior when
    // users call check_only_contains_regex with a string like
    // "foo {version}" which also contains more than just
    // "{version}".
    let re = regex::Regex::new(&format!("^{}$", semver_re())).unwrap();
    assert!(re.is_match("1.2.3"));
    assert!(re.is_match("1.2"));
    assert!(re.is_match("1"));
    assert!(re.is_match("1.2.3-foo.bar.baz.42+build123.2021.12.11"));
    assert!(!re.is_match("01"));
    assert!(!re.is_match("01.02.03"));
}

#[test]
fn only_contains_success() {
    let text = "first:  docs.rs/foo/1.2.3/foo/fn.bar.html
              second: docs.rs/foo/1.2.3/foo/fn.baz.html";
    assert_eq!(
        check_only_contains_regex(
            "README.md",
            text,
            "docs.rs/{name}/{version}/{name}/",
            "foo",
            "1.2.3"
        ),
        Ok(())
    )
}

#[test]
fn only_contains_success_compatible() {
    let text = "first:  docs.rs/foo/1.2/foo/fn.bar.html
              second: docs.rs/foo/1/foo/fn.baz.html";
    assert_eq!(
        check_only_contains_regex(
            "README.md",
            text,
            "docs.rs/{name}/{version}/{name}/",
            "foo",
            "1.2.3"
        ),
        Ok(())
    )
}

#[test]
fn only_contains_failure() {
    let text = "first:  docs.rs/foo/1.0.0/foo/ <- error
              second: docs.rs/foo/2.0.0/foo/ <- ok
              third:  docs.rs/foo/3.0.0/foo/ <- error";
    assert_eq!(
        check_only_contains_regex(
            "README.md",
            text,
            "docs.rs/{name}/{version}/{name}/",
            "foo",
            "2.0.0"
        ),
        Err(String::from("README.md ... found 2 errors"))
    )
}

#[test]
fn only_contains_fails_if_no_match() {
    assert_eq!(
        check_only_contains_regex(
            "README.md",
            "not a match",
            "docs.rs/{name}/{version}/{name}/",
            "foo",
            "1.2.3"
        ),
        Err(String::from(
            r#"README.md ... found no matches for "docs.rs/{name}/{version}/{name}/""#
        ))
    );
}

#[test]
fn exhaustive_match_lines_and_verdicts() {
    // Three matches at versions 1.0.0, 2.0.0 and 3.0.0 against package
    // version 2.0.0: the first and third mismatch, the second is fine,
    // and each is reported on its own line.
    let text = "docs.rs/foo/1.0.0/foo/\ndocs.rs/foo/2.0.0/foo/\ndocs.rs/foo/3.0.0/foo/\n";
    let report =
        find_all_and_validate(text, "docs.rs/{name}/{version}/{name}/", "foo", "2.0.0").unwrap();
    assert_eq!(report.match_count, 3);
    let lines: Vec<u64> = report.records.iter().map(|r| r.line).collect();
    assert_eq!(lines, vec![1, 2, 3]);
    let verdicts: Vec<bool> = report.records.iter().map(|r| r.mismatch.is_none()).collect();
    assert_eq!(verdicts, vec![false, true, false]);
    assert_eq!(
        report.records[0].mismatch,
        Some(String::from("expected major version 2, found 1"))
    );
    assert_eq!(report.records[0].found, "1.0.0");
}

#[test]
fn crlf_and_lf_texts_check_alike() {
    let crlf = "alpha\r\n### Version 1.2.3\r\nomega\r\n";
    let lf = "alpha\n### Version 1.2.3\nomega\n";
    let normalized = normalize_line_endings(crlf);
    assert_eq!(normalized, lf);
    // Normalization is idempotent on well-paired text.
    assert_eq!(normalize_line_endings(&normalized), normalized);
    let anchored = "^### Version {version}$";
    assert_eq!(
        check_contains_regex("c.md", &normalized, anchored, "foo", "1.2.3"),
        check_contains_regex("c.md", lf, anchored, "foo", "1.2.3")
    );
    assert_eq!(
        check_contains_regex("c.md", lf, anchored, "foo", "1.2.3"),
        Ok(())
    );
}

#[test]
fn unparsable_version_token_reported() {
    // A numeric component beyond the range of the requirement parser
    // matches the version sub-pattern but is not a valid requirement,
    // so the scan stops with a parse error.
    let text = "docs.rs/foo/99999999999999999999999/foo/\n";
    let err = check_only_contains_regex(
        "README.md",
        text,
        "docs.rs/{name}/{version}/{name}/",
        "foo",
        "1.2.3",
    )
    .unwrap_err();
    assert!(err.starts_with("could not parse version: "), "{}", err);
}

#[test]
fn only_contains_bad_package_version() {
    assert_eq!(
        check_only_contains_regex("README.md", "", "{version}", "foo", "1.2"),
        Err(String::from(
            "bad package version \"1.2\": unexpected end of input while parsing minor version number"
        ))
    );
}

#[test]
fn match_without_version_token_is_fine() {
    // A template without {version} can still match; a match holding no
    // version-shaped text contributes no verdicts and cannot fail.
    assert_eq!(
        check_only_contains_regex("README.md", "see docs.rs/foo/ here", "docs.rs/{name}/", "foo", "1.2.3"),
        Ok(())
    );
}

#[test]
fn first_regex_match_line() {
    let text = "alpha\nbeta\ngamma\n";
    assert_eq!(find_first_regex(text, "^beta$"), Ok(Some(2)));
    assert_eq!(find_first_regex(text, "^delta$"), Ok(None));
    assert!(find_first_regex(text, "[oops").is_err());
}
