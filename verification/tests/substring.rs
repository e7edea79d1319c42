use version_sync::check_contains_substring;
use version_sync::find_first_substring;

#[test]
fn pattern_not_found() {
    assert_eq!(
        check_contains_substring(
            "README.md",
            "# version-sync\nThis crate checks versions.\n",
            "should not be found",
            "foobar",
            "1.2.3"
        ),
        Err(String::from(
            "could not find \"should not be found\" in README.md"
        ))
    )
}

#[test]
fn pattern_found() {
    assert_eq!(
        check_contains_substring(
            "README.md",
            "# version-sync\nThis crate checks versions.\n",
            "{name}",
            "version-sync",
            "1.2.3"
        ),
        Ok(())
    )
}

#[test]
fn substring_placeholders_expanded() {
    let text = "Latest release: foo 2.0.1\n";
    assert_eq!(
        check_contains_substring("notes", text, "{name} {version}", "foo", "2.0.1"),
        Ok(())
    );
    assert_eq!(
        check_contains_substring("notes", text, "{name} {version}", "foo", "2.0.2"),
        Err(String::from("could not find \"foo 2.0.2\" in notes"))
    );
}

#[test]
fn first_substring_line_numbers() {
    // A match beginning on the second of three lines is on line 2.
    let text = "line one\nline two\nline three\n";
    assert_eq!(find_first_substring(text, "line two"), Some(2));
    // A match in the middle of the first line is still on line 1.
    assert_eq!(find_first_substring(text, "one"), Some(1));
    assert_eq!(find_first_substring(text, "three"), Some(3));
    assert_eq!(find_first_substring(text, "line four"), None);
}
