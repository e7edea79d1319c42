use version_sync::check_markdown_deps;
use version_sync::extract_version_request;
use version_sync::find_toml_blocks;
use version_sync::is_toml_block;
use version_sync::markdown_deps::CodeBlock;
use version_sync::parse::parse_version_req_md;

#[test]
fn empty_markdown_file() {
    assert_eq!(find_toml_blocks(""), Vec::<CodeBlock>::new());
}

#[test]
fn indented_code_block() {
    assert_eq!(find_toml_blocks("    code block\n"), Vec::<CodeBlock>::new());
}

#[test]
fn empty_toml_block() {
    assert_eq!(
        find_toml_blocks("```toml\n```"),
        vec![CodeBlock {
            content: String::new(),
            first_line: 2
        }]
    );
}

#[test]
fn no_close_fence() {
    assert_eq!(
        find_toml_blocks("```toml\n"),
        vec![CodeBlock {
            content: String::new(),
            first_line: 2
        }]
    );
}

#[test]
fn nonempty_toml_block() {
    let text = "Preceding text.\n\
                ```toml\n\
                foo\n\
                ```\n\
                Trailing text";
    assert_eq!(
        find_toml_blocks(text),
        vec![CodeBlock {
            content: String::from("foo\n"),
            first_line: 3
        }]
    );
}

#[test]
fn blockquote_toml_block() {
    let text = "> This is a blockquote\n\
                >\n\
                > ```toml\n\
                > foo\n\
                > \n\
                >   bar\n\
                >\n\
                > ```\n\
                ";
    assert_eq!(
        find_toml_blocks(text),
        vec![CodeBlock {
            content: String::from("foo\n\n  bar\n\n"),
            first_line: 4
        }]
    );
}

#[test]
fn is_toml_block_simple() {
    assert!(!is_toml_block("rust"));
}

#[test]
fn is_toml_block_comma() {
    assert!(is_toml_block("foo,toml"));
}

#[test]
fn is_toml_block_no_sync() {
    assert!(!is_toml_block("toml,no_sync"));
    assert!(!is_toml_block("toml, no_sync"));
}

#[test]
fn simple() {
    let block = "[dependencies]\n\
                 foobar = '1.5'";
    let request = extract_version_request("foobar", block);
    assert_eq!(request.unwrap(), parse_version_req_md("1.5").unwrap());
}

#[test]
fn table() {
    let block = "[dependencies]\n\
                 foobar = { version = '1.5', default-features = false }";
    let request = extract_version_request("foobar", block);
    assert_eq!(request.unwrap(), parse_version_req_md("1.5").unwrap());
}

#[test]
fn git_dependency() {
    // Git dependencies are translated into a "*" dependency
    // and are thus always accepted.
    let block = "[dependencies]\n\
                 foobar = { git = 'https://example.net/foobar.git' }";
    let request = extract_version_request("foobar", block);
    assert_eq!(request.unwrap(), parse_version_req_md("*").unwrap());
}

#[test]
fn dev_dependencies() {
    let block = "[dev-dependencies]\n\
                 foobar = '1.5'";
    let request = extract_version_request("foobar", block);
    assert_eq!(request.unwrap(), parse_version_req_md("1.5").unwrap());
}

#[test]
fn bad_version() {
    let block = "[dependencies]\n\
                 foobar = '1.5.bad'";
    let request = extract_version_request("foobar", block);
    assert_eq!(
        request.unwrap_err(),
        "could not parse dependency: \
         encountered unexpected token: AlphaNumeric(\"bad\")"
    );
}

#[test]
fn missing_dependency() {
    let block = "[dependencies]\n\
                 baz = '1.5.8'";
    let request = extract_version_request("foobar", block);
    assert_eq!(request.unwrap_err(), "no dependency on foobar");
}

#[test]
fn empty() {
    let request = extract_version_request("foobar", "");
    assert_eq!(request.unwrap_err(), "no dependency on foobar");
}

#[test]
fn bad_toml() {
    let block = "[dependencies]\n\
                 foobar = 1.5.8";
    let request = extract_version_request("foobar", block);
    assert!(request
        .unwrap_err()
        .contains("TOML parse error: expected newline, found a period at line 2"));
}

#[test]
fn markdown_deps_bad_pkg_version() {
    assert_eq!(
        check_markdown_deps("README.md", "", "foobar", "1.2"),
        Err(String::from(
            "bad package version \"1.2\": expected more input"
        ))
    );
}

#[test]
fn version_field_wins_over_git() {
    // An explicit version field takes precedence over a git field.
    let block = "[dependencies]\n\
                 foobar = { version = \"1.5\", git = \"https://example.net/foobar.git\" }";
    let request = extract_version_request("foobar", block);
    assert_eq!(request.unwrap(), parse_version_req_md("1.5").unwrap());
}

#[test]
fn markdown_deps_good_block() {
    let text = "# Usage\n\
                ```toml\n\
                [dependencies]\n\
                foo = \"1.2\"\n\
                ```\n";
    assert_eq!(check_markdown_deps("README.md", text, "foo", "1.2.3"), Ok(()));
}

#[test]
fn markdown_deps_bad_block() {
    let text = "# Usage\n\
                ```toml\n\
                [dependencies]\n\
                foo = \"1.1\"\n\
                ```\n";
    assert_eq!(
        check_markdown_deps("README.md", text, "foo", "1.2.3"),
        Err(String::from("dependency errors in README.md"))
    );
}

#[test]
fn markdown_deps_no_sync_block_skipped() {
    let text = "```toml,no_sync\n\
                [dependencies]\n\
                foo = \"9.9\"\n\
                ```\n";
    assert_eq!(check_markdown_deps("README.md", text, "foo", "1.2.3"), Ok(()));
}

#[test]
fn two_toml_blocks_found_in_order() {
    let text = "```toml\na\n```\nmiddle\n```toml\nb\n```\n";
    let blocks = find_toml_blocks(text);
    assert_eq!(
        blocks,
        vec![
            CodeBlock {
                content: String::from("a\n"),
                first_line: 2
            },
            CodeBlock {
                content: String::from("b\n"),
                first_line: 6
            },
        ]
    );
}

#[test]
fn is_toml_block_unicode_separators() {
    // Any character that is not alphanumeric, `_` or `-` separates the
    // language-line tokens; a letter does not.
    assert!(is_toml_block("x\u{b7}toml"));
    assert!(!is_toml_block("toml\u{e9}"));
}
