//! Release-hygiene checks that keep version numbers in documentation,
//! changelogs and source attributes in sync with a package's declared
//! version.
//!
//! The library works on plain text that has already been read into
//! memory: every check takes the file contents (and a path used only as
//! a label in messages) together with the package name and version, and
//! returns `Ok(())` or a descriptive error string. Reading files,
//! printing per-match status lines and scanning Rust sources for doc
//! attributes are left to the caller.
pub mod contains_regex;
pub mod contains_substring;
pub mod html_root_url;
pub mod markdown_deps;
pub mod parse;
pub mod template;
pub mod text;
pub mod version;

pub use crate::contains_regex::check_contains_regex;
pub use crate::contains_regex::check_only_contains_regex;
pub use crate::contains_regex::find_all_and_validate;
pub use crate::contains_regex::find_first_regex;
pub use crate::contains_substring::check_contains_substring;
pub use crate::contains_substring::find_first_substring;
pub use crate::html_root_url::check_html_root_url;
pub use crate::html_root_url::url_matches;
pub use crate::markdown_deps::check_markdown_deps;
pub use crate::markdown_deps::extract_version_request;
pub use crate::markdown_deps::find_toml_blocks;
pub use crate::markdown_deps::is_toml_block;
pub use crate::text::indent;
pub use crate::text::join;
pub use crate::text::normalize_line_endings;
pub use crate::version::version_matches_request;
