//! Placeholder templates: `{name}` and `{version}` expansion, with
//! escaping of regular-expression metacharacters where the expanded
//! text becomes a pattern.
use vstd::prelude::*;

use crate::text::replace_all;
use crate::text::replaced;

verus! {

/// The characters that `regex` treats as significant and that its
/// `escape` function therefore escapes.
pub open spec fn is_regex_meta(c: char) -> bool {
    c == '\\' || c == '.' || c == '+' || c == '*' || c == '?' || c == '(' || c == ')' || c == '|'
        || c == '[' || c == ']' || c == '{' || c == '}' || c == '^' || c == '$' || c == '#'
        || c == '&' || c == '-' || c == '~'
}

/// `s` with a backslash inserted before every regular-expression
/// metacharacter, so that a pattern containing it matches `s` itself.
pub open spec fn escaped(s: Seq<char>) -> Seq<char>
    decreases s.len(),
{
    if s.len() == 0 {
        Seq::empty()
    } else {
        escaped(s.drop_last()) + if is_regex_meta(s.last()) {
            seq!['\\', s.last()]
        } else {
            seq![s.last()]
        }
    }
}

/// Escape every regular-expression metacharacter in `s`.
///
/// This mirrors `regex::escape`: a backslash is inserted before each
/// character of the set `\ . + * ? ( ) | [ ] { } ^ $ # & - ~`.
pub fn escape_regex(s: &str) -> (r: String)
    ensures
        r@ == escaped(s@),
{
    let sc = crate::text::str_chars(s);
    let n = sc.len();
    let mut out: Vec<char> = Vec::new();
    let mut i: usize = 0;
    while i < n
        invariant
            i <= n,
            n == sc@.len(),
            sc@ == s@,
            out@ == escaped(s@.take(i as int)),
        decreases n - i,
    {
        proof {
            assert(s@.take(i + 1).drop_last() =~= s@.take(i as int));
            assert(s@.take(i + 1).last() == s@[i as int]);
        }
        let c = sc[i];
        let meta = match c {
            '\\' | '.' | '+' | '*' | '?' | '(' | ')' | '|' | '[' | ']' | '{' | '}' | '^' | '$'
                | '#' | '&' | '-' | '~' => true,
            _ => false,
        };
        if meta {
            out.push('\\');
            out.push(c);
            proof {
                assert(out@ =~= escaped(s@.take(i + 1)));
            }
        } else {
            out.push(c);
            proof {
                assert(out@ =~= escaped(s@.take(i + 1)));
            }
        }
        i = i + 1;
    }
    proof {
        assert(s@.take(n as int) =~= s@);
    }
    crate::text::chars_to_string(&out)
}

/// The sub-pattern that matches a full or partial SemVer version
/// number, capturing major, minor, patch, prerelease and buildmetadata
/// groups. Only the major component is required.
pub open spec fn semver_re_spec() -> Seq<char> {
    r"(?P<major>0|[1-9]\d*)(?:\.(?P<minor>0|[1-9]\d*)(?:\.(?P<patch>0|[1-9]\d*)(?:-(?P<prerelease>(?:0|[1-9]\d*|\d*[a-zA-Z-][0-9a-zA-Z-]*)(?:\.(?:0|[1-9]\d*|\d*[a-zA-Z-][0-9a-zA-Z-]*))*))?(?:\+(?P<buildmetadata>[0-9a-zA-Z-]+(?:\.[0-9a-zA-Z-]+)*))?)?)?"@
}

/// The pattern matching a full or partial SemVer version number.
pub fn semver_re() -> (r: &'static str)
    ensures
        r@ == semver_re_spec(),
{
    r"(?P<major>0|[1-9]\d*)(?:\.(?P<minor>0|[1-9]\d*)(?:\.(?P<patch>0|[1-9]\d*)(?:-(?P<prerelease>(?:0|[1-9]\d*|\d*[a-zA-Z-][0-9a-zA-Z-]*)(?:\.(?:0|[1-9]\d*|\d*[a-zA-Z-][0-9a-zA-Z-]*))*))?(?:\+(?P<buildmetadata>[0-9a-zA-Z-]+(?:\.[0-9a-zA-Z-]+)*))?)?)?"
}

/// How the `{name}` and `{version}` placeholders are filled in.
#[derive(Clone, Copy, Debug, PartialEq, Eq, Structural)]
pub enum ExpandMode {
    /// Plain substring substitution, no escaping.
    Literal,
    /// The expansion becomes a regular expression: the substituted name
    /// and version are escaped so they match themselves literally.
    Pattern,
    /// The expansion becomes a regular expression in which `{version}`
    /// matches any SemVer version number, not only the given one.
    PatternAnyVersion,
}

/// The template with every `{name}` replaced first, then every
/// `{version}`, each substitution following the mode.
pub open spec fn spec_expand(
    template: Seq<char>,
    name: Seq<char>,
    version: Seq<char>,
    mode: ExpandMode,
) -> Seq<char> {
    match mode {
        ExpandMode::Literal => replaced(replaced(template, "{name}"@, name), "{version}"@, version),
        ExpandMode::Pattern => replaced(
            replaced(template, "{name}"@, escaped(name)),
            "{version}"@,
            escaped(version),
        ),
        ExpandMode::PatternAnyVersion => replaced(
            replaced(template, "{name}"@, escaped(name)),
            "{version}"@,
            semver_re_spec(),
        ),
    }
}

/// Expand the `{name}` and `{version}` placeholders in `template`.
/// Either placeholder may appear any number of times, including none.
pub fn expand(template: &str, name: &str, version: &str, mode: ExpandMode) -> (r: String)
    ensures
        r@ == spec_expand(template@, name@, version@, mode),
{
    match mode {
        ExpandMode::Literal => {
            let first = replace_all(template, "{name}", name);
            replace_all(first.as_str(), "{version}", version)
        },
        ExpandMode::Pattern => {
            let en = escape_regex(name);
            let ev = escape_regex(version);
            let first = replace_all(template, "{name}", en.as_str());
            replace_all(first.as_str(), "{version}", ev.as_str())
        },
        ExpandMode::PatternAnyVersion => {
            let en = escape_regex(name);
            let first = replace_all(template, "{name}", en.as_str());
            replace_all(first.as_str(), "{version}", semver_re())
        },
    }
}

} // verus!
