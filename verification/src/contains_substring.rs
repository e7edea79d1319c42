//! The substring check: the expanded template must occur somewhere in
//! the text.
use vstd::prelude::*;

use crate::template::spec_expand;
use crate::template::ExpandMode;
use crate::template::expand;
use crate::text::count_char;
use crate::text::count_char_upto;
use crate::text::find_first;
use crate::text::line_after;
use crate::text::occurs;
use crate::text::occurs_at;
use crate::text::str_chars;

verus! {

/// The position of the first occurrence of `p` at or after `i` in `t`.
pub open spec fn first_occ_from(t: Seq<char>, p: Seq<char>, i: int) -> Option<int>
    decreases t.len() + 1 - i,
{
    if i < 0 || i + p.len() > t.len() {
        None
    } else if occurs_at(t, p, i) {
        Some(i)
    } else {
        first_occ_from(t, p, i + 1)
    }
}

/// The position of the first occurrence of `p` in `t`.
pub open spec fn first_occurrence(t: Seq<char>, p: Seq<char>) -> Option<int> {
    first_occ_from(t, p, 0)
}

proof fn lemma_first_occ_some(t: Seq<char>, p: Seq<char>, i: int, k: int)
    requires
        0 <= k <= i,
        occurs_at(t, p, i),
        forall|j: int| k <= j < i ==> !occurs_at(t, p, j),
    ensures
        first_occ_from(t, p, k) == Some(i),
    decreases i - k,
{
    if k < i {
        lemma_first_occ_some(t, p, i, k + 1);
    }
}

proof fn lemma_first_occ_none(t: Seq<char>, p: Seq<char>, k: int)
    requires
        0 <= k,
        forall|j: int| j >= k ==> !occurs_at(t, p, j),
    ensures
        first_occ_from(t, p, k) is None,
    decreases t.len() + 1 - k,
{
    if k + p.len() <= t.len() {
        lemma_first_occ_none(t, p, k + 1);
    }
}

/// The 1-based line number on which the first occurrence of `pattern`
/// in `text` begins, or `None` when the pattern does not occur. A line
/// count that does not fit in `u64` is reported as `u64::MAX`.
pub fn find_first_substring(text: &str, pattern: &str) -> (r: Option<u64>)
    ensures
        match first_occurrence(text@, pattern@) {
            Some(i) => r is Some && (r->0 == line_after(text@.take(i)) || r->0 == u64::MAX),
            None => r is None,
        },
{
    let tc = str_chars(text);
    let pc = str_chars(pattern);
    match find_first(&tc, &pc) {
        Some(i) => {
            proof {
                lemma_first_occ_some(text@, pattern@, i as int, 0);
            }
            let cnt = count_char_upto(&tc, '\n', i);
            if cnt as u64 >= u64::MAX - 1 {
                Some(u64::MAX)
            } else {
                Some(cnt as u64 + 1)
            }
        },
        None => {
            proof {
                lemma_first_occ_none(text@, pattern@, 0);
            }
            None
        },
    }
}

/// The "could not find" message: the expanded pattern and the path of
/// the searched file.
pub open spec fn not_found_msg(pattern: Seq<char>, path: Seq<char>) -> Seq<char> {
    "could not find \""@ + pattern + "\" in "@ + path
}

pub fn build_not_found_msg(pattern: &str, path: &str) -> (r: String)
    ensures
        r@ == not_found_msg(pattern@, path@),
{
    let mut m = String::from_str("could not find \"");
    m.append(pattern);
    m.append("\" in ");
    m.append(path);
    m
}

/// Check that `text`, read from `path`, contains the substring given by
/// `template`.
///
/// The placeholders `{name}` and `{version}` in `template` are replaced
/// with `pkg_name` and `pkg_version` before the search; it is fine if
/// the template contains neither. The check succeeds exactly when the
/// expanded pattern occurs in the text; otherwise the error names the
/// expanded pattern and the path.
pub fn check_contains_substring(
    path: &str,
    text: &str,
    template: &str,
    pkg_name: &str,
    pkg_version: &str,
) -> (r: Result<(), String>)
    ensures
        ({
            let pattern = spec_expand(template@, pkg_name@, pkg_version@, ExpandMode::Literal);
            match r {
                Ok(()) => occurs(text@, pattern),
                Err(m) => !occurs(text@, pattern) && m@ == not_found_msg(pattern, path@),
            }
        }),
{
    let pattern = expand(template, pkg_name, pkg_version, ExpandMode::Literal);
    let tc = str_chars(text);
    let pc = str_chars(pattern.as_str());
    match find_first(&tc, &pc) {
        Some(_) => Ok(()),
        None => Err(build_not_found_msg(pattern.as_str(), path)),
    }
}

} // verus!
