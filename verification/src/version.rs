//! The semantic-version model: a parsed version, a parsed version
//! requirement made of comparators, and the compatibility policy that
//! decides whether a version satisfies a requirement.
use vstd::prelude::*;

use crate::text::decimal;
use crate::text::u64_string;

verus! {

/// Comparison operator of one comparator of a version requirement.
#[derive(Clone, Copy, Debug, PartialEq, Eq, Structural)]
pub enum Op {
    /// `=1.2.3`
    Exact,
    /// `>1.2.3`
    Greater,
    /// `>=1.2.3`
    GreaterEq,
    /// `<1.2.3`
    Less,
    /// `<=1.2.3`
    LessEq,
    /// `~1.2.3`
    Tilde,
    /// `^1.2.3`, also the default for a bare `1.2.3`
    Caret,
    /// `1.2.*` or `1.*`
    Wildcard,
}

/// A parsed semantic version: `major.minor.patch`, an optional
/// pre-release identifier sequence rendered as its dot-separated text,
/// and build metadata, which comparisons ignore.
#[derive(Clone, Debug, PartialEq, Eq)]
pub struct Version {
    pub major: u64,
    pub minor: u64,
    pub patch: u64,
    pub pre: String,
    pub build: String,
}

/// The mathematical value of a [`Version`].
pub ghost struct VersionV {
    pub major: u64,
    pub minor: u64,
    pub patch: u64,
    pub pre: Seq<char>,
    pub build: Seq<char>,
}

impl View for Version {
    type V = VersionV;

    open spec fn view(&self) -> VersionV {
        VersionV {
            major: self.major,
            minor: self.minor,
            patch: self.patch,
            pre: self.pre@,
            build: self.build@,
        }
    }
}

impl Version {
    /// A version without pre-release or build metadata.
    pub fn new(major: u64, minor: u64, patch: u64) -> (v: Version)
        ensures
            v@ == (VersionV {
                major,
                minor,
                patch,
                pre: Seq::<char>::empty(),
                build: Seq::<char>::empty(),
            }),
    {
        Version { major, minor, patch, pre: String::new(), build: String::new() }
    }
}

/// One comparator of a version requirement: an operator and a partial
/// version. An omitted minor or patch component is a wildcard. The
/// pre-release text is empty unless a patch component is present.
#[derive(Clone, Debug, PartialEq, Eq)]
pub struct Comparator {
    pub op: Op,
    pub major: u64,
    pub minor: Option<u64>,
    pub patch: Option<u64>,
    pub pre: String,
}

/// The mathematical value of a [`Comparator`].
pub ghost struct ComparatorV {
    pub op: Op,
    pub major: u64,
    pub minor: Option<u64>,
    pub patch: Option<u64>,
    pub pre: Seq<char>,
}

impl View for Comparator {
    type V = ComparatorV;

    open spec fn view(&self) -> ComparatorV {
        ComparatorV {
            op: self.op,
            major: self.major,
            minor: self.minor,
            patch: self.patch,
            pre: self.pre@,
        }
    }
}

/// A parsed version requirement: an ordered list of comparators.
#[derive(Clone, Debug, PartialEq, Eq)]
pub struct VersionReq {
    pub comparators: Vec<Comparator>,
}

impl View for VersionReq {
    type V = Seq<ComparatorV>;

    open spec fn view(&self) -> Seq<ComparatorV> {
        self.comparators@.map_values(|c: Comparator| c@)
    }
}

/// The operators whose component-wise compatibility this library can
/// check. `<` and `<=` constrain a version from above, which a simple
/// component comparison cannot decide, so they pass unchecked.
pub open spec fn checkable_op(op: Op) -> bool {
    match op {
        Op::Tilde | Op::Caret | Op::Exact | Op::Greater | Op::GreaterEq | Op::Wildcard => true,
        Op::Less | Op::LessEq => false,
    }
}

/// Mismatch message naming the major component: the version's value is
/// what was expected, the comparator's what was found.
pub open spec fn major_mismatch_msg(expected: u64, found: u64) -> Seq<char> {
    "expected major version "@ + decimal(expected as nat) + ", found "@ + decimal(found as nat)
}

/// Mismatch message naming the minor component.
pub open spec fn minor_mismatch_msg(expected: u64, found: u64) -> Seq<char> {
    "expected minor version "@ + decimal(expected as nat) + ", found "@ + decimal(found as nat)
}

/// Mismatch message naming the patch component.
pub open spec fn patch_mismatch_msg(expected: u64, found: u64) -> Seq<char> {
    "expected patch version "@ + decimal(expected as nat) + ", found "@ + decimal(found as nat)
}

/// Mismatch message naming the pre-release component.
pub open spec fn pre_mismatch_msg(expected: Seq<char>, found: Seq<char>) -> Seq<char> {
    "expected pre-release \""@ + expected + "\", found \""@ + found + "\""@
}

/// The verdict of checking one comparator against a version: `None` for
/// compatible (or not checkable), otherwise the mismatch message for
/// the first component that differs. An omitted component matches
/// anything; the pre-release text is compared only when the comparator
/// carries a patch component.
pub open spec fn comparator_mismatch(v: VersionV, c: ComparatorV) -> Option<Seq<char>> {
    if !checkable_op(c.op) {
        None
    } else if c.major != v.major {
        Some(major_mismatch_msg(v.major, c.major))
    } else if c.minor is Some && c.minor->0 != v.minor {
        Some(minor_mismatch_msg(v.minor, c.minor->0))
    } else if c.patch is Some && c.patch->0 != v.patch {
        Some(patch_mismatch_msg(v.patch, c.patch->0))
    } else if c.patch is Some && c.pre != v.pre {
        Some(pre_mismatch_msg(v.pre, c.pre))
    } else {
        None
    }
}

/// The verdict of checking a whole requirement: only a requirement that
/// consists of exactly one comparator is checked; any other comparator
/// count passes unverified.
pub open spec fn req_mismatch(v: VersionV, cs: Seq<ComparatorV>) -> Option<Seq<char>> {
    if cs.len() != 1 {
        None
    } else {
        comparator_mismatch(v, cs[0])
    }
}

/// Build the message for a mismatching numeric component.
fn component_msg(prefix: &str, expected: u64, mid: &str, found: u64) -> (r: String)
    ensures
        r@ == prefix@ + decimal(expected as nat) + mid@ + decimal(found as nat),
{
    let mut s = String::from_str(prefix);
    let e = u64_string(expected);
    s.append(e.as_str());
    s.append(mid);
    let f = u64_string(found);
    s.append(f.as_str());
    s
}

/// Verify that the version range request matches the given version.
///
/// Requirements with more or fewer than one comparator, and operators
/// that constrain a version from above, cannot be checked and pass
/// unverified. For a checkable comparator, the first component that
/// differs from the version is reported: `Err` carries a message naming
/// that component, the version's value as "expected" and the
/// comparator's as "found".
pub fn version_matches_request(version: &Version, request: &VersionReq) -> (r: Result<(), String>)
    ensures
        match req_mismatch(version@, request@) {
            None => r is Ok,
            Some(m) => r is Err && r->Err_0@ == m,
        },
{
    if request.comparators.len() != 1 {
        return Ok(());
    }
    let c = &request.comparators[0];
    proof {
        assert(request@[0] == c@);
    }
    let checkable = match c.op {
        Op::Tilde | Op::Caret | Op::Exact | Op::Greater | Op::GreaterEq | Op::Wildcard => true,
        Op::Less | Op::LessEq => false,
    };
    if !checkable {
        return Ok(());
    }
    if c.major != version.major {
        return Err(component_msg("expected major version ", version.major, ", found ", c.major));
    }
    if let Some(minor) = c.minor {
        if minor != version.minor {
            return Err(
                component_msg("expected minor version ", version.minor, ", found ", minor),
            );
        }
    }
    if let Some(patch) = c.patch {
        if patch != version.patch {
            return Err(
                component_msg("expected patch version ", version.patch, ", found ", patch),
            );
        }
        if c.pre != version.pre {
            let mut s = String::from_str("expected pre-release \"");
            s.append(version.pre.as_str());
            s.append("\", found \"");
            s.append(c.pre.as_str());
            s.append("\"");
            return Err(s);
        }
    }
    Ok(())
}

} // verus!

verus! {

/// A tilde or caret comparator whose components all equal the
/// version's is compatible with it.
pub proof fn lemma_equal_comparator_compatible(v: VersionV, c: ComparatorV)
    requires
        c.op == Op::Tilde || c.op == Op::Caret,
        c.major == v.major,
        c.minor == Some(v.minor),
        c.patch == Some(v.patch),
        c.pre == v.pre,
    ensures
        req_mismatch(v, seq![c]) is None,
{
}

/// Changing only the major component of an otherwise equal checkable
/// comparator is reported as a major mismatch naming both values.
pub proof fn lemma_major_change_detected(v: VersionV, c: ComparatorV)
    requires
        checkable_op(c.op),
        c.major != v.major,
    ensures
        req_mismatch(v, seq![c]) == Some(major_mismatch_msg(v.major, c.major)),
{
}

/// Changing only the minor component of an otherwise equal checkable
/// comparator is reported as a minor mismatch naming both values.
pub proof fn lemma_minor_change_detected(v: VersionV, c: ComparatorV)
    requires
        checkable_op(c.op),
        c.major == v.major,
        c.minor is Some,
        c.minor->0 != v.minor,
    ensures
        req_mismatch(v, seq![c]) == Some(minor_mismatch_msg(v.minor, c.minor->0)),
{
}

/// Changing only the patch component of an otherwise equal checkable
/// comparator is reported as a patch mismatch naming both values.
pub proof fn lemma_patch_change_detected(v: VersionV, c: ComparatorV)
    requires
        checkable_op(c.op),
        c.major == v.major,
        c.minor == Some(v.minor),
        c.patch is Some,
        c.patch->0 != v.patch,
    ensures
        req_mismatch(v, seq![c]) == Some(patch_mismatch_msg(v.patch, c.patch->0)),
{
}

/// A checkable comparator that states only a major component, or only
/// major and minor, accepts every version sharing that prefix, whatever
/// its remaining components and pre-release.
pub proof fn lemma_wildcard_by_omission(v: VersionV, c: ComparatorV)
    requires
        checkable_op(c.op),
        c.major == v.major,
        c.patch is None,
        c.minor is None || c.minor == Some(v.minor),
    ensures
        req_mismatch(v, seq![c]) is None,
{
}

/// A requirement that does not consist of exactly one comparator, or
/// whose single comparator constrains the version from above, passes
/// for every version.
pub proof fn lemma_vacuous_pass(v: VersionV, cs: Seq<ComparatorV>)
    requires
        cs.len() != 1 || cs[0].op == Op::Less || cs[0].op == Op::LessEq,
    ensures
        req_mismatch(v, cs) is None,
{
}

} // verus!
