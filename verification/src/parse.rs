//! Parsing of version and requirement strings. The parsing itself is
//! done by the `semver` and `semver-parser` crates behind trusted
//! wrappers; everything the wrappers hand back is converted to the
//! library's own types by verified code.
use vstd::prelude::*;

use semver::Comparator as SemverComparator;
use semver::Op as SvOp;
use semver_parser::range::Op as SvpOp;
use semver_parser::range::WildcardVersion;
use semver_parser::version::Identifier;

use crate::text::decimal;
use crate::text::join;
use crate::text::join_with;
use crate::text::u64_string;
use crate::version::Comparator;
use crate::version::ComparatorV;
use crate::version::Op;
use crate::version::Version;
use crate::version::VersionReq;
use crate::version::VersionV;

verus! {

/// One pre-release identifier, as `semver-parser` distinguishes them:
/// purely numeric, or alphanumeric text.
#[derive(Clone, Debug, PartialEq, Eq)]
pub enum PreId {
    Num(u64),
    Alpha(String),
}

/// The mathematical value of a [`PreId`].
pub ghost enum PreIdV {
    Num(u64),
    Alpha(Seq<char>),
}

impl View for PreId {
    type V = PreIdV;

    open spec fn view(&self) -> PreIdV {
        match self {
            PreId::Num(n) => PreIdV::Num(*n),
            PreId::Alpha(s) => PreIdV::Alpha(s@),
        }
    }
}

/// The canonical text of one pre-release identifier.
pub open spec fn pre_id_text(p: PreIdV) -> Seq<char> {
    match p {
        PreIdV::Num(n) => decimal(n as nat),
        PreIdV::Alpha(s) => s,
    }
}

/// The canonical dot-separated text of a pre-release identifier
/// sequence.
pub open spec fn pre_text(ids: Seq<PreIdV>) -> Seq<char> {
    join_with(ids.map_values(|p: PreIdV| pre_id_text(p)), "."@)
}

/// Render a pre-release identifier sequence as its dot-separated text.
pub fn render_pre(ids: &Vec<PreId>) -> (r: String)
    ensures
        r@ == pre_text(ids@.map_values(|p: PreId| p@)),
{
    let mut texts: Vec<String> = Vec::new();
    let n = ids.len();
    let mut i: usize = 0;
    while i < n
        invariant
            i <= n,
            n == ids@.len(),
            texts@.map_values(|s: String| s@) =~~= ids@.map_values(|p: PreId| p@).take(
                i as int,
            ).map_values(|p: PreIdV| pre_id_text(p)),
        decreases n - i,
    {
        let ghost t0 = texts@.map_values(|s: String| s@);
        let t = match &ids[i] {
            PreId::Num(n) => u64_string(*n),
            PreId::Alpha(s) => s.clone(),
        };
        texts.push(t);
        proof {
            let idsv = ids@.map_values(|p: PreId| p@);
            assert(texts@.map_values(|s: String| s@) =~~= t0.push(pre_id_text(idsv[i as int])));
            assert(idsv.take(i + 1).map_values(|p: PreIdV| pre_id_text(p)) =~~= idsv.take(
                i as int,
            ).map_values(|p: PreIdV| pre_id_text(p)).push(pre_id_text(idsv[i as int])));
        }
        i = i + 1;
    }
    proof {
        let idsv = ids@.map_values(|p: PreId| p@);
        assert(idsv.take(n as int) =~~= idsv);
    }
    join(&texts, ".")
}

/// A version as `semver-parser` reports it, before its pre-release
/// identifiers are rendered to text. Build metadata is never read by a
/// check, so it is not carried over.
#[derive(Clone, Debug)]
pub struct RawVersion {
    pub major: u64,
    pub minor: u64,
    pub patch: u64,
    pub pre: Vec<Identifier>,
}

/// The mathematical value of a [`RawVersion`].
pub ghost struct RawVersionV {
    pub major: u64,
    pub minor: u64,
    pub patch: u64,
    pub pre: Seq<PreIdV>,
}

impl View for RawVersion {
    type V = RawVersionV;

    open spec fn view(&self) -> RawVersionV {
        RawVersionV {
            major: self.major,
            minor: self.minor,
            patch: self.patch,
            pre: self.pre@.map_values(|i: Identifier| svp_ident_view(i)),
        }
    }
}

/// The operator of one `semver-parser` predicate, with the two
/// wildcard levels spelled out. A bare `*` requirement has no
/// predicate at all: the parser reports an empty predicate list.
#[derive(Clone, Copy, Debug, PartialEq, Eq, Structural)]
pub enum RawOp {
    Ex,
    Gt,
    GtEq,
    Lt,
    LtEq,
    Tilde,
    Compatible,
    WildcardMinor,
    WildcardPatch,
}

/// One `semver-parser` predicate before conversion.
#[derive(Clone, Debug)]
pub struct RawPredicate {
    pub op: RawOp,
    pub major: u64,
    pub minor: Option<u64>,
    pub patch: Option<u64>,
    pub pre: Vec<Identifier>,
}

/// The mathematical value of a [`RawPredicate`].
pub ghost struct RawPredicateV {
    pub op: RawOp,
    pub major: u64,
    pub minor: Option<u64>,
    pub patch: Option<u64>,
    pub pre: Seq<PreIdV>,
}

impl View for RawPredicate {
    type V = RawPredicateV;

    open spec fn view(&self) -> RawPredicateV {
        RawPredicateV {
            op: self.op,
            major: self.major,
            minor: self.minor,
            patch: self.patch,
            pre: self.pre@.map_values(|i: Identifier| svp_ident_view(i)),
        }
    }
}

/// The library operator corresponding to a raw operator.
pub open spec fn op_of_raw(o: RawOp) -> Op {
    match o {
        RawOp::Ex => Op::Exact,
        RawOp::Gt => Op::Greater,
        RawOp::GtEq => Op::GreaterEq,
        RawOp::Lt => Op::Less,
        RawOp::LtEq => Op::LessEq,
        RawOp::Tilde => Op::Tilde,
        RawOp::Compatible => Op::Caret,
        RawOp::WildcardMinor => Op::Wildcard,
        RawOp::WildcardPatch => Op::Wildcard,
    }
}

/// The comparator corresponding to one raw predicate.
pub open spec fn conv_predicate(p: RawPredicateV) -> ComparatorV {
    ComparatorV {
        op: op_of_raw(p.op),
        major: p.major,
        minor: p.minor,
        patch: p.patch,
        pre: pre_text(p.pre),
    }
}

/// The comparators of a raw requirement, one per predicate.
pub open spec fn conv_predicates(ps: Seq<RawPredicateV>) -> Seq<ComparatorV> {
    ps.map_values(|p: RawPredicateV| conv_predicate(p))
}

/// Convert the predicates of a parsed `semver-parser` requirement into
/// the library's comparators.
pub fn req_from_raw(preds: &Vec<RawPredicate>) -> (r: VersionReq)
    ensures
        r@ == conv_predicates(preds@.map_values(|p: RawPredicate| p@)),
{
    let mut comparators: Vec<Comparator> = Vec::new();
    let n = preds.len();
    let mut i: usize = 0;
    while i < n
        invariant
            i <= n,
            n == preds@.len(),
            comparators@.map_values(|c: Comparator| c@) =~~= conv_predicates(
                preds@.map_values(|p: RawPredicate| p@),
            ).take(i as int),
        decreases n - i,
    {
        let ghost c0 = comparators@.map_values(|c: Comparator| c@);
        let ghost psv = preds@.map_values(|p: RawPredicate| p@);
        let p = &preds[i];
        let op = match p.op {
            RawOp::Ex => Op::Exact,
            RawOp::Gt => Op::Greater,
            RawOp::GtEq => Op::GreaterEq,
            RawOp::Lt => Op::Less,
            RawOp::LtEq => Op::LessEq,
            RawOp::Tilde => Op::Tilde,
            RawOp::Compatible => Op::Caret,
            RawOp::WildcardMinor => Op::Wildcard,
            RawOp::WildcardPatch => Op::Wildcard,
        };
        let ids = idents_to_pre(&p.pre);
        let pre = render_pre(&ids);
        comparators.push(Comparator { op, major: p.major, minor: p.minor, patch: p.patch, pre });
        proof {
            assert(psv[i as int] == preds@[i as int]@);
            assert(comparators@.map_values(|c: Comparator| c@) =~~= c0.push(conv_predicate(
                psv[i as int],
            )));
            assert(conv_predicates(psv)[i as int] == conv_predicate(psv[i as int]));
            assert(conv_predicates(psv).take(i + 1) =~~= conv_predicates(psv).take(
                i as int,
            ).push(conv_predicates(psv)[i as int]));
            assert(comparators@.map_values(|c: Comparator| c@) =~~= conv_predicates(psv).take(
                i + 1,
            ));
        }
        i = i + 1;
    }
    proof {
        let psv = preds@.map_values(|p: RawPredicate| p@);
        assert(conv_predicates(psv).take(n as int) =~~= conv_predicates(psv));
    }
    VersionReq { comparators }
}

} // verus!

verus! {

/// The view of a version parse result.
pub open spec fn version_res_view(r: Result<Version, String>) -> Result<VersionV, Seq<char>> {
    match r {
        Ok(v) => Ok(v@),
        Err(e) => Err(e@),
    }
}

/// The view of a raw version parse result.
pub open spec fn raw_version_res_view(r: Result<RawVersion, String>) -> Result<
    RawVersionV,
    Seq<char>,
> {
    match r {
        Ok(v) => Ok(v@),
        Err(e) => Err(e@),
    }
}

/// The view of a requirement parse result.
pub open spec fn req_res_view(r: Result<VersionReq, String>) -> Result<
    Seq<ComparatorV>,
    Seq<char>,
> {
    match r {
        Ok(v) => Ok(v@),
        Err(e) => Err(e@),
    }
}

/// The view of a raw predicate list parse result.
pub open spec fn raw_preds_res_view(r: Result<Vec<RawPredicate>, String>) -> Result<
    Seq<RawPredicateV>,
    Seq<char>,
> {
    match r {
        Ok(v) => Ok(v@.map_values(|p: RawPredicate| p@)),
        Err(e) => Err(e@),
    }
}

/// What `semver::Version::parse` makes of a string: the parsed version,
/// or the parser's diagnostic.
pub uninterp spec fn sv_version_of(s: Seq<char>) -> Result<VersionV, Seq<char>>;

/// Relies on `semver::Version::parse`: parses a full `major.minor.patch`
/// version with optional pre-release and build metadata, or reports a
/// diagnostic. The result depends on the string alone.
#[verifier::external_body]
fn semver_parse_version(s: &str) -> (r: Result<Version, String>)
    ensures
        version_res_view(r) == sv_version_of(s@),
{
    match semver::Version::parse(s) {
        Ok(v) => Ok(Version {
            major: v.major,
            minor: v.minor,
            patch: v.patch,
            pre: v.pre.as_str().to_string(),
            build: v.build.as_str().to_string(),
        }),
        Err(e) => Err(e.to_string()),
    }
}

/// `semver`'s comparator type, carried opaquely from the parse wrapper
/// to the verified conversion loop.
#[verifier::external_type_specification]
#[verifier::external_body]
pub struct ExComparator(SemverComparator);

/// What one `semver` comparator holds, as this library's comparator.
pub uninterp spec fn sv_comparator_view(c: SemverComparator) -> ComparatorV;

/// Relies on the public fields of `semver::Comparator`: copies the
/// operator (an operator unknown to this library would be mapped to
/// `<`, which the compatibility policy never checks), the numeric
/// components and the pre-release text.
#[verifier::external_body]
fn comparator_from_semver(c: &SemverComparator) -> (r: Comparator)
    ensures
        r@ == sv_comparator_view(*c),
{
    Comparator {
        op: match c.op {
            SvOp::Exact => Op::Exact, SvOp::Greater => Op::Greater, SvOp::GreaterEq => Op::GreaterEq,
            SvOp::Less => Op::Less, SvOp::LessEq => Op::LessEq, SvOp::Tilde => Op::Tilde,
            SvOp::Caret => Op::Caret, SvOp::Wildcard => Op::Wildcard, _ => Op::Less,
        },
        major: c.major, minor: c.minor, patch: c.patch, pre: c.pre.as_str().to_string(),
    }
}

/// What `semver::VersionReq::parse` makes of a string: the comparator
/// list (each comparator by its value under [`sv_comparator_view`]), or
/// the parser's diagnostic.
pub uninterp spec fn sv_req_of(s: Seq<char>) -> Result<Seq<ComparatorV>, Seq<char>>;

/// Relies on `semver::VersionReq::parse`: parses a comma-separated list
/// of comparators (a bare `*` gives an empty list), or reports a
/// diagnostic. The result depends on the string alone.
#[verifier::external_body]
fn semver_parse_req_raw(s: &str) -> (r: Result<Vec<SemverComparator>, String>)
    ensures
        match sv_req_of(s@) {
            Err(e) => r is Err && r->Err_0@ == e,
            Ok(cs) => r is Ok && r->Ok_0@.map_values(|c: SemverComparator| sv_comparator_view(c))
                == cs,
        },
{
    match semver::VersionReq::parse(s) {
        Err(e) => Err(e.to_string()),
        Ok(req) => Ok(req.comparators),
    }
}

/// Parse a requirement with `semver` and convert each comparator to the
/// library's form.
fn semver_parse_req(s: &str) -> (r: Result<VersionReq, String>)
    ensures
        req_res_view(r) == sv_req_of(s@),
{
    let raw = match semver_parse_req_raw(s) {
        Err(e) => {
            return Err(e);
        },
        Ok(raw) => raw,
    };
    let ghost rawv = raw@.map_values(|c: SemverComparator| sv_comparator_view(c));
    let mut comparators: Vec<Comparator> = Vec::new();
    let n = raw.len();
    let mut i: usize = 0;
    while i < n
        invariant
            i <= n,
            n == raw@.len(),
            rawv == raw@.map_values(|c: SemverComparator| sv_comparator_view(c)),
            comparators@.map_values(|c: Comparator| c@) =~~= rawv.take(i as int),
        decreases n - i,
    {
        let ghost c0 = comparators@.map_values(|c: Comparator| c@);
        let c = comparator_from_semver(&raw[i]);
        comparators.push(c);
        proof {
            assert(rawv[i as int] == sv_comparator_view(raw@[i as int]));
            assert(comparators@.map_values(|c: Comparator| c@) =~~= c0.push(
                sv_comparator_view(raw@[i as int]),
            ));
            assert(rawv.take(i + 1) =~~= rawv.take(i as int).push(rawv[i as int]));
        }
        i = i + 1;
    }
    proof {
        assert(rawv.take(n as int) =~~= rawv);
    }
    Ok(VersionReq { comparators })
}

/// `semver-parser`'s pre-release identifier type, carried opaquely
/// from the parse wrappers to the verified conversions.
#[verifier::external_type_specification]
#[verifier::external_body]
pub struct ExIdentifier(Identifier);

/// What one `semver-parser` identifier holds, as this library's
/// pre-release identifier.
pub uninterp spec fn svp_ident_view(i: Identifier) -> PreIdV;

/// Relies on the two variants of `semver_parser::version::Identifier`:
/// copies the number or the text out.
#[verifier::external_body]
fn ident_to_pre(i: &Identifier) -> (r: PreId)
    ensures
        r@ == svp_ident_view(*i),
{
    match i {
        Identifier::Numeric(n) => PreId::Num(*n),
        Identifier::AlphaNumeric(a) => PreId::Alpha(a.clone()),
    }
}

/// Convert a borrowed pre-release identifier list.
fn idents_to_pre(ids: &Vec<Identifier>) -> (r: Vec<PreId>)
    ensures
        r@.map_values(|p: PreId| p@) == ids@.map_values(|i: Identifier| svp_ident_view(i)),
{
    let ghost idsv = ids@.map_values(|i: Identifier| svp_ident_view(i));
    let mut out: Vec<PreId> = Vec::new();
    let n = ids.len();
    let mut i: usize = 0;
    while i < n
        invariant
            i <= n,
            n == ids@.len(),
            idsv == ids@.map_values(|i: Identifier| svp_ident_view(i)),
            out@.map_values(|p: PreId| p@) =~~= idsv.take(i as int),
        decreases n - i,
    {
        let ghost o0 = out@.map_values(|p: PreId| p@);
        let p = ident_to_pre(&ids[i]);
        out.push(p);
        proof {
            assert(idsv[i as int] == svp_ident_view(ids@[i as int]));
            assert(out@.map_values(|p: PreId| p@) =~~= o0.push(svp_ident_view(ids@[i as int])));
            assert(idsv.take(i + 1) =~~= idsv.take(i as int).push(idsv[i as int]));
        }
        i = i + 1;
    }
    proof {
        assert(idsv.take(n as int) =~~= idsv);
    }
    out
}

/// What `semver_parser::version::parse` makes of a string.
pub uninterp spec fn svp_version_of(s: Seq<char>) -> Result<RawVersionV, Seq<char>>;

/// Relies on `semver_parser::version::parse`: parses a full version —
/// handing the pre-release identifiers over untouched — or reports a
/// diagnostic. The result depends on the string alone.
#[verifier::external_body]
fn svp_parse_version(s: &str) -> (r: Result<RawVersion, String>)
    ensures
        raw_version_res_view(r) == svp_version_of(s@),
{
    match semver_parser::version::parse(s) {
        Err(e) => Err(e.to_string()),
        Ok(v) => Ok(RawVersion { major: v.major, minor: v.minor, patch: v.patch, pre: v.pre }),
    }
}

/// What `semver_parser::range::parse` makes of a string.
pub uninterp spec fn svp_range_of(s: Seq<char>) -> Result<Seq<RawPredicateV>, Seq<char>>;

/// Relies on `semver_parser::range::parse`: parses a comma-separated
/// list of predicates (a bare `*` or an empty string gives an empty
/// list), or reports a diagnostic. The result depends on the string
/// alone.
#[verifier::external_body]
fn svp_parse_range(s: &str) -> (r: Result<Vec<RawPredicate>, String>)
    ensures
        raw_preds_res_view(r) == svp_range_of(s@),
{
    match semver_parser::range::parse(s) {
        Err(e) => Err(e.to_string()),
        Ok(req) => Ok(req.predicates.into_iter().map(|p| RawPredicate {
            op: match p.op {
                SvpOp::Ex => RawOp::Ex, SvpOp::Gt => RawOp::Gt, SvpOp::GtEq => RawOp::GtEq,
                SvpOp::Lt => RawOp::Lt, SvpOp::LtEq => RawOp::LtEq, SvpOp::Tilde => RawOp::Tilde,
                SvpOp::Compatible => RawOp::Compatible,
                SvpOp::Wildcard(WildcardVersion::Minor) => RawOp::WildcardMinor,
                SvpOp::Wildcard(WildcardVersion::Patch) => RawOp::WildcardPatch,
            },
            major: p.major, minor: p.minor, patch: p.patch, pre: p.pre,
        }).collect()),
    }
}

/// `s` wrapped in double quotes.
pub open spec fn quote_wrap(s: Seq<char>) -> Seq<char> {
    "\""@ + s + "\""@
}

/// The "bad package version" message for a version string that did not
/// parse, with the parser's diagnostic appended.
pub open spec fn bad_package_version_msg(s: Seq<char>, diag: Seq<char>) -> Seq<char> {
    "bad package version "@ + quote_wrap(s) + ": "@ + diag
}

fn build_bad_package_version_msg(s: &str, diag: &str) -> (r: String)
    ensures
        r@ == bad_package_version_msg(s@, diag@),
{
    let mut m = String::from_str("bad package version ");
    m.append("\"");
    m.append(s);
    m.append("\"");
    m.append(": ");
    m.append(diag);
    m
}

/// Parse a package's declared version with `semver`, wrapping a parse
/// failure in the "bad package version" message.
pub fn parse_package_version(pkg_version: &str) -> (r: Result<Version, String>)
    ensures
        match sv_version_of(pkg_version@) {
            Ok(v) => r is Ok && r->Ok_0@ == v,
            Err(e) => r is Err && r->Err_0@ == bad_package_version_msg(pkg_version@, e),
        },
{
    match semver_parse_version(pkg_version) {
        Ok(v) => Ok(v),
        Err(e) => Err(build_bad_package_version_msg(pkg_version, e.as_str())),
    }
}

/// Parse a version requirement string with `semver`.
pub fn parse_version_req(s: &str) -> (r: Result<VersionReq, String>)
    ensures
        req_res_view(r) == sv_req_of(s@),
{
    semver_parse_req(s)
}

/// The mathematical value of the version a raw version converts to:
/// the numeric components, the pre-release rendered as text, and no
/// build metadata.
pub open spec fn version_of_raw(rv: RawVersionV) -> VersionV {
    VersionV {
        major: rv.major,
        minor: rv.minor,
        patch: rv.patch,
        pre: pre_text(rv.pre),
        build: Seq::empty(),
    }
}

/// Convert a raw `semver-parser` version to the library's version.
pub fn version_from_raw(rv: &RawVersion) -> (v: Version)
    ensures
        v@ == version_of_raw(rv@),
{
    let ids = idents_to_pre(&rv.pre);
    let pre = render_pre(&ids);
    Version { major: rv.major, minor: rv.minor, patch: rv.patch, pre, build: String::new() }
}

/// Parse a package's declared version with `semver-parser`, wrapping a
/// parse failure in the "bad package version" message.
pub fn parse_package_version_md(pkg_version: &str) -> (r: Result<Version, String>)
    ensures
        match svp_version_of(pkg_version@) {
            Ok(rv) => r is Ok && r->Ok_0@ == version_of_raw(rv),
            Err(e) => r is Err && r->Err_0@ == bad_package_version_msg(pkg_version@, e),
        },
{
    match svp_parse_version(pkg_version) {
        Ok(rv) => Ok(version_from_raw(&rv)),
        Err(e) => Err(build_bad_package_version_msg(pkg_version, e.as_str())),
    }
}

/// Parse a version requirement string with `semver-parser` and convert
/// it to the library's comparators.
pub fn parse_version_req_md(s: &str) -> (r: Result<VersionReq, String>)
    ensures
        match svp_range_of(s@) {
            Ok(ps) => r is Ok && r->Ok_0@ == conv_predicates(ps),
            Err(e) => r is Err && r->Err_0@ == e,
        },
{
    match svp_parse_range(s) {
        Ok(preds) => Ok(req_from_raw(&preds)),
        Err(e) => Err(e),
    }
}

} // verus!
