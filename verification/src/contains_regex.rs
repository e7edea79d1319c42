//! The regular-expression checks: at least one match for the expanded
//! template, or — in the exhaustive variant — a compatible version
//! number in every match.
use vstd::prelude::*;

use crate::parse::bad_package_version_msg;
use crate::parse::parse_package_version;
use crate::parse::parse_version_req;
use crate::parse::sv_req_of;
use crate::parse::sv_version_of;
use crate::template::semver_re;
use crate::template::semver_re_spec;
use crate::template::spec_expand;
use crate::template::ExpandMode;
use crate::template::expand;
use crate::text::count_char_upto;
use crate::text::decimal;
use crate::text::line_after;
use crate::text::str_chars;
use crate::text::u64_string;
use crate::version::req_mismatch;
use crate::version::version_matches_request;
use crate::version::Version;
use crate::version::VersionV;

verus! {

/// One regular-expression match: the text before the match, and the
/// matched text itself.
#[derive(Clone, Debug, PartialEq, Eq)]
pub struct FoundMatch {
    /// Everything in the searched text before the match start.
    pub prefix: String,
    /// The matched text.
    pub text: String,
}

impl View for FoundMatch {
    type V = (Seq<char>, Seq<char>);

    open spec fn view(&self) -> (Seq<char>, Seq<char>) {
        (self.prefix@, self.text@)
    }
}

/// The diagnostic that compiling `pattern` as a multi-line regular
/// expression produces, or `None` when the pattern compiles.
pub uninterp spec fn regex_ml_build_err(pattern: Seq<char>) -> Option<Seq<char>>;

/// The non-overlapping matches, in order, of the multi-line-compiled
/// `pattern` in `text`: for each match, the text before it and the
/// matched text.
pub uninterp spec fn regex_ml_matches(pattern: Seq<char>, text: Seq<char>) -> Seq<
    (Seq<char>, Seq<char>),
>;

/// Relies on `regex::RegexBuilder` (with `multi_line(true)`) and
/// `regex::Regex::find_iter`: compiles the pattern — reporting the
/// compiler's diagnostic on failure — and yields every non-overlapping
/// match in order. Both results depend on the pattern and text alone.
#[verifier::external_body]
fn regex_find_matches(pattern: &str, text: &str) -> (r: Result<Vec<FoundMatch>, String>)
    ensures
        match regex_ml_build_err(pattern@) {
            Some(d) => r is Err && r->Err_0@ == d,
            None => r is Ok && r->Ok_0@.map_values(|m: FoundMatch| m@) == regex_ml_matches(
                pattern@,
                text@,
            ),
        },
{
    let re = match regex::RegexBuilder::new(pattern).multi_line(true).build() {
        Ok(re) => re,
        Err(e) => return Err(e.to_string()),
    };
    Ok(re.find_iter(text).map(|m| FoundMatch {
        prefix: text[..m.start()].to_string(),
        text: m.as_str().to_string(),
    }).collect())
}

/// The "could not parse template" message around a regex diagnostic.
pub open spec fn bad_template_msg(diag: Seq<char>) -> Seq<char> {
    "could not parse template: "@ + diag
}

fn build_bad_template_msg(diag: &str) -> (r: String)
    ensures
        r@ == bad_template_msg(diag@),
{
    let mut m = String::from_str("could not parse template: ");
    m.append(diag);
    m
}

/// The 1-based line number on which the first match of the multi-line
/// pattern in `text` begins; `Ok(None)` when nothing matches, `Err`
/// with the compiler's diagnostic when the pattern does not compile. A
/// line count that does not fit in `u64` is reported as `u64::MAX`.
pub fn find_first_regex(text: &str, pattern: &str) -> (r: Result<Option<u64>, String>)
    ensures
        match regex_ml_build_err(pattern@) {
            Some(d) => r is Err && r->Err_0@ == d,
            None => {
                let ms = regex_ml_matches(pattern@, text@);
                r is Ok && (if ms.len() == 0 {
                    r->Ok_0 is None
                } else {
                    r->Ok_0 is Some && (r->Ok_0->0 == line_after(ms[0].0) || r->Ok_0->0
                        == u64::MAX)
                })
            },
        },
{
    let ms = match regex_find_matches(pattern, text) {
        Ok(ms) => ms,
        Err(e) => {
            return Err(e);
        },
    };
    if ms.len() == 0 {
        return Ok(None);
    }
    let pc = str_chars(ms[0].prefix.as_str());
    let len = pc.len();
    let cnt = count_char_upto(&pc, '\n', len);
    proof {
        assert(pc@.take(len as int) =~= ms@[0].prefix@);
        assert(ms@.map_values(|m: FoundMatch| m@)[0] == ms@[0]@);
    }
    if cnt as u64 >= u64::MAX - 1 {
        Ok(Some(u64::MAX))
    } else {
        Ok(Some(cnt as u64 + 1))
    }
}

/// What checking `text` from `path` against the pattern-mode expansion
/// of `template` yields.
pub open spec fn spec_check_contains_regex(
    path: Seq<char>,
    text: Seq<char>,
    template: Seq<char>,
    pkg_name: Seq<char>,
    pkg_version: Seq<char>,
) -> Result<(), Seq<char>> {
    let pattern = spec_expand(template, pkg_name, pkg_version, ExpandMode::Pattern);
    match regex_ml_build_err(pattern) {
        Some(d) => Err(bad_template_msg(d)),
        None => if regex_ml_matches(pattern, text).len() > 0 {
            Ok(())
        } else {
            Err(crate::contains_substring::not_found_msg(pattern, path))
        },
    }
}

/// Check that `text`, read from `path`, contains a match of the regular
/// expression given by `template`.
///
/// The placeholders `{name}` and `{version}` are replaced by `pkg_name`
/// and `pkg_version`, escaped so that they match themselves literally.
/// The pattern is compiled in multi-line mode, so `^` and `$` match at
/// every line boundary. A pattern that does not compile is reported
/// with the compiler's own diagnostic; a pattern without a match is
/// reported with the expanded pattern and the path.
pub fn check_contains_regex(
    path: &str,
    text: &str,
    template: &str,
    pkg_name: &str,
    pkg_version: &str,
) -> (r: Result<(), String>)
    ensures
        match spec_check_contains_regex(path@, text@, template@, pkg_name@, pkg_version@) {
            Ok(()) => r is Ok,
            Err(m) => r is Err && r->Err_0@ == m,
        },
{
    let pattern = expand(template, pkg_name, pkg_version, ExpandMode::Pattern);
    match regex_find_matches(pattern.as_str(), text) {
        Err(e) => Err(build_bad_template_msg(e.as_str())),
        Ok(ms) => {
            proof {
                assert(ms@.map_values(|m: FoundMatch| m@).len() == ms@.len());
            }
            if ms.len() > 0 {
                Ok(())
            } else {
                Err(crate::contains_substring::build_not_found_msg(pattern.as_str(), path))
            }
        },
    }
}

} // verus!

verus! {

/// The verdict for one version token found inside one match.
#[derive(Clone, Debug, PartialEq, Eq)]
pub struct MatchRecord {
    /// 1-based line number on which the enclosing match begins.
    pub line: u64,
    /// The version token found inside the match.
    pub found: String,
    /// `None` when the token is compatible with the package version,
    /// otherwise the mismatch message.
    pub mismatch: Option<String>,
}

/// The mathematical value of a [`MatchRecord`].
pub ghost struct MatchRecordV {
    pub line: u64,
    pub found: Seq<char>,
    pub mismatch: Option<Seq<char>>,
}

impl View for MatchRecord {
    type V = MatchRecordV;

    open spec fn view(&self) -> MatchRecordV {
        MatchRecordV {
            line: self.line,
            found: self.found@,
            mismatch: match &self.mismatch {
                Some(m) => Some(m@),
                None => None,
            },
        }
    }
}

/// The line number of a match with the given prefix, clamped to `u64`.
pub open spec fn line_u64(prefix: Seq<char>) -> u64 {
    if line_after(prefix) <= u64::MAX {
        line_after(prefix) as u64
    } else {
        u64::MAX
    }
}

/// The version tokens found inside one match.
pub open spec fn tokens_of(m: (Seq<char>, Seq<char>)) -> Seq<Seq<char>> {
    regex_ml_matches(semver_re_spec(), m.1).map_values(|t: (Seq<char>, Seq<char>)| t.1)
}

/// The records for the version tokens of one match, all carrying that
/// match's line; a token that does not parse as a version requirement
/// aborts the scan with the parser's diagnostic.
pub open spec fn token_records(v: VersionV, line: u64, toks: Seq<Seq<char>>) -> Result<
    Seq<MatchRecordV>,
    Seq<char>,
>
    decreases toks.len(),
{
    if toks.len() == 0 {
        Ok(Seq::empty())
    } else {
        match token_records(v, line, toks.drop_last()) {
            Err(e) => Err(e),
            Ok(rs) => match sv_req_of(toks.last()) {
                Err(e) => Err(e),
                Ok(cs) => Ok(
                    rs.push(
                        MatchRecordV { line, found: toks.last(), mismatch: req_mismatch(v, cs) },
                    ),
                ),
            },
        }
    }
}

proof fn lemma_token_records_prefix_err(v: VersionV, line: u64, toks: Seq<Seq<char>>, k: int)
    requires
        0 <= k <= toks.len(),
        token_records(v, line, toks.take(k)) is Err,
    ensures
        token_records(v, line, toks) == token_records(v, line, toks.take(k)),
    decreases toks.len() - k,
{
    if k == toks.len() {
        assert(toks.take(k) =~~= toks);
    } else {
        assert(toks.take(k + 1).drop_last() =~~= toks.take(k));
        lemma_token_records_prefix_err(v, line, toks, k + 1);
    }
}

/// The records of all matches, in order.
pub open spec fn scan_records(v: VersionV, ms: Seq<(Seq<char>, Seq<char>)>) -> Result<
    Seq<MatchRecordV>,
    Seq<char>,
>
    decreases ms.len(),
{
    if ms.len() == 0 {
        Ok(Seq::empty())
    } else {
        match scan_records(v, ms.drop_last()) {
            Err(e) => Err(e),
            Ok(rs) => match token_records(v, line_u64(ms.last().0), tokens_of(ms.last())) {
                Err(e) => Err(e),
                Ok(ts) => Ok(rs + ts),
            },
        }
    }
}

proof fn lemma_scan_records_prefix_err(v: VersionV, ms: Seq<(Seq<char>, Seq<char>)>, k: int)
    requires
        0 <= k <= ms.len(),
        scan_records(v, ms.take(k)) is Err,
    ensures
        scan_records(v, ms) == scan_records(v, ms.take(k)),
    decreases ms.len() - k,
{
    if k == ms.len() {
        assert(ms.take(k) =~~= ms);
    } else {
        assert(ms.take(k + 1).drop_last() =~~= ms.take(k));
        lemma_scan_records_prefix_err(v, ms, k + 1);
    }
}

/// What scanning a list of matches yields: the per-token records, or
/// the first failure — the version sub-pattern not compiling, or a
/// token that does not parse.
pub open spec fn scan_outcome(v: VersionV, ms: Seq<(Seq<char>, Seq<char>)>) -> Result<
    Seq<MatchRecordV>,
    Seq<char>,
> {
    match regex_ml_build_err(semver_re_spec()) {
        Some(d) => Err(d),
        None => match scan_records(v, ms) {
            Err(e) => Err("could not parse version: "@ + e),
            Ok(rs) => Ok(rs),
        },
    }
}

fn build_bad_version_token_msg(diag: &str) -> (r: String)
    ensures
        r@ == "could not parse version: "@ + diag@,
{
    let mut m = String::from_str("could not parse version: ");
    m.append(diag);
    m
}

/// Extract and judge every version token inside every match: each token
/// is parsed as a version requirement and checked against `version`,
/// and reported at the line on which its enclosing match begins.
pub fn scan_matches(version: &Version, ms: &Vec<FoundMatch>) -> (r: Result<Vec<MatchRecord>, String>)
    ensures
        match scan_outcome(version@, ms@.map_values(|m: FoundMatch| m@)) {
            Ok(rs) => r is Ok && r->Ok_0@.map_values(|rec: MatchRecord| rec@) == rs,
            Err(e) => r is Err && r->Err_0@ == e,
        },
{
    // Compile the version sub-pattern once up front, so that a pattern
    // problem surfaces even when there is no match to scan.
    match regex_find_matches(semver_re(), "") {
        Err(e) => {
            return Err(e);
        },
        Ok(_) => {},
    }
    let ghost msv = ms@.map_values(|m: FoundMatch| m@);
    let mut records: Vec<MatchRecord> = Vec::new();
    let n = ms.len();
    let mut i: usize = 0;
    proof {
        assert(msv.take(0) =~~= Seq::<(Seq<char>, Seq<char>)>::empty());
    }
    while i < n
        invariant
            i <= n,
            n == ms@.len(),
            msv == ms@.map_values(|m: FoundMatch| m@),
            regex_ml_build_err(semver_re_spec()) is None,
            scan_records(version@, msv.take(i as int)) matches Ok(rs) && rs =~~= records@.map_values(
                |rec: MatchRecord| rec@,
            ),
        decreases n - i,
    {
        proof {
            assert(msv.take(i + 1).drop_last() =~~= msv.take(i as int));
            assert(msv.take(i + 1).last() == msv[i as int]);
            assert(msv[i as int] == ms@[i as int]@);
        }
        let ghost r0 = records@.map_values(|rec: MatchRecord| rec@);
        let m = &ms[i];
        let toks = match regex_find_matches(semver_re(), m.text.as_str()) {
            Ok(t) => t,
            Err(_) => {
                // unreachable: the sub-pattern compiled above
                return Err(String::new());
            },
        };
        let ghost tseq = tokens_of(msv[i as int]);
        proof {
            assert(tseq =~~= toks@.map_values(|t: FoundMatch| t@).map_values(
                |t: (Seq<char>, Seq<char>)| t.1,
            ));
        }
        let pc = str_chars(m.prefix.as_str());
        let plen = pc.len();
        let cnt = count_char_upto(&pc, '\n', plen);
        proof {
            assert(pc@.take(plen as int) =~= m.prefix@);
        }
        let line: u64 = if cnt as u64 >= u64::MAX - 1 {
            u64::MAX
        } else {
            cnt as u64 + 1
        };
        proof {
            assert(line == line_u64(msv[i as int].0));
        }
        let nt = toks.len();
        let mut j: usize = 0;
        proof {
            assert(tseq.take(0) =~~= Seq::<Seq<char>>::empty());
        }
        while j < nt
            invariant
                j <= nt,
                nt == toks@.len(),
                tseq =~~= toks@.map_values(|t: FoundMatch| t@).map_values(
                    |t: (Seq<char>, Seq<char>)| t.1,
                ),
                tseq == tokens_of(msv[i as int]),
                line == line_u64(msv[i as int].0),
                i < n,
                n == ms@.len(),
                msv == ms@.map_values(|m: FoundMatch| m@),
                regex_ml_build_err(semver_re_spec()) is None,
                scan_records(version@, msv.take(i as int)) matches Ok(rs) && rs =~~= r0,
                token_records(version@, line, tseq.take(j as int)) matches Ok(ts) && records@.map_values(
                    |rec: MatchRecord| rec@,
                ) =~~= r0 + ts,
            decreases nt - j,
        {
            proof {
                assert(tseq.take(j + 1).drop_last() =~~= tseq.take(j as int));
                assert(tseq.take(j + 1).last() == tseq[j as int]);
                assert(tseq[j as int] == toks@[j as int]@.1);
            }
            let tok = &toks[j];
            match parse_version_req(tok.text.as_str()) {
                Err(e) => {
                    proof {
                        assert(token_records(version@, line, tseq.take(j + 1)) == Result::<
                            Seq<MatchRecordV>,
                            Seq<char>,
                        >::Err(e@));
                        lemma_token_records_prefix_err(version@, line, tseq, j + 1);
                        assert(msv.take(i + 1).drop_last() =~~= msv.take(i as int));
                        assert(msv.take(i + 1).last() == msv[i as int]);
                        assert(scan_records(version@, msv.take(i + 1)) == Result::<
                            Seq<MatchRecordV>,
                            Seq<char>,
                        >::Err(e@));
                        lemma_scan_records_prefix_err(version@, msv, i + 1);
                        assert(msv.take(n as int) =~~= msv);
                    }
                    return Err(build_bad_version_token_msg(e.as_str()));
                },
                Ok(req) => {
                    proof {
                        assert(req@ == sv_req_of(tseq[j as int])->Ok_0);
                    }
                    let mismatch = match version_matches_request(version, &req) {
                        Ok(()) => None,
                        Err(msg) => Some(msg),
                    };
                    proof {
                        assert(match mismatch {
                            Some(ref m) => req_mismatch(version@, req@) == Some(m@),
                            None => req_mismatch(version@, req@) is None,
                        });
                    }
                    let found = tok.text.clone();
                    let ghost old_recs = records@.map_values(|rec: MatchRecord| rec@);
                    records.push(MatchRecord { line, found, mismatch });
                    proof {
                        let newv = MatchRecordV {
                            line,
                            found: tseq[j as int],
                            mismatch: req_mismatch(version@, sv_req_of(tseq[j as int])->Ok_0),
                        };
                        assert(records@.last()@ == newv);
                        assert(records@.map_values(|rec: MatchRecord| rec@) =~~= old_recs.push(
                            newv,
                        ));
                        let ts0 = token_records(version@, line, tseq.take(j as int));
                        let ts1 = token_records(version@, line, tseq.take(j + 1));
                        assert(ts1 == Result::<Seq<MatchRecordV>, Seq<char>>::Ok(ts0->Ok_0.push(
                            newv,
                        )));
                        assert(records@.map_values(|rec: MatchRecord| rec@) =~~= r0
                            + ts1->Ok_0);
                    }
                },
            }
            j = j + 1;
        }
        proof {
            assert(tseq.take(nt as int) =~~= tseq);
            assert(scan_records(version@, msv.take(i + 1)) matches Ok(rs) && rs
                =~~= records@.map_values(|rec: MatchRecord| rec@));
        }
        i = i + 1;
    }
    proof {
        assert(msv.take(n as int) =~~= msv);
    }
    Ok(records)
}

} // verus!

verus! {

/// Number of records carrying a mismatch.
pub open spec fn mismatch_count(rs: Seq<MatchRecordV>) -> nat
    decreases rs.len(),
{
    if rs.len() == 0 {
        0
    } else {
        mismatch_count(rs.drop_last()) + if rs.last().mismatch is Some {
            1nat
        } else {
            0nat
        }
    }
}

/// Count the records carrying a mismatch.
pub fn count_mismatches(records: &Vec<MatchRecord>) -> (n: usize)
    ensures
        n == mismatch_count(records@.map_values(|rec: MatchRecord| rec@)),
{
    let ghost rsv = records@.map_values(|rec: MatchRecord| rec@);
    let mut n: usize = 0;
    let len = records.len();
    let mut i: usize = 0;
    while i < len
        invariant
            i <= len,
            len == records@.len(),
            rsv == records@.map_values(|rec: MatchRecord| rec@),
            n == mismatch_count(rsv.take(i as int)),
            n <= i,
        decreases len - i,
    {
        proof {
            assert(rsv.take(i + 1).drop_last() =~~= rsv.take(i as int));
            assert(rsv.take(i + 1).last() == rsv[i as int]);
        }
        if records[i].mismatch.is_some() {
            n = n + 1;
        }
        i = i + 1;
    }
    proof {
        assert(rsv.take(len as int) =~~= rsv);
    }
    n
}

/// The report of one exhaustive scan: how many matches the pattern had,
/// and one record per version token found inside them.
#[derive(Clone, Debug, PartialEq, Eq)]
pub struct ScanReport {
    /// Number of matches of the expanded pattern.
    pub match_count: usize,
    /// One record per version token, in text order.
    pub records: Vec<MatchRecord>,
}

/// What scanning `text` for the any-version expansion of `template`
/// yields: the match count and records, or the first failure.
pub open spec fn spec_scan_report(
    text: Seq<char>,
    template: Seq<char>,
    pkg_name: Seq<char>,
    pkg_version: Seq<char>,
) -> Result<(nat, Seq<MatchRecordV>), Seq<char>> {
    match sv_version_of(pkg_version) {
        Err(e) => Err(bad_package_version_msg(pkg_version, e)),
        Ok(v) => {
            let pattern = spec_expand(template, pkg_name, pkg_version, ExpandMode::PatternAnyVersion);
            match regex_ml_build_err(pattern) {
                Some(d) => Err(bad_template_msg(d)),
                None => {
                    let ms = regex_ml_matches(pattern, text);
                    match scan_outcome(v, ms) {
                        Err(e) => Err(e),
                        Ok(rs) => Ok((ms.len(), rs)),
                    }
                },
            }
        },
    }
}

/// Find every match of `template` — with `{version}` standing for any
/// SemVer version number — in `text`, and judge the version tokens of
/// each match against `pkg_version`.
pub fn find_all_and_validate(
    text: &str,
    template: &str,
    pkg_name: &str,
    pkg_version: &str,
) -> (r: Result<ScanReport, String>)
    ensures
        match spec_scan_report(text@, template@, pkg_name@, pkg_version@) {
            Ok((count, rs)) => r is Ok && r->Ok_0.match_count == count
                && r->Ok_0.records@.map_values(|rec: MatchRecord| rec@) == rs,
            Err(e) => r is Err && r->Err_0@ == e,
        },
{
    let version = match parse_package_version(pkg_version) {
        Ok(v) => v,
        Err(e) => {
            return Err(e);
        },
    };
    let pattern = expand(template, pkg_name, pkg_version, ExpandMode::PatternAnyVersion);
    let ms = match regex_find_matches(pattern.as_str(), text) {
        Ok(ms) => ms,
        Err(e) => {
            return Err(build_bad_template_msg(e.as_str()));
        },
    };
    let records = match scan_matches(&version, &ms) {
        Ok(rs) => rs,
        Err(e) => {
            return Err(e);
        },
    };
    proof {
        assert(ms@.map_values(|m: FoundMatch| m@).len() == ms@.len());
    }
    Ok(ScanReport { match_count: ms.len(), records })
}

/// The "found no matches" message.
pub open spec fn no_matches_msg(path: Seq<char>, template: Seq<char>) -> Seq<char> {
    path + " ... found no matches for \""@ + template + "\""@
}

/// The "found N errors" message.
pub open spec fn error_count_msg(path: Seq<char>, errors: nat) -> Seq<char> {
    path + " ... found "@ + decimal(errors) + " errors"@
}

fn build_no_matches_msg(path: &str, template: &str) -> (r: String)
    ensures
        r@ == no_matches_msg(path@, template@),
{
    let mut m = String::from_str(path);
    m.append(" ... found no matches for \"");
    m.append(template);
    m.append("\"");
    m
}

fn build_error_count_msg(path: &str, errors: u64) -> (r: String)
    ensures
        r@ == error_count_msg(path@, errors as nat),
{
    let mut m = String::from_str(path);
    m.append(" ... found ");
    let e = u64_string(errors);
    m.append(e.as_str());
    m.append(" errors");
    m
}

/// What the exhaustive check yields: failure when the version string or
/// the pattern is bad, when a found token does not parse, when there is
/// no match at all, or when some token mismatches; success only when at
/// least one match exists and every token is compatible.
pub open spec fn spec_check_only_contains_regex(
    path: Seq<char>,
    text: Seq<char>,
    template: Seq<char>,
    pkg_name: Seq<char>,
    pkg_version: Seq<char>,
) -> Result<(), Seq<char>> {
    match spec_scan_report(text, template, pkg_name, pkg_version) {
        Err(e) => Err(e),
        Ok((count, rs)) => {
            if count == 0 {
                Err(no_matches_msg(path, template))
            } else if mismatch_count(rs) > 0 {
                Err(error_count_msg(path, mismatch_count(rs)))
            } else {
                Ok(())
            }
        },
    }
}

/// Check that `text`, read from `path`, only contains matches of
/// `template` whose version numbers are compatible with `pkg_version`.
///
/// `{name}` is replaced by the escaped `pkg_name`; `{version}` is
/// replaced by a sub-pattern matching any full or partial SemVer
/// version number, so that old version numbers are found rather than
/// skipped. Every version token inside every match must be compatible
/// with `pkg_version` (partial tokens use wildcard semantics; token
/// forms this library cannot check pass unverified). Having no match at
/// all is an error of its own.
pub fn check_only_contains_regex(
    path: &str,
    text: &str,
    template: &str,
    pkg_name: &str,
    pkg_version: &str,
) -> (r: Result<(), String>)
    ensures
        match spec_check_only_contains_regex(path@, text@, template@, pkg_name@, pkg_version@) {
            Ok(()) => r is Ok,
            Err(m) => r is Err && r->Err_0@ == m,
        },
{
    let report = match find_all_and_validate(text, template, pkg_name, pkg_version) {
        Ok(rep) => rep,
        Err(e) => {
            return Err(e);
        },
    };
    if report.match_count == 0 {
        return Err(build_no_matches_msg(path, template));
    }
    let errors = count_mismatches(&report.records);
    if errors > 0 {
        return Err(build_error_count_msg(path, errors as u64));
    }
    Ok(())
}

} // verus!
