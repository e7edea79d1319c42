//! The `html_root_url` check: a documentation root URL must point at
//! the right package and a compatible version on docs.rs.
use vstd::prelude::*;

use crate::parse::bad_package_version_msg;
use crate::parse::parse_package_version;
use crate::parse::parse_version_req;
use crate::parse::sv_req_of;
use crate::parse::sv_version_of;
use crate::text::str_eq;
use crate::version::req_mismatch;
use crate::version::version_matches_request;
use crate::version::Version;
use crate::version::VersionV;

verus! {

/// The parts of a parsed URL that the check reads: its scheme, its
/// domain (absent for URLs without a host or with an IP host), and its
/// path segments (absent for URLs that cannot be a base).
#[derive(Clone, Debug, PartialEq, Eq)]
pub struct UrlParts {
    pub scheme: String,
    pub domain: Option<String>,
    pub segments: Option<Vec<String>>,
}

/// The mathematical value of a [`UrlParts`].
pub ghost struct UrlPartsV {
    pub scheme: Seq<char>,
    pub domain: Option<Seq<char>>,
    pub segments: Option<Seq<Seq<char>>>,
}

impl View for UrlParts {
    type V = UrlPartsV;

    open spec fn view(&self) -> UrlPartsV {
        UrlPartsV {
            scheme: self.scheme@,
            domain: match &self.domain {
                Some(d) => Some(d@),
                None => None,
            },
            segments: match &self.segments {
                Some(segs) => Some(segs@.map_values(|s: String| s@)),
                None => None,
            },
        }
    }
}

/// What parsing `s` as a URL yields: its parts, or the parser's
/// diagnostic.
pub uninterp spec fn url_parts_of(s: Seq<char>) -> Result<UrlPartsV, Seq<char>>;

/// The view of a URL parse result.
pub open spec fn url_res_view(r: Result<UrlParts, String>) -> Result<UrlPartsV, Seq<char>> {
    match r {
        Ok(p) => Ok(p@),
        Err(e) => Err(e@),
    }
}

/// Relies on `url::Url::parse` and its `scheme`, `domain` and
/// `path_segments` accessors: parses an absolute URL — reporting the
/// parser's diagnostic on failure — and copies those three parts out.
/// The result depends on the string alone.
#[verifier::external_body]
fn url_parse_parts(s: &str) -> (r: Result<UrlParts, String>)
    ensures
        url_res_view(r) == url_parts_of(s@),
{
    match url::Url::parse(s) {
        Err(e) => Err(e.to_string()),
        Ok(u) => Ok(UrlParts {
            scheme: u.scheme().to_string(),
            domain: u.domain().map(|d| d.to_string()),
            segments: u.path_segments().map(|ps| ps.map(|p| p.to_string()).collect()),
        }),
    }
}

/// What validating a URL against the package name and version yields.
/// A URL on a domain other than docs.rs passes unverified; a docs.rs
/// (or domain-less) URL must use https and name the package and a
/// compatible version in its first two path segments.
pub open spec fn spec_url_matches(value: Seq<char>, pkg_name: Seq<char>, v: VersionV) -> Result<
    (),
    Seq<char>,
> {
    match url_parts_of(value) {
        Err(e) => Err("parse error: "@ + e),
        Ok(p) => {
            if p.domain is Some && p.domain != Some("docs.rs"@) {
                Ok(())
            } else if p.scheme != "https"@ {
                Err("expected \"https\", found \""@ + p.scheme + "\""@)
            } else {
                match p.segments {
                    None => Err("no path in URL"@),
                    Some(segs) => {
                        if segs.len() == 0 || segs[0].len() == 0 {
                            Err("missing package name"@)
                        } else if segs.len() < 2 || segs[1].len() == 0 {
                            Err("missing version number"@)
                        } else if segs[0] != pkg_name {
                            Err(
                                "expected package \""@ + pkg_name + "\", found \""@ + segs[0]
                                    + "\""@,
                            )
                        } else {
                            match sv_req_of(segs[1]) {
                                Err(e) => Err("could not parse version in URL: "@ + e),
                                Ok(cs) => match req_mismatch(v, cs) {
                                    Some(m) => Err(m),
                                    None => Ok(()),
                                },
                            }
                        }
                    },
                }
            }
        },
    }
}

/// Validate a documentation root URL against the package name and
/// version.
///
/// Only docs.rs is reasoned about: a URL on any other domain passes
/// unverified. On docs.rs the scheme must be https (docs.rs itself
/// redirects http), the first path segment must equal the package name,
/// and the second must be a version requirement compatible with
/// `version` — a partial `1` or `1.2` is accepted.
pub fn url_matches(value: &str, pkg_name: &str, version: &Version) -> (r: Result<(), String>)
    ensures
        match spec_url_matches(value@, pkg_name@, version@) {
            Ok(()) => r is Ok,
            Err(m) => r is Err && r->Err_0@ == m,
        },
{
    let parts = match url_parse_parts(value) {
        Err(e) => {
            let mut m = String::from_str("parse error: ");
            m.append(e.as_str());
            return Err(m);
        },
        Ok(p) => p,
    };
    let foreign_domain = match &parts.domain {
        Some(d) => !str_eq(d.as_str(), "docs.rs"),
        None => false,
    };
    if foreign_domain {
        return Ok(());
    }
    if !str_eq(parts.scheme.as_str(), "https") {
        let mut m = String::from_str("expected \"https\", found \"");
        m.append(parts.scheme.as_str());
        m.append("\"");
        return Err(m);
    }
    let segs = match &parts.segments {
        None => {
            return Err(String::from_str("no path in URL"));
        },
        Some(segs) => segs,
    };
    proof {
        let segsv = parts@.segments->0;
        assert(forall|k: int| 0 <= k < segs@.len() ==> segsv[k] == segs@[k]@);
    }
    if segs.len() == 0 || segs[0].as_str().unicode_len() == 0 {
        return Err(String::from_str("missing package name"));
    }
    if segs.len() < 2 || segs[1].as_str().unicode_len() == 0 {
        return Err(String::from_str("missing version number"));
    }
    if !str_eq(segs[0].as_str(), pkg_name) {
        let mut m = String::from_str("expected package \"");
        m.append(pkg_name);
        m.append("\", found \"");
        m.append(segs[0].as_str());
        m.append("\"");
        return Err(m);
    }
    match parse_version_req(segs[1].as_str()) {
        Err(e) => {
            let mut m = String::from_str("could not parse version in URL: ");
            m.append(e.as_str());
            Err(m)
        },
        Ok(req) => version_matches_request(version, &req),
    }
}

/// One documentation attribute found in a source file: the URL its
/// `html_root_url` entry carries (absent when the attribute has no
/// value), and the line it starts on.
#[derive(Clone, Debug, PartialEq, Eq)]
pub struct DocAttr {
    pub url: Option<String>,
    pub line: u64,
}

/// The mathematical value of a [`DocAttr`].
pub ghost struct DocAttrV {
    pub url: Option<Seq<char>>,
    pub line: u64,
}

impl View for DocAttr {
    type V = DocAttrV;

    open spec fn view(&self) -> DocAttrV {
        DocAttrV {
            url: match &self.url {
                Some(u) => Some(u@),
                None => None,
            },
            line: self.line,
        }
    }
}

/// Whether one attribute fails the check: it has no URL, or its URL
/// does not validate.
pub open spec fn attr_fails(v: VersionV, pkg_name: Seq<char>, a: DocAttrV) -> bool {
    match a.url {
        None => true,
        Some(u) => spec_url_matches(u, pkg_name, v) is Err,
    }
}

/// What the `html_root_url` check yields.
pub open spec fn spec_check_html_root_url(
    path: Seq<char>,
    attrs: Seq<DocAttrV>,
    pkg_name: Seq<char>,
    pkg_version: Seq<char>,
) -> Result<(), Seq<char>> {
    match sv_version_of(pkg_version) {
        Err(e) => Err(bad_package_version_msg(pkg_version, e)),
        Ok(v) => {
            if exists|k: int| 0 <= k < attrs.len() && attr_fails(v, pkg_name, #[trigger] attrs[k]) {
                Err("html_root_url errors in "@ + path)
            } else {
                Ok(())
            }
        },
    }
}

/// Check version numbers in `html_root_url` attributes.
///
/// `attrs` holds the `html_root_url` entries found among the doc
/// attributes of the source file at `path`. Each must carry a URL that
/// validates against `pkg_name` and `pkg_version` as [`url_matches`]
/// says; an attribute without a URL fails. The error does not say which
/// attribute failed — the per-attribute diagnostics are status output,
/// printed by the caller.
pub fn check_html_root_url(path: &str, attrs: &Vec<DocAttr>, pkg_name: &str, pkg_version: &str) -> (r:
    Result<(), String>)
    ensures
        match spec_check_html_root_url(
            path@,
            attrs@.map_values(|a: DocAttr| a@),
            pkg_name@,
            pkg_version@,
        ) {
            Ok(()) => r is Ok,
            Err(m) => r is Err && r->Err_0@ == m,
        },
{
    let version = match parse_package_version(pkg_version) {
        Ok(v) => v,
        Err(e) => {
            return Err(e);
        },
    };
    let ghost asv = attrs@.map_values(|a: DocAttr| a@);
    let mut failed = false;
    let n = attrs.len();
    let mut i: usize = 0;
    while i < n
        invariant
            i <= n,
            n == attrs@.len(),
            asv == attrs@.map_values(|a: DocAttr| a@),
            version@ == sv_version_of(pkg_version@)->Ok_0,
            failed == exists|k: int|
                0 <= k < i && attr_fails(version@, pkg_name@, #[trigger] asv[k]),
        decreases n - i,
    {
        let a = &attrs[i];
        let ok = match &a.url {
            None => false,
            Some(u) => match url_matches(u.as_str(), pkg_name, &version) {
                Ok(()) => true,
                Err(_) => false,
            },
        };
        proof {
            assert(asv[i as int] == attrs@[i as int]@);
            assert(ok == !attr_fails(version@, pkg_name@, asv[i as int]));
        }
        if !ok {
            failed = true;
        }
        i = i + 1;
    }
    if failed {
        let mut m = String::from_str("html_root_url errors in ");
        m.append(path);
        return Err(m);
    }
    Ok(())
}

} // verus!
