//! The Markdown dependency check: every TOML code block in a Markdown
//! file must declare a dependency on the package that is compatible
//! with the package's version.
use vstd::prelude::*;

use pulldown_cmark::CodeBlockKind;
use pulldown_cmark::Event;
use pulldown_cmark::Parser;
use pulldown_cmark::Tag;

use crate::parse::bad_package_version_msg;
use crate::parse::conv_predicates;
use crate::parse::parse_package_version_md;
use crate::parse::parse_version_req_md;
use crate::parse::svp_range_of;
use crate::parse::svp_version_of;
use crate::parse::version_of_raw;
use crate::text::count_char;
use crate::text::count_char_upto;
use crate::text::split_when;
use crate::text::str_chars;
use crate::text::vec_eq;
use crate::version::req_mismatch;
use crate::version::version_matches_request;
use crate::version::ComparatorV;
use crate::version::VersionReq;
use crate::version::VersionV;

verus! {

/// Whether `char::is_alphanumeric` holds of `c`: a letter or digit by
/// the Unicode character tables.
pub uninterp spec fn unicode_alphanumeric(c: char) -> bool;

/// Relies on `char::is_alphanumeric`: a pure table lookup, the same for
/// the same character everywhere.
#[verifier::external_body]
fn is_alphanumeric_char(c: char) -> (r: bool)
    ensures
        r == unicode_alphanumeric(c),
{
    c.is_alphanumeric()
}

/// A character that separates tokens of a code-block language line:
/// anything but letters, digits, `_` and `-`.
pub open spec fn lang_separator(c: char) -> bool {
    !(c == '_' || c == '-' || unicode_alphanumeric(c))
}

/// The tokens of a language line.
pub open spec fn lang_tokens(lang: Seq<char>) -> Seq<Seq<char>> {
    split_when(lang, |c: char| lang_separator(c))
}

/// A language line marks a TOML block when its tokens contain `toml`
/// and do not contain `no_sync`.
pub open spec fn is_toml_lang(lang: Seq<char>) -> bool {
    &&& !lang_tokens(lang).contains("no_sync"@)
    &&& lang_tokens(lang).contains("toml"@)
}

/// Check if a code block language line says the block is TOML code.
///
/// The line is split into tokens at every character that is not
/// alphanumeric, `_` or `-` (so the tokens can hold no whitespace); the
/// block is TOML when some token is `toml` and no token is `no_sync`.
pub fn is_toml_block(lang: &str) -> (r: bool)
    ensures
        r == is_toml_lang(lang@),
{
    let toml_tok = str_chars("toml");
    let no_sync_tok = str_chars("no_sync");
    let lc = str_chars(lang);
    let n = lc.len();
    let mut cur: Vec<char> = Vec::new();
    let mut has_toml = false;
    let mut has_no_sync = false;
    let mut i: usize = 0;
    proof {
        assert(lang@.take(0) =~= Seq::<char>::empty());
    }
    while i < n
        invariant
            i <= n,
            n == lc@.len(),
            lc@ == lang@,
            toml_tok@ == "toml"@,
            no_sync_tok@ == "no_sync"@,
            cur@ == lang_tokens(lang@.take(i as int)).last(),
            has_toml == lang_tokens(lang@.take(i as int)).drop_last().contains("toml"@),
            has_no_sync == lang_tokens(lang@.take(i as int)).drop_last().contains("no_sync"@),
        decreases n - i,
    {
        proof {
            crate::text::lemma_split_when_len(lang@.take(i as int), |c: char| lang_separator(c));
            assert(lang@.take(i + 1) =~= lang@.take(i as int).push(lang@[i as int]));
            crate::text::lemma_split_when_push(
                lang@.take(i as int),
                lang@[i as int],
                |c: char| lang_separator(c),
            );
        }
        let c = lc[i];
        let sep = !(c == '_' || c == '-' || is_alphanumeric_char(c));
        if sep {
            if vec_eq(&cur, &toml_tok) {
                has_toml = true;
            }
            if vec_eq(&cur, &no_sync_tok) {
                has_no_sync = true;
            }
            cur = Vec::new();
            proof {
                let prev = lang_tokens(lang@.take(i as int));
                let now = lang_tokens(lang@.take(i + 1));
                assert(now =~~= prev.push(Seq::<char>::empty()));
                assert(now.drop_last() =~~= prev);
                assert(prev =~~= prev.drop_last().push(prev.last()));
                assert(forall|x: Seq<char>|
                    prev.contains(x) == (prev.drop_last().contains(x) || prev.last() == x));
            }
        } else {
            cur.push(c);
            proof {
                let prev = lang_tokens(lang@.take(i as int));
                let now = lang_tokens(lang@.take(i + 1));
                assert(now =~~= prev.update(prev.len() - 1, prev.last().push(c)));
                assert(now.drop_last() =~~= prev.drop_last());
            }
        }
        i = i + 1;
    }
    proof {
        assert(lang@.take(n as int) =~= lang@);
        crate::text::lemma_split_when_len(lang@, |c: char| lang_separator(c));
    }
    let last_toml = vec_eq(&cur, &toml_tok);
    let last_no_sync = vec_eq(&cur, &no_sync_tok);
    proof {
        let toks = lang_tokens(lang@);
        assert(toks =~~= toks.drop_last().push(toks.last()));
        assert(forall|x: Seq<char>|
            toks.contains(x) == (toks.drop_last().contains(x) || toks.last() == x));
    }
    (has_toml || last_toml) && !(has_no_sync || last_no_sync)
}

} // verus!

verus! {

/// One Markdown parser event, reduced to what the block scan reads.
#[derive(Clone, Debug, PartialEq, Eq)]
pub enum MdEvent {
    /// A fenced code block starts; `lang` is its language line and
    /// `prefix` the text before the opening fence.
    FencedStart { lang: String, prefix: String },
    /// Literal text (inside a code block: one piece of its content).
    Text(String),
    /// A code block (of any kind) ends.
    CodeEnd,
    /// Any other event.
    Other,
}

/// The mathematical value of an [`MdEvent`].
pub ghost enum MdEventV {
    FencedStart { lang: Seq<char>, prefix: Seq<char> },
    Text(Seq<char>),
    CodeEnd,
    Other,
}

impl View for MdEvent {
    type V = MdEventV;

    open spec fn view(&self) -> MdEventV {
        match self {
            MdEvent::FencedStart { lang, prefix } => MdEventV::FencedStart {
                lang: lang@,
                prefix: prefix@,
            },
            MdEvent::Text(t) => MdEventV::Text(t@),
            MdEvent::CodeEnd => MdEventV::CodeEnd,
            MdEvent::Other => MdEventV::Other,
        }
    }
}

/// The events that parsing `text` as Markdown yields, in order.
pub uninterp spec fn md_events_of(text: Seq<char>) -> Seq<MdEventV>;

/// Relies on `pulldown_cmark::Parser` and its offset iterator: yields
/// the parse events in order; for a fenced code block start, the
/// language line and the text before the opening fence. The events
/// depend on the text alone.
#[verifier::external_body]
fn md_events(text: &str) -> (r: Vec<MdEvent>)
    ensures
        r@.map_values(|e: MdEvent| e@) == md_events_of(text@),
{
    let mut out = Vec::new();
    for (event, range) in Parser::new(text).into_offset_iter() {
        out.push(match event {
            Event::Start(Tag::CodeBlock(CodeBlockKind::Fenced(lang))) => MdEvent::FencedStart {
                lang: lang.to_string(),
                prefix: text[..range.start].to_string(),
            },
            Event::Text(t) => MdEvent::Text(t.to_string()),
            Event::End(Tag::CodeBlock(_)) => MdEvent::CodeEnd,
            _ => MdEvent::Other,
        });
    }
    out
}

/// A fenced TOML code block found in a Markdown text.
#[derive(Clone, Debug, PartialEq, Eq)]
pub struct CodeBlock {
    /// Text between the fences.
    pub content: String,
    /// 1-based line number of the first content line: one more than the
    /// line of the opening fence.
    pub first_line: u64,
}

/// The mathematical value of a [`CodeBlock`].
pub ghost struct CodeBlockV {
    pub content: Seq<char>,
    pub first_line: u64,
}

impl View for CodeBlock {
    type V = CodeBlockV;

    open spec fn view(&self) -> CodeBlockV {
        CodeBlockV { content: self.content@, first_line: self.first_line }
    }
}

/// The first content line of a block whose opening fence follows
/// `prefix`: the fence sits one line after the newlines before it, and
/// the content starts on the next line. Clamped to `u64`.
pub open spec fn block_first_line(prefix: Seq<char>) -> u64 {
    if count_char(prefix, '\n') + 2 <= u64::MAX {
        (count_char(prefix, '\n') + 2) as u64
    } else {
        u64::MAX
    }
}

/// The state of the block scan after a sequence of events: the TOML
/// blocks already closed, and the TOML block currently open, if any.
pub open spec fn md_scan(events: Seq<MdEventV>) -> (Seq<CodeBlockV>, Option<CodeBlockV>)
    decreases events.len(),
{
    if events.len() == 0 {
        (Seq::empty(), None)
    } else {
        let prior = md_scan(events.drop_last());
        match events.last() {
            MdEventV::FencedStart { lang, prefix } => {
                if is_toml_lang(lang) {
                    (
                        prior.0,
                        Some(CodeBlockV { content: Seq::empty(), first_line: block_first_line(prefix) }),
                    )
                } else {
                    prior
                }
            },
            MdEventV::Text(t) => match prior.1 {
                Some(b) => (
                    prior.0,
                    Some(CodeBlockV { content: b.content + t, first_line: b.first_line }),
                ),
                None => prior,
            },
            MdEventV::CodeEnd => match prior.1 {
                Some(b) => ((prior.0).push(b), None),
                None => prior,
            },
            MdEventV::Other => prior,
        }
    }
}

/// The TOML code blocks of a Markdown text, in order.
pub open spec fn spec_toml_blocks(text: Seq<char>) -> Seq<CodeBlockV> {
    md_scan(md_events_of(text)).0
}

/// Find all TOML code blocks in a Markdown text.
///
/// A fenced code block belongs to the result exactly when its language
/// line satisfies [`is_toml_block`]; its content is the text between
/// the fences and its line number points at the first content line.
pub fn find_toml_blocks(text: &str) -> (r: Vec<CodeBlock>)
    ensures
        r@.map_values(|b: CodeBlock| b@) == spec_toml_blocks(text@),
{
    let events = md_events(text);
    let ghost esv = events@.map_values(|e: MdEvent| e@);
    let mut blocks: Vec<CodeBlock> = Vec::new();
    let mut open: Option<CodeBlock> = None;
    let n = events.len();
    let mut i: usize = 0;
    proof {
        assert(esv.take(0) =~~= Seq::<MdEventV>::empty());
    }
    while i < n
        invariant
            i <= n,
            n == events@.len(),
            esv == events@.map_values(|e: MdEvent| e@),
            md_scan(esv.take(i as int)).0 =~~= blocks@.map_values(|b: CodeBlock| b@),
            match open {
                Some(b) => md_scan(esv.take(i as int)).1 == Some(b@),
                None => md_scan(esv.take(i as int)).1 is None,
            },
        decreases n - i,
    {
        proof {
            assert(esv.take(i + 1).drop_last() =~~= esv.take(i as int));
            assert(esv.take(i + 1).last() == esv[i as int]);
            assert(esv[i as int] == events@[i as int]@);
        }
        let ghost b0 = blocks@.map_values(|b: CodeBlock| b@);
        let ev = &events[i];
        match ev {
            MdEvent::FencedStart { lang, prefix } => {
                if is_toml_block(lang.as_str()) {
                    let pc = str_chars(prefix.as_str());
                    let plen = pc.len();
                    let cnt = count_char_upto(&pc, '\n', plen);
                    proof {
                        assert(pc@.take(plen as int) =~= prefix@);
                    }
                    let first_line: u64 = if cnt as u64 >= u64::MAX - 2 {
                        u64::MAX
                    } else {
                        cnt as u64 + 2
                    };
                    proof {
                        assert(first_line == block_first_line(prefix@));
                    }
                    open = Some(CodeBlock { content: String::new(), first_line });
                }
            },
            MdEvent::Text(t) => {
                let prior = open;
                match prior {
                    Some(mut b) => {
                        b.content.append(t.as_str());
                        open = Some(b);
                    },
                    None => {
                        open = None;
                    },
                }
            },
            MdEvent::CodeEnd => {
                let prior = open;
                match prior {
                    Some(b) => {
                        blocks.push(b);
                        open = None;
                        proof {
                            assert(blocks@.map_values(|b: CodeBlock| b@) =~~= md_scan(
                                esv.take(i + 1),
                            ).0);
                        }
                    },
                    None => {
                        open = None;
                    },
                }
            },
            MdEvent::Other => {},
        }
        i = i + 1;
    }
    proof {
        assert(esv.take(n as int) =~~= esv);
    }
    blocks
}

} // verus!

verus! {

/// What a dependency entry of a TOML table holds, as far as the check
/// reads it. Any entry that is neither a string nor a table behaves
/// like an empty table: no version field, no git field.
#[derive(Clone, Debug, PartialEq, Eq)]
pub enum DepEntry {
    /// `name = "1.2.3"`
    Str(String),
    /// `name = { ... }`: the `version` field when it is a string, and
    /// whether a `git` field is present.
    Table { version: Option<String>, git: bool },
}

/// The mathematical value of a [`DepEntry`].
pub ghost enum DepEntryV {
    Str(Seq<char>),
    Table { version: Option<Seq<char>>, git: bool },
}

impl View for DepEntry {
    type V = DepEntryV;

    open spec fn view(&self) -> DepEntryV {
        match self {
            DepEntry::Str(s) => DepEntryV::Str(s@),
            DepEntry::Table { version, git } => DepEntryV::Table {
                version: match version {
                    Some(v) => Some(v@),
                    None => None,
                },
                git: *git,
            },
        }
    }
}

/// `toml`'s value type, carried opaquely from the lookup wrapper to the
/// verified resolution.
#[verifier::external_type_specification]
#[verifier::external_body]
pub struct ExTomlValue(toml::Value);

/// What one TOML dependency entry holds, as this check reads it.
pub uninterp spec fn toml_entry_view(v: toml::Value) -> DepEntryV;

/// What a parsed TOML block holds about one package: for each of the
/// two dependency tables, whether the key is present at all, and if so
/// the entry it has for the package (if any), still as a TOML value.
#[derive(Clone, Debug)]
pub struct TomlDeps {
    pub dependencies: Option<Option<toml::Value>>,
    pub dev_dependencies: Option<Option<toml::Value>>,
}

/// The mathematical value of a [`TomlDeps`]: each entry by what this
/// check reads of it.
pub ghost struct TomlDepsV {
    pub dependencies: Option<Option<DepEntryV>>,
    pub dev_dependencies: Option<Option<DepEntryV>>,
}

pub open spec fn entry_opt_view(e: Option<Option<toml::Value>>) -> Option<Option<DepEntryV>> {
    match e {
        None => None,
        Some(None) => Some(None),
        Some(Some(d)) => Some(Some(toml_entry_view(d))),
    }
}

impl View for TomlDeps {
    type V = TomlDepsV;

    open spec fn view(&self) -> TomlDepsV {
        TomlDepsV {
            dependencies: entry_opt_view(self.dependencies),
            dev_dependencies: entry_opt_view(self.dev_dependencies),
        }
    }
}

/// What parsing `block` as TOML and looking up `name` in its
/// `dependencies` and `dev-dependencies` tables yields, or the parser's
/// diagnostic.
pub uninterp spec fn toml_deps_of(block: Seq<char>, name: Seq<char>) -> Result<
    TomlDepsV,
    Seq<char>,
>;

/// The view of a TOML lookup result.
pub open spec fn toml_res_view(r: Result<TomlDeps, String>) -> Result<TomlDepsV, Seq<char>> {
    match r {
        Ok(t) => Ok(t@),
        Err(e) => Err(e@),
    }
}

/// Relies on `toml::Value`'s `FromStr` and `get`: parses the block —
/// reporting the parser's diagnostic on failure — and hands over, for
/// each of the two dependency tables, the value under `name` (`get`
/// returns nothing on non-tables). The result depends on the block and
/// name alone.
#[verifier::external_body]
fn toml_dep_lookup(block: &str, name: &str) -> (r: Result<TomlDeps, String>)
    ensures
        toml_res_view(r) == toml_deps_of(block@, name@),
{
    let value: toml::Value = match block.parse() {
        Ok(v) => v,
        Err(e) => return Err(e.to_string()),
    };
    Ok(TomlDeps {
        dependencies: value.get("dependencies").map(|t| t.get(name).cloned()),
        dev_dependencies: value.get("dev-dependencies").map(|t| t.get(name).cloned()),
    })
}

/// Relies on `toml::Value::get` and `toml::Value::as_str`: a string
/// entry keeps its text; any other entry is read as a table, keeping
/// its `version` field when that is a string and whether it has a `git`
/// field (`get` returns nothing on non-tables, so a number or array
/// behaves as an empty table).
#[verifier::external_body]
fn dep_entry_of(dep: &toml::Value) -> (r: DepEntry)
    ensures
        r@ == toml_entry_view(*dep),
{
    match dep {
        toml::Value::String(s) => DepEntry::Str(s.clone()),
        dep => DepEntry::Table {
            version: dep.get("version").and_then(|v| v.as_str()).map(|s| s.to_string()),
            git: dep.get("git").is_some(),
        },
    }
}

/// The version-requirement string a dependency entry resolves to: an
/// explicit `version` field first, then the presence of `git` (which
/// stands for "any version"), then a plain string value.
pub open spec fn resolved_dep(t: TomlDepsV) -> Option<Seq<char>> {
    let entry = match t.dependencies {
        Some(e) => e,
        None => match t.dev_dependencies {
            Some(e) => e,
            None => None,
        },
    };
    match entry {
        None => None,
        Some(DepEntryV::Str(s)) => Some(s),
        Some(DepEntryV::Table { version: Some(v), git: _ }) => Some(v),
        Some(DepEntryV::Table { version: None, git: true }) => Some("*"@),
        Some(DepEntryV::Table { version: None, git: false }) => None,
    }
}

/// An explicit `version` field wins over a `git` field: a table entry
/// carrying both resolves to the version field's value, never to the
/// any-version wildcard.
pub proof fn lemma_version_field_beats_git(t: TomlDepsV, v: Seq<char>)
    requires
        t.dependencies == Some(Some(DepEntryV::Table { version: Some(v), git: true })),
    ensures
        resolved_dep(t) == Some(v),
{
}

/// Resolve the version-requirement string of the package's dependency
/// entry, looking at `dependencies` first and `dev-dependencies` only
/// when the former table is absent.
fn resolve_dep(t: &TomlDeps) -> (r: Option<String>)
    ensures
        match r {
            Some(s) => resolved_dep(t@) == Some(s@),
            None => resolved_dep(t@) is None,
        },
{
    let entry = match &t.dependencies {
        Some(e) => e,
        None => match &t.dev_dependencies {
            Some(e) => e,
            None => &None,
        },
    };
    match entry {
        None => None,
        Some(v) => match dep_entry_of(v) {
            DepEntry::Str(s) => Some(s),
            DepEntry::Table { version: Some(v), git: _ } => Some(v),
            DepEntry::Table { version: None, git: true } => Some(String::from_str("*")),
            DepEntry::Table { version: None, git: false } => None,
        },
    }
}

/// What extracting the dependency on `name` from `block` yields.
pub open spec fn spec_extract_version_request(name: Seq<char>, block: Seq<char>) -> Result<
    Seq<ComparatorV>,
    Seq<char>,
> {
    match toml_deps_of(block, name) {
        Err(e) => Err("TOML parse error: "@ + e),
        Ok(t) => match resolved_dep(t) {
            None => Err("no dependency on "@ + name),
            Some(vs) => match svp_range_of(vs) {
                Err(e) => Err("could not parse dependency: "@ + e),
                Ok(ps) => Ok(conv_predicates(ps)),
            },
        },
    }
}

/// Extract a dependency on the given package from a TOML code block.
///
/// Both `dependencies` and `dev-dependencies` are examined. A table
/// entry resolves to its `version` field first; an entry with a `git`
/// field and no version is treated as depending on any version; a plain
/// string entry is the requirement itself.
pub fn extract_version_request(pkg_name: &str, block: &str) -> (r: Result<VersionReq, String>)
    ensures
        match spec_extract_version_request(pkg_name@, block@) {
            Ok(cs) => r is Ok && r->Ok_0@ == cs,
            Err(m) => r is Err && r->Err_0@ == m,
        },
{
    match toml_dep_lookup(block, pkg_name) {
        Err(e) => {
            let mut m = String::from_str("TOML parse error: ");
            m.append(e.as_str());
            Err(m)
        },
        Ok(t) => match resolve_dep(&t) {
            None => {
                let mut m = String::from_str("no dependency on ");
                m.append(pkg_name);
                Err(m)
            },
            Some(vs) => match parse_version_req_md(vs.as_str()) {
                Err(e) => {
                    let mut m = String::from_str("could not parse dependency: ");
                    m.append(e.as_str());
                    Err(m)
                },
                Ok(req) => Ok(req),
            },
        },
    }
}

/// Whether one block fails the check: its dependency cannot be
/// extracted, or the extracted requirement mismatches the version.
pub open spec fn block_fails(v: VersionV, name: Seq<char>, b: CodeBlockV) -> bool {
    match spec_extract_version_request(name, b.content) {
        Err(_) => true,
        Ok(cs) => req_mismatch(v, cs) is Some,
    }
}

/// What the Markdown dependency check yields.
pub open spec fn spec_check_markdown_deps(
    path: Seq<char>,
    text: Seq<char>,
    pkg_name: Seq<char>,
    pkg_version: Seq<char>,
) -> Result<(), Seq<char>> {
    match svp_version_of(pkg_version) {
        Err(e) => Err(bad_package_version_msg(pkg_version, e)),
        Ok(rv) => {
            let blocks = spec_toml_blocks(text);
            if exists|k: int|
                0 <= k < blocks.len() && block_fails(version_of_raw(rv), pkg_name, blocks[k]) {
                Err("dependency errors in "@ + path)
            } else {
                Ok(())
            }
        },
    }
}

/// Check dependencies in the TOML code blocks of a Markdown text.
///
/// Every TOML block of `text` (read from `path`) must hold a dependency
/// on `pkg_name` whose requirement is compatible with `pkg_version`; a
/// block that does not parse, has no such dependency, or pins another
/// version fails the check.
pub fn check_markdown_deps(path: &str, text: &str, pkg_name: &str, pkg_version: &str) -> (r:
    Result<(), String>)
    ensures
        match spec_check_markdown_deps(path@, text@, pkg_name@, pkg_version@) {
            Ok(()) => r is Ok,
            Err(m) => r is Err && r->Err_0@ == m,
        },
{
    let version = match parse_package_version_md(pkg_version) {
        Ok(v) => v,
        Err(e) => {
            return Err(e);
        },
    };
    let blocks = find_toml_blocks(text);
    let ghost bsv = blocks@.map_values(|b: CodeBlock| b@);
    let mut failed = false;
    let n = blocks.len();
    let mut i: usize = 0;
    while i < n
        invariant
            i <= n,
            n == blocks@.len(),
            bsv == blocks@.map_values(|b: CodeBlock| b@),
            bsv == spec_toml_blocks(text@),
            version@ == version_of_raw(svp_version_of(pkg_version@)->Ok_0),
            failed == exists|k: int|
                0 <= k < i && block_fails(version@, pkg_name@, #[trigger] bsv[k]),
        decreases n - i,
    {
        let b = &blocks[i];
        let ok = match extract_version_request(pkg_name, b.content.as_str()) {
            Err(_) => false,
            Ok(req) => match version_matches_request(&version, &req) {
                Ok(()) => true,
                Err(_) => false,
            },
        };
        proof {
            assert(bsv[i as int] == blocks@[i as int]@);
            assert(ok == !block_fails(version@, pkg_name@, bsv[i as int]));
        }
        if !ok {
            failed = true;
        }
        i = i + 1;
    }
    if failed {
        let mut m = String::from_str("dependency errors in ");
        m.append(path);
        return Err(m);
    }
    Ok(())
}

} // verus!
