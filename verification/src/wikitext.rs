//! Reading the pieces of wikitext markup: link targets, template names, the
//! words a template puts on the page, and character entities.

use vstd::prelude::*;
use crate::model::{
    param_of, tparam, PageRef, PageRefV, RichText, Site, SiteV, Span, SpanKind, SpanKindV, SpanV,
    RichV, TemplateRef, TemplateV,
};
use crate::number::decimal;
use crate::syntax::{child_of_kind, kids, nodes_view, NodeRecord, NodeV};
use crate::number::{parse_u32, parse_unsigned};
use crate::text::{
    append, append_lit, chars_of, find_char, find_char_exec, eq_lit, lower, lowercase, slice_of,
    split_once, split_once_exec, string_of, strip_prefix, strip_prefix_lit, trim, trim_end_char,
    trim_end_char_exec, trim_exec, trim_start_char, trim_start_char_exec, text_between, find_from,
    starts_with, ends_with, contains, ascii_upper, utf8_len, trim_start, eq_chars, Utf8Text,
};

verus! {

// --- link targets -----------------------------------------------------------

/// The project an interwiki prefix names, if it names one.
pub open spec fn site_for_prefix_spec(prefix: Seq<char>) -> Option<SiteV> {
    let p = lowercase(prefix);
    if p == "w"@ || p == "wikipedia"@ {
        Some(SiteV::Wikipedia)
    } else if p == "s"@ || p == "wikisource"@ {
        Some(SiteV::Wikisource)
    } else if p == "wikt"@ || p == "wiktionary"@ {
        Some(SiteV::Wiktionary)
    } else if p == "commons"@ || p == "c"@ {
        Some(SiteV::Commons)
    } else if p == "q"@ || p == "wikiquote"@ {
        Some(SiteV::Wikiquote)
    } else if p == "b"@ || p == "n"@ || p == "v"@ || p == "m"@ || p == "meta"@ || p == "d"@ || p
        == "wikidata"@ || p == "voy"@ || p == "species"@ {
        Some(SiteV::Other(p))
    } else {
        None
    }
}

pub fn site_for_prefix(prefix: &Vec<char>) -> (r: Option<Site>)
    ensures
        match r {
            Some(s) => site_for_prefix_spec(prefix@) == Some(s@),
            None => site_for_prefix_spec(prefix@) is None,
        },
{
    let p = lower(prefix);
    if eq_lit(&p, "w") || eq_lit(&p, "wikipedia") {
        Some(Site::Wikipedia)
    } else if eq_lit(&p, "s") || eq_lit(&p, "wikisource") {
        Some(Site::Wikisource)
    } else if eq_lit(&p, "wikt") || eq_lit(&p, "wiktionary") {
        Some(Site::Wiktionary)
    } else if eq_lit(&p, "commons") || eq_lit(&p, "c") {
        Some(Site::Commons)
    } else if eq_lit(&p, "q") || eq_lit(&p, "wikiquote") {
        Some(Site::Wikiquote)
    } else if eq_lit(&p, "b") || eq_lit(&p, "n") || eq_lit(&p, "v") || eq_lit(&p, "m") || eq_lit(&p, "meta") || eq_lit(
        &p,
        "d",
    ) || eq_lit(&p, "wikidata") || eq_lit(&p, "voy") || eq_lit(&p, "species") {
        Some(Site::Other(string_of(&p)))
    } else {
        None
    }
}

/// Two or three lowercase ASCII letters.
pub open spec fn is_language_code(prefix: Seq<char>) -> bool {
    2 <= prefix.len() <= 3 && forall|i: int|
        0 <= i < prefix.len() ==> 'a' <= #[trigger] prefix[i] && prefix[i] <= 'z'
}

fn is_language_code_exec(prefix: &Vec<char>) -> (r: bool)
    ensures
        r == is_language_code(prefix@),
{
    if prefix.len() < 2 || prefix.len() > 3 {
        return false;
    }
    let mut i: usize = 0;
    while i < prefix.len()
        invariant
            i <= prefix.len(),
            forall|k: int| 0 <= k < i ==> 'a' <= #[trigger] prefix@[k] && prefix@[k] <= 'z',
        decreases prefix.len() - i,
    {
        if !('a' <= prefix[i] && prefix[i] <= 'z') {
            return false;
        }
        i = i + 1;
    }
    true
}

/// A link target without the leading colon that escapes a namespace.
pub open spec fn bare_target(target: Seq<char>) -> Seq<char> {
    trim(trim_start_char(trim(target), ':'))
}

/// The title and the fragment of a link target.
pub open spec fn title_and_fragment(t: Seq<char>) -> (Seq<char>, Option<Seq<char>>) {
    match split_once(t, '#') {
        Some((a, b)) => (trim(a), Some(trim(b))),
        None => (t, None),
    }
}

/// The project of a title and the rest of the title.
pub open spec fn site_and_rest(title: Seq<char>) -> (SiteV, Seq<char>) {
    match split_once(title, ':') {
        Some((prefix, rest)) => match site_for_prefix_spec(trim(prefix)) {
            Some(site) => (site, trim(rest)),
            None => (SiteV::Wikiquote, title),
        },
        None => (SiteV::Wikiquote, title),
    }
}

/// The language and the title, as in `w:de:Berlin`; English by default.
pub open spec fn lang_and_title(rest: Seq<char>) -> (Seq<char>, Seq<char>) {
    match split_once(rest, ':') {
        Some((prefix, r)) => if is_language_code(prefix) {
            (prefix, trim(r))
        } else {
            ("en"@, rest)
        },
        None => ("en"@, rest),
    }
}

/// The page a link target points at: project, language, title and fragment.
pub open spec fn page_ref_spec(target: Seq<char>) -> (SiteV, Seq<char>, Seq<char>, Option<
    Seq<char>,
>) {
    let (title, fragment) = title_and_fragment(bare_target(target));
    let (site, rest) = site_and_rest(title);
    let (lang, title) = lang_and_title(rest);
    (site, lang, title, fragment)
}

/// Splits a wikilink target into a project, a language, a title and a
/// fragment. `w:de:Berlin` is the German Wikipedia; `Baz#Sec` keeps `Sec`.
pub fn page_ref(target: &str) -> (r: PageRef)
    ensures
        (r.site@, r.lang@, r.title@, r.fragment.deep_view()) == page_ref_spec(target@),
{
    let t0 = chars_of(target);
    page_ref_chars(&t0)
}

pub fn page_ref_chars(target: &Vec<char>) -> (r: PageRef)
    ensures
        (r.site@, r.lang@, r.title@, r.fragment.deep_view()) == page_ref_spec(target@),
{
    let t1 = trim_exec(target);
    let t2 = trim_start_char_exec(&t1, ':');
    let t = trim_exec(&t2);
    let (title, fragment) = match split_once_exec(&t, '#') {
        Some((a, b)) => (trim_exec(&a), Some(string_of(&trim_exec(&b)))),
        None => (t, None),
    };
    let (site, rest) = match split_once_exec(&title, ':') {
        Some((prefix, rest)) => match site_for_prefix(&trim_exec(&prefix)) {
            Some(site) => (site, trim_exec(&rest)),
            None => (Site::Wikiquote, title),
        },
        None => (Site::Wikiquote, title),
    };
    let (lang, title) = match split_once_exec(&rest, ':') {
        Some((prefix, r)) => {
            if is_language_code_exec(&prefix) {
                (string_of(&prefix), trim_exec(&r))
            } else {
                (string_of(&chars_of("en")), rest)
            }
        },
        None => (string_of(&chars_of("en")), rest),
    };
    PageRef { site, lang, title: string_of(&title), fragment }
}

/// What a reader sees of a bare link: `[[w:Foo]]` shows `Foo`, and the
/// fragment is dropped.
pub open spec fn display_title_spec(target: Seq<char>) -> Seq<char> {
    let t = bare_target(target);
    let without_fragment = match find_char(t, '#') {
        Some(k) => t.take(k),
        None => t,
    };
    match split_once(without_fragment, ':') {
        Some((prefix, rest)) => if site_for_prefix_spec(trim(prefix)) is Some {
            trim(rest)
        } else {
            trim(without_fragment)
        },
        None => trim(without_fragment),
    }
}

pub fn display_title(target: &Vec<char>) -> (r: Vec<char>)
    ensures
        r@ == display_title_spec(target@),
{
    let t1 = trim_exec(target);
    let t2 = trim_start_char_exec(&t1, ':');
    let t = trim_exec(&t2);
    let without_fragment = match find_char_exec(&t, '#') {
        Some(k) => slice_of(&t, 0, k),
        None => t,
    };
    proof {
        if let Some(k) = find_char(t@, '#') {
            assert(t@.take(k) =~= t@.subrange(0, k));
        }
    }
    match split_once_exec(&without_fragment, ':') {
        Some((prefix, rest)) => {
            if site_for_prefix(&trim_exec(&prefix)).is_some() {
                trim_exec(&rest)
            } else {
                trim_exec(&without_fragment)
            }
        },
        None => trim_exec(&without_fragment),
    }
}

/// `s` with every `from` replaced by `to`.
pub open spec fn replace_char(s: Seq<char>, from: char, to: char) -> Seq<char> {
    s.map_values(|c: char| if c == from { to } else { c })
}

/// A template name: trimmed, underscores read as spaces, lowercase.
pub open spec fn normalise_name_spec(raw: Seq<char>) -> Seq<char> {
    lowercase(replace_char(trim(raw), '_', ' '))
}

pub fn normalise_name(raw: &Vec<char>) -> (r: Vec<char>)
    ensures
        r@ == normalise_name_spec(raw@),
{
    let t = trim_exec(raw);
    let mut u: Vec<char> = Vec::new();
    let mut i: usize = 0;
    while i < t.len()
        invariant
            i <= t.len(),
            u@ =~= replace_char(t@.take(i as int), '_', ' '),
        decreases t.len() - i,
    {
        u.push(if t[i] == '_' {
            ' '
        } else {
            t[i]
        });
        i = i + 1;
    }
    assert(t@.take(t.len() as int) =~= t@);
    lower(&u)
}

// --- templates that carry words ---------------------------------------------

/// `param(key)` when it is present and not empty.
pub open spec fn nonempty_param(t: TemplateRef, key: Seq<char>) -> Option<Seq<char>> {
    nonempty_tparam(t@, key)
}

/// `tparam(key)` when it is present and not empty.
pub open spec fn nonempty_tparam(t: TemplateV, key: Seq<char>) -> Option<Seq<char>> {
    match tparam(t, key) {
        Some(v) => if v.len() > 0 {
            Some(v)
        } else {
            None
        },
        None => None,
    }
}

/// The text a small set of common templates puts on the page. This is not
/// template expansion: anything else renders as nothing.
pub open spec fn render_spec(t: TemplateRef) -> Option<Seq<char>> {
    render_v(t@)
}

/// `render_spec` on the view of a template.
pub open spec fn render_v(t: TemplateV) -> Option<Seq<char>> {
    let n = t.name;
    if n == "w"@ || n == "wikipedia-inline"@ {
        match nonempty_tparam(t, "2"@) {
            Some(v) => Some(v),
            None => nonempty_tparam(t, "1"@),
        }
    } else if n == "lang"@ {
        nonempty_tparam(t, "2"@)
    } else if n == "smallcaps"@ || n == "sc"@ || n == "small"@ || n == "big"@ || n == "nowrap"@
        || n == "center"@ || n == "resize"@ {
        nonempty_tparam(t, "1"@)
    } else if n == "isbn"@ {
        match nonempty_tparam(t, "1"@) {
            Some(v) => Some("ISBN "@ + v),
            None => None,
        }
    } else if n == "nbsp"@ {
        Some(seq!['\u{a0}'])
    } else if n == "pb"@ || n == "pbr"@ || n == "line"@ || n == "-"@ {
        Some(seq!['\n'])
    } else {
        None
    }
}

pub fn render_template(t: &TemplateRef) -> (r: Option<Vec<char>>)
    ensures
        match r {
            Some(v) => render_spec(*t) == Some(v@),
            None => render_spec(*t) is None,
        },
{
    let n = chars_of(t.name.as_str());
    if eq_lit(&n, "w") || eq_lit(&n, "wikipedia-inline") {
        match t.param_nonempty("2") {
            Some(v) => Some(v),
            None => t.param_nonempty("1"),
        }
    } else if eq_lit(&n, "lang") {
        t.param_nonempty("2")
    } else if eq_lit(&n, "smallcaps") || eq_lit(&n, "sc") || eq_lit(&n, "small") || eq_lit(&n, "big") || eq_lit(
        &n,
        "nowrap",
    ) || eq_lit(&n, "center") || eq_lit(&n, "resize") {
        t.param_nonempty("1")
    } else if eq_lit(&n, "isbn") {
        match t.param_nonempty("1") {
            Some(v) => {
                let mut r = chars_of("ISBN ");
                append(&mut r, &v);
                Some(r)
            },
            None => None,
        }
    } else if eq_lit(&n, "nbsp") {
        let mut r: Vec<char> = Vec::new();
        r.push('\u{a0}');
        assert(r@ =~= seq!['\u{a0}']);
        Some(r)
    } else if eq_lit(&n, "pb") || eq_lit(&n, "pbr") || eq_lit(&n, "line") || eq_lit(&n, "-") {
        let mut r: Vec<char> = Vec::new();
        r.push('\n');
        assert(r@ =~= seq!['\n']);
        Some(r)
    } else {
        None
    }
}

// --- character entities -----------------------------------------------------

/// A number that is a Unicode scalar value.
pub open spec fn is_scalar(u: nat) -> bool {
    u < 0x110000 && !(0xD800 <= u <= 0xDFFF)
}

/// `char::from_u32`: the character with that code, when there is one.
#[verifier::external_body]
pub(crate) fn char_from_u32(u: u32) -> (r: Option<char>)
    ensures
        r == (if is_scalar(u as nat) {
            Some(u as char)
        } else {
            None
        }),
{
    char::from_u32(u)
}

/// The character a numeric reference (`#38` or `#x2014`, without the `&` and
/// the `;`) stands for.
pub open spec fn numeric_char(name: Seq<char>) -> Option<char> {
    match strip_prefix(name, "#"@) {
        Some(digits) => {
            let code = if digits.len() > 0 && (digits[0] == 'x' || digits[0] == 'X') {
                parse_unsigned(digits.drop_first(), 16, 0xffff_ffff)
            } else {
                parse_unsigned(digits, 10, 0xffff_ffff)
            };
            match code {
                Some(u) => if is_scalar(u) {
                    Some(u as char)
                } else {
                    None
                },
                None => None,
            }
        },
        None => None,
    }
}

pub fn numeric_char_exec(name: &Vec<char>) -> (r: Option<char>)
    ensures
        r == numeric_char(name@),
{
    match strip_prefix_lit(name, "#") {
        Some(digits) => {
            let code = if digits.len() > 0 && (digits[0] == 'x' || digits[0] == 'X') {
                assert(digits@.drop_first() =~= digits@.subrange(1, digits@.len() as int));
                parse_u32(&slice_of(&digits, 1, digits.len()), 16)
            } else {
                parse_u32(&digits, 10)
            };
            match code {
                Some(u) => char_from_u32(u),
                None => None,
            }
        },
        None => None,
    }
}

/// What `quick_xml::escape::resolve_html5_entity` gives for a name.
pub uninterp spec fn html5_entity(name: Seq<char>) -> Option<Seq<char>>;

/// `quick_xml::escape::resolve_html5_entity`: the text of a named HTML5
/// entity. The table has more than two thousand entries, so the result is
/// named rather than spelled out.
#[verifier::external_body]
fn resolve_html5_entity(name: &str) -> (r: Option<String>)
    ensures
        r.deep_view() == html5_entity(name@),
{
    quick_xml::escape::resolve_html5_entity(name).map(|s| s.to_string())
}

/// The text an entity such as `&ndash;` or `&#38;` stands for. An entity
/// that is not known is kept as written.
pub open spec fn decode_entity_spec(raw: Seq<char>) -> Seq<char> {
    let name = trim_end_char(trim_start_char(raw, '&'), ';');
    match numeric_char(name) {
        Some(c) => seq![c],
        None => match html5_entity(name) {
            Some(t) => t,
            None => raw,
        },
    }
}

pub fn decode_entity(raw: &Vec<char>) -> (r: Vec<char>)
    ensures
        r@ == decode_entity_spec(raw@),
{
    let a = trim_start_char_exec(raw, '&');
    let name = trim_end_char_exec(&a, ';');
    if let Some(c) = numeric_char_exec(&name) {
        let mut r: Vec<char> = Vec::new();
        r.push(c);
        assert(r@ =~= seq![c]);
        return r;
    }
    let n = string_of(&name);
    match resolve_html5_entity(n.as_str()) {
        Some(t) => chars_of(t.as_str()),
        None => slice_of(raw, 0, raw.len()),
    }
}

// --- rich text from a syntax tree -------------------------------------------

/// What the walk over a syntax tree reads: the source, its nodes, and the
/// page title that fills in `{{PAGENAME}}`.
pub struct Cx {
    pub src: Seq<char>,
    pub ns: Seq<NodeV>,
    pub title: Seq<char>,
}

/// The source text of node `i`.
pub open spec fn slice_spec(c: Cx, i: int) -> Seq<char> {
    text_between(c.src, c.ns[i].start as int, c.ns[i].end as int)
}

pub open spec fn kind_is(c: Cx, i: int, k: Seq<char>) -> bool {
    c.ns[i].kind == k
}

/// A byte length as `u32`, the way `len() as u32` truncates it.
pub open spec fn w32(n: nat) -> u32 {
    (n % 0x1_0000_0000) as u32
}

/// `str::replace`: every match of `p`, from the left and without overlap,
/// replaced by `r`; the search starts at `i`.
pub open spec fn replace_from(s: Seq<char>, p: Seq<char>, r: Seq<char>, i: int) -> Seq<char>
    decreases s.len() - i,
{
    if i < 0 || i > s.len() || p.len() == 0 {
        s
    } else {
        match find_from(s, p, i) {
            Some(k) => if k >= i && k + p.len() <= s.len() {
                s.subrange(i, k) + r + replace_from(s, p, r, k + p.len())
            } else {
                s.subrange(i, s.len() as int)
            },
            None => s.subrange(i, s.len() as int),
        }
    }
}

/// `str::trim_start_matches` with a text pattern: every leading copy removed.
pub open spec fn strip_all_prefix(s: Seq<char>, p: Seq<char>) -> Seq<char>
    decreases s.len(),
{
    if p.len() > 0 && starts_with(s, p) {
        strip_all_prefix(s.subrange(p.len() as int, s.len() as int), p)
    } else {
        s
    }
}

/// `str::trim_end_matches` with a text pattern: every trailing copy removed.
pub open spec fn strip_all_suffix(s: Seq<char>, p: Seq<char>) -> Seq<char>
    decreases s.len(),
{
    if p.len() > 0 && ends_with(s, p) {
        strip_all_suffix(s.subrange(0, s.len() - p.len()), p)
    } else {
        s
    }
}

/// `str::eq_ignore_ascii_case`.
pub open spec fn eq_ignore_ascii_case(a: Seq<char>, b: Seq<char>) -> bool {
    a.len() == b.len() && forall|k: int| 0 <= k < a.len() ==> ascii_upper(a[k]) == ascii_upper(b[k])
}

pub open spec fn page_ref_v(target: Seq<char>) -> PageRefV {
    let r = page_ref_spec(target);
    PageRefV { site: r.0, lang: r.1, title: r.2, fragment: r.3 }
}

// --- templates ----------------------------------------------------------------

/// What the children of a `template` node have given so far: the name, the
/// parameters, and how many of them had no name.
pub struct TemplateAcc {
    pub name: Seq<char>,
    pub params: Seq<(Seq<char>, Seq<char>)>,
    pub positional: nat,
}

/// The name and the value inside a `template_argument` node; the last of
/// each wins.
pub open spec fn arg_fold(c: Cx, ks: Seq<int>) -> (Option<Seq<char>>, Seq<char>)
    decreases ks.len(),
{
    if ks.len() == 0 {
        (None, Seq::empty())
    } else {
        let (key, value) = arg_fold(c, ks.drop_last());
        let k = ks.last();
        if kind_is(c, k, "template_param_name"@) {
            (Some(trim(slice_spec(c, k))), value)
        } else if kind_is(c, k, "template_param_value"@) {
            (key, trim(slice_spec(c, k)))
        } else {
            (key, value)
        }
    }
}

pub open spec fn template_step(c: Cx, acc: TemplateAcc, k: int) -> TemplateAcc {
    if kind_is(c, k, "template_name"@) {
        TemplateAcc { name: normalise_name_spec(slice_spec(c, k)), ..acc }
    } else if kind_is(c, k, "template_argument"@) {
        let (key, value) = arg_fold(c, kids(c.ns, k));
        match key {
            Some(key) => TemplateAcc { params: acc.params.push((key, value)), ..acc },
            None => TemplateAcc {
                params: acc.params.push((decimal(acc.positional + 1), value)),
                positional: acc.positional + 1,
                ..acc
            },
        }
    } else {
        acc
    }
}

pub open spec fn template_fold(c: Cx, ks: Seq<int>) -> TemplateAcc
    decreases ks.len(),
{
    if ks.len() == 0 {
        TemplateAcc { name: Seq::empty(), params: Seq::empty(), positional: 0 }
    } else {
        template_step(c, template_fold(c, ks.drop_last()), ks.last())
    }
}

/// A `template` node read as a call: its name, its parameters (positional
/// ones numbered from 1), and its source.
pub open spec fn template_v(c: Cx, i: int) -> TemplateV {
    let acc = template_fold(c, kids(c.ns, i));
    TemplateV { name: acc.name, params: acc.params, wikitext: slice_spec(c, i) }
}

// --- the text a reader sees ---------------------------------------------------

/// The text so far and the spans that point into it.
pub struct St {
    pub text: Seq<char>,
    pub spans: Seq<SpanV>,
}

pub open spec fn at(st: St) -> u32 {
    w32(utf8_len(st.text))
}

pub open spec fn push(st: St, t: Seq<char>) -> St {
    St { text: st.text + t, ..st }
}

pub open spec fn add_span(st: St, start: u32, kind: SpanKindV) -> St {
    St { spans: st.spans.push(SpanV { start, end: at(st), kind }), ..st }
}

pub open spec fn is_text_kind(k: Seq<char>) -> bool {
    k == "text"@ || k == "url"@ || k == "url_bare"@ || k == "raw_text"@ || k == "param_text"@
}

pub open spec fn is_silent_kind(k: Seq<char>) -> bool {
    k == "signature"@ || k == "user_signature"@ || k == "user_signature_with_date"@
        || k == "current_date"@ || k == "parser_function"@
}

/// Plain text, with `{{PAGENAME}}` filled in when there is a title.
pub open spec fn plain_text(c: Cx, t: Seq<char>) -> Seq<char> {
    if c.title.len() == 0 || !contains(t, "{{PAGENAME}}"@) {
        t
    } else {
        replace_from(t, "{{PAGENAME}}"@, c.title, 0)
    }
}

/// The target and the label of a `wikilink` node; the last of each wins.
pub open spec fn link_fold(c: Cx, ks: Seq<int>) -> (Seq<char>, Option<Seq<char>>)
    decreases ks.len(),
{
    if ks.len() == 0 {
        (Seq::empty(), None)
    } else {
        let (target, label) = link_fold(c, ks.drop_last());
        let k = ks.last();
        if kind_is(c, k, "wikilink_page"@) {
            (slice_spec(c, k), label)
        } else if kind_is(c, k, "page_name_segment"@) {
            (target, Some(slice_spec(c, k)))
        } else {
            (target, label)
        }
    }
}

/// A wikilink shows its label, or else the title it points at.
pub open spec fn wikilink_spec(c: Cx, i: int, st: St) -> St {
    let (target, label) = link_fold(c, kids(c.ns, i));
    let shown = match label {
        Some(l) => l,
        None => display_title_spec(target),
    };
    add_span(push(st, shown), at(st), SpanKindV::Link { target: page_ref_v(target) })
}

/// The url and the label of an `external_link` node; the last of each wins.
pub open spec fn external_fold(c: Cx, ks: Seq<int>) -> (Seq<char>, Option<Seq<char>>)
    decreases ks.len(),
{
    if ks.len() == 0 {
        (Seq::empty(), None)
    } else {
        let (url, label) = external_fold(c, ks.drop_last());
        let k = ks.last();
        if kind_is(c, k, "url"@) {
            (slice_spec(c, k), label)
        } else if kind_is(c, k, "page_name_segment"@) || kind_is(c, k, "text"@) {
            (url, Some(trim(slice_spec(c, k))))
        } else {
            (url, label)
        }
    }
}

pub open spec fn external_link_spec(c: Cx, i: int, st: St) -> St {
    let (url, label) = external_fold(c, kids(c.ns, i));
    let shown = match label {
        Some(l) => l,
        None => Seq::empty(),
    };
    add_span(push(st, shown), at(st), SpanKindV::ExternalLink { url })
}

/// A template shows the words it carries, if any; `{{w|…}}` is also a
/// Wikipedia link; every template is kept as a span.
pub open spec fn template_spec(c: Cx, i: int, st: St) -> St {
    let t = template_v(c, i);
    let start = at(st);
    let st1 = if t.name == "pagename"@ {
        push(st, c.title)
    } else {
        match render_v(t) {
            Some(r) => push(st, r),
            None => st,
        }
    };
    let st2 = if t.name == "w"@ {
        match tparam(t, "1"@) {
            Some(target) => add_span(
                st1,
                start,
                SpanKindV::Link { target: PageRefV { site: SiteV::Wikipedia, ..page_ref_v(target) } },
            ),
            None => st1,
        }
    } else {
        st1
    };
    add_span(st2, start, SpanKindV::Template(t))
}

/// A comment is kept as a span, with its markers and the space around them
/// removed.
pub open spec fn comment_spec(c: Cx, i: int, st: St) -> St {
    let raw = slice_spec(c, i);
    let text = trim(strip_all_suffix(strip_all_prefix(raw, "<!--"@), "-->"@));
    add_span(st, at(st), SpanKindV::Comment { text })
}

pub open spec fn is_tag_part(c: Cx, k: int) -> bool {
    kind_is(c, k, "html_tag_name"@) || kind_is(c, k, "html_attribute"@)
}

/// The source of the children of a tag, but its name and attributes.
pub open spec fn inner_fold(c: Cx, ks: Seq<int>) -> Seq<char>
    decreases ks.len(),
{
    if ks.len() == 0 {
        Seq::empty()
    } else if is_tag_part(c, ks.last()) {
        inner_fold(c, ks.drop_last())
    } else {
        inner_fold(c, ks.drop_last()) + slice_spec(c, ks.last())
    }
}

/// The name of an HTML tag: the source of its `html_tag_name` child.
pub open spec fn tag_name_spec(c: Cx, i: int) -> Seq<char> {
    match child_of_kind(c.ns, i, "html_tag_name"@) {
        Some(k) => slice_spec(c, k),
        None => Seq::empty(),
    }
}

/// The raw text inside a `<nowiki>`, without the wrapper.
pub open spec fn nowiki_fold(c: Cx, ks: Seq<int>, st: St) -> St
    decreases ks.len(),
{
    if ks.len() == 0 {
        st
    } else {
        let s1 = nowiki_fold(c, ks.drop_last(), st);
        if kind_is(c, ks.last(), "raw_text"@) {
            push(s1, slice_spec(c, ks.last()))
        } else {
            s1
        }
    }
}

/// What a node adds to the text a reader sees.
pub open spec fn visit(c: Cx, i: int, st: St) -> St
    decreases c.ns.len() - i, 1int, 0int,
{
    if i < 0 || i >= c.ns.len() {
        st
    } else {
        let k = c.ns[i].kind;
        if is_text_kind(k) {
            push(st, plain_text(c, slice_spec(c, i)))
        } else if k == "entity"@ {
            push(st, decode_entity_spec(slice_spec(c, i)))
        } else if k == "wikilink"@ {
            wikilink_spec(c, i, st)
        } else if k == "external_link"@ {
            external_link_spec(c, i, st)
        } else if k == "italic"@ {
            add_span(kids_fold(c, i, kids(c.ns, i), 0, st), at(st), SpanKindV::Italic)
        } else if k == "bold"@ {
            add_span(kids_fold(c, i, kids(c.ns, i), 0, st), at(st), SpanKindV::Bold)
        } else if k == "bold_italic"@ {
            add_span(kids_fold(c, i, kids(c.ns, i), 0, st), at(st), SpanKindV::BoldItalic)
        } else if k == "template"@ {
            template_spec(c, i, st)
        } else if k == "comment"@ {
            comment_spec(c, i, st)
        } else if k == "html_tag"@ {
            let name = lowercase(tag_name_spec(c, i));
            if name == "br"@ {
                push(st, seq!['\n'])
            } else if name == "ref"@ {
                add_span(
                    st,
                    at(st),
                    SpanKindV::Reference { text: trim(inner_fold(c, kids(c.ns, i))) },
                )
            } else {
                tag_fold(c, i, kids(c.ns, i), 0, st)
            }
        } else if k == "nowiki_inline_element"@ || k == "nowiki_tag_block"@ {
            nowiki_fold(c, kids(c.ns, i), st)
        } else if k == "magic_word"@ {
            if eq_ignore_ascii_case(slice_spec(c, i), "{{PAGENAME}}"@) {
                push(st, c.title)
            } else {
                st
            }
        } else if is_silent_kind(k) {
            st
        } else {
            kids_fold(c, i, kids(c.ns, i), 0, st)
        }
    }
}

/// Visits the children `ks[j..]` of node `p` in order.
pub open spec fn kids_fold(c: Cx, p: int, ks: Seq<int>, j: int, st: St) -> St
    decreases c.ns.len() - p, 0int, ks.len() - j,
{
    if j < 0 || j >= ks.len() || ks[j] <= p || ks[j] >= c.ns.len() {
        st
    } else {
        kids_fold(c, p, ks, j + 1, visit(c, ks[j], st))
    }
}

/// Visits the children `ks[j..]` of a tag in order, but its name and
/// attributes.
pub open spec fn tag_fold(c: Cx, p: int, ks: Seq<int>, j: int, st: St) -> St
    decreases c.ns.len() - p, 0int, ks.len() - j,
{
    if j < 0 || j >= ks.len() || ks[j] <= p || ks[j] >= c.ns.len() {
        st
    } else if is_tag_part(c, ks[j]) {
        tag_fold(c, p, ks, j + 1, st)
    } else {
        tag_fold(c, p, ks, j + 1, visit(c, ks[j], st))
    }
}

/// Removes the space around the text and moves the spans with it, so every
/// span still points at the words it describes.
pub open spec fn trim_span(s: SpanV, leading: u32, end: u32) -> SpanV {
    let a = if s.start >= leading { (s.start - leading) as u32 } else { 0u32 };
    let b = if s.end >= leading { (s.end - leading) as u32 } else { 0u32 };
    SpanV {
        start: if a <= end { a } else { end },
        end: if b <= end { b } else { end },
        kind: s.kind,
    }
}

pub open spec fn trimmed(st: St) -> RichV {
    let leading = w32((utf8_len(st.text) - utf8_len(trim_start(st.text))) as nat);
    let text = trim(st.text);
    let end = w32(utf8_len(text));
    RichV {
        text,
        wikitext: Seq::empty(),
        spans: st.spans.map_values(|s: SpanV| trim_span(s, leading, end)),
    }
}

/// The rich text of node `i`: what its children show, trimmed, with the
/// node's source as the wikitext.
pub open spec fn rich_text_spec(c: Cx, i: int) -> RichV {
    let st = kids_fold(c, i, kids(c.ns, i), 0, St { text: Seq::empty(), spans: Seq::empty() });
    RichV { wikitext: slice_spec(c, i), ..trimmed(st) }
}

// --- walking a syntax tree ----------------------------------------------------

proof fn lemma_w32_step(n: nat, b: nat)
    requires
        b < 0x1_0000_0000,
    ensures
        w32(n + b) == (if w32(n) + b >= 0x1_0000_0000 {
            (w32(n) + b - 0x1_0000_0000) as u32
        } else {
            (w32(n) + b) as u32
        }),
{
    let m: int = 0x1_0000_0000;
    vstd::arithmetic::div_mod::lemma_add_mod_noop(n as int, b as int, m);
    vstd::arithmetic::div_mod::lemma_small_mod(b, m as nat);
    let x: int = (n as int % m) + b;
    if x >= m {
        vstd::arithmetic::div_mod::lemma_small_mod((x - m) as nat, m as nat);
        vstd::arithmetic::div_mod::lemma_mod_sub_multiples_vanish(x, m);
    } else {
        vstd::arithmetic::div_mod::lemma_small_mod(x as nat, m as nat);
    }
}

pub proof fn lemma_utf8_len_concat(a: Seq<char>, b: Seq<char>)
    ensures
        utf8_len(a + b) == utf8_len(a) + utf8_len(b),
    decreases b.len(),
{
    if b.len() > 0 {
        assert((a + b).drop_last() =~= a + b.drop_last());
        lemma_utf8_len_concat(a, b.drop_last());
    } else {
        assert(a + b =~= a);
    }
}

/// The UTF-8 length of a text, as `len() as u32` gives it.
pub fn w32_len(v: &Vec<char>) -> (r: u32)
    ensures
        r == w32(utf8_len(v@)),
{
    let mut r: u32 = 0;
    let mut i: usize = 0;
    assert(v@.take(0) =~= Seq::<char>::empty());
    while i < v.len()
        invariant
            i <= v.len(),
            r == w32(utf8_len(v@.take(i as int))),
        decreases v.len() - i,
    {
        let b = crate::text::char_bytes_exec(v[i]);
        proof {
            crate::text::lemma_utf8_len_push(v@, i as int);
            lemma_w32_step(utf8_len(v@.take(i as int)), b as nat);
        }
        if r as u64 + b >= 0x1_0000_0000 {
            r = (r as u64 + b - 0x1_0000_0000) as u32;
        } else {
            r = (r as u64 + b) as u32;
        }
        i = i + 1;
    }
    assert(v@.take(v.len() as int) =~= v@);
    r
}

/// The builder of one rich text: the words so far, their spans, and the
/// byte length of the words as `u32`.
pub struct Bld {
    pub text: Vec<char>,
    pub spans: Vec<Span>,
    pub at: u32,
}

pub open spec fn bld_ok(b: Bld) -> bool {
    b.at == w32(utf8_len(b.text@))
}

pub open spec fn st_of(b: Bld) -> St {
    St { text: b.text@, spans: crate::model::spans_of(b.spans@) }
}

fn new_bld() -> (b: Bld)
    ensures
        bld_ok(b),
        st_of(b) == (St { text: Seq::empty(), spans: Seq::empty() }),
{
    let b = Bld { text: Vec::new(), spans: Vec::new(), at: 0 };
    assert(st_of(b).spans =~= Seq::<SpanV>::empty());
    b
}

fn push_exec(b: &mut Bld, t: &Vec<char>)
    requires
        bld_ok(*old(b)),
    ensures
        bld_ok(*final(b)),
        st_of(*final(b)) == push(st_of(*old(b)), t@),
{
    let ghost t0 = b.text@;
    let mut i: usize = 0;
    while i < t.len()
        invariant
            i <= t.len(),
            bld_ok(*b),
            b.text@ == t0 + t@.take(i as int),
            b.spans == old(b).spans,
            t0 == old(b).text@,
        decreases t.len() - i,
    {
        let c = t[i];
        let bytes = crate::text::char_bytes_exec(c);
        proof {
            assert((t0 + t@.take(i as int)).push(c).drop_last() =~= t0 + t@.take(i as int));
            lemma_w32_step(utf8_len(b.text@), bytes as nat);
        }
        b.text.push(c);
        if b.at as u64 + bytes >= 0x1_0000_0000 {
            b.at = (b.at as u64 + bytes - 0x1_0000_0000) as u32;
        } else {
            b.at = (b.at as u64 + bytes) as u32;
        }
        assert(t0 + t@.take(i + 1) =~= (t0 + t@.take(i as int)).push(c));
        i = i + 1;
    }
    assert(t@.take(t.len() as int) =~= t@);
}

fn span_exec(b: &mut Bld, start: u32, kind: SpanKind)
    requires
        bld_ok(*old(b)),
    ensures
        bld_ok(*final(b)),
        st_of(*final(b)) == add_span(st_of(*old(b)), start, kind@),
{
    let ghost before = b.spans@;
    let end = b.at;
    b.spans.push(Span { start, end, kind });
    assert(crate::model::spans_of(b.spans@) =~= crate::model::spans_of(before).push(
        SpanV { start, end, kind: kind@ },
    ));
}

/// A syntax tree ready to walk: the source, its nodes, and the page title.
pub struct Walk<'a> {
    pub src: &'a Utf8Text,
    pub ns: &'a Vec<NodeRecord>,
    pub title: &'a Vec<char>,
}

pub open spec fn cx(w: Walk) -> Cx {
    Cx { src: w.src.chars@, ns: nodes_view(w.ns@), title: w.title@ }
}

pub open spec fn walk_ok(w: Walk) -> bool {
    w.src.wf()
}

/// The source text of node `i`.
pub fn slice(w: &Walk, i: usize) -> (r: Vec<char>)
    requires
        walk_ok(*w),
        i < w.ns.len(),
    ensures
        r@ == slice_spec(cx(*w), i as int),
{
    w.src.between(w.ns[i].start, w.ns[i].end)
}

fn kind_is_exec(w: &Walk, i: usize, k: &str) -> (r: bool)
    requires
        i < w.ns.len(),
    ensures
        r == kind_is(cx(*w), i as int, k@),
{
    eq_chars(&chars_of(w.ns[i].kind.as_str()), &chars_of(k))
}

fn arg_parts(w: &Walk, a: usize) -> (r: (Option<Vec<char>>, Vec<char>))
    requires
        walk_ok(*w),
        a < w.ns.len(),
    ensures
        ((match r.0 {
            Some(k) => Some(k@),
            None => None,
        }), r.1@) == arg_fold(cx(*w), kids(cx(*w).ns, a as int)),
{
    let ks = crate::syntax::kids_exec(w.ns, a);
    let ghost ki = ks@.map_values(|k: usize| k as int);
    let mut key: Option<Vec<char>> = None;
    let mut value: Vec<char> = Vec::new();
    let mut j: usize = 0;
    while j < ks.len()
        invariant
            j <= ks.len(),
            walk_ok(*w),
            ki == ks@.map_values(|k: usize| k as int),
            forall|k: int| 0 <= k < ks@.len() ==> a < #[trigger] ks@[k] < w.ns.len(),
            ((match key {
                Some(k) => Some(k@),
                None => None,
            }), value@) == arg_fold(cx(*w), ki.take(j as int)),
        decreases ks.len() - j,
    {
        let k = ks[j];
        assert(ki.take(j + 1).drop_last() =~= ki.take(j as int));
        assert(ki.take(j + 1).last() == k as int);
        if kind_is_exec(w, k, "template_param_name") {
            key = Some(trim_exec(&slice(w, k)));
        } else if kind_is_exec(w, k, "template_param_value") {
            value = trim_exec(&slice(w, k));
        }
        j = j + 1;
    }
    assert(ki.take(ks.len() as int) =~= ki);
    (key, value)
}

/// Reads a `template` node: its name, its parameters (the ones without a
/// name numbered from 1) and its source.
pub fn template_ref(w: &Walk, i: usize) -> (r: TemplateRef)
    requires
        walk_ok(*w),
        i < w.ns.len(),
    ensures
        r@ == template_v(cx(*w), i as int),
{
    let ks = crate::syntax::kids_exec(w.ns, i);
    let ghost ki = ks@.map_values(|k: usize| k as int);
    let mut name: Vec<char> = Vec::new();
    let mut params: Vec<(String, String)> = Vec::new();
    let mut positional: usize = 0;
    let mut j: usize = 0;
    assert(crate::model::pairs_of(params@) =~= Seq::<(Seq<char>, Seq<char>)>::empty());
    while j < ks.len()
        invariant
            j <= ks.len(),
            positional <= j,
            walk_ok(*w),
            ki == ks@.map_values(|k: usize| k as int),
            forall|k: int| 0 <= k < ks@.len() ==> i < #[trigger] ks@[k] < w.ns.len(),
            template_fold(cx(*w), ki.take(j as int)) == (TemplateAcc {
                name: name@,
                params: crate::model::pairs_of(params@),
                positional: positional as nat,
            }),
        decreases ks.len() - j,
    {
        let k = ks[j];
        assert(ki.take(j + 1).drop_last() =~= ki.take(j as int));
        assert(ki.take(j + 1).last() == k as int);
        let ghost before = params@;
        if kind_is_exec(w, k, "template_name") {
            name = normalise_name(&slice(w, k));
        } else if kind_is_exec(w, k, "template_argument") {
            let (key, value) = arg_parts(w, k);
            match key {
                Some(key) => {
                    params.push((string_of(&key), string_of(&value)));
                    assert(crate::model::pairs_of(params@) =~= crate::model::pairs_of(before).push(
                        (key@, value@),
                    ));
                },
                None => {
                    positional = positional + 1;
                    let key = crate::number::decimal_exec(positional as u128);
                    params.push((string_of(&key), string_of(&value)));
                    assert(crate::model::pairs_of(params@) =~= crate::model::pairs_of(before).push(
                        (key@, value@),
                    ));
                },
            }
        }
        j = j + 1;
    }
    assert(ki.take(ks.len() as int) =~= ki);
    TemplateRef { name: string_of(&name), params, wikitext: string_of(&slice(w, i)) }
}

fn replace_exec(s: &Vec<char>, p: &Vec<char>, r: &Vec<char>) -> (out: Vec<char>)
    requires
        p.len() > 0,
    ensures
        out@ == replace_from(s@, p@, r@, 0),
{
    let mut out: Vec<char> = Vec::new();
    let mut i: usize = 0;
    while i < s.len()
        invariant
            i <= s.len(),
            p.len() > 0,
            out@ + replace_from(s@, p@, r@, i as int) == replace_from(s@, p@, r@, 0),
        decreases s.len() - i,
    {
        proof {
            crate::text::lemma_find_from_bounds(s@, p@, i as int);
            crate::text::lemma_find_from_bounds(s@, p@, i + 1);
        }
        if crate::text::occurs_at_exec(s, p, i) {
            let ghost before = out@;
            append(&mut out, r);
            assert(s@.subrange(i as int, i as int) =~= Seq::<char>::empty());
            assert(replace_from(s@, p@, r@, i as int) =~= r@ + replace_from(
                s@,
                p@,
                r@,
                i + p.len(),
            ));
            assert(before + replace_from(s@, p@, r@, i as int) =~= out@ + replace_from(
                s@,
                p@,
                r@,
                i + p.len(),
            ));
            i = i + p.len();
        } else {
            let ghost before = out@;
            out.push(s[i]);
            assert(find_from(s@, p@, i as int) == find_from(s@, p@, i + 1));
            proof {
                match find_from(s@, p@, i + 1) {
                    Some(k) => {
                        assert(s@.subrange(i as int, k) =~= seq![s@[i as int]] + s@.subrange(
                            i + 1,
                            k,
                        ));
                    },
                    None => {
                        assert(s@.subrange(i as int, s.len() as int) =~= seq![s@[i as int]]
                            + s@.subrange(i + 1, s.len() as int));
                    },
                }
            }
            assert(replace_from(s@, p@, r@, i as int) =~= seq![s@[i as int]] + replace_from(
                s@,
                p@,
                r@,
                i + 1,
            ));
            assert(before + replace_from(s@, p@, r@, i as int) =~= out@ + replace_from(
                s@,
                p@,
                r@,
                i + 1,
            ));
            i = i + 1;
        }
    }
    assert(replace_from(s@, p@, r@, s.len() as int) =~= Seq::<char>::empty());
    assert(out@ + Seq::<char>::empty() =~= out@);
    out
}

fn strip_all_prefix_exec(s: &Vec<char>, p: &str) -> (r: Vec<char>)
    requires
        p@.len() > 0,
    ensures
        r@ == strip_all_prefix(s@, p@),
{
    let pc = chars_of(p);
    let mut cur = slice_of(s, 0, s.len());
    assert(cur@ =~= s@);
    while crate::text::starts_with_exec(&cur, &pc)
        invariant
            pc@ == p@,
            pc@.len() > 0,
            strip_all_prefix(cur@, p@) == strip_all_prefix(s@, p@),
        decreases cur@.len(),
    {
        cur = slice_of(&cur, pc.len(), cur.len());
    }
    cur
}

fn strip_all_suffix_exec(s: &Vec<char>, p: &str) -> (r: Vec<char>)
    requires
        p@.len() > 0,
    ensures
        r@ == strip_all_suffix(s@, p@),
{
    let pc = chars_of(p);
    let mut cur = slice_of(s, 0, s.len());
    assert(cur@ =~= s@);
    while crate::text::ends_with_exec(&cur, &pc)
        invariant
            pc@ == p@,
            pc@.len() > 0,
            strip_all_suffix(cur@, p@) == strip_all_suffix(s@, p@),
        decreases cur@.len(),
    {
        cur = slice_of(&cur, 0, cur.len() - pc.len());
    }
    cur
}

pub fn eq_ignore_ascii_case_exec(a: &Vec<char>, b: &str) -> (r: bool)
    ensures
        r == eq_ignore_ascii_case(a@, b@),
{
    let bc = chars_of(b);
    if a.len() != bc.len() {
        return false;
    }
    let mut k: usize = 0;
    while k < a.len()
        invariant
            a.len() == bc.len(),
            bc@ == b@,
            k <= a.len(),
            forall|m: int| 0 <= m < k ==> ascii_upper(a@[m]) == ascii_upper(bc@[m]),
        decreases a.len() - k,
    {
        if crate::text::to_ascii_uppercase(a[k]) != crate::text::to_ascii_uppercase(bc[k]) {
            return false;
        }
        k = k + 1;
    }
    true
}

fn page_ref_v_exec(target: &Vec<char>) -> (r: PageRef)
    ensures
        r@ == page_ref_v(target@),
{
    page_ref_chars(target)
}

fn wikilink_exec(w: &Walk, i: usize, b: &mut Bld)
    requires
        walk_ok(*w),
        i < w.ns.len(),
        bld_ok(*old(b)),
    ensures
        bld_ok(*final(b)),
        st_of(*final(b)) == wikilink_spec(cx(*w), i as int, st_of(*old(b))),
{
    let ks = crate::syntax::kids_exec(w.ns, i);
    let ghost ki = ks@.map_values(|k: usize| k as int);
    let mut target: Vec<char> = Vec::new();
    let mut label: Option<Vec<char>> = None;
    let mut j: usize = 0;
    while j < ks.len()
        invariant
            j <= ks.len(),
            walk_ok(*w),
            ki == ks@.map_values(|k: usize| k as int),
            forall|k: int| 0 <= k < ks@.len() ==> i < #[trigger] ks@[k] < w.ns.len(),
            (target@, match label {
                Some(l) => Some(l@),
                None => None,
            }) == link_fold(cx(*w), ki.take(j as int)),
        decreases ks.len() - j,
    {
        let k = ks[j];
        assert(ki.take(j + 1).drop_last() =~= ki.take(j as int));
        assert(ki.take(j + 1).last() == k as int);
        if kind_is_exec(w, k, "wikilink_page") {
            target = slice(w, k);
        } else if kind_is_exec(w, k, "page_name_segment") {
            label = Some(slice(w, k));
        }
        j = j + 1;
    }
    assert(ki.take(ks.len() as int) =~= ki);
    let shown = match label {
        Some(l) => l,
        None => display_title(&target),
    };
    let start = b.at;
    push_exec(b, &shown);
    span_exec(b, start, SpanKind::Link { target: page_ref_v_exec(&target) });
}

fn external_link_exec(w: &Walk, i: usize, b: &mut Bld)
    requires
        walk_ok(*w),
        i < w.ns.len(),
        bld_ok(*old(b)),
    ensures
        bld_ok(*final(b)),
        st_of(*final(b)) == external_link_spec(cx(*w), i as int, st_of(*old(b))),
{
    let ks = crate::syntax::kids_exec(w.ns, i);
    let ghost ki = ks@.map_values(|k: usize| k as int);
    let mut url: Vec<char> = Vec::new();
    let mut label: Option<Vec<char>> = None;
    let mut j: usize = 0;
    while j < ks.len()
        invariant
            j <= ks.len(),
            walk_ok(*w),
            ki == ks@.map_values(|k: usize| k as int),
            forall|k: int| 0 <= k < ks@.len() ==> i < #[trigger] ks@[k] < w.ns.len(),
            (url@, match label {
                Some(l) => Some(l@),
                None => None,
            }) == external_fold(cx(*w), ki.take(j as int)),
        decreases ks.len() - j,
    {
        let k = ks[j];
        assert(ki.take(j + 1).drop_last() =~= ki.take(j as int));
        assert(ki.take(j + 1).last() == k as int);
        if kind_is_exec(w, k, "url") {
            url = slice(w, k);
        } else if kind_is_exec(w, k, "page_name_segment") || kind_is_exec(w, k, "text") {
            label = Some(trim_exec(&slice(w, k)));
        }
        j = j + 1;
    }
    assert(ki.take(ks.len() as int) =~= ki);
    let shown = match label {
        Some(l) => l,
        None => Vec::new(),
    };
    assert(shown@ == match label {
        Some(l) => l@,
        None => Seq::<char>::empty(),
    });
    let start = b.at;
    push_exec(b, &shown);
    span_exec(b, start, SpanKind::ExternalLink { url: string_of(&url) });
}

fn template_exec(w: &Walk, i: usize, b: &mut Bld)
    requires
        walk_ok(*w),
        i < w.ns.len(),
        bld_ok(*old(b)),
    ensures
        bld_ok(*final(b)),
        st_of(*final(b)) == template_spec(cx(*w), i as int, st_of(*old(b))),
{
    let t = template_ref(w, i);
    let start = b.at;
    let name = chars_of(t.name.as_str());
    if eq_lit(&name, "pagename") {
        push_exec(b, w.title);
    } else {
        match render_template(&t) {
            Some(r) => push_exec(b, &r),
            None => {},
        }
    }
    if eq_lit(&name, "w") {
        match t.param("1") {
            Some(target) => {
                let r = page_ref(target);
                span_exec(
                    b,
                    start,
                    SpanKind::Link {
                        target: PageRef {
                            site: Site::Wikipedia,
                            lang: r.lang,
                            title: r.title,
                            fragment: r.fragment,
                        },
                    },
                );
            },
            None => {},
        }
    }
    span_exec(b, start, SpanKind::Template(t));
}

fn comment_exec(w: &Walk, i: usize, b: &mut Bld)
    requires
        walk_ok(*w),
        i < w.ns.len(),
        bld_ok(*old(b)),
    ensures
        bld_ok(*final(b)),
        st_of(*final(b)) == comment_spec(cx(*w), i as int, st_of(*old(b))),
{
    let raw = slice(w, i);
    proof {
        reveal_strlit("<!--");
        reveal_strlit("-->");
    }
    let a = strip_all_prefix_exec(&raw, "<!--");
    let z = strip_all_suffix_exec(&a, "-->");
    let text = trim_exec(&z);
    let at = b.at;
    span_exec(b, at, SpanKind::Comment { text: string_of(&text) });
}

fn tag_name_exec(w: &Walk, i: usize) -> (r: Vec<char>)
    requires
        walk_ok(*w),
        i < w.ns.len(),
    ensures
        r@ == tag_name_spec(cx(*w), i as int),
{
    match crate::syntax::child_of_kind_exec(w.ns, i, "html_tag_name") {
        Some(k) => slice(w, k),
        None => Vec::new(),
    }
}

fn is_tag_part_exec(w: &Walk, k: usize) -> (r: bool)
    requires
        k < w.ns.len(),
    ensures
        r == is_tag_part(cx(*w), k as int),
{
    kind_is_exec(w, k, "html_tag_name") || kind_is_exec(w, k, "html_attribute")
}

fn inner_text_exec(w: &Walk, i: usize) -> (r: Vec<char>)
    requires
        walk_ok(*w),
        i < w.ns.len(),
    ensures
        r@ == trim(inner_fold(cx(*w), kids(cx(*w).ns, i as int))),
{
    let ks = crate::syntax::kids_exec(w.ns, i);
    let ghost ki = ks@.map_values(|k: usize| k as int);
    let mut out: Vec<char> = Vec::new();
    let mut j: usize = 0;
    while j < ks.len()
        invariant
            j <= ks.len(),
            walk_ok(*w),
            ki == ks@.map_values(|k: usize| k as int),
            forall|k: int| 0 <= k < ks@.len() ==> i < #[trigger] ks@[k] < w.ns.len(),
            out@ == inner_fold(cx(*w), ki.take(j as int)),
        decreases ks.len() - j,
    {
        let k = ks[j];
        assert(ki.take(j + 1).drop_last() =~= ki.take(j as int));
        assert(ki.take(j + 1).last() == k as int);
        if !is_tag_part_exec(w, k) {
            append(&mut out, &slice(w, k));
        }
        j = j + 1;
    }
    assert(ki.take(ks.len() as int) =~= ki);
    trim_exec(&out)
}

fn nowiki_exec(w: &Walk, i: usize, b: &mut Bld)
    requires
        walk_ok(*w),
        i < w.ns.len(),
        bld_ok(*old(b)),
    ensures
        bld_ok(*final(b)),
        st_of(*final(b)) == nowiki_fold(cx(*w), kids(cx(*w).ns, i as int), st_of(*old(b))),
{
    let ks = crate::syntax::kids_exec(w.ns, i);
    let ghost ki = ks@.map_values(|k: usize| k as int);
    let ghost st0 = st_of(*b);
    let mut j: usize = 0;
    while j < ks.len()
        invariant
            j <= ks.len(),
            walk_ok(*w),
            bld_ok(*b),
            ki == ks@.map_values(|k: usize| k as int),
            forall|k: int| 0 <= k < ks@.len() ==> i < #[trigger] ks@[k] < w.ns.len(),
            st_of(*b) == nowiki_fold(cx(*w), ki.take(j as int), st0),
        decreases ks.len() - j,
    {
        let k = ks[j];
        assert(ki.take(j + 1).drop_last() =~= ki.take(j as int));
        assert(ki.take(j + 1).last() == k as int);
        if kind_is_exec(w, k, "raw_text") {
            push_exec(b, &slice(w, k));
        }
        j = j + 1;
    }
    assert(ki.take(ks.len() as int) =~= ki);
}

fn visit_exec(w: &Walk, i: usize, b: &mut Bld)
    requires
        walk_ok(*w),
        i < w.ns.len(),
        bld_ok(*old(b)),
    ensures
        bld_ok(*final(b)),
        st_of(*final(b)) == visit(cx(*w), i as int, st_of(*old(b))),
    decreases w.ns.len() - i, 1nat,
{
    let k = chars_of(w.ns[i].kind.as_str());
    if eq_lit(&k, "text") || eq_lit(&k, "url") || eq_lit(&k, "url_bare") || eq_lit(&k, "raw_text")
        || eq_lit(&k, "param_text") {
        let t = slice(w, i);
        let pat = chars_of("{{PAGENAME}}");
        if w.title.len() == 0 || !crate::text::contains_exec(&t, &pat) {
            push_exec(b, &t);
        } else {
            proof {
                reveal_strlit("{{PAGENAME}}");
            }
            let filled = replace_exec(&t, &pat, w.title);
            push_exec(b, &filled);
        }
    } else if eq_lit(&k, "entity") {
        push_exec(b, &decode_entity(&slice(w, i)));
    } else if eq_lit(&k, "wikilink") {
        wikilink_exec(w, i, b);
    } else if eq_lit(&k, "external_link") {
        external_link_exec(w, i, b);
    } else if eq_lit(&k, "italic") || eq_lit(&k, "bold") || eq_lit(&k, "bold_italic") {
        let start = b.at;
        visit_kids(w, i, false, b);
        let kind = if eq_lit(&k, "italic") {
            SpanKind::Italic
        } else if eq_lit(&k, "bold") {
            SpanKind::Bold
        } else {
            SpanKind::BoldItalic
        };
        span_exec(b, start, kind);
    } else if eq_lit(&k, "template") {
        template_exec(w, i, b);
    } else if eq_lit(&k, "comment") {
        comment_exec(w, i, b);
    } else if eq_lit(&k, "html_tag") {
        let name = lower(&tag_name_exec(w, i));
        if eq_lit(&name, "br") {
            let mut nl: Vec<char> = Vec::new();
            nl.push('\n');
            assert(nl@ =~= seq!['\n']);
            push_exec(b, &nl);
        } else if eq_lit(&name, "ref") {
            let text = inner_text_exec(w, i);
            let at = b.at;
            span_exec(b, at, SpanKind::Reference { text: string_of(&text) });
        } else {
            visit_kids(w, i, true, b);
        }
    } else if eq_lit(&k, "nowiki_inline_element") || eq_lit(&k, "nowiki_tag_block") {
        nowiki_exec(w, i, b);
    } else if eq_lit(&k, "magic_word") {
        if eq_ignore_ascii_case_exec(&slice(w, i), "{{PAGENAME}}") {
            push_exec(b, w.title);
        }
    } else if eq_lit(&k, "signature") || eq_lit(&k, "user_signature") || eq_lit(
        &k,
        "user_signature_with_date",
    ) || eq_lit(&k, "current_date") || eq_lit(&k, "parser_function") {
    } else {
        visit_kids(w, i, false, b);
    }
}

/// Visits the children of node `p` in order; with `skip_tag_parts`, a tag's
/// name and attributes are passed over.
fn visit_kids(w: &Walk, p: usize, skip_tag_parts: bool, b: &mut Bld)
    requires
        walk_ok(*w),
        p < w.ns.len(),
        bld_ok(*old(b)),
    ensures
        bld_ok(*final(b)),
        st_of(*final(b)) == (if skip_tag_parts {
            tag_fold(cx(*w), p as int, kids(cx(*w).ns, p as int), 0, st_of(*old(b)))
        } else {
            kids_fold(cx(*w), p as int, kids(cx(*w).ns, p as int), 0, st_of(*old(b)))
        }),
    decreases w.ns.len() - p, 0nat,
{
    let ks = crate::syntax::kids_exec(w.ns, p);
    let ghost ki = ks@.map_values(|k: usize| k as int);
    let ghost c = cx(*w);
    let ghost st0 = st_of(*b);
    let mut j: usize = 0;
    while j < ks.len()
        invariant
            j <= ks.len(),
            walk_ok(*w),
            bld_ok(*b),
            c == cx(*w),
            ki == ks@.map_values(|k: usize| k as int),
            ki == kids(c.ns, p as int),
            forall|k: int| 0 <= k < ks@.len() ==> p < #[trigger] ks@[k] < w.ns.len(),
            (if skip_tag_parts {
                tag_fold(c, p as int, ki, j as int, st_of(*b))
            } else {
                kids_fold(c, p as int, ki, j as int, st_of(*b))
            }) == (if skip_tag_parts {
                tag_fold(c, p as int, ki, 0, st0)
            } else {
                kids_fold(c, p as int, ki, 0, st0)
            }),
        decreases ks.len() - j,
    {
        let k = ks[j];
        assert(ki[j as int] == k as int);
        if !(skip_tag_parts && is_tag_part_exec(w, k)) {
            visit_exec(w, k, b);
        }
        j = j + 1;
    }
}

/// Builds the rich text of node `i`: the words its children show, trimmed,
/// with spans that point at them, and the node's source as the wikitext.
pub fn rich_text(w: &Walk, i: usize) -> (r: RichText)
    requires
        walk_ok(*w),
        i < w.ns.len(),
    ensures
        r@ == rich_text_spec(cx(*w), i as int),
{
    let mut b = new_bld();
    visit_kids(w, i, false, &mut b);
    let ghost st = st_of(b);
    let text = b.text;
    let k = crate::text::skip_exec(&text, true, ' ');
    let head = slice_of(&text, 0, k);
    let leading = w32_len(&head);
    proof {
        assert(text@ =~= head@ + text@.subrange(k as int, text@.len() as int));
        lemma_utf8_len_concat(head@, text@.subrange(k as int, text@.len() as int));
    }
    let trimmed_text = trim_exec(&text);
    let end = w32_len(&trimmed_text);
    let mut spans: Vec<Span> = Vec::new();
    let mut j: usize = 0;
    while j < b.spans.len()
        invariant
            j <= b.spans.len(),
            st.spans == crate::model::spans_of(b.spans@),
            crate::model::spans_of(spans@) == st.spans.take(j as int).map_values(
                |s: SpanV| trim_span(s, leading, end),
            ),
        decreases b.spans.len() - j,
    {
        let s = &b.spans[j];
        let a = if s.start >= leading { s.start - leading } else { 0 };
        let z = if s.end >= leading { s.end - leading } else { 0 };
        let ghost before = spans@;
        spans.push(
            Span {
                start: if a <= end { a } else { end },
                end: if z <= end { z } else { end },
                kind: copy_span_kind(&s.kind),
            },
        );
        assert(crate::model::spans_of(spans@) =~= crate::model::spans_of(before).push(
            trim_span(st.spans[j as int], leading, end),
        ));
        assert(st.spans.take(j + 1).map_values(|s: SpanV| trim_span(s, leading, end))
            =~= st.spans.take(j as int).map_values(|s: SpanV| trim_span(s, leading, end)).push(
            trim_span(st.spans[j as int], leading, end),
        ));
        j = j + 1;
    }
    assert(st.spans.take(b.spans.len() as int) =~= st.spans);
    RichText { text: string_of(&trimmed_text), wikitext: string_of(&slice(w, i)), spans }
}

fn copy_site(s: &Site) -> (r: Site)
    ensures
        r@ == s@,
{
    match s {
        Site::Wikiquote => Site::Wikiquote,
        Site::Wikipedia => Site::Wikipedia,
        Site::Wikisource => Site::Wikisource,
        Site::Wiktionary => Site::Wiktionary,
        Site::Commons => Site::Commons,
        Site::Other(n) => Site::Other(n.clone()),
    }
}

/// A copy of a link target, field by field.
pub fn copy_page_ref(p: &PageRef) -> (r: PageRef)
    ensures
        r@ == p@,
{
    PageRef {
        site: copy_site(&p.site),
        lang: p.lang.clone(),
        title: p.title.clone(),
        fragment: match &p.fragment {
            Some(f) => Some(f.clone()),
            None => None,
        },
    }
}

/// A copy of a template call, field by field.
pub fn copy_template(t: &TemplateRef) -> (r: TemplateRef)
    ensures
        r@ == t@,
{
    let mut params: Vec<(String, String)> = Vec::new();
    let mut i: usize = 0;
    while i < t.params.len()
        invariant
            i <= t.params.len(),
            params@.len() == i,
            forall|k: int|
                0 <= k < i ==> (#[trigger] params@[k]).0@ == t.params@[k].0@ && params@[k].1@
                    == t.params@[k].1@,
        decreases t.params.len() - i,
    {
        let key = t.params[i].0.clone();
        let value = t.params[i].1.clone();
        params.push((key, value));
        i = i + 1;
    }
    assert(crate::model::pairs_of(params@) =~= crate::model::pairs_of(t.params@));
    TemplateRef { name: t.name.clone(), params, wikitext: t.wikitext.clone() }
}

/// A copy of a span kind, field by field.
pub fn copy_span_kind(k: &SpanKind) -> (r: SpanKind)
    ensures
        r@ == k@,
{
    match k {
        SpanKind::Link { target } => SpanKind::Link { target: copy_page_ref(target) },
        SpanKind::ExternalLink { url } => SpanKind::ExternalLink { url: url.clone() },
        SpanKind::Italic => SpanKind::Italic,
        SpanKind::Bold => SpanKind::Bold,
        SpanKind::BoldItalic => SpanKind::BoldItalic,
        SpanKind::Template(t) => SpanKind::Template(copy_template(t)),
        SpanKind::Comment { text } => SpanKind::Comment { text: text.clone() },
        SpanKind::Reference { text } => SpanKind::Reference { text: text.clone() },
    }
}

/// A link target keeps what follows its first `#` as the fragment; a prefix
/// of two or three lowercase letters after the project is the language; and
/// a target with no `:` and no `#` is a Wikiquote title in English.
pub proof fn law_a_link_target_splits_into_its_parts(target: Seq<char>)
    ensures
        page_ref_spec(target).3 == (match split_once(bare_target(target), '#') {
            Some((a, b)) => Some(trim(b)),
            None => None,
        }),
        ({
            let rest = site_and_rest(title_and_fragment(bare_target(target)).0).1;
            split_once(rest, ':') matches Some((p, r)) ==> (is_language_code(p) ==> page_ref_spec(
                target,
            ).1 == p && page_ref_spec(target).2 == trim(r))
        }),
        split_once(bare_target(target), ':') is None && split_once(bare_target(target), '#')
            is None ==> page_ref_spec(target) == (SiteV::Wikiquote, "en"@, bare_target(target), None::<
            Seq<char>,
        >),
{
}

/// Trimming a text moves every span back by the bytes trimmed off its front:
/// a span inside the kept text points at the same place in it.
pub proof fn law_trimming_moves_spans_back_by_the_trimmed_bytes(st: St, k: int)
    requires
        0 <= k < st.spans.len(),
        utf8_len(st.text) < 0x1_0000_0000,
        utf8_len(st.text) - utf8_len(trim_start(st.text)) <= st.spans[k].start,
        st.spans[k].start <= st.spans[k].end,
        st.spans[k].end <= utf8_len(st.text) - utf8_len(trim_start(st.text)) + utf8_len(
            trim(st.text),
        ),
    ensures
        trimmed(st).spans.len() == st.spans.len(),
        ({
            let lead = utf8_len(st.text) - utf8_len(trim_start(st.text));
            trimmed(st).spans[k] == SpanV {
                start: (st.spans[k].start - lead) as u32,
                end: (st.spans[k].end - lead) as u32,
                kind: st.spans[k].kind,
            }
        }),
{
    let t = st.text;
    let j = crate::text::skip_from(t, 0, true, ' ');
    crate::text::lemma_skip_bounds(t, 0, true, ' ');
    assert(t =~= t.take(j) + trim_start(t));
    lemma_utf8_len_concat(t.take(j), trim_start(t));
    let ts = trim_start(t);
    let b = crate::text::back_from(ts, ts.len() as int, true, ' ');
    crate::text::lemma_back_bounds(ts, ts.len() as int, true, ' ');
    assert(ts =~= trim(t) + ts.skip(b));
    lemma_utf8_len_concat(trim(t), ts.skip(b));
    let lead = (utf8_len(t) - utf8_len(trim_start(t))) as nat;
    assert(w32(lead) == lead) by {
        vstd::arithmetic::div_mod::lemma_small_mod(lead, 0x1_0000_0000);
    }
    assert(w32(utf8_len(trim(t))) == utf8_len(trim(t))) by {
        vstd::arithmetic::div_mod::lemma_small_mod(utf8_len(trim(t)), 0x1_0000_0000);
    }
}

/// The parameter `key` of a template is there and not empty.
pub open spec fn given(t: TemplateV, key: Seq<char>) -> bool {
    tparam(t, key) is Some && tparam(t, key)->0.len() > 0
}

/// What the templates that carry words put on the page, by their
/// parameters: `{{w}}` and `{{wikipedia-inline}}` show their second
/// parameter, the shown text, or else their first, the article; `{{lang}}`
/// shows its second, the words; the formatting templates show their first;
/// `{{ISBN}}` shows "ISBN " and the number; `{{nbsp}}` a no-break space and
/// the line-break templates a newline. A parameter counts only when it is
/// present and not empty.
pub proof fn law_a_template_shows_the_words_it_carries(t: TemplateV)
    ensures
        (t.name == "w"@ || t.name == "wikipedia-inline"@) && given(t, "2"@) ==> render_v(t)
            == tparam(t, "2"@),
        (t.name == "w"@ || t.name == "wikipedia-inline"@) && !given(t, "2"@) && given(t, "1"@)
            ==> render_v(t) == tparam(t, "1"@),
        (t.name == "w"@ || t.name == "wikipedia-inline"@) ==> (render_v(t) is None <==> !given(
            t,
            "2"@,
        ) && !given(t, "1"@)),
        t.name == "lang"@ && given(t, "2"@) ==> render_v(t) == tparam(t, "2"@),
        t.name == "lang"@ ==> (render_v(t) is None <==> !given(t, "2"@)),
        (t.name == "smallcaps"@ || t.name == "sc"@ || t.name == "small"@ || t.name == "big"@
            || t.name == "nowrap"@ || t.name == "center"@ || t.name == "resize"@) && given(
            t,
            "1"@,
        ) ==> render_v(t) == tparam(t, "1"@),
        t.name == "isbn"@ && given(t, "1"@) ==> render_v(t) == Some("ISBN "@ + tparam(t, "1"@)->0),
        t.name == "nbsp"@ ==> render_v(t) == Some(seq!['\u{a0}']),
        (t.name == "pb"@ || t.name == "pbr"@ || t.name == "line"@ || t.name == "-"@) ==> render_v(
            t,
        ) == Some(seq!['\n']),
{
    reveal_strlit("w");
    reveal_strlit("wikipedia-inline");
    reveal_strlit("lang");
    reveal_strlit("smallcaps");
    reveal_strlit("sc");
    reveal_strlit("small");
    reveal_strlit("big");
    reveal_strlit("nowrap");
    reveal_strlit("center");
    reveal_strlit("resize");
    reveal_strlit("isbn");
    reveal_strlit("nbsp");
    reveal_strlit("pb");
    reveal_strlit("pbr");
    reveal_strlit("line");
    reveal_strlit("-");
    let n = t.name;
    if n == "lang"@ {
        assert(n.len() != "w"@.len() && n.len() != "wikipedia-inline"@.len());
    }
    if n == "smallcaps"@ || n == "sc"@ || n == "small"@ || n == "big"@ || n == "nowrap"@ || n
        == "center"@ || n == "resize"@ {
        assert(n.len() != "w"@.len() && n.len() != "wikipedia-inline"@.len() && n.len()
            != "lang"@.len());
    }
    if n == "isbn"@ || n == "nbsp"@ {
        assert(n.len() == 4);
        assert(n[0] != 'l');
        assert(n.len() != "w"@.len() && n.len() != "wikipedia-inline"@.len() && n != "lang"@);
        assert(n.len() != "smallcaps"@.len() && n.len() != "sc"@.len() && n.len() != "small"@.len()
            && n.len() != "big"@.len() && n.len() != "nowrap"@.len());
    }
    if n == "nbsp"@ {
        assert(n[1] != "isbn"@[1]);
    }
    if n == "pb"@ || n == "pbr"@ || n == "line"@ || n == "-"@ {
        assert(n[0] == 'p' || n[0] == 'l' || n[0] == '-');
        assert(n.len() == 4 ==> n[1] == 'i');
        assert("w"@[0] == 'w' && "sc"@[0] == 's' && "big"@[0] == 'b' && "lang"@[1] == 'a'
            && "isbn"@[0] == 'i' && "nbsp"@[0] == 'n');
        assert(n != "w"@ && n != "wikipedia-inline"@ && n != "smallcaps"@ && n != "small"@ && n
            != "nowrap"@ && n != "center"@ && n != "resize"@);
        assert(n != "lang"@ && n != "isbn"@ && n != "nbsp"@ && n != "sc"@ && n != "big"@);
    }
}

/// Any template other than those that carry words shows nothing: a
/// template is recorded, never expanded.
pub proof fn law_other_templates_show_nothing(t: TemplateV)
    ensures
        !(t.name == "w"@ || t.name == "wikipedia-inline"@ || t.name == "lang"@ || t.name
            == "smallcaps"@ || t.name == "sc"@ || t.name == "small"@ || t.name == "big"@ || t.name
            == "nowrap"@ || t.name == "center"@ || t.name == "resize"@ || t.name == "isbn"@
            || t.name == "nbsp"@ || t.name == "pb"@ || t.name == "pbr"@ || t.name == "line"@
            || t.name == "-"@) ==> render_v(t) is None,
{
}

/// The interwiki prefixes, case aside: `w:` and `wikipedia:` are Wikipedia,
/// `s:` Wikisource, `wikt:` Wiktionary, `c:` and `commons:` Commons, `q:`
/// Wikiquote, and the other projects keep their prefix.
pub proof fn law_an_interwiki_prefix_names_its_project(prefix: Seq<char>)
    ensures
        lowercase(prefix) == "w"@ ==> site_for_prefix_spec(prefix) == Some(SiteV::Wikipedia),
        lowercase(prefix) == "wikipedia"@ ==> site_for_prefix_spec(prefix) == Some(SiteV::Wikipedia),
        lowercase(prefix) == "s"@ ==> site_for_prefix_spec(prefix) == Some(SiteV::Wikisource),
        lowercase(prefix) == "wikisource"@ ==> site_for_prefix_spec(prefix) == Some(SiteV::Wikisource),
        lowercase(prefix) == "wikt"@ ==> site_for_prefix_spec(prefix) == Some(SiteV::Wiktionary),
        lowercase(prefix) == "wiktionary"@ ==> site_for_prefix_spec(prefix) == Some(SiteV::Wiktionary),
        lowercase(prefix) == "commons"@ ==> site_for_prefix_spec(prefix) == Some(SiteV::Commons),
        lowercase(prefix) == "c"@ ==> site_for_prefix_spec(prefix) == Some(SiteV::Commons),
        lowercase(prefix) == "q"@ ==> site_for_prefix_spec(prefix) == Some(SiteV::Wikiquote),
        lowercase(prefix) == "wikiquote"@ ==> site_for_prefix_spec(prefix) == Some(SiteV::Wikiquote),
        lowercase(prefix) == "b"@ ==> site_for_prefix_spec(prefix) == Some(SiteV::Other("b"@)),
        lowercase(prefix) == "n"@ ==> site_for_prefix_spec(prefix) == Some(SiteV::Other("n"@)),
        lowercase(prefix) == "v"@ ==> site_for_prefix_spec(prefix) == Some(SiteV::Other("v"@)),
        lowercase(prefix) == "m"@ ==> site_for_prefix_spec(prefix) == Some(SiteV::Other("m"@)),
        lowercase(prefix) == "meta"@ ==> site_for_prefix_spec(prefix) == Some(SiteV::Other("meta"@)),
        lowercase(prefix) == "d"@ ==> site_for_prefix_spec(prefix) == Some(SiteV::Other("d"@)),
        lowercase(prefix) == "wikidata"@ ==> site_for_prefix_spec(prefix) == Some(SiteV::Other("wikidata"@)),
        lowercase(prefix) == "voy"@ ==> site_for_prefix_spec(prefix) == Some(SiteV::Other("voy"@)),
        lowercase(prefix) == "species"@ ==> site_for_prefix_spec(prefix) == Some(SiteV::Other("species"@)),
{
    reveal_strlit("w");
    reveal_strlit("wikipedia");
    reveal_strlit("s");
    reveal_strlit("wikisource");
    reveal_strlit("wikt");
    reveal_strlit("wiktionary");
    reveal_strlit("commons");
    reveal_strlit("c");
    reveal_strlit("q");
    reveal_strlit("wikiquote");
    reveal_strlit("b");
    reveal_strlit("n");
    reveal_strlit("v");
    reveal_strlit("m");
    reveal_strlit("meta");
    reveal_strlit("d");
    reveal_strlit("wikidata");
    reveal_strlit("voy");
    reveal_strlit("species");
    if lowercase(prefix) == "wikipedia"@ {
        assert("wikipedia"@.len() != "w"@.len());
    }
    if lowercase(prefix) == "s"@ {
        assert("s"@[0] != "w"@[0]);
        assert("s"@.len() != "wikipedia"@.len());
    }
    if lowercase(prefix) == "wikisource"@ {
        assert("wikisource"@.len() != "w"@.len());
        assert("wikisource"@.len() != "wikipedia"@.len());
        assert("wikisource"@.len() != "s"@.len());
    }
    if lowercase(prefix) == "wikt"@ {
        assert("wikt"@.len() != "w"@.len());
        assert("wikt"@.len() != "wikipedia"@.len());
        assert("wikt"@.len() != "s"@.len());
        assert("wikt"@.len() != "wikisource"@.len());
    }
    if lowercase(prefix) == "wiktionary"@ {
        assert("wiktionary"@.len() != "w"@.len());
        assert("wiktionary"@.len() != "wikipedia"@.len());
        assert("wiktionary"@.len() != "s"@.len());
        assert("wiktionary"@[3] != "wikisource"@[3]);
        assert("wiktionary"@.len() != "wikt"@.len());
    }
    if lowercase(prefix) == "commons"@ {
        assert("commons"@.len() != "w"@.len());
        assert("commons"@.len() != "wikipedia"@.len());
        assert("commons"@.len() != "s"@.len());
        assert("commons"@.len() != "wikisource"@.len());
        assert("commons"@.len() != "wikt"@.len());
        assert("commons"@.len() != "wiktionary"@.len());
    }
    if lowercase(prefix) == "c"@ {
        assert("c"@[0] != "w"@[0]);
        assert("c"@.len() != "wikipedia"@.len());
        assert("c"@[0] != "s"@[0]);
        assert("c"@.len() != "wikisource"@.len());
        assert("c"@.len() != "wikt"@.len());
        assert("c"@.len() != "wiktionary"@.len());
        assert("c"@.len() != "commons"@.len());
    }
    if lowercase(prefix) == "q"@ {
        assert("q"@[0] != "w"@[0]);
        assert("q"@.len() != "wikipedia"@.len());
        assert("q"@[0] != "s"@[0]);
        assert("q"@.len() != "wikisource"@.len());
        assert("q"@.len() != "wikt"@.len());
        assert("q"@.len() != "wiktionary"@.len());
        assert("q"@.len() != "commons"@.len());
        assert("q"@[0] != "c"@[0]);
    }
    if lowercase(prefix) == "wikiquote"@ {
        assert("wikiquote"@.len() != "w"@.len());
        assert("wikiquote"@[4] != "wikipedia"@[4]);
        assert("wikiquote"@.len() != "s"@.len());
        assert("wikiquote"@.len() != "wikisource"@.len());
        assert("wikiquote"@.len() != "wikt"@.len());
        assert("wikiquote"@.len() != "wiktionary"@.len());
        assert("wikiquote"@.len() != "commons"@.len());
        assert("wikiquote"@.len() != "c"@.len());
        assert("wikiquote"@.len() != "q"@.len());
    }
    if lowercase(prefix) == "b"@ {
        assert("b"@[0] != "w"@[0]);
        assert("b"@.len() != "wikipedia"@.len());
        assert("b"@[0] != "s"@[0]);
        assert("b"@.len() != "wikisource"@.len());
        assert("b"@.len() != "wikt"@.len());
        assert("b"@.len() != "wiktionary"@.len());
        assert("b"@.len() != "commons"@.len());
        assert("b"@[0] != "c"@[0]);
        assert("b"@[0] != "q"@[0]);
        assert("b"@.len() != "wikiquote"@.len());
    }
    if lowercase(prefix) == "n"@ {
        assert("n"@[0] != "w"@[0]);
        assert("n"@.len() != "wikipedia"@.len());
        assert("n"@[0] != "s"@[0]);
        assert("n"@.len() != "wikisource"@.len());
        assert("n"@.len() != "wikt"@.len());
        assert("n"@.len() != "wiktionary"@.len());
        assert("n"@.len() != "commons"@.len());
        assert("n"@[0] != "c"@[0]);
        assert("n"@[0] != "q"@[0]);
        assert("n"@.len() != "wikiquote"@.len());
        assert("n"@[0] != "b"@[0]);
    }
    if lowercase(prefix) == "v"@ {
        assert("v"@[0] != "w"@[0]);
        assert("v"@.len() != "wikipedia"@.len());
        assert("v"@[0] != "s"@[0]);
        assert("v"@.len() != "wikisource"@.len());
        assert("v"@.len() != "wikt"@.len());
        assert("v"@.len() != "wiktionary"@.len());
        assert("v"@.len() != "commons"@.len());
        assert("v"@[0] != "c"@[0]);
        assert("v"@[0] != "q"@[0]);
        assert("v"@.len() != "wikiquote"@.len());
        assert("v"@[0] != "b"@[0]);
        assert("v"@[0] != "n"@[0]);
    }
    if lowercase(prefix) == "m"@ {
        assert("m"@[0] != "w"@[0]);
        assert("m"@.len() != "wikipedia"@.len());
        assert("m"@[0] != "s"@[0]);
        assert("m"@.len() != "wikisource"@.len());
        assert("m"@.len() != "wikt"@.len());
        assert("m"@.len() != "wiktionary"@.len());
        assert("m"@.len() != "commons"@.len());
        assert("m"@[0] != "c"@[0]);
        assert("m"@[0] != "q"@[0]);
        assert("m"@.len() != "wikiquote"@.len());
        assert("m"@[0] != "b"@[0]);
        assert("m"@[0] != "n"@[0]);
        assert("m"@[0] != "v"@[0]);
    }
    if lowercase(prefix) == "meta"@ {
        assert("meta"@.len() != "w"@.len());
        assert("meta"@.len() != "wikipedia"@.len());
        assert("meta"@.len() != "s"@.len());
        assert("meta"@.len() != "wikisource"@.len());
        assert("meta"@[0] != "wikt"@[0]);
        assert("meta"@.len() != "wiktionary"@.len());
        assert("meta"@.len() != "commons"@.len());
        assert("meta"@.len() != "c"@.len());
        assert("meta"@.len() != "q"@.len());
        assert("meta"@.len() != "wikiquote"@.len());
        assert("meta"@.len() != "b"@.len());
        assert("meta"@.len() != "n"@.len());
        assert("meta"@.len() != "v"@.len());
        assert("meta"@.len() != "m"@.len());
    }
    if lowercase(prefix) == "d"@ {
        assert("d"@[0] != "w"@[0]);
        assert("d"@.len() != "wikipedia"@.len());
        assert("d"@[0] != "s"@[0]);
        assert("d"@.len() != "wikisource"@.len());
        assert("d"@.len() != "wikt"@.len());
        assert("d"@.len() != "wiktionary"@.len());
        assert("d"@.len() != "commons"@.len());
        assert("d"@[0] != "c"@[0]);
        assert("d"@[0] != "q"@[0]);
        assert("d"@.len() != "wikiquote"@.len());
        assert("d"@[0] != "b"@[0]);
        assert("d"@[0] != "n"@[0]);
        assert("d"@[0] != "v"@[0]);
        assert("d"@[0] != "m"@[0]);
        assert("d"@.len() != "meta"@.len());
    }
    if lowercase(prefix) == "wikidata"@ {
        assert("wikidata"@.len() != "w"@.len());
        assert("wikidata"@.len() != "wikipedia"@.len());
        assert("wikidata"@.len() != "s"@.len());
        assert("wikidata"@.len() != "wikisource"@.len());
        assert("wikidata"@.len() != "wikt"@.len());
        assert("wikidata"@.len() != "wiktionary"@.len());
        assert("wikidata"@.len() != "commons"@.len());
        assert("wikidata"@.len() != "c"@.len());
        assert("wikidata"@.len() != "q"@.len());
        assert("wikidata"@.len() != "wikiquote"@.len());
        assert("wikidata"@.len() != "b"@.len());
        assert("wikidata"@.len() != "n"@.len());
        assert("wikidata"@.len() != "v"@.len());
        assert("wikidata"@.len() != "m"@.len());
        assert("wikidata"@.len() != "meta"@.len());
        assert("wikidata"@.len() != "d"@.len());
    }
    if lowercase(prefix) == "voy"@ {
        assert("voy"@.len() != "w"@.len());
        assert("voy"@.len() != "wikipedia"@.len());
        assert("voy"@.len() != "s"@.len());
        assert("voy"@.len() != "wikisource"@.len());
        assert("voy"@.len() != "wikt"@.len());
        assert("voy"@.len() != "wiktionary"@.len());
        assert("voy"@.len() != "commons"@.len());
        assert("voy"@.len() != "c"@.len());
        assert("voy"@.len() != "q"@.len());
        assert("voy"@.len() != "wikiquote"@.len());
        assert("voy"@.len() != "b"@.len());
        assert("voy"@.len() != "n"@.len());
        assert("voy"@.len() != "v"@.len());
        assert("voy"@.len() != "m"@.len());
        assert("voy"@.len() != "meta"@.len());
        assert("voy"@.len() != "d"@.len());
        assert("voy"@.len() != "wikidata"@.len());
    }
    if lowercase(prefix) == "species"@ {
        assert("species"@.len() != "w"@.len());
        assert("species"@.len() != "wikipedia"@.len());
        assert("species"@.len() != "s"@.len());
        assert("species"@.len() != "wikisource"@.len());
        assert("species"@.len() != "wikt"@.len());
        assert("species"@.len() != "wiktionary"@.len());
        assert("species"@[0] != "commons"@[0]);
        assert("species"@.len() != "c"@.len());
        assert("species"@.len() != "q"@.len());
        assert("species"@.len() != "wikiquote"@.len());
        assert("species"@.len() != "b"@.len());
        assert("species"@.len() != "n"@.len());
        assert("species"@.len() != "v"@.len());
        assert("species"@.len() != "m"@.len());
        assert("species"@.len() != "meta"@.len());
        assert("species"@.len() != "d"@.len());
        assert("species"@.len() != "wikidata"@.len());
        assert("species"@.len() != "voy"@.len());
    }
}

} // verus!
