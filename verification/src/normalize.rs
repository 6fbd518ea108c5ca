//! Layer 2: turns the document model into quote records.
//!
//! Every heuristic of the pipeline lives here or in `citation`. Layer 1 stays
//! free of guesses, so a reader who disagrees with these rules can start again
//! from the document model without parsing wikitext.

use vstd::prelude::*;
use crate::citation::{site_name, site_name_spec};
use crate::model::{
    Annotation, AnnotationKind, Block, Document, Exchange, PageRef, PageType, QuoteItem, RichText,
    RoleV, Section, SectionRole, SiteV, SourceHint, HintV, Span, SpanKind, TemplateRef, Turn,
};
use crate::quote::{
    full_source, Agent, AgentV, AnnotationOut, CiteTemplate, Param, AnnotationOutV, FullSourceV, Link, LinkV, PartV,
    Provenance, ProvenanceV, Quote, QuoteV, Source, SourcePart, SourceV, Translation, TranslationV,
};
use crate::text::{
    append, append_lit, byte_get, byte_get_exec, chars_of, ends_with, ends_with_lit, eq_chars,
    eq_lit, find_char, find_char_exec, join, join_exec, lower, lowercase, slice_of, split_once,
    split_once_exec, starts_with, starts_with_lit, string_of, trim, trim_exec, uppercase_letter,
    is_uppercase, utf8_len, utf8_len_at_least, views, words, words_exec,
};
use crate::wikitext::nonempty_param;

verus! {

// --- names ------------------------------------------------------------------

pub open spec fn page_type_name(t: PageType) -> Seq<char> {
    match t {
        PageType::Person => "person"@,
        PageType::Film => "film"@,
        PageType::TelevisionSeries => "television_series"@,
        PageType::TelevisionSeason => "television_season"@,
        PageType::LiteraryWork => "literary_work"@,
        PageType::VideoGame => "video_game"@,
        PageType::MusicalWork => "musical_work"@,
        PageType::Theme => "theme"@,
        PageType::Proverbs => "proverbs"@,
        PageType::List => "list"@,
        PageType::Disambiguation => "disambiguation"@,
        PageType::Placeholder => "placeholder"@,
        PageType::Unknown => "unknown"@,
    }
}

pub fn page_type_name_exec(t: PageType) -> (r: String)
    ensures
        r@ == page_type_name(t),
{
    let n = match t {
        PageType::Person => "person",
        PageType::Film => "film",
        PageType::TelevisionSeries => "television_series",
        PageType::TelevisionSeason => "television_season",
        PageType::LiteraryWork => "literary_work",
        PageType::VideoGame => "video_game",
        PageType::MusicalWork => "musical_work",
        PageType::Theme => "theme",
        PageType::Proverbs => "proverbs",
        PageType::List => "list",
        PageType::Disambiguation => "disambiguation",
        PageType::Placeholder => "placeholder",
        PageType::Unknown => "unknown",
    };
    string_of(&chars_of(n))
}

/// The kind of work a work page is about.
pub open spec fn work_type_of(t: PageType) -> Seq<char> {
    match t {
        PageType::Film => "film"@,
        PageType::TelevisionSeries => "series"@,
        PageType::TelevisionSeason => "series"@,
        PageType::VideoGame => "video game"@,
        PageType::LiteraryWork => "book"@,
        PageType::MusicalWork => "song"@,
        _ => "work"@,
    }
}

fn work_type_of_exec(t: PageType) -> (r: String)
    ensures
        r@ == work_type_of(t),
{
    let n = match t {
        PageType::Film => "film",
        PageType::TelevisionSeries => "series",
        PageType::TelevisionSeason => "series",
        PageType::VideoGame => "video game",
        PageType::LiteraryWork => "book",
        PageType::MusicalWork => "song",
        _ => "work",
    };
    string_of(&chars_of(n))
}

pub open spec fn annotation_kind_name(k: AnnotationKind) -> Seq<char> {
    match k {
        AnnotationKind::Citation => "citation"@,
        AnnotationKind::Attribution => "attribution"@,
        AnnotationKind::Translation => "translation"@,
        AnnotationKind::CrossRef => "cross_ref"@,
        AnnotationKind::Note => "note"@,
    }
}

fn annotation_kind_name_exec(k: AnnotationKind) -> (r: String)
    ensures
        r@ == annotation_kind_name(k),
{
    let n = match k {
        AnnotationKind::Citation => "citation",
        AnnotationKind::Attribution => "attribution",
        AnnotationKind::Translation => "translation",
        AnnotationKind::CrossRef => "cross_ref",
        AnnotationKind::Note => "note",
    };
    string_of(&chars_of(n))
}

/// The name a source part gives the kind of heading it came from.
pub open spec fn hint_name(h: HintV) -> Seq<char> {
    match h {
        HintV::Work { .. } => "work"@,
        HintV::Episode { .. } => "episode"@,
        HintV::Season { .. } => "season"@,
        HintV::Period { .. } => "period"@,
        HintV::Locator { .. } => "locator"@,
    }
}

fn hint_name_exec(h: &SourceHint) -> (r: String)
    ensures
        r@ == hint_name(h@),
{
    let n = match h {
        SourceHint::Work { .. } => "work",
        SourceHint::Episode { .. } => "episode",
        SourceHint::Season { .. } => "season",
        SourceHint::Period { .. } => "period",
        SourceHint::Locator { .. } => "locator",
    };
    string_of(&chars_of(n))
}

/// A `String` holding a literal.
pub fn lit(s: &str) -> (r: String)
    ensures
        r@ == s@,
{
    string_of(&chars_of(s))
}

// --- status and language ----------------------------------------------------

/// The status of a quote: from the section role first, then from whether
/// the source is complete. The second part says which rule decided.
pub open spec fn status_spec(role: RoleV, complete: bool) -> (Seq<char>, Seq<char>) {
    match role {
        RoleV::Misattributed => ("misattributed"@, "section_role"@),
        RoleV::QuotesAbout => ("attributed"@, "section_role"@),
        RoleV::Disputed => ("disputed"@, "section_role"@),
        RoleV::Attributed => ("attributed"@, "section_role"@),
        RoleV::Unsourced => ("unsourced"@, "section_role"@),
        _ => (if complete {
            "sourced"@
        } else {
            "unsourced"@
        }, "citation_presence"@),
    }
}

fn status_of(role: &SectionRole, complete: bool) -> (r: (String, String))
    ensures
        (r.0@, r.1@) == status_spec(role@, complete),
{
    match role {
        SectionRole::Misattributed => (lit("misattributed"), lit("section_role")),
        SectionRole::QuotesAbout => (lit("attributed"), lit("section_role")),
        SectionRole::Disputed => (lit("disputed"), lit("section_role")),
        SectionRole::Attributed => (lit("attributed"), lit("section_role")),
        SectionRole::Unsourced => (lit("unsourced"), lit("section_role")),
        _ => (
            if complete {
                lit("sourced")
            } else {
                lit("unsourced")
            },
            lit("citation_presence"),
        ),
    }
}

/// The first `{{lang|xx|…}}` with a code, from span `i` on.
pub open spec fn declared_language_from(spans: Seq<Span>, i: int) -> Option<Seq<char>>
    decreases spans.len() - i,
{
    if i < 0 || i >= spans.len() {
        None
    } else {
        match spans[i].kind {
            SpanKind::Template(t) => if t.name@ == "lang"@ && nonempty_param(t, "1"@) is Some {
                nonempty_param(t, "1"@)
            } else {
                declared_language_from(spans, i + 1)
            },
            _ => declared_language_from(spans, i + 1),
        }
    }
}

/// The language of a text: declared by `{{lang}}`, or the wiki's own.
pub open spec fn language_spec(spans: Seq<Span>, wiki_language: Seq<char>) -> (Seq<char>, Seq<char>) {
    match declared_language_from(spans, 0) {
        Some(code) => (lowercase(code), "declared"@),
        None => (wiki_language, "wiki_default"@),
    }
}

fn language_of(spans: &Vec<Span>, wiki_language: &String) -> (r: (String, String))
    ensures
        (r.0@, r.1@) == language_spec(spans@, wiki_language@),
{
    let mut i: usize = 0;
    while i < spans.len()
        invariant
            i <= spans.len(),
            declared_language_from(spans@, i as int) == declared_language_from(spans@, 0),
        decreases spans.len() - i,
    {
        if let SpanKind::Template(t) = &spans[i].kind {
            let name = chars_of(t.name.as_str());
            if eq_lit(&name, "lang") {
                if let Some(code) = t.param_nonempty("1") {
                    return (string_of(&lower(&code)), lit("declared"));
                }
            }
        }
        i = i + 1;
    }
    (wiki_language.clone(), lit("wiki_default"))
}

// --- links and annotations --------------------------------------------------

pub open spec fn link_view(target: PageRef) -> LinkV {
    LinkV {
        site: site_name_spec(target.site@),
        lang: target.lang@,
        title: target.title@,
        fragment: target.fragment.deep_view(),
    }
}

/// Every wikilink in the spans from `i` on.
pub open spec fn links_from(spans: Seq<Span>, i: int) -> Seq<LinkV>
    decreases spans.len() - i,
{
    if i < 0 || i >= spans.len() {
        Seq::empty()
    } else {
        match spans[i].kind {
            SpanKind::Link { target } => seq![link_view(target)] + links_from(spans, i + 1),
            _ => links_from(spans, i + 1),
        }
    }
}

fn clone_opt(o: &Option<String>) -> (r: Option<String>)
    ensures
        r.deep_view() == o.deep_view(),
{
    match o {
        Some(s) => Some(s.clone()),
        None => None,
    }
}

fn links_of(spans: &Vec<Span>) -> (r: Vec<Link>)
    ensures
        r@.map_values(|x: Link| x@) == links_from(spans@, 0),
{
    let mut r: Vec<Link> = Vec::new();
    let mut i: usize = 0;
    while i < spans.len()
        invariant
            i <= spans.len(),
            r@.map_values(|x: Link| x@) + links_from(spans@, i as int) == links_from(
                spans@,
                0,
            ),
        decreases spans.len() - i,
    {
        let ghost before = r@;
        if let SpanKind::Link { target } = &spans[i].kind {
            r.push(
                Link {
                    site: site_name(&target.site),
                    lang: target.lang.clone(),
                    title: target.title.clone(),
                    fragment: clone_opt(&target.fragment),
                },
            );
            assert(r@.map_values(|x: Link| x@) =~= before.map_values(|x: Link| x@).push(
                link_view(*target),
            ));
        }
        i = i + 1;
    }
    assert(r@.map_values(|x: Link| x@) + Seq::<LinkV>::empty() =~= r@.map_values(|x: Link| x@));
    r
}

pub open spec fn annotation_view(a: Annotation) -> AnnotationOutV {
    AnnotationOutV {
        kind: annotation_kind_name(a.kind),
        text: a.text.text@,
        wikitext: trim(a.text.wikitext@),
    }
}

fn annotation_out(a: &Annotation) -> (r: AnnotationOut)
    ensures
        r@ == annotation_view(*a),
{
    AnnotationOut {
        kind: annotation_kind_name_exec(a.kind),
        text: a.text.text.clone(),
        wikitext: string_of(&trim_exec(&chars_of(a.text.wikitext.as_str()))),
    }
}

/// Removes a leading label such as `Translation:` (up to twenty bytes).
pub open spec fn strip_label(text: Seq<char>) -> Seq<char> {
    match split_once(text, ':') {
        Some((label, rest)) => if utf8_len(label) <= 20 {
            trim(rest)
        } else {
            trim(text)
        },
        None => trim(text),
    }
}

fn strip_label_exec(text: &Vec<char>) -> (r: Vec<char>)
    ensures
        r@ == strip_label(text@),
{
    match split_once_exec(text, ':') {
        Some((label, rest)) => {
            if !utf8_len_at_least(&label, 21) {
                trim_exec(&rest)
            } else {
                trim_exec(text)
            }
        },
        None => trim_exec(text),
    }
}

// --- who said it ------------------------------------------------------------

/// An italic span of `spans` covers `span`.
pub open spec fn in_italics(spans: Seq<Span>, span: Span) -> bool {
    exists|k: int|
        0 <= k < spans.len() && crate::citation::is_italic_kind(#[trigger] spans[k].kind)
            && spans[k].start <= span.start && spans[k].end >= span.end
}

fn in_italics_exec(spans: &Vec<Span>, span: &Span) -> (r: bool)
    ensures
        r == in_italics(spans@, *span),
{
    let mut k: usize = 0;
    while k < spans.len()
        invariant
            k <= spans.len(),
            forall|m: int|
                0 <= m < k ==> !(crate::citation::is_italic_kind(#[trigger] spans@[m].kind)
                    && spans@[m].start <= span.start && spans@[m].end >= span.end),
        decreases spans.len() - k,
    {
        let italic = match spans[k].kind {
            SpanKind::Italic => true,
            SpanKind::BoldItalic => true,
            _ => false,
        };
        if italic && spans[k].start <= span.start && spans[k].end >= span.end {
            return true;
        }
        k = k + 1;
    }
    false
}

/// A link span that no italic span covers.
pub open spec fn plain_link(spans: Seq<Span>, span: Span) -> bool {
    span.kind is Link && !in_italics(spans, span)
}

/// The plain link that starts first (the earliest of equals), from `i` on.
pub open spec fn first_link_from(spans: Seq<Span>, i: int, best: Option<int>) -> Option<int>
    decreases spans.len() - i,
{
    if i < 0 || i >= spans.len() {
        best
    } else if plain_link(spans, spans[i]) && (best is None || spans[i].start
        < spans[best->0].start) {
        first_link_from(spans, i + 1, Some(i))
    } else {
        first_link_from(spans, i + 1, best)
    }
}

proof fn lemma_first_link_from(spans: Seq<Span>, i: int, best: Option<int>)
    requires
        0 <= i,
        best matches Some(b) ==> 0 <= b < spans.len() && plain_link(spans, spans[b]),
    ensures
        first_link_from(spans, i, best) matches Some(b) ==> 0 <= b < spans.len() && plain_link(
            spans,
            spans[b],
        ),
    decreases spans.len() - i,
{
    if i < spans.len() {
        if plain_link(spans, spans[i]) && (best is None || spans[i].start
            < spans[best->0].start) {
            lemma_first_link_from(spans, i + 1, Some(i));
        } else {
            lemma_first_link_from(spans, i + 1, best);
        }
    }
}

/// The author named inside a `{{cite …}}` call, from span `i` on: `author`,
/// or `first last`, or `last`.
pub open spec fn cite_author_from(spans: Seq<Span>, i: int) -> Option<Seq<char>>
    decreases spans.len() - i,
{
    if i < 0 || i >= spans.len() {
        None
    } else {
        match spans[i].kind {
            SpanKind::Template(t) => if !starts_with(t.name@, "cite"@) && t.name@ != "citation"@ {
                cite_author_from(spans, i + 1)
            } else if nonempty_param(t, "author"@) is Some {
                nonempty_param(t, "author"@)
            } else if nonempty_param(t, "last"@) is Some {
                let last = nonempty_param(t, "last"@)->0;
                match nonempty_param(t, "first"@) {
                    Some(first) => Some(first + " "@ + last),
                    None => Some(last),
                }
            } else {
                cite_author_from(spans, i + 1)
            },
            _ => cite_author_from(spans, i + 1),
        }
    }
}

fn cite_author(text: &RichText) -> (r: Option<Vec<char>>)
    ensures
        match r {
            Some(v) => cite_author_from(text.spans@, 0) == Some(v@),
            None => cite_author_from(text.spans@, 0) is None,
        },
{
    let mut i: usize = 0;
    while i < text.spans.len()
        invariant
            i <= text.spans.len(),
            cite_author_from(text.spans@, i as int) == cite_author_from(text.spans@, 0),
        decreases text.spans.len() - i,
    {
        if let SpanKind::Template(t) = &text.spans[i].kind {
            let name = chars_of(t.name.as_str());
            if starts_with_lit(&name, "cite") || eq_lit(&name, "citation") {
                if let Some(author) = t.param_nonempty("author") {
                    return Some(author);
                }
                if let Some(last) = t.param_nonempty("last") {
                    match t.param_nonempty("first") {
                        Some(first) => {
                            let mut full = first;
                            append_lit(&mut full, " ");
                            append(&mut full, &last);
                            return Some(full);
                        },
                        None => {
                            return Some(last);
                        },
                    }
                }
            }
        }
        i = i + 1;
    }
    None
}

/// An agent with only a name and a kind.
pub open spec fn bare_agent(name: Seq<char>, kind: Seq<char>) -> AgentV {
    AgentV {
        name,
        kind,
        link_site: None,
        link_lang: None,
        link_title: None,
        played_by: None,
    }
}

/// The words before the first comma, trimmed.
pub open spec fn head_of(text: Seq<char>) -> Seq<char> {
    match find_char(text, ',') {
        Some(k) => trim(text.take(k)),
        None => trim(text),
    }
}

/// A short capitalised run of at most five words that does not end a
/// sentence reads as a name.
pub open spec fn looks_like_a_name(head: Seq<char>) -> bool {
    head.len() > 0 && utf8_len(head) <= 60 && words(head).len() <= 5 && uppercase_letter(head[0])
        && !ends_with(head, "."@)
}

/// The person a citation names. Usually the first link that is not part of a
/// work title; else the author of a `{{cite …}}` call; else the words before
/// the first comma when they read as a name.
pub open spec fn agent_spec(text: RichText) -> Option<AgentV> {
    let spans = text.spans@;
    let link = first_link_from(spans, 0, None);
    let linked = match link {
        Some(b) => match spans[b].kind {
            SpanKind::Link { target } => if target.site is Wikisource {
                None
            } else {
                Some((b, target))
            },
            _ => None,
        },
        None => None,
    };
    let shown = match linked {
        Some((b, target)) => Some(byte_get(text.text@, spans[b].start as int, spans[b].end as int)),
        None => None,
    };
    if shown matches Some(None) {
        None
    } else if shown matches Some(Some(t)) && trim(t).len() > 0 {
        let target = linked->0;
        let name = trim(shown->0->0);
        Some(AgentV {
            name,
            kind: "person"@,
            link_site: Some(site_name_spec(target.1.site@)),
            link_lang: Some(target.1.lang@),
            link_title: Some(target.1.title@),
            played_by: None,
        })
    } else if cite_author_from(spans, 0) is Some {
        Some(bare_agent(cite_author_from(spans, 0)->0, "person"@))
    } else if looks_like_a_name(head_of(text.text@)) {
        Some(bare_agent(head_of(text.text@), "unknown"@))
    } else {
        None
    }
}

fn agent(
    name: Vec<char>,
    kind: &str,
    site: Option<String>,
    lang: Option<String>,
    title: Option<String>,
) -> (r: Agent)
    ensures
        r@ == (AgentV {
            name: name@,
            kind: kind@,
            link_site: site.deep_view(),
            link_lang: lang.deep_view(),
            link_title: title.deep_view(),
            played_by: None,
        }),
{
    Agent {
        name: string_of(&name),
        kind: lit(kind),
        link_site: site,
        link_lang: lang,
        link_title: title,
        played_by: None,
    }
}

fn agent_of(text: &RichText) -> (r: Option<Agent>)
    ensures
        match r {
            Some(a) => agent_spec(*text) == Some(a@),
            None => agent_spec(*text) is None,
        },
{
    let spans = &text.spans;
    let mut best: Option<usize> = None;
    let mut i: usize = 0;
    while i < spans.len()
        invariant
            i <= spans.len(),
            best matches Some(b) ==> b < spans.len() && plain_link(spans@, spans@[b as int]),
            first_link_from(
                spans@,
                i as int,
                match best {
                    Some(b) => Some(b as int),
                    None => None,
                },
            ) == first_link_from(spans@, 0, None),
        decreases spans.len() - i,
    {
        let is_link = match spans[i].kind {
            SpanKind::Link { .. } => true,
            _ => false,
        };
        if is_link && !in_italics_exec(spans, &spans[i]) {
            let better = match best {
                None => true,
                Some(b) => spans[i].start < spans[b].start,
            };
            if better {
                best = Some(i);
            }
        }
        i = i + 1;
    }
    let tchars = chars_of(text.text.as_str());
    if let Some(b) = best {
        if let SpanKind::Link { target } = &spans[b].kind {
            let wikisource = match target.site {
                crate::model::Site::Wikisource => true,
                _ => false,
            };
            if !wikisource {
                let shown = match byte_get_exec(&tchars, spans[b].start, spans[b].end) {
                    Some(t) => t,
                    None => {
                        return None;
                    },
                };
                let name = trim_exec(&shown);
                if name.len() > 0 {
                    return Some(
                        agent(
                            name,
                            "person",
                            Some(site_name(&target.site)),
                            Some(target.lang.clone()),
                            Some(target.title.clone()),
                        ),
                    );
                }
            }
        }
    }
    if let Some(author) = cite_author(text) {
        return Some(agent(author, "person", None, None, None));
    }
    let head = match find_char_exec(&tchars, ',') {
        Some(k) => {
            assert(tchars@.take(k as int) =~= tchars@.subrange(0, k as int));
            trim_exec(&slice_of(&tchars, 0, k))
        },
        None => trim_exec(&tchars),
    };
    let looks = head.len() > 0 && !utf8_len_at_least(&head, 61) && words_exec(&head).len() <= 5
        && is_uppercase(head[0]) && !ends_with_lit(&head, ".");
    if looks {
        Some(agent(head, "unknown", None, None, None))
    } else {
        None
    }
}

// --- identifiers ------------------------------------------------------------

/// What `blake3::hash` gives for the UTF-8 bytes of a text, in lowercase hex.
pub uninterp spec fn blake3_hex(data: Seq<char>) -> Seq<char>;

/// A lowercase hexadecimal digit.
pub open spec fn lower_hex(c: char) -> bool {
    ('0' <= c && c <= '9') || ('a' <= c && c <= 'f')
}

/// `blake3::hash(data.as_bytes()).to_hex()`. The digest is named, not spelled
/// out; the crate documents the hex form as 64 lowercase hex characters.
#[verifier::external_body]
fn blake3_hex_of(data: &str) -> (r: String)
    ensures
        r@ == blake3_hex(data@),
        r@.len() == 64,
        forall|i: int| 0 <= i < 64 ==> lower_hex(#[trigger] r@[i]),
{
    blake3::hash(data.as_bytes()).to_hex().to_string()
}

/// The first sixteen hex digits of the BLAKE3 digest of a text.
pub open spec fn short_hash(data: Seq<char>) -> Seq<char> {
    blake3_hex(data).take(16)
}

fn short_hash_exec(data: &Vec<char>) -> (r: String)
    ensures
        r@ == short_hash(data@),
        r@.len() == 16,
        forall|i: int| 0 <= i < 16 ==> lower_hex(#[trigger] r@[i]),
{
    let s = string_of(data);
    let h = blake3_hex_of(s.as_str());
    let c = chars_of(h.as_str());
    let r = string_of(&slice_of(&c, 0, 16));
    assert forall|i: int| 0 <= i < 16 implies lower_hex(#[trigger] r@[i]) by {
        assert(r@[i] == h@[i]);
    }
    r
}

/// Stable across runs: the page, the heading path and the position.
pub open spec fn quote_id_spec(title: Seq<char>, path: Seq<Seq<char>>, index: nat) -> Seq<char> {
    short_hash(title + "\n"@ + join(path, "/"@) + "\n"@ + crate::number::decimal(index))
}

fn quote_id(title: &String, path: &Vec<String>, index: u128) -> (r: String)
    ensures
        r@ == quote_id_spec(title@, path.deep_view(), index as nat),
        r@.len() == 16,
        forall|i: int| 0 <= i < 16 ==> lower_hex(#[trigger] r@[i]),
{
    let mut parts: Vec<Vec<char>> = Vec::new();
    let mut i: usize = 0;
    while i < path.len()
        invariant
            i <= path.len(),
            views(parts@) =~= path.deep_view().take(i as int),
        decreases path.len() - i,
    {
        let ghost before = parts@;
        parts.push(chars_of(path[i].as_str()));
        assert(views(parts@) =~= views(before).push(path@[i as int]@));
        assert(path.deep_view().take(i + 1) =~= path.deep_view().take(i as int).push(
            path@[i as int]@,
        ));
        i = i + 1;
    }
    assert(path.deep_view().take(path.len() as int) =~= path.deep_view());
    let mut key = chars_of(title.as_str());
    append_lit(&mut key, "\n");
    append(&mut key, &join_exec(&parts, &chars_of("/")));
    append_lit(&mut key, "\n");
    append(&mut key, &crate::number::decimal_exec(index));
    short_hash_exec(&key)
}

/// The same words get the same hash, whatever the spacing and the case.
pub open spec fn content_hash_spec(text: Seq<char>) -> Seq<char> {
    short_hash(lowercase(join(words(text), " "@)))
}

fn content_hash(text: &String) -> (r: String)
    ensures
        r@ == content_hash_spec(text@),
        r@.len() == 16,
        forall|i: int| 0 <= i < 16 ==> lower_hex(#[trigger] r@[i]),
{
    let w = words_exec(&chars_of(text.as_str()));
    let joined = join_exec(&w, &chars_of(" "));
    short_hash_exec(&lower(&joined))
}


// --- the page ---------------------------------------------------------------

/// What the page is about, as an agent, linked to the Wikipedia article of
/// the same title in the same language.
pub open spec fn subject_spec(d: Document) -> AgentV {
    AgentV {
        name: d.title@,
        kind: match d.page_type {
            PageType::Person => "person"@,
            PageType::Theme | PageType::Unknown | PageType::List => "topic"@,
            _ => "work"@,
        },
        link_site: Some("wikipedia"@),
        link_lang: Some(d.wiki_language@),
        link_title: Some(d.title@),
        played_by: None,
    }
}

fn subject_of(d: &Document) -> (r: Agent)
    ensures
        r@ == subject_spec(*d),
{
    let kind = match d.page_type {
        PageType::Person => "person",
        PageType::Theme | PageType::Unknown | PageType::List => "topic",
        _ => "work",
    };
    Agent {
        name: d.title.clone(),
        kind: lit(kind),
        link_site: Some(lit("wikipedia")),
        link_lang: Some(d.wiki_language.clone()),
        link_title: Some(d.title.clone()),
        played_by: None,
    }
}

/// `[[Leah Lewis]] as Ellie Chu` read as the pair (character, actor).
pub open spec fn cast_entry(t: Seq<char>) -> Seq<(Seq<char>, Seq<char>)> {
    match crate::text::find(t, " as "@) {
        Some(k) => seq![(trim(t.skip(k + " as "@.len())), trim(t.take(k)))],
        None => Seq::empty(),
    }
}

/// The plain text of a list entry, when the block is one.
pub open spec fn entry_text(b: Block) -> Option<Seq<char>> {
    match b {
        Block::Item(t) => Some(t.text@),
        Block::Quote(item) => Some(item.text.text@),
        _ => None,
    }
}

pub open spec fn cast_blocks(blocks: Seq<Block>, i: int) -> Seq<(Seq<char>, Seq<char>)>
    decreases blocks.len() - i,
{
    if i < 0 || i >= blocks.len() {
        Seq::empty()
    } else {
        (match entry_text(blocks[i]) {
            Some(t) => cast_entry(t),
            None => Seq::empty(),
        }) + cast_blocks(blocks, i + 1)
    }
}

/// The cast entries of a section and of every section below it, page order.
pub open spec fn cast_section(s: Section) -> Seq<(Seq<char>, Seq<char>)>
    decreases s, 1nat, 0nat,
{
    (if s.role is Cast {
        cast_blocks(s.blocks@, 0)
    } else {
        Seq::empty()
    }) + cast_children(s, 0)
}

pub open spec fn cast_children(s: Section, i: int) -> Seq<(Seq<char>, Seq<char>)>
    decreases s, 0nat, s.sections@.len() - i,
{
    if i < 0 || i >= s.sections@.len() {
        Seq::empty()
    } else {
        cast_section(s.sections@[i]) + cast_children(s, i + 1)
    }
}

pub open spec fn cast_top(ss: Seq<Section>, i: int) -> Seq<(Seq<char>, Seq<char>)>
    decreases ss.len() - i,
{
    if i < 0 || i >= ss.len() {
        Seq::empty()
    } else {
        cast_section(ss[i]) + cast_top(ss, i + 1)
    }
}

/// Every `actor as character` line of every Cast section, in page order.
pub open spec fn cast_spec(d: Document) -> Seq<(Seq<char>, Seq<char>)> {
    cast_top(d.sections@, 0)
}

/// Who played a character: the last entry for that name wins.
pub open spec fn cast_lookup(cast: Seq<(Seq<char>, Seq<char>)>, name: Seq<char>) -> Option<
    Seq<char>,
>
    decreases cast.len(),
{
    if cast.len() == 0 {
        None
    } else if cast.last().0 == name {
        Some(cast.last().1)
    } else {
        cast_lookup(cast.drop_last(), name)
    }
}

pub open spec fn pairs_view(v: Seq<(Vec<char>, Vec<char>)>) -> Seq<(Seq<char>, Seq<char>)> {
    v.map_values(|p: (Vec<char>, Vec<char>)| (p.0@, p.1@))
}

fn push_pairs(out: &mut Vec<(Vec<char>, Vec<char>)>, more: Vec<(Vec<char>, Vec<char>)>)
    ensures
        pairs_view(final(out)@) == pairs_view(old(out)@) + pairs_view(more@),
{
    let mut more = more;
    let ghost m = more@;
    let mut tmp: Vec<(Vec<char>, Vec<char>)> = Vec::new();
    while more.len() > 0
        invariant
            pairs_view(tmp@) + pairs_view(more@).reverse() =~= pairs_view(m).reverse(),
        decreases more.len(),
    {
        let ghost before_more = more@;
        let ghost before_tmp = tmp@;
        let x = more.pop().unwrap();
        tmp.push(x);
        assert(pairs_view(before_more).reverse() =~= seq![(x.0@, x.1@)] + pairs_view(more@).reverse());
        assert(pairs_view(tmp@) =~= pairs_view(before_tmp).push((x.0@, x.1@)));
    }
    let ghost start = out@;
    while tmp.len() > 0
        invariant
            pairs_view(out@) + pairs_view(tmp@).reverse() =~= pairs_view(start) + pairs_view(m),
        decreases tmp.len(),
    {
        let ghost before_tmp = tmp@;
        let ghost before_out = out@;
        let x = tmp.pop().unwrap();
        out.push(x);
        assert(pairs_view(before_tmp).reverse() =~= seq![(x.0@, x.1@)] + pairs_view(tmp@).reverse());
        assert(pairs_view(out@) =~= pairs_view(before_out).push((x.0@, x.1@)));
    }
}

fn cast_entry_exec(t: &Vec<char>) -> (r: Vec<(Vec<char>, Vec<char>)>)
    ensures
        pairs_view(r@) == cast_entry(t@),
{
    let mut r: Vec<(Vec<char>, Vec<char>)> = Vec::new();
    let sep = chars_of(" as ");
    match crate::text::find_exec(t, &sep) {
        Some(k) => {
            proof {
                crate::text::lemma_find_from_bounds(t@, sep@, 0);
            }
            let actor = trim_exec(&slice_of(t, 0, k));
            let character = trim_exec(&slice_of(t, k + sep.len(), t.len()));
            assert(t@.take(k as int) =~= t@.subrange(0, k as int));
            assert(t@.skip(k + sep@.len()) =~= t@.subrange(k + sep@.len(), t@.len() as int));
            r.push((character, actor));
            assert(pairs_view(r@) =~= cast_entry(t@));
        },
        None => {
            assert(pairs_view(r@) =~= cast_entry(t@));
        },
    }
    r
}

fn cast_blocks_exec(blocks: &Vec<Block>) -> (r: Vec<(Vec<char>, Vec<char>)>)
    ensures
        pairs_view(r@) == cast_blocks(blocks@, 0),
{
    let mut r: Vec<(Vec<char>, Vec<char>)> = Vec::new();
    let mut i: usize = 0;
    while i < blocks.len()
        invariant
            i <= blocks.len(),
            pairs_view(r@) + cast_blocks(blocks@, i as int) == cast_blocks(blocks@, 0),
        decreases blocks.len() - i,
    {
        let ghost before = pairs_view(r@);
        let text = match &blocks[i] {
            Block::Item(t) => Some(chars_of(t.text.as_str())),
            Block::Quote(item) => Some(chars_of(item.text.text.as_str())),
            _ => None,
        };
        match text {
            Some(t) => {
                let e = cast_entry_exec(&t);
                push_pairs(&mut r, e);
            },
            None => {},
        }
        assert(before + cast_blocks(blocks@, i as int) =~= pairs_view(r@) + cast_blocks(
            blocks@,
            i + 1,
        ));
        i = i + 1;
    }
    assert(pairs_view(r@) + Seq::<(Seq<char>, Seq<char>)>::empty() =~= pairs_view(r@));
    r
}

fn cast_section_exec(s: &Section, out: &mut Vec<(Vec<char>, Vec<char>)>)
    ensures
        pairs_view(final(out)@) == pairs_view(old(out)@) + cast_section(*s),
    decreases *s, 1nat, 0nat,
{
    let ghost start = pairs_view(out@);
    let is_cast = match s.role {
        SectionRole::Cast => true,
        _ => false,
    };
    if is_cast {
        let b = cast_blocks_exec(&s.blocks);
        push_pairs(out, b);
    }
    let ghost mid = pairs_view(out@);
    cast_children_exec(s, 0, out);
    assert(pairs_view(out@) =~= start + cast_section(*s));
}

fn cast_children_exec(s: &Section, i: usize, out: &mut Vec<(Vec<char>, Vec<char>)>)
    requires
        i <= s.sections.len(),
    ensures
        pairs_view(final(out)@) == pairs_view(old(out)@) + cast_children(*s, i as int),
    decreases *s, 0nat, s.sections@.len() - i,
{
    if i >= s.sections.len() {
        assert(pairs_view(out@) + Seq::<(Seq<char>, Seq<char>)>::empty() =~= pairs_view(out@));
        return;
    }
    let ghost start = pairs_view(out@);
    cast_section_exec(&s.sections[i], out);
    cast_children_exec(s, i + 1, out);
    assert(pairs_view(out@) =~= start + cast_children(*s, i as int));
}

fn cast_of(d: &Document) -> (r: Vec<(Vec<char>, Vec<char>)>)
    ensures
        pairs_view(r@) == cast_spec(*d),
{
    let mut r: Vec<(Vec<char>, Vec<char>)> = Vec::new();
    let mut i: usize = 0;
    while i < d.sections.len()
        invariant
            i <= d.sections.len(),
            pairs_view(r@) + cast_top(d.sections@, i as int) == cast_top(d.sections@, 0),
        decreases d.sections.len() - i,
    {
        let ghost before = pairs_view(r@);
        cast_section_exec(&d.sections[i], &mut r);
        assert(before + cast_top(d.sections@, i as int) =~= pairs_view(r@) + cast_top(
            d.sections@,
            i + 1,
        ));
        i = i + 1;
    }
    assert(pairs_view(r@) + Seq::<(Seq<char>, Seq<char>)>::empty() =~= pairs_view(r@));
    r
}

fn cast_lookup_exec(cast: &Vec<(Vec<char>, Vec<char>)>, name: &Vec<char>) -> (r: Option<String>)
    ensures
        r.deep_view() == cast_lookup(pairs_view(cast@), name@),
{
    let mut j: usize = cast.len();
    assert(pairs_view(cast@).take(cast.len() as int) =~= pairs_view(cast@));
    while j > 0
        invariant
            j <= cast.len(),
            cast_lookup(pairs_view(cast@).take(j as int), name@) == cast_lookup(
                pairs_view(cast@),
                name@,
            ),
        decreases j,
    {
        assert(pairs_view(cast@).take(j as int).drop_last() =~= pairs_view(cast@).take(j - 1));
        if eq_chars(&cast[j - 1].0, name) {
            return Some(string_of(&cast[j - 1].1));
        }
        j = j - 1;
    }
    assert(pairs_view(cast@).take(0) =~= Seq::<(Seq<char>, Seq<char>)>::empty());
    assert(pairs_view(cast@).take(cast.len() as int) =~= pairs_view(cast@));
    None
}


// --- the walk down the sections ---------------------------------------------

/// What the walk carries down the section tree: the literal heading texts,
/// the sections whose heading says something about the source, and the
/// nearest role that says what kind of quotes these are.
pub struct Ctx<'a> {
    pub path: Vec<String>,
    pub parts: Vec<&'a Section>,
    pub role: SectionRole,
}

pub struct CtxV {
    pub path: Seq<Seq<char>>,
    pub parts: Seq<Section>,
    pub role: RoleV,
}

pub open spec fn ctx_view(c: Ctx) -> CtxV {
    CtxV {
        path: c.path.deep_view(),
        parts: c.parts@.map_values(|s: &Section| *s),
        role: c.role@,
    }
}

/// The context below a section heading. A heading such as a work title or a
/// sort letter says nothing about what kind of quotes follow, so the nearest
/// one that does still holds.
pub open spec fn child_ctx(parent: CtxV, s: Section) -> CtxV {
    CtxV {
        path: parent.path.push(s.heading.text@),
        parts: if s.source_hint is Some {
            parent.parts.push(s)
        } else {
            parent.parts
        },
        role: match s.role@ {
            RoleV::Other(_) | RoleV::AlphaBucket(_) | RoleV::Episodes => parent.role,
            r => r,
        },
    }
}

pub open spec fn root_ctx() -> CtxV {
    CtxV { path: Seq::empty(), parts: Seq::empty(), role: RoleV::Quotes }
}

fn copy_role(r: &SectionRole) -> (c: SectionRole)
    ensures
        c@ == r@,
{
    match r {
        SectionRole::Quotes => SectionRole::Quotes,
        SectionRole::QuotesAbout => SectionRole::QuotesAbout,
        SectionRole::Attributed => SectionRole::Attributed,
        SectionRole::Disputed => SectionRole::Disputed,
        SectionRole::Misattributed => SectionRole::Misattributed,
        SectionRole::Unsourced => SectionRole::Unsourced,
        SectionRole::Dialogue => SectionRole::Dialogue,
        SectionRole::Taglines => SectionRole::Taglines,
        SectionRole::SongLyrics => SectionRole::SongLyrics,
        SectionRole::Cast => SectionRole::Cast,
        SectionRole::Episodes => SectionRole::Episodes,
        SectionRole::SeeAlso => SectionRole::SeeAlso,
        SectionRole::ExternalLinks => SectionRole::ExternalLinks,
        SectionRole::References => SectionRole::References,
        SectionRole::AlphaBucket(c) => SectionRole::AlphaBucket(*c),
        SectionRole::Other(s) => SectionRole::Other(s.clone()),
    }
}

fn root_ctx_exec<'a>() -> (c: Ctx<'a>)
    ensures
        ctx_view(c) == root_ctx(),
{
    let c = Ctx { path: Vec::new(), parts: Vec::new(), role: SectionRole::Quotes };
    assert(ctx_view(c).path =~= Seq::<Seq<char>>::empty());
    assert(ctx_view(c).parts =~= Seq::<Section>::empty());
    c
}

fn child_ctx_exec<'a>(parent: &Ctx<'a>, s: &'a Section) -> (c: Ctx<'a>)
    ensures
        ctx_view(c) == child_ctx(ctx_view(*parent), *s),
{
    let mut path: Vec<String> = Vec::new();
    let mut i: usize = 0;
    while i < parent.path.len()
        invariant
            i <= parent.path.len(),
            path@.len() == i,
            forall|k: int| 0 <= k < i ==> path@[k]@ == parent.path@[k]@,
        decreases parent.path.len() - i,
    {
        path.push(parent.path[i].clone());
        i = i + 1;
    }
    assert(path.deep_view() =~= parent.path.deep_view());
    let ghost before_path = path@;
    path.push(s.heading.text.clone());
    assert(path@ =~= before_path.push(s.heading.text));
    assert(path.deep_view() =~= parent.path.deep_view().push(s.heading.text@));
    let mut parts: Vec<&'a Section> = Vec::new();
    let mut j: usize = 0;
    while j < parent.parts.len()
        invariant
            j <= parent.parts.len(),
            parts@.len() == j,
            forall|k: int| 0 <= k < j ==> parts@[k] == parent.parts@[k],
        decreases parent.parts.len() - j,
    {
        parts.push(parent.parts[j]);
        j = j + 1;
    }
    assert(parts@.map_values(|x: &Section| *x) =~= parent.parts@.map_values(|x: &Section| *x));
    if s.source_hint.is_some() {
        let ghost before = parts@;
        parts.push(s);
        assert(parts@ =~= before.push(s));
        assert(parts@.map_values(|x: &Section| *x) =~= parent.parts@.map_values(
            |x: &Section| *x,
        ).push(*s));
    }
    let role = match &s.role {
        SectionRole::Other(_) | SectionRole::AlphaBucket(_) | SectionRole::Episodes => copy_role(
            &parent.role,
        ),
        r => copy_role(r),
    };
    let c = Ctx { path, parts, role };
    assert(ctx_view(c).parts =~= child_ctx(ctx_view(*parent), *s).parts);
    c
}

// --- the source -------------------------------------------------------------

pub open spec fn is_work_page(t: PageType) -> bool {
    t == PageType::Film || t == PageType::TelevisionSeries || t == PageType::TelevisionSeason
        || t == PageType::VideoGame || t == PageType::LiteraryWork || t == PageType::MusicalWork
}

/// `field.get_or_insert(value)`: a value already there stays.
pub open spec fn or_insert(field: Option<Seq<char>>, value: Seq<char>) -> Option<Seq<char>> {
    match field {
        Some(v) => Some(v),
        None => Some(value),
    }
}

/// The season in an episode code such as `1.01`: the digits before the dot.
pub open spec fn season_of_code(code: Seq<char>) -> Option<u16> {
    let head = match find_char(code, '.') {
        Some(k) => code.take(k),
        None => code,
    };
    match crate::number::parse_unsigned(head, 10, 0xffff) {
        Some(v) => Some(v as u16),
        None => None,
    }
}

/// What the shape of a heading gives a source. A period of several years is
/// one date with an end: it enters whole, and only when no date is there yet.
pub open spec fn hint_full(fs: FullSourceV, h: HintV, is_work: bool) -> FullSourceV {
    let c = fs.cited;
    let fs1 = match h {
        HintV::Work { title, year } => match year {
            Some(y) => FullSourceV {
                work_year: Some(y),
                cited: SourceV {
                    work_title: Some(title),
                    date_iso: or_insert(c.date_iso, crate::number::padded4(y as int)),
                    date_precision: or_insert(c.date_precision, "year"@),
                    ..c
                },
                ..fs
            },
            None => FullSourceV { cited: SourceV { work_title: Some(title), ..c }, ..fs },
        },
        HintV::Episode { title, code } => FullSourceV {
            episode_title: title,
            episode_number: code,
            episode_season: match code {
                Some(k) => season_of_code(k),
                None => fs.episode_season,
            },
            ..fs
        },
        HintV::Season { number } => FullSourceV { episode_season: Some(number), ..fs },
        HintV::Period { from, to } => FullSourceV {
            cited: if from == to {
                SourceV {
                    date_iso: or_insert(c.date_iso, crate::number::padded4(from as int)),
                    date_precision: or_insert(c.date_precision, "year"@),
                    ..c
                }
            } else {
                match c.date_iso {
                    None => SourceV {
                        date_iso: Some(crate::number::padded4(from as int)),
                        date_end_iso: Some(crate::number::padded4(to as int)),
                        date_precision: Some("decade"@),
                        ..c
                    },
                    Some(_) => c,
                }
            },
            ..fs
        },
        HintV::Locator { .. } => fs,
    };
    if is_work && fs1.episode_title is Some {
        FullSourceV { episode_series: fs1.cited.work_title, ..fs1 }
    } else {
        fs1
    }
}

fn insert_if_none(field: &mut Option<String>, value: Vec<char>)
    ensures
        final(field).deep_view() == or_insert(old(field).deep_view(), value@),
{
    if field.is_none() {
        *field = Some(string_of(&value));
    }
}

fn apply_hint(source: &mut Source, h: &SourceHint, is_work: bool)
    ensures
        full_source(*final(source)) == hint_full(full_source(*old(source)), h@, is_work),
{
    match h {
        SourceHint::Work { title, year } => {
            source.work_title = Some(title.clone());
            if let Some(y) = year {
                source.work_year = Some(*y);
                insert_if_none(&mut source.date_iso, crate::number::padded4_exec(*y as i64));
                insert_if_none(&mut source.date_precision, chars_of("year"));
            }
        },
        SourceHint::Episode { title, code } => {
            source.episode_title = clone_opt(title);
            source.episode_number = clone_opt(code);
            if let Some(c) = code {
                let cc = chars_of(c.as_str());
                let head = match find_char_exec(&cc, '.') {
                    Some(k) => {
                        assert(cc@.take(k as int) =~= cc@.subrange(0, k as int));
                        slice_of(&cc, 0, k)
                    },
                    None => cc,
                };
                source.episode_season = crate::number::parse_u16(&head);
            }
        },
        SourceHint::Season { number } => {
            source.episode_season = Some(*number);
        },
        SourceHint::Period { from, to } => {
            if from == to {
                insert_if_none(&mut source.date_iso, crate::number::padded4_exec(*from as i64));
                insert_if_none(&mut source.date_precision, chars_of("year"));
            } else if source.date_iso.is_none() {
                // A span of years is one date: it goes in whole, or not at all.
                source.date_iso = Some(string_of(&crate::number::padded4_exec(*from as i64)));
                source.date_end_iso = Some(string_of(&crate::number::padded4_exec(*to as i64)));
                source.date_precision = Some(lit("decade"));
            }
        },
        SourceHint::Locator { .. } => {},
    }
    if is_work && source.episode_title.is_some() {
        source.episode_series = clone_opt(&source.work_title);
    }
}

/// The part a heading gives a source.
pub open spec fn heading_part(s: Section) -> PartV {
    PartV {
        origin: "heading"@,
        level: Some(s.level),
        hint: match s.source_hint {
            Some(h) => Some(hint_name(h@)),
            None => None,
        },
        raw: s.heading.wikitext@,
    }
}

/// A heading with a hint, added to a source: its part, its hint, and what
/// its text says as a citation.
pub open spec fn heading_step(fs: FullSourceV, s: Section, is_work: bool) -> FullSourceV {
    let f1 = FullSourceV { parts: fs.parts.push(heading_part(s)), ..fs };
    let f2 = match s.source_hint {
        Some(h) => hint_full(f1, h@, is_work),
        None => f1,
    };
    FullSourceV { cited: crate::citation::apply_spec(f2.cited, s.heading), ..f2 }
}

/// The headings, outermost first.
pub open spec fn headings_fold(fs: FullSourceV, ss: Seq<Section>, is_work: bool) -> FullSourceV
    decreases ss.len(),
{
    if ss.len() == 0 {
        fs
    } else {
        heading_step(headings_fold(fs, ss.drop_last(), is_work), ss.last(), is_work)
    }
}

/// The part a citation line gives.
pub open spec fn annotation_part(a: Annotation) -> PartV {
    PartV { origin: "annotation"@, level: None, hint: None, raw: trim(a.text.wikitext@) }
}

/// A citation line added to a source.
pub open spec fn annotation_step(fs: FullSourceV, a: Annotation) -> FullSourceV {
    FullSourceV {
        parts: fs.parts.push(annotation_part(a)),
        cited: crate::citation::apply_spec(fs.cited, a.text),
        ..fs
    }
}

pub open spec fn is_citation(a: Annotation, all: bool) -> bool {
    all || a.kind == AnnotationKind::Citation || a.kind == AnnotationKind::Attribution
}

/// The annotations that are citations (all of them when `all` is set).
pub open spec fn citations(anns: Seq<Annotation>, all: bool) -> Seq<Annotation>
    decreases anns.len(),
{
    if anns.len() == 0 {
        anns
    } else if is_citation(anns.last(), all) {
        citations(anns.drop_last(), all).push(anns.last())
    } else {
        citations(anns.drop_last(), all)
    }
}

pub open spec fn annotations_fold(fs: FullSourceV, anns: Seq<Annotation>) -> FullSourceV
    decreases anns.len(),
{
    if anns.len() == 0 {
        fs
    } else {
        annotation_step(annotations_fold(fs, anns.drop_last()), anns.last())
    }
}

/// The trimmed, non-empty raw texts of the parts, in order.
pub open spec fn raw_list(ps: Seq<PartV>) -> Seq<Seq<char>>
    decreases ps.len(),
{
    if ps.len() == 0 {
        Seq::empty()
    } else if trim(ps.last().raw).len() > 0 {
        raw_list(ps.drop_last()).push(trim(ps.last().raw))
    } else {
        raw_list(ps.drop_last())
    }
}

/// A source that names something a reader could look up. One made only of a
/// locator, such as a lone "p. 223", is not complete.
pub open spec fn is_complete(fs: FullSourceV) -> bool {
    fs.cited.work_title is Some || fs.cited.occasion is Some || fs.cited.date_iso is Some
        || fs.episode_title is Some || fs.cited.publication is Some
}

pub open spec fn empty_source() -> FullSourceV {
    FullSourceV {
        cited: SourceV {
            work_title: None,
            work_type: None,
            work_link_site: None,
            work_link_title: None,
            date_iso: None,
            date_end_iso: None,
            date_precision: None,
            date_raw: None,
            locator_page: None,
            locator_chapter: None,
            locator_part: None,
            locator_act_scene: None,
            locator_line: None,
            publication: None,
            publisher: None,
            isbn: None,
            url: None,
            occasion: None,
            cite_templates: Seq::empty(),
        },
        raw: Seq::empty(),
        complete: false,
        parts: Seq::empty(),
        work_year: None,
        episode_series: None,
        episode_season: None,
        episode_number: None,
        episode_title: None,
    }
}

/// A work page is itself the first part of every source on it.
pub open spec fn work_page_source(d: Document) -> FullSourceV {
    let e = empty_source();
    FullSourceV {
        parts: seq![PartV { origin: "page_subject"@, level: None, hint: None, raw: d.title@ }],
        cited: SourceV {
            work_title: Some(d.title@),
            work_type: Some(work_type_of(d.page_type)),
            work_link_site: Some("wikiquote"@),
            work_link_title: Some(d.title@),
            ..e.cited
        },
        ..e
    }
}

/// On a person's page, a work that no template gave a kind is a book:
/// people are quoted from what they wrote.
pub open spec fn default_work_type(d: Document, fs: FullSourceV) -> FullSourceV {
    if d.page_type == PageType::Person && fs.cited.work_title is Some && fs.cited.work_type is None {
        FullSourceV { cited: SourceV { work_type: Some("book"@), ..fs.cited }, ..fs }
    } else {
        fs
    }
}

/// The source of a quote, assembled from the headings above it and the
/// citation lines below it, with the place it came from. Later parts win,
/// because the line nearest the quote is the most specific.
pub open spec fn source_spec(d: Document, ctx: CtxV, anns: Seq<Annotation>, all: bool) -> (
    Option<FullSourceV>,
    Option<Seq<char>>,
) {
    let cits = citations(anns, all);
    let work = is_work_page(d.page_type);
    if ctx.parts.len() == 0 && cits.len() == 0 && !work {
        (None, None)
    } else {
        let s1 = if work {
            work_page_source(d)
        } else {
            empty_source()
        };
        let s3 = default_work_type(d, annotations_fold(headings_fold(s1, ctx.parts, work), cits));
        let s4 = FullSourceV {
            raw: join(raw_list(s3.parts), " \u{2014} "@),
            ..s3
        };
        let s5 = FullSourceV { complete: is_complete(s4), ..s4 };
        let origin = if ctx.parts.len() > 0 && cits.len() > 0 {
            "mixed"@
        } else if ctx.parts.len() > 0 {
            "heading"@
        } else if cits.len() > 0 {
            "annotation"@
        } else {
            "page_subject"@
        };
        (Some(s5), Some(origin))
    }
}

fn empty_source_exec() -> (s: Source)
    ensures
        full_source(s) == empty_source(),
{
    let s = Source {
        raw: String::new(),
        complete: false,
        parts: Vec::new(),
        work_title: None,
        work_type: None,
        work_year: None,
        work_link_site: None,
        work_link_title: None,
        episode_series: None,
        episode_season: None,
        episode_number: None,
        episode_title: None,
        date_iso: None,
        date_end_iso: None,
        date_precision: None,
        date_raw: None,
        locator_page: None,
        locator_chapter: None,
        locator_part: None,
        locator_act_scene: None,
        locator_line: None,
        publication: None,
        publisher: None,
        isbn: None,
        url: None,
        occasion: None,
        cite_templates: Vec::new(),
    };
    assert(full_source(s).cited.cite_templates =~= Seq::empty());
    assert(full_source(s).parts =~= Seq::empty());
    s
}

fn raw_of(parts: &Vec<SourcePart>) -> (r: String)
    ensures
        r@ == join(raw_list(crate::quote::parts_view(parts@)), " \u{2014} "@),
{
    let mut raws: Vec<Vec<char>> = Vec::new();
    let mut i: usize = 0;
    while i < parts.len()
        invariant
            i <= parts.len(),
            views(raws@) == raw_list(crate::quote::parts_view(parts@).take(i as int)),
        decreases parts.len() - i,
    {
        assert(crate::quote::parts_view(parts@).take(i + 1).drop_last()
            =~= crate::quote::parts_view(parts@).take(i as int));
        let t = trim_exec(&chars_of(parts[i].raw.as_str()));
        if t.len() > 0 {
            let ghost before = raws@;
            raws.push(t);
            assert(views(raws@) =~= views(before).push(t@));
        }
        i = i + 1;
    }
    assert(crate::quote::parts_view(parts@).take(parts.len() as int)
        =~= crate::quote::parts_view(parts@));
    string_of(&join_exec(&raws, &chars_of(" \u{2014} ")))
}


fn is_work_exec(t: PageType) -> (r: bool)
    ensures
        r == is_work_page(t),
{
    match t {
        PageType::Film | PageType::TelevisionSeries | PageType::TelevisionSeason
        | PageType::VideoGame | PageType::LiteraryWork | PageType::MusicalWork => true,
        _ => false,
    }
}

fn is_citation_exec(a: &Annotation, all: bool) -> (r: bool)
    ensures
        r == is_citation(*a, all),
{
    all || match a.kind {
        AnnotationKind::Citation | AnnotationKind::Attribution => true,
        _ => false,
    }
}

fn work_page_source_exec(d: &Document) -> (s: Source)
    ensures
        full_source(s) == work_page_source(*d),
{
    let mut s = empty_source_exec();
    s.parts.push(SourcePart { origin: lit("page_subject"), level: None, hint: None, raw: d.title.clone() });
    s.work_title = Some(d.title.clone());
    s.work_type = Some(work_type_of_exec(d.page_type));
    s.work_link_site = Some(lit("wikiquote"));
    s.work_link_title = Some(d.title.clone());
    assert(full_source(s).parts =~= work_page_source(*d).parts);
    s
}

pub open spec fn source_complete(s: Option<FullSourceV>) -> bool {
    match s {
        Some(f) => f.complete,
        None => false,
    }
}

proof fn lemma_citations_empty(anns: Seq<Annotation>, all: bool)
    ensures
        citations(anns, all).len() == 0 <==> forall|k: int|
            0 <= k < anns.len() ==> !is_citation(#[trigger] anns[k], all),
    decreases anns.len(),
{
    if anns.len() > 0 {
        lemma_citations_empty(anns.drop_last(), all);
        assert forall|k: int| 0 <= k < anns.len() - 1 implies anns.drop_last()[k] == anns[k] by {}
        if citations(anns, all).len() == 0 {
            assert forall|k: int| 0 <= k < anns.len() implies !is_citation(#[trigger] anns[k], all) by {
                if k < anns.len() - 1 {
                    assert(anns.drop_last()[k] == anns[k]);
                }
            }
        }
    }
}

fn add_heading(source: &mut Source, sec: &Section, work: bool)
    ensures
        full_source(*final(source)) == heading_step(full_source(*old(source)), *sec, work),
{
    let hint = match &sec.source_hint {
        Some(h) => Some(hint_name_exec(h)),
        None => None,
    };
    let ghost before = source.parts@;
    source.parts.push(
        SourcePart {
            origin: lit("heading"),
            level: Some(sec.level),
            hint,
            raw: sec.heading.wikitext.clone(),
        },
    );
    assert(crate::quote::parts_view(source.parts@) =~= crate::quote::parts_view(before).push(
        heading_part(*sec),
    ));
    if let Some(h) = &sec.source_hint {
        apply_hint(source, h, work);
    }
    crate::citation::apply(source, &sec.heading);
}

fn add_headings(source: &mut Source, parts: &Vec<&Section>, work: bool)
    ensures
        full_source(*final(source)) == headings_fold(
            full_source(*old(source)),
            parts@.map_values(|s: &Section| *s),
            work,
        ),
{
    let ghost s1 = full_source(*source);
    let ghost ps = parts@.map_values(|s: &Section| *s);
    let mut i: usize = 0;
    while i < parts.len()
        invariant
            i <= parts.len(),
            ps == parts@.map_values(|s: &Section| *s),
            full_source(*source) == headings_fold(s1, ps.take(i as int), work),
        decreases parts.len() - i,
    {
        assert(ps.take(i + 1).drop_last() =~= ps.take(i as int));
        assert(ps.take(i + 1).last() == *parts@[i as int]);
        add_heading(source, parts[i], work);
        i = i + 1;
    }
    assert(ps.take(parts.len() as int) =~= ps);
}

fn add_citation(source: &mut Source, a: &Annotation)
    ensures
        full_source(*final(source)) == annotation_step(full_source(*old(source)), *a),
{
    let ghost before = source.parts@;
    source.parts.push(
        SourcePart {
            origin: lit("annotation"),
            level: None,
            hint: None,
            raw: string_of(&trim_exec(&chars_of(a.text.wikitext.as_str()))),
        },
    );
    assert(crate::quote::parts_view(source.parts@) =~= crate::quote::parts_view(before).push(
        PartV { origin: "annotation"@, level: None, hint: None, raw: trim(a.text.wikitext@) },
    ));
    crate::citation::apply(source, &a.text);
}

fn add_citations(source: &mut Source, anns: &Vec<Annotation>, all: bool)
    ensures
        full_source(*final(source)) == annotations_fold(
            full_source(*old(source)),
            citations(anns@, all),
        ),
{
    let ghost s2 = full_source(*source);
    let mut j: usize = 0;
    while j < anns.len()
        invariant
            j <= anns.len(),
            full_source(*source) == annotations_fold(s2, citations(anns@.take(j as int), all)),
        decreases anns.len() - j,
    {
        let ghost cj = citations(anns@.take(j as int), all);
        assert(anns@.take(j + 1).drop_last() =~= anns@.take(j as int));
        assert(anns@.take(j + 1).last() == anns@[j as int]);
        if is_citation_exec(&anns[j], all) {
            assert(citations(anns@.take(j + 1), all) == cj.push(anns@[j as int]));
            assert(cj.push(anns@[j as int]).drop_last() =~= cj);
            add_citation(source, &anns[j]);
        } else {
            assert(citations(anns@.take(j + 1), all) == cj);
        }
        j = j + 1;
    }
    assert(anns@.take(anns.len() as int) =~= anns@);
}

fn has_citation(anns: &Vec<Annotation>, all: bool) -> (r: bool)
    ensures
        r == (citations(anns@, all).len() > 0),
{
    let mut has_cits = false;
    let mut k: usize = 0;
    while k < anns.len()
        invariant
            k <= anns.len(),
            has_cits == exists|m: int| 0 <= m < k && is_citation(#[trigger] anns@[m], all),
        decreases anns.len() - k,
    {
        if is_citation_exec(&anns[k], all) {
            has_cits = true;
        }
        k = k + 1;
    }
    proof {
        lemma_citations_empty(anns@, all);
    }
    has_cits
}

fn source_exec(d: &Document, ctx: &Ctx, anns: &Vec<Annotation>, all: bool) -> (r: (
    Option<Source>,
    Option<String>,
))
    ensures
        (match r.0 {
            Some(s) => Some(full_source(s)),
            None => None,
        }, r.1.deep_view()) == source_spec(*d, ctx_view(*ctx), anns@, all),
{
    let work = is_work_exec(d.page_type);
    let has_cits = has_citation(anns, all);
    if ctx.parts.len() == 0 && !has_cits && !work {
        return (None, None);
    }
    let mut source = if work {
        work_page_source_exec(d)
    } else {
        empty_source_exec()
    };
    add_headings(&mut source, &ctx.parts, work);
    add_citations(&mut source, anns, all);
    if d.page_type == PageType::Person && source.work_title.is_some()
        && source.work_type.is_none() {
        source.work_type = Some(lit("book"));
    }
    source.raw = raw_of(&source.parts);
    let complete = source.work_title.is_some() || source.occasion.is_some()
        || source.date_iso.is_some() || source.episode_title.is_some()
        || source.publication.is_some();
    source.complete = complete;
    let origin = if ctx.parts.len() > 0 && has_cits {
        "mixed"
    } else if ctx.parts.len() > 0 {
        "heading"
    } else if has_cits {
        "annotation"
    } else {
        "page_subject"
    };
    (Some(source), Some(lit(origin)))
}

// --- who said it and who it is about ----------------------------------------

/// The index of the first citation at or after `i`.
pub open spec fn first_citation(anns: Seq<Annotation>, all: bool, i: int) -> Option<int>
    decreases anns.len() - i,
{
    if i < 0 || i >= anns.len() {
        None
    } else if is_citation(anns[i], all) {
        Some(i)
    } else {
        first_citation(anns, all, i + 1)
    }
}

proof fn lemma_first_citation(anns: Seq<Annotation>, all: bool, i: int)
    requires
        0 <= i,
    ensures
        first_citation(anns, all, i) matches Some(k) ==> i <= k < anns.len(),
    decreases anns.len() - i,
{
    if i < anns.len() && !is_citation(anns[i], all) {
        lemma_first_citation(anns, all, i + 1);
    }
}

/// A rule that found nobody records no source for the speaker.
pub open spec fn attributed(a: Option<AgentV>, from: Seq<char>) -> (Option<AgentV>, Option<Seq<char>>) {
    match a {
        Some(a) => (Some(a), Some(from)),
        None => (None, None),
    }
}

pub open spec fn is_screen_page(t: PageType) -> bool {
    t == PageType::Film || t == PageType::TelevisionSeries || t == PageType::TelevisionSeason
        || t == PageType::VideoGame
}

/// Who said a quote. The rule depends on the page and on the section role:
/// a person speaks their own quotes, except in `Quotes about` (the citation
/// names the speaker) and `Misattributed` (nobody); a tagline and a proverb
/// on a proverbs page have no speaker; on a film or a game the citation
/// names a character, whose actor the Cast section gives.
pub open spec fn speaker_spec(d: Document, role: RoleV, anns: Seq<Annotation>, all: bool) -> (
    Option<AgentV>,
    Option<Seq<char>>,
) {
    let from_annotation = match first_citation(anns, all, 0) {
        Some(i) => agent_spec(anns[i].text),
        None => None,
    };
    if role is QuotesAbout {
        attributed(from_annotation, "annotation"@)
    } else if role is Taglines {
        (None, None)
    } else if d.page_type == PageType::Person && role is Misattributed {
        (None, None)
    } else if d.page_type == PageType::Person {
        (Some(subject_spec(d)), Some("page_subject"@))
    } else if d.page_type == PageType::Proverbs && role is Quotes {
        (None, None)
    } else if is_screen_page(d.page_type) {
        attributed(
            match from_annotation {
                Some(a) => Some(AgentV {
                    kind: "character"@,
                    played_by: cast_lookup(cast_spec(d), a.name),
                    ..a
                }),
                None => None,
            },
            "annotation"@,
        )
    } else {
        attributed(from_annotation, "annotation"@)
    }
}

fn copy_agent(a: &Agent) -> (r: Agent)
    ensures
        r@ == a@,
{
    Agent {
        name: a.name.clone(),
        kind: a.kind.clone(),
        link_site: clone_opt(&a.link_site),
        link_lang: clone_opt(&a.link_lang),
        link_title: clone_opt(&a.link_title),
        played_by: clone_opt(&a.played_by),
    }
}

fn attributed_exec(a: Option<Agent>, from: &str) -> (r: (Option<Agent>, Option<String>))
    ensures
        (match r.0 {
            Some(x) => Some(x@),
            None => None,
        }, r.1.deep_view()) == attributed(
            match a {
                Some(x) => Some(x@),
                None => None,
            },
            from@,
        ),
{
    match a {
        Some(agent) => (Some(agent), Some(lit(from))),
        None => (None, None),
    }
}

/// The exec side of a page: the document, who played whom, and the page
/// subject as an agent.
pub struct Page<'a> {
    pub document: &'a Document,
    pub cast: Vec<(Vec<char>, Vec<char>)>,
    pub subject: Agent,
}

pub open spec fn page_ok(p: Page) -> bool {
    pairs_view(p.cast@) == cast_spec(*p.document) && p.subject@ == subject_spec(*p.document)
}

fn speaker_exec(p: &Page, role: &SectionRole, anns: &Vec<Annotation>, all: bool) -> (r: (
    Option<Agent>,
    Option<String>,
))
    requires
        page_ok(*p),
    ensures
        (match r.0 {
            Some(x) => Some(x@),
            None => None,
        }, r.1.deep_view()) == speaker_spec(*p.document, role@, anns@, all),
{
    let mut i: usize = 0;
    while i < anns.len() && !is_citation_exec(&anns[i], all)
        invariant
            i <= anns.len(),
            first_citation(anns@, all, i as int) == first_citation(anns@, all, 0),
        decreases anns.len() - i,
    {
        i = i + 1;
    }
    let from_annotation = if i < anns.len() {
        agent_of(&anns[i].text)
    } else {
        None
    };
    let t = p.document.page_type;
    match role {
        SectionRole::QuotesAbout => {
            return attributed_exec(from_annotation, "annotation");
        },
        _ => {},
    }
    match role {
        SectionRole::Taglines => {
            return (None, None);
        },
        _ => {},
    }
    let misattributed = match role {
        SectionRole::Misattributed => true,
        _ => false,
    };
    if t == PageType::Person && misattributed {
        return (None, None);
    }
    if t == PageType::Person {
        return (Some(copy_agent(&p.subject)), Some(lit("page_subject")));
    }
    let quotes_role = match role {
        SectionRole::Quotes => true,
        _ => false,
    };
    if t == PageType::Proverbs && quotes_role {
        return (None, None);
    }
    let screen = match t {
        PageType::Film | PageType::TelevisionSeries | PageType::TelevisionSeason
        | PageType::VideoGame => true,
        _ => false,
    };
    if screen {
        let character = match from_annotation {
            Some(a) => {
                let name = chars_of(a.name.as_str());
                let played_by = cast_lookup_exec(&p.cast, &name);
                Some(Agent { kind: lit("character"), played_by, ..a })
            },
            None => None,
        };
        return attributed_exec(character, "annotation");
    }
    attributed_exec(from_annotation, "annotation")
}

/// A character named by a dialogue marker.
pub open spec fn character_spec(d: Document, name: Seq<char>, link: Option<PageRef>) -> AgentV {
    AgentV {
        name,
        kind: "character"@,
        link_site: match link {
            Some(l) => Some(site_name_spec(l.site@)),
            None => None,
        },
        link_lang: match link {
            Some(l) => Some(l.lang@),
            None => None,
        },
        link_title: match link {
            Some(l) => Some(l.title@),
            None => None,
        },
        played_by: cast_lookup(cast_spec(d), name),
    }
}

fn character_exec(p: &Page, name: &String, link: &Option<PageRef>) -> (r: Agent)
    requires
        page_ok(*p),
    ensures
        r@ == character_spec(*p.document, name@, *link),
{
    let played_by = cast_lookup_exec(&p.cast, &chars_of(name.as_str()));
    let (site, lang, title) = match link {
        Some(l) => (Some(site_name(&l.site)), Some(l.lang.clone()), Some(l.title.clone())),
        None => (None, None, None),
    };
    Agent {
        name: name.clone(),
        kind: lit("character"),
        link_site: site,
        link_lang: lang,
        link_title: title,
        played_by,
    }
}

/// Who or what a quote is about: the page subject, unless the subject is
/// the speaker or the quote is dialogue.
pub open spec fn about_spec(d: Document, role: RoleV, kind: Seq<char>) -> Seq<AgentV> {
    let subject_speaks = d.page_type == PageType::Person && !(role is QuotesAbout);
    if subject_speaks || kind == "dialogue"@ || kind == "dialogue_turn"@ {
        Seq::empty()
    } else {
        seq![subject_spec(d)]
    }
}

fn about_exec(p: &Page, role: &SectionRole, kind: &str) -> (r: Vec<Agent>)
    requires
        page_ok(*p),
    ensures
        crate::quote::agents_view(r@) == about_spec(*p.document, role@, kind@),
{
    let quotes_about = match role {
        SectionRole::QuotesAbout => true,
        _ => false,
    };
    let subject_speaks = p.document.page_type == PageType::Person && !quotes_about;
    let k = chars_of(kind);
    let mut r: Vec<Agent> = Vec::new();
    if subject_speaks || eq_lit(&k, "dialogue") || eq_lit(&k, "dialogue_turn") {
        assert(crate::quote::agents_view(r@) =~= Seq::<AgentV>::empty());
        return r;
    }
    r.push(copy_agent(&p.subject));
    assert(crate::quote::agents_view(r@) =~= seq![subject_spec(*p.document)]);
    r
}

// --- the records ------------------------------------------------------------

pub open spec fn no_provenance() -> ProvenanceV {
    ProvenanceV { speaker_from: None, source_from: None, status_from: None, unparsed_annotations: 0 }
}

/// The fields every record of one text shares, before the rules of its kind
/// fill in the speaker, the source and the status.
pub open spec fn base_spec(
    d: Document,
    ctx: CtxV,
    text: Seq<char>,
    wikitext: Seq<char>,
    spans: Seq<Span>,
    index: nat,
    kind: Seq<char>,
) -> QuoteV {
    let lang = language_spec(spans, d.wiki_language@);
    QuoteV {
        id: quote_id_spec(d.title@, ctx.path, index),
        content_hash: content_hash_spec(text),
        wiki_language: d.wiki_language@,
        page_title: d.title@,
        page_id: d.page_id,
        page_type: page_type_name(d.page_type),
        revision_id: d.revision_id,
        text,
        wikitext,
        language: lang.0,
        language_from: lang.1,
        kind,
        status: "unsourced"@,
        speaker: None,
        about: Seq::empty(),
        source: None,
        context_path: ctx.path,
        annotations: Seq::empty(),
        translations: Seq::empty(),
        links: links_from(spans, 0),
        provenance: no_provenance(),
    }
}

fn copy_path(path: &Vec<String>) -> (r: Vec<String>)
    ensures
        r.deep_view() == path.deep_view(),
{
    let mut r: Vec<String> = Vec::new();
    let mut i: usize = 0;
    while i < path.len()
        invariant
            i <= path.len(),
            r@.len() == i,
            forall|k: int| 0 <= k < i ==> r@[k]@ == path@[k]@,
        decreases path.len() - i,
    {
        r.push(path[i].clone());
        i = i + 1;
    }
    assert(r.deep_view() =~= path.deep_view());
    r
}

fn base_exec(
    d: &Document,
    ctx: &Ctx,
    text: &String,
    wikitext: &String,
    spans: &Vec<Span>,
    index: u128,
    kind: &str,
) -> (q: Quote)
    ensures
        q@ == base_spec(*d, ctx_view(*ctx), text@, wikitext@, spans@, index as nat, kind@),
{
    let (language, language_from) = language_of(spans, &d.wiki_language);
    let q = Quote {
        id: quote_id(&d.title, &ctx.path, index),
        content_hash: content_hash(text),
        wiki_language: d.wiki_language.clone(),
        page_title: d.title.clone(),
        page_id: d.page_id,
        page_type: page_type_name_exec(d.page_type),
        revision_id: d.revision_id,
        text: text.clone(),
        wikitext: wikitext.clone(),
        language,
        language_from,
        kind: lit(kind),
        status: lit("unsourced"),
        speaker: None,
        about: Vec::new(),
        source: None,
        context_path: copy_path(&ctx.path),
        annotations: Vec::new(),
        translations: Vec::new(),
        links: links_of(spans),
        provenance: Provenance {
            speaker_from: None,
            source_from: None,
            status_from: None,
            unparsed_annotations: 0,
        },
    };
    assert(q@.about =~= Seq::<AgentV>::empty());
    assert(q@.annotations =~= Seq::<AnnotationOutV>::empty());
    assert(q@.translations =~= Seq::<TranslationV>::empty());
    q
}

/// The kind of a `*` quote: from the section role, else from the page.
pub open spec fn item_kind(d: Document, role: RoleV) -> Seq<char> {
    match role {
        RoleV::Taglines => "tagline"@,
        RoleV::SongLyrics => "lyric"@,
        _ => if d.page_type == PageType::Proverbs {
            "proverb"@
        } else {
            "monologue"@
        },
    }
}

fn item_kind_exec(d: &Document, role: &SectionRole) -> (r: &'static str)
    ensures
        r@ == item_kind(*d, role@),
{
    match role {
        SectionRole::Taglines => "tagline",
        SectionRole::SongLyrics => "lyric",
        _ => if d.page_type == PageType::Proverbs {
            "proverb"
        } else {
            "monologue"
        },
    }
}

/// The translations among the annotations, label removed.
pub open spec fn translations_of(anns: Seq<Annotation>) -> Seq<TranslationV>
    decreases anns.len(),
{
    if anns.len() == 0 {
        Seq::empty()
    } else if anns.last().kind == AnnotationKind::Translation {
        translations_of(anns.drop_last()).push(
            TranslationV {
                text: strip_label(anns.last().text.text@),
                language: None,
                translator: None,
                is_original: false,
            },
        )
    } else {
        translations_of(anns.drop_last())
    }
}

/// How many annotations no rule could read.
pub open spec fn note_count(anns: Seq<Annotation>) -> nat
    decreases anns.len(),
{
    if anns.len() == 0 {
        0
    } else if anns.last().kind == AnnotationKind::Note {
        note_count(anns.drop_last()) + 1
    } else {
        note_count(anns.drop_last())
    }
}

pub open spec fn capped(n: nat) -> u8 {
    if n > 255 {
        255
    } else {
        n as u8
    }
}

/// The record of a `*` quote, or nothing for an empty one.
pub open spec fn item_quote(d: Document, ctx: CtxV, item: QuoteItem, index: nat) -> Option<QuoteV> {
    if trim(item.text.text@).len() == 0 {
        None
    } else {
        let kind = item_kind(d, ctx.role);
        let q = base_spec(
            d,
            ctx,
            item.text.text@,
            item.text.wikitext@,
            item.text.spans@,
            index,
            kind,
        );
        let anns = item.annotations@;
        let src = source_spec(d, ctx, anns, false);
        let spk = speaker_spec(d, ctx.role, anns, false);
        let st = status_spec(ctx.role, source_complete(src.0));
        Some(
            QuoteV {
                about: about_spec(d, ctx.role, kind),
                speaker: spk.0,
                annotations: anns.map_values(|a: Annotation| annotation_view(a)),
                translations: translations_of(anns),
                status: st.0,
                provenance: ProvenanceV {
                    speaker_from: spk.1,
                    source_from: src.1,
                    status_from: Some(st.1),
                    unparsed_annotations: capped(note_count(anns)),
                },
                source: src.0,
                ..q
            },
        )
    }
}

fn annotations_out(anns: &Vec<Annotation>) -> (r: Vec<AnnotationOut>)
    ensures
        r@.map_values(|x: AnnotationOut| x@) == anns@.map_values(|a: Annotation| annotation_view(a)),
{
    let mut r: Vec<AnnotationOut> = Vec::new();
    let mut i: usize = 0;
    while i < anns.len()
        invariant
            i <= anns.len(),
            r@.len() == i,
            forall|k: int| 0 <= k < i ==> #[trigger] r@[k]@ == annotation_view(anns@[k]),
        decreases anns.len() - i,
    {
        r.push(annotation_out(&anns[i]));
        i = i + 1;
    }
    assert(r@.map_values(|x: AnnotationOut| x@) =~= anns@.map_values(
        |a: Annotation| annotation_view(a),
    ));
    r
}

fn translations_exec(anns: &Vec<Annotation>) -> (r: Vec<Translation>)
    ensures
        r@.map_values(|x: Translation| x@) == translations_of(anns@),
{
    let mut r: Vec<Translation> = Vec::new();
    let mut i: usize = 0;
    while i < anns.len()
        invariant
            i <= anns.len(),
            r@.map_values(|x: Translation| x@) == translations_of(anns@.take(i as int)),
        decreases anns.len() - i,
    {
        assert(anns@.take(i + 1).drop_last() =~= anns@.take(i as int));
        if anns[i].kind == AnnotationKind::Translation {
            let ghost before = r@;
            let t = string_of(&strip_label_exec(&chars_of(anns[i].text.text.as_str())));
            r.push(Translation { text: t, language: None, translator: None, is_original: false });
            assert(r@.map_values(|x: Translation| x@) =~= before.map_values(|x: Translation| x@).push(
                TranslationV {
                    text: strip_label(anns@[i as int].text.text@),
                    language: None,
                    translator: None,
                    is_original: false,
                },
            ));
        }
        i = i + 1;
    }
    assert(anns@.take(anns.len() as int) =~= anns@);
    r
}

fn note_count_exec(anns: &Vec<Annotation>) -> (r: u8)
    ensures
        r == capped(note_count(anns@)),
{
    let mut n: u8 = 0;
    let mut i: usize = 0;
    while i < anns.len()
        invariant
            i <= anns.len(),
            n == capped(note_count(anns@.take(i as int))),
        decreases anns.len() - i,
    {
        assert(anns@.take(i + 1).drop_last() =~= anns@.take(i as int));
        if anns[i].kind == AnnotationKind::Note && n < 255 {
            n = n + 1;
        }
        i = i + 1;
    }
    assert(anns@.take(anns.len() as int) =~= anns@);
    n
}

fn item_quote_exec(p: &Page, ctx: &Ctx, item: &QuoteItem, index: u128) -> (r: Option<Quote>)
    requires
        page_ok(*p),
    ensures
        (match r {
            Some(q) => Some(q@),
            None => None,
        }) == item_quote(*p.document, ctx_view(*ctx), *item, index as nat),
{
    let d = p.document;
    if trim_exec(&chars_of(item.text.text.as_str())).len() == 0 {
        return None;
    }
    let kind = item_kind_exec(d, &ctx.role);
    let q = base_exec(d, ctx, &item.text.text, &item.text.wikitext, &item.text.spans, index, kind);
    let (source, source_from) = source_exec(d, ctx, &item.annotations, false);
    let (speaker, speaker_from) = speaker_exec(p, &ctx.role, &item.annotations, false);
    let complete = match &source {
        Some(s) => s.complete,
        None => false,
    };
    let (status, status_from) = status_of(&ctx.role, complete);
    let about = about_exec(p, &ctx.role, kind);
    let annotations = annotations_out(&item.annotations);
    let translations = translations_exec(&item.annotations);
    let unparsed = note_count_exec(&item.annotations);
    let r = Quote {
        about,
        speaker,
        annotations,
        translations,
        status,
        provenance: Provenance {
            speaker_from,
            source_from,
            status_from: Some(status_from),
            unparsed_annotations: unparsed,
        },
        source,
        ..q
    };
    Some(r)
}

fn copy_parts(p: &Vec<SourcePart>) -> (r: Vec<SourcePart>)
    ensures
        crate::quote::parts_view(r@) == crate::quote::parts_view(p@),
{
    let mut r: Vec<SourcePart> = Vec::new();
    let mut i: usize = 0;
    while i < p.len()
        invariant
            i <= p.len(),
            r@.len() == i,
            forall|k: int| 0 <= k < i ==> #[trigger] r@[k]@ == p@[k]@,
        decreases p.len() - i,
    {
        r.push(
            SourcePart {
                origin: p[i].origin.clone(),
                level: p[i].level,
                hint: clone_opt(&p[i].hint),
                raw: p[i].raw.clone(),
            },
        );
        i = i + 1;
    }
    assert(crate::quote::parts_view(r@) =~= crate::quote::parts_view(p@));
    r
}

fn copy_params(p: &Vec<Param>) -> (r: Vec<Param>)
    ensures
        crate::quote::params_view(r@) == crate::quote::params_view(p@),
{
    let mut r: Vec<Param> = Vec::new();
    let mut i: usize = 0;
    while i < p.len()
        invariant
            i <= p.len(),
            r@.len() == i,
            forall|k: int|
                0 <= k < i ==> (#[trigger] r@[k]).key@ == p@[k].key@ && r@[k].value@ == p@[k].value@,
        decreases p.len() - i,
    {
        let key = p[i].key.clone();
        let value = p[i].value.clone();
        r.push(Param { key, value });
        i = i + 1;
    }
    assert(crate::quote::params_view(r@) =~= crate::quote::params_view(p@));
    r
}

fn copy_cites(c: &Vec<CiteTemplate>) -> (r: Vec<CiteTemplate>)
    ensures
        crate::quote::cites_view(r@) == crate::quote::cites_view(c@),
{
    let mut r: Vec<CiteTemplate> = Vec::new();
    let mut i: usize = 0;
    while i < c.len()
        invariant
            i <= c.len(),
            r@.len() == i,
            forall|k: int|
                0 <= k < i ==> #[trigger] r@[k].name@ == c@[k].name@ && crate::quote::params_view(
                    r@[k].params@,
                ) == crate::quote::params_view(c@[k].params@),
        decreases c.len() - i,
    {
        r.push(CiteTemplate { name: c[i].name.clone(), params: copy_params(&c[i].params) });
        i = i + 1;
    }
    assert(crate::quote::cites_view(r@) =~= crate::quote::cites_view(c@));
    r
}

/// A copy of a source, field by field.
fn copy_source(s: &Source) -> (r: Source)
    ensures
        full_source(r) == full_source(*s),
{
    Source {
        raw: s.raw.clone(),
        complete: s.complete,
        parts: copy_parts(&s.parts),
        work_title: clone_opt(&s.work_title),
        work_type: clone_opt(&s.work_type),
        work_year: s.work_year,
        work_link_site: clone_opt(&s.work_link_site),
        work_link_title: clone_opt(&s.work_link_title),
        episode_series: clone_opt(&s.episode_series),
        episode_season: s.episode_season,
        episode_number: clone_opt(&s.episode_number),
        episode_title: clone_opt(&s.episode_title),
        date_iso: clone_opt(&s.date_iso),
        date_end_iso: clone_opt(&s.date_end_iso),
        date_precision: clone_opt(&s.date_precision),
        date_raw: clone_opt(&s.date_raw),
        locator_page: clone_opt(&s.locator_page),
        locator_chapter: clone_opt(&s.locator_chapter),
        locator_part: clone_opt(&s.locator_part),
        locator_act_scene: clone_opt(&s.locator_act_scene),
        locator_line: clone_opt(&s.locator_line),
        publication: clone_opt(&s.publication),
        publisher: clone_opt(&s.publisher),
        isbn: clone_opt(&s.isbn),
        url: clone_opt(&s.url),
        occasion: clone_opt(&s.occasion),
        cite_templates: copy_cites(&s.cite_templates),
    }
}

fn copy_opt_source(s: &Option<Source>) -> (r: Option<Source>)
    ensures
        (match r {
            Some(x) => Some(full_source(x)),
            None => None,
        }) == (match *s {
            Some(x) => Some(full_source(x)),
            None => None,
        }),
{
    match s {
        Some(x) => Some(copy_source(x)),
        None => None,
    }
}

// --- dialogue ---------------------------------------------------------------

/// A turn as one line of the whole exchange: `Name: text`.
pub open spec fn turn_line(t: Turn) -> Seq<char> {
    match t.speaker {
        Some(name) => name@ + ": "@ + t.text.text@,
        None => t.text.text@,
    }
}

pub open spec fn dialogue_text(turns: Seq<Turn>) -> Seq<char> {
    join(turns.map_values(|t: Turn| turn_line(t)), "\n"@)
}

pub open spec fn dialogue_wikitext(turns: Seq<Turn>) -> Seq<char> {
    join(turns.map_values(|t: Turn| t.text.wikitext@), "\n"@)
}

/// The turns that have a speaker and are not stage directions.
pub open spec fn speaking_count(turns: Seq<Turn>) -> nat
    decreases turns.len(),
{
    if turns.len() == 0 {
        0
    } else if turns.last().speaker is Some && !turns.last().is_stage_direction {
        speaking_count(turns.drop_last()) + 1
    } else {
        speaking_count(turns.drop_last())
    }
}

/// The record of one turn with a speaker and some text.
pub open spec fn turn_quote(
    d: Document,
    ctx: CtxV,
    t: Turn,
    id_index: nat,
    src: (Option<FullSourceV>, Option<Seq<char>>),
    st: (Seq<char>, Seq<char>),
) -> Seq<QuoteV> {
    match t.speaker {
        Some(name) => if trim(t.text.text@).len() == 0 {
            Seq::empty()
        } else {
            let q = base_spec(
                d,
                ctx,
                t.text.text@,
                t.text.wikitext@,
                t.text.spans@,
                id_index,
                "dialogue_turn"@,
            );
            seq![
                QuoteV {
                    speaker: Some(character_spec(d, name@, t.speaker_link)),
                    about: about_spec(d, ctx.role, "dialogue_turn"@),
                    status: st.0,
                    source: src.0,
                    provenance: ProvenanceV {
                        speaker_from: Some("dialogue_marker"@),
                        source_from: src.1,
                        status_from: Some(st.1),
                        unparsed_annotations: 0,
                    },
                    ..q
                },
            ]
        },
        None => Seq::empty(),
    }
}

/// The records of the first `n` turns. Turn `k` of block `index` gets the
/// position `index * 100 + k + 1`.
pub open spec fn turn_quotes(
    d: Document,
    ctx: CtxV,
    turns: Seq<Turn>,
    index: nat,
    src: (Option<FullSourceV>, Option<Seq<char>>),
    st: (Seq<char>, Seq<char>),
    n: nat,
) -> Seq<QuoteV>
    decreases n,
{
    if n == 0 {
        Seq::empty()
    } else {
        turn_quotes(d, ctx, turns, index, src, st, (n - 1) as nat) + turn_quote(
            d,
            ctx,
            turns[n - 1],
            index * 100 + n,
            src,
            st,
        )
    }
}

/// A dialogue makes one record for the exchange, when more than one turn has
/// a speaker, and one for each turn that has a speaker. Every annotation of
/// an exchange is read as a citation.
pub open spec fn exchange_quotes(d: Document, ctx: CtxV, ex: Exchange, index: nat) -> Seq<QuoteV> {
    let turns = ex.turns@;
    let src = source_spec(d, ctx, ex.annotations@, true);
    let st = status_spec(ctx.role, source_complete(src.0));
    let whole = if speaking_count(turns) > 1 {
        let q = base_spec(
            d,
            ctx,
            dialogue_text(turns),
            dialogue_wikitext(turns),
            Seq::empty(),
            index,
            "dialogue"@,
        );
        seq![
            QuoteV {
                about: about_spec(d, ctx.role, "dialogue"@),
                status: st.0,
                source: src.0,
                provenance: ProvenanceV {
                    speaker_from: None,
                    source_from: src.1,
                    status_from: Some(st.1),
                    unparsed_annotations: 0,
                },
                ..q
            },
        ]
    } else {
        Seq::empty()
    };
    whole + turn_quotes(d, ctx, turns, index, src, st, turns.len())
}

fn speaking_count_exec(turns: &Vec<Turn>) -> (r: usize)
    ensures
        r == speaking_count(turns@),
{
    let mut n: usize = 0;
    let mut i: usize = 0;
    while i < turns.len()
        invariant
            i <= turns.len(),
            n == speaking_count(turns@.take(i as int)),
            n <= i,
        decreases turns.len() - i,
    {
        assert(turns@.take(i + 1).drop_last() =~= turns@.take(i as int));
        if turns[i].speaker.is_some() && !turns[i].is_stage_direction {
            n = n + 1;
        }
        i = i + 1;
    }
    assert(turns@.take(turns.len() as int) =~= turns@);
    n
}

fn dialogue_exec(turns: &Vec<Turn>) -> (r: (String, String))
    ensures
        r.0@ == dialogue_text(turns@),
        r.1@ == dialogue_wikitext(turns@),
{
    let mut lines: Vec<Vec<char>> = Vec::new();
    let mut sources: Vec<Vec<char>> = Vec::new();
    let mut i: usize = 0;
    while i < turns.len()
        invariant
            i <= turns.len(),
            views(lines@) == turns@.take(i as int).map_values(|t: Turn| turn_line(t)),
            views(sources@) == turns@.take(i as int).map_values(|t: Turn| t.text.wikitext@),
        decreases turns.len() - i,
    {
        let t = &turns[i];
        let line = match &t.speaker {
            Some(name) => {
                let mut l = chars_of(name.as_str());
                append_lit(&mut l, ": ");
                append(&mut l, &chars_of(t.text.text.as_str()));
                l
            },
            None => chars_of(t.text.text.as_str()),
        };
        let ghost l0 = lines@;
        let ghost s0 = sources@;
        lines.push(line);
        sources.push(chars_of(t.text.wikitext.as_str()));
        assert(views(lines@) =~= views(l0).push(turn_line(turns@[i as int])));
        assert(views(sources@) =~= views(s0).push(turns@[i as int].text.wikitext@));
        assert(turns@.take(i + 1).map_values(|t: Turn| turn_line(t)) =~= turns@.take(
            i as int,
        ).map_values(|t: Turn| turn_line(t)).push(turn_line(turns@[i as int])));
        assert(turns@.take(i + 1).map_values(|t: Turn| t.text.wikitext@) =~= turns@.take(
            i as int,
        ).map_values(|t: Turn| t.text.wikitext@).push(turns@[i as int].text.wikitext@));
        i = i + 1;
    }
    assert(turns@.take(turns.len() as int) =~= turns@);
    let nl = chars_of("\n");
    (string_of(&join_exec(&lines, &nl)), string_of(&join_exec(&sources, &nl)))
}

fn exchange_exec(p: &Page, ctx: &Ctx, ex: &Exchange, index: usize, out: &mut Vec<Quote>)
    requires
        page_ok(*p),
    ensures
        crate::quote::quotes_view(final(out)@) == crate::quote::quotes_view(old(out)@)
            + exchange_quotes(*p.document, ctx_view(*ctx), *ex, index as nat),
{
    let d = p.document;
    let ghost cv = ctx_view(*ctx);
    let ghost turns = ex.turns@;
    let ghost src = source_spec(*d, cv, ex.annotations@, true);
    let (source, source_from) = source_exec(d, ctx, &ex.annotations, true);
    let complete = match &source {
        Some(s) => s.complete,
        None => false,
    };
    let (status, status_from) = status_of(&ctx.role, complete);
    let ghost st = status_spec(cv.role, source_complete(src.0));
    let ghost start = crate::quote::quotes_view(out@);
    let ghost whole: Seq<QuoteV> = Seq::empty();
    if speaking_count_exec(&ex.turns) > 1 {
        let (text, wikitext) = dialogue_exec(&ex.turns);
        let no_spans: Vec<Span> = Vec::new();
        let q = base_exec(d, ctx, &text, &wikitext, &no_spans, index as u128, "dialogue");
        let r = Quote {
            about: about_exec(p, &ctx.role, "dialogue"),
            status: status.clone(),
            source: copy_opt_source(&source),
            provenance: Provenance {
                speaker_from: None,
                source_from: clone_opt(&source_from),
                status_from: Some(status_from.clone()),
                unparsed_annotations: 0,
            },
            ..q
        };
        assert(no_spans@ =~= Seq::<Span>::empty());
        proof {
            whole = seq![r@];
        }
        out.push(r);
        assert(crate::quote::quotes_view(out@) =~= start + whole);
    } else {
        assert(crate::quote::quotes_view(out@) =~= start + whole);
    }
    assert(whole == (if speaking_count(turns) > 1 {
        exchange_quotes(*d, cv, *ex, index as nat).take(1)
    } else {
        Seq::empty()
    }));
    let mut i: usize = 0;
    while i < ex.turns.len()
        invariant
            i <= ex.turns.len(),
            turns == ex.turns@,
            cv == ctx_view(*ctx),
            page_ok(*p),
            d == p.document,
            (match source {
                Some(x) => Some(full_source(x)),
                None => None,
            }, source_from.deep_view()) == src,
            (status@, status_from@) == st,
            crate::quote::quotes_view(out@) == start + whole + turn_quotes(
                *d,
                cv,
                turns,
                index as nat,
                src,
                st,
                i as nat,
            ),
        decreases ex.turns.len() - i,
    {
        let t = &ex.turns[i];
        let ghost before = crate::quote::quotes_view(out@);
        if let Some(name) = &t.speaker {
            if trim_exec(&chars_of(t.text.text.as_str())).len() > 0 {
                let id_index: u128 = index as u128 * 100 + i as u128 + 1;
                let q = base_exec(
                    d,
                    ctx,
                    &t.text.text,
                    &t.text.wikitext,
                    &t.text.spans,
                    id_index,
                    "dialogue_turn",
                );
                let r = Quote {
                    speaker: Some(character_exec(p, name, &t.speaker_link)),
                    about: about_exec(p, &ctx.role, "dialogue_turn"),
                    status: status.clone(),
                    source: copy_opt_source(&source),
                    provenance: Provenance {
                        speaker_from: Some(lit("dialogue_marker")),
                        source_from: clone_opt(&source_from),
                        status_from: Some(status_from.clone()),
                        unparsed_annotations: 0,
                    },
                    ..q
                };
                out.push(r);
                assert(crate::quote::quotes_view(out@) =~= before + seq![r@]);
                assert(turn_quote(*d, cv, turns[i as int], (index * 100 + i + 1) as nat, src, st) == seq![r@]);
            } else {
                assert(turn_quote(*d, cv, turns[i as int], (index * 100 + i + 1) as nat, src, st) =~= Seq::<QuoteV>::empty());
                assert(crate::quote::quotes_view(out@) =~= before);
            }
        } else {
            assert(turn_quote(*d, cv, turns[i as int], (index * 100 + i + 1) as nat, src, st) =~= Seq::<QuoteV>::empty());
            assert(crate::quote::quotes_view(out@) =~= before);
        }
        assert(turn_quotes(*d, cv, turns, index as nat, src, st, (i + 1) as nat) == turn_quotes(
            *d,
            cv,
            turns,
            index as nat,
            src,
            st,
            i as nat,
        ) + turn_quote(*d, cv, turns[i as int], (index * 100 + i + 1) as nat, src, st));
        i = i + 1;
    }
}

// --- the walk ---------------------------------------------------------------

/// The records of one block at position `index` of its section.
pub open spec fn block_quotes(d: Document, ctx: CtxV, b: Block, index: nat) -> Seq<QuoteV> {
    match b {
        Block::Quote(item) => match item_quote(d, ctx, item, index) {
            Some(q) => seq![q],
            None => Seq::empty(),
        },
        Block::Exchange(ex) => exchange_quotes(d, ctx, ex, index),
        _ => Seq::empty(),
    }
}

/// The records of the first `n` blocks of a section, in order.
pub open spec fn blocks_quotes(d: Document, ctx: CtxV, blocks: Seq<Block>, n: nat) -> Seq<QuoteV>
    decreases n,
{
    if n == 0 {
        Seq::empty()
    } else {
        blocks_quotes(d, ctx, blocks, (n - 1) as nat) + block_quotes(
            d,
            ctx,
            blocks[n - 1],
            (n - 1) as nat,
        )
    }
}

/// The records of a section: its own blocks, then its subsections in order.
pub open spec fn section_quotes(d: Document, parent: CtxV, s: Section) -> Seq<QuoteV>
    decreases s, 1nat, 0int,
{
    let c = child_ctx(parent, s);
    blocks_quotes(d, c, s.blocks@, s.blocks@.len()) + children_quotes(d, c, s, 0)
}

/// The records of the subsections of `s` from the `i`-th on.
pub open spec fn children_quotes(d: Document, c: CtxV, s: Section, i: int) -> Seq<QuoteV>
    decreases s, 0nat, s.sections@.len() - i,
{
    if i < 0 || i >= s.sections@.len() {
        Seq::empty()
    } else {
        section_quotes(d, c, s.sections@[i]) + children_quotes(d, c, s, i + 1)
    }
}

/// The records of the top-level sections from the `i`-th on.
pub open spec fn top_quotes(d: Document, ss: Seq<Section>, i: int) -> Seq<QuoteV>
    decreases ss.len() - i,
{
    if i < 0 || i >= ss.len() {
        Seq::empty()
    } else {
        section_quotes(d, root_ctx(), ss[i]) + top_quotes(d, ss, i + 1)
    }
}

/// A redirect, a disambiguation page or a placeholder has no quotes.
pub open spec fn has_no_quotes(d: Document) -> bool {
    d.redirect_to is Some || d.page_type == PageType::Disambiguation
        || d.page_type == PageType::Placeholder
}

/// Every quote of a page: those before any heading, then those of each
/// section in page order.
pub open spec fn quotes_spec(d: Document) -> Seq<QuoteV> {
    if has_no_quotes(d) {
        Seq::empty()
    } else {
        blocks_quotes(d, root_ctx(), d.lead@, d.lead@.len()) + top_quotes(d, d.sections@, 0)
    }
}

fn block_exec(p: &Page, ctx: &Ctx, b: &Block, index: usize, out: &mut Vec<Quote>)
    requires
        page_ok(*p),
    ensures
        crate::quote::quotes_view(final(out)@) == crate::quote::quotes_view(old(out)@)
            + block_quotes(*p.document, ctx_view(*ctx), *b, index as nat),
{
    let ghost start = crate::quote::quotes_view(out@);
    match b {
        Block::Quote(item) => {
            match item_quote_exec(p, ctx, item, index as u128) {
                Some(q) => {
                    out.push(q);
                    assert(crate::quote::quotes_view(out@) =~= start + seq![q@]);
                },
                None => {
                    assert(crate::quote::quotes_view(out@) =~= start + Seq::<QuoteV>::empty());
                },
            }
        },
        Block::Exchange(ex) => {
            exchange_exec(p, ctx, ex, index, out);
        },
        _ => {
            assert(crate::quote::quotes_view(out@) =~= start + Seq::<QuoteV>::empty());
        },
    }
}

fn blocks_exec(p: &Page, ctx: &Ctx, blocks: &Vec<Block>, out: &mut Vec<Quote>)
    requires
        page_ok(*p),
    ensures
        crate::quote::quotes_view(final(out)@) == crate::quote::quotes_view(old(out)@)
            + blocks_quotes(*p.document, ctx_view(*ctx), blocks@, blocks@.len()),
{
    let ghost start = crate::quote::quotes_view(out@);
    let mut i: usize = 0;
    while i < blocks.len()
        invariant
            i <= blocks.len(),
            page_ok(*p),
            crate::quote::quotes_view(out@) == start + blocks_quotes(
                *p.document,
                ctx_view(*ctx),
                blocks@,
                i as nat,
            ),
        decreases blocks.len() - i,
    {
        let ghost before = crate::quote::quotes_view(out@);
        block_exec(p, ctx, &blocks[i], i, out);
        assert(crate::quote::quotes_view(out@) =~= start + blocks_quotes(
            *p.document,
            ctx_view(*ctx),
            blocks@,
            (i + 1) as nat,
        ));
        i = i + 1;
    }
}

#[verifier::rlimit(60)]
fn section_exec(p: &Page, parent: &Ctx, s: &Section, out: &mut Vec<Quote>)
    requires
        page_ok(*p),
    ensures
        crate::quote::quotes_view(final(out)@) == crate::quote::quotes_view(old(out)@)
            + section_quotes(*p.document, ctx_view(*parent), *s),
    decreases *s, 1nat, 0int,
{
    let ghost start = crate::quote::quotes_view(out@);
    let c = child_ctx_exec(parent, s);
    blocks_exec(p, &c, &s.blocks, out);
    let ghost mid = crate::quote::quotes_view(out@);
    let mut i: usize = 0;
    while i < s.sections.len()
        invariant
            i <= s.sections.len(),
            page_ok(*p),
            mid == start + blocks_quotes(
                *p.document,
                ctx_view(c),
                s.blocks@,
                s.blocks@.len(),
            ),
            ctx_view(c) == child_ctx(ctx_view(*parent), *s),
            crate::quote::quotes_view(out@) + children_quotes(
                *p.document,
                ctx_view(c),
                *s,
                i as int,
            ) == mid + children_quotes(*p.document, ctx_view(c), *s, 0),
        decreases s.sections.len() - i,
    {
        let ghost before = crate::quote::quotes_view(out@);
        section_exec(p, &c, &s.sections[i], out);
        assert(before + children_quotes(*p.document, ctx_view(c), *s, i as int) =~= crate::quote::quotes_view(out@)
            + children_quotes(*p.document, ctx_view(c), *s, i + 1));
        i = i + 1;
    }
    assert(crate::quote::quotes_view(out@) =~= crate::quote::quotes_view(out@) + children_quotes(
        *p.document,
        ctx_view(c),
        *s,
        i as int,
    ));
    assert(crate::quote::quotes_view(out@) =~= start + section_quotes(
        *p.document,
        ctx_view(*parent),
        *s,
    ));
}

/// Turns the document model into quote records, in page order.
pub fn quotes(document: &Document) -> (r: Vec<Quote>)
    ensures
        crate::quote::quotes_view(r@) == quotes_spec(*document),
{
    let mut out: Vec<Quote> = Vec::new();
    let skip = match document.page_type {
        PageType::Disambiguation | PageType::Placeholder => true,
        _ => false,
    };
    if document.redirect_to.is_some() || skip {
        assert(crate::quote::quotes_view(out@) =~= Seq::<QuoteV>::empty());
        return out;
    }
    let page = Page { document, cast: cast_of(document), subject: subject_of(document) };
    let root = root_ctx_exec();
    assert(crate::quote::quotes_view(out@) =~= Seq::<QuoteV>::empty());
    blocks_exec(&page, &root, &document.lead, &mut out);
    let ghost mid = crate::quote::quotes_view(out@);
    let mut i: usize = 0;
    while i < document.sections.len()
        invariant
            i <= document.sections.len(),
            page_ok(page),
            page.document == document,
            ctx_view(root) == root_ctx(),
            crate::quote::quotes_view(out@) + top_quotes(*document, document.sections@, i as int)
                == mid + top_quotes(*document, document.sections@, 0),
        decreases document.sections.len() - i,
    {
        let ghost before = crate::quote::quotes_view(out@);
        section_exec(&page, &root, &document.sections[i], &mut out);
        assert(before + top_quotes(*document, document.sections@, i as int) =~= crate::quote::quotes_view(out@)
            + top_quotes(*document, document.sections@, i + 1));
        i = i + 1;
    }
    assert(crate::quote::quotes_view(out@) =~= crate::quote::quotes_view(out@) + top_quotes(
        *document,
        document.sections@,
        i as int,
    ));
    out
}

// --- what every record carries --------------------------------------------

/// The kinds a record can have.
pub open spec fn known_kind(k: Seq<char>) -> bool {
    ||| k == "monologue"@
    ||| k == "dialogue_turn"@
    ||| k == "dialogue"@
    ||| k == "lyric"@
    ||| k == "tagline"@
    ||| k == "proverb"@
}

/// The statuses a record can have.
pub open spec fn known_status(st: Seq<char>) -> bool {
    ||| st == "sourced"@
    ||| st == "unsourced"@
    ||| st == "attributed"@
    ||| st == "disputed"@
    ||| st == "misattributed"@
}

/// A record names its page, has one of the known kinds and statuses, and
/// says where its speaker and its source came from exactly when it has them.
pub open spec fn record_ok(d: Document, q: QuoteV) -> bool {
    &&& known_kind(q.kind)
    &&& known_status(q.status)
    &&& q.page_title == d.title@
    &&& q.wiki_language == d.wiki_language@
    &&& q.page_id == d.page_id
    &&& q.revision_id == d.revision_id
    &&& q.page_type == page_type_name(d.page_type)
    &&& (q.speaker is Some) == (q.provenance.speaker_from is Some)
    &&& (q.source is Some) == (q.provenance.source_from is Some)
    &&& q.provenance.status_from is Some
}

pub open spec fn all_ok(d: Document, qs: Seq<QuoteV>) -> bool {
    forall|k: int| 0 <= k < qs.len() ==> record_ok(d, #[trigger] qs[k])
}

proof fn lemma_all_ok_concat(d: Document, a: Seq<QuoteV>, b: Seq<QuoteV>)
    requires
        all_ok(d, a),
        all_ok(d, b),
    ensures
        all_ok(d, a + b),
{
    assert forall|k: int| 0 <= k < (a + b).len() implies record_ok(d, #[trigger] (a + b)[k]) by {
        if k < a.len() {
            assert((a + b)[k] == a[k]);
        } else {
            assert((a + b)[k] == b[k - a.len()]);
        }
    }
}

proof fn lemma_source_pairs(d: Document, ctx: CtxV, anns: Seq<Annotation>, all: bool)
    ensures
        (source_spec(d, ctx, anns, all).0 is Some) == (source_spec(d, ctx, anns, all).1 is Some),
{
}

proof fn lemma_speaker_pairs(d: Document, role: RoleV, anns: Seq<Annotation>, all: bool)
    ensures
        (speaker_spec(d, role, anns, all).0 is Some) == (speaker_spec(d, role, anns, all).1 is Some),
{
}

proof fn lemma_item_ok(d: Document, ctx: CtxV, item: QuoteItem, index: nat)
    ensures
        item_quote(d, ctx, item, index) matches Some(q) ==> record_ok(d, q),
{
    lemma_source_pairs(d, ctx, item.annotations@, false);
    lemma_speaker_pairs(d, ctx.role, item.annotations@, false);
}

proof fn lemma_turns_ok(
    d: Document,
    ctx: CtxV,
    turns: Seq<Turn>,
    index: nat,
    src: (Option<FullSourceV>, Option<Seq<char>>),
    st: (Seq<char>, Seq<char>),
    n: nat,
)
    requires
        (src.0 is Some) == (src.1 is Some),
        known_status(st.0),
    ensures
        all_ok(d, turn_quotes(d, ctx, turns, index, src, st, n)),
    decreases n,
{
    if n > 0 {
        lemma_turns_ok(d, ctx, turns, index, src, st, (n - 1) as nat);
        let one = turn_quote(d, ctx, turns[n - 1], index * 100 + n, src, st);
        assert(all_ok(d, one));
        lemma_all_ok_concat(d, turn_quotes(d, ctx, turns, index, src, st, (n - 1) as nat), one);
    }
}

proof fn lemma_exchange_ok(d: Document, ctx: CtxV, ex: Exchange, index: nat)
    ensures
        all_ok(d, exchange_quotes(d, ctx, ex, index)),
{
    let src = source_spec(d, ctx, ex.annotations@, true);
    let st = status_spec(ctx.role, source_complete(src.0));
    lemma_source_pairs(d, ctx, ex.annotations@, true);
    lemma_turns_ok(d, ctx, ex.turns@, index, src, st, ex.turns@.len());
    let turns = ex.turns@;
    let whole = if speaking_count(turns) > 1 {
        exchange_quotes(d, ctx, ex, index).take(1)
    } else {
        Seq::empty()
    };
    assert(exchange_quotes(d, ctx, ex, index) =~= whole + turn_quotes(
        d,
        ctx,
        turns,
        index,
        src,
        st,
        turns.len(),
    ));
    assert(all_ok(d, whole));
    lemma_all_ok_concat(d, whole, turn_quotes(d, ctx, turns, index, src, st, turns.len()));
}

proof fn lemma_blocks_ok(d: Document, ctx: CtxV, blocks: Seq<Block>, n: nat)
    ensures
        all_ok(d, blocks_quotes(d, ctx, blocks, n)),
    decreases n,
{
    if n > 0 {
        lemma_blocks_ok(d, ctx, blocks, (n - 1) as nat);
        let b = blocks[n - 1];
        match b {
            Block::Quote(item) => {
                lemma_item_ok(d, ctx, item, (n - 1) as nat);
            },
            Block::Exchange(ex) => {
                lemma_exchange_ok(d, ctx, ex, (n - 1) as nat);
            },
            _ => {},
        }
        lemma_all_ok_concat(
            d,
            blocks_quotes(d, ctx, blocks, (n - 1) as nat),
            block_quotes(d, ctx, b, (n - 1) as nat),
        );
    }
}

proof fn lemma_section_ok(d: Document, parent: CtxV, s: Section)
    ensures
        all_ok(d, section_quotes(d, parent, s)),
    decreases s, 1nat, 0int,
{
    let c = child_ctx(parent, s);
    lemma_blocks_ok(d, c, s.blocks@, s.blocks@.len());
    lemma_children_ok(d, c, s, 0);
    lemma_all_ok_concat(
        d,
        blocks_quotes(d, c, s.blocks@, s.blocks@.len()),
        children_quotes(d, c, s, 0),
    );
}

proof fn lemma_children_ok(d: Document, c: CtxV, s: Section, i: int)
    ensures
        all_ok(d, children_quotes(d, c, s, i)),
    decreases s, 0nat, s.sections@.len() - i,
{
    if 0 <= i < s.sections@.len() {
        lemma_section_ok(d, c, s.sections@[i]);
        lemma_children_ok(d, c, s, i + 1);
        lemma_all_ok_concat(
            d,
            section_quotes(d, c, s.sections@[i]),
            children_quotes(d, c, s, i + 1),
        );
    }
}

proof fn lemma_top_ok(d: Document, ss: Seq<Section>, i: int)
    ensures
        all_ok(d, top_quotes(d, ss, i)),
    decreases ss.len() - i,
{
    if 0 <= i < ss.len() {
        lemma_section_ok(d, root_ctx(), ss[i]);
        lemma_top_ok(d, ss, i + 1);
        lemma_all_ok_concat(d, section_quotes(d, root_ctx(), ss[i]), top_quotes(d, ss, i + 1));
    }
}

/// Every record of a page names that page (title, wiki, ids and type), has
/// one of the known kinds and statuses, has a speaker exactly when it says where the speaker came from, has a source
/// exactly when it says where the source came from, and says where its
/// status came from.
pub proof fn law_every_record_names_its_page_and_its_evidence(d: Document)
    ensures
        forall|k: int|
            0 <= k < quotes_spec(d).len() ==> record_ok(d, #[trigger] quotes_spec(d)[k]),
{
    if !has_no_quotes(d) {
        lemma_blocks_ok(d, root_ctx(), d.lead@, d.lead@.len());
        lemma_top_ok(d, d.sections@, 0);
        lemma_all_ok_concat(
            d,
            blocks_quotes(d, root_ctx(), d.lead@, d.lead@.len()),
            top_quotes(d, d.sections@, 0),
        );
    }
}

/// A redirect, a disambiguation page and a placeholder give no records.
pub proof fn law_no_records_without_quotes(d: Document)
    requires
        d.redirect_to is Some || d.page_type == PageType::Disambiguation || d.page_type
            == PageType::Placeholder,
    ensures
        quotes_spec(d).len() == 0,
{
}

/// The content hash reads the words only, lowercased and joined by single
/// spaces: texts that agree there, however they are spaced or cased, get
/// the same hash.
pub proof fn law_spacing_does_not_change_the_content_hash(a: Seq<char>, b: Seq<char>)
    requires
        lowercase(join(words(a), " "@)) == lowercase(join(words(b), " "@)),
    ensures
        content_hash_spec(a) == content_hash_spec(b),
{
}

/// A heading enters the source only when it gives a source hint: every
/// section the walk keeps for the source has one.
pub proof fn law_only_hinted_headings_feed_the_source(parent: CtxV, s: Section)
    requires
        forall|k: int| 0 <= k < parent.parts.len() ==> (#[trigger] parent.parts[k]).source_hint is Some,
    ensures
        forall|k: int|
            0 <= k < child_ctx(parent, s).parts.len() ==> (#[trigger] child_ctx(
                parent,
                s,
            ).parts[k]).source_hint is Some,
        root_ctx().parts.len() == 0,
{
    assert forall|k: int| 0 <= k < child_ctx(parent, s).parts.len() implies (#[trigger] child_ctx(
        parent,
        s,
    ).parts[k]).source_hint is Some by {
        if k < parent.parts.len() {
            assert(child_ctx(parent, s).parts[k] == parent.parts[k]);
        }
    }
}

proof fn lemma_heading_parts(fs: FullSourceV, ss: Seq<Section>, is_work: bool)
    ensures
        headings_fold(fs, ss, is_work).parts == fs.parts + ss.map_values(
            |h: Section| heading_part(h),
        ),
    decreases ss.len(),
{
    if ss.len() > 0 {
        lemma_heading_parts(fs, ss.drop_last(), is_work);
        assert(ss.map_values(|h: Section| heading_part(h)) =~= ss.drop_last().map_values(
            |h: Section| heading_part(h),
        ).push(heading_part(ss.last())));
    } else {
        assert(fs.parts + ss.map_values(|h: Section| heading_part(h)) =~= fs.parts);
    }
}

proof fn lemma_annotation_parts(fs: FullSourceV, anns: Seq<Annotation>)
    ensures
        annotations_fold(fs, anns).parts == fs.parts + anns.map_values(
            |a: Annotation| annotation_part(a),
        ),
    decreases anns.len(),
{
    if anns.len() > 0 {
        lemma_annotation_parts(fs, anns.drop_last());
        assert(anns.map_values(|a: Annotation| annotation_part(a)) =~= anns.drop_last().map_values(
            |a: Annotation| annotation_part(a),
        ).push(annotation_part(anns.last())));
    } else {
        assert(fs.parts + anns.map_values(|a: Annotation| annotation_part(a)) =~= fs.parts);
    }
}

/// The parts of a source come in page order: the page itself first on a
/// work page, then the source headings, outermost first, then the citation
/// lines below the quote.
pub proof fn law_the_parts_of_a_source_come_in_page_order(
    d: Document,
    ctx: CtxV,
    anns: Seq<Annotation>,
    all: bool,
)
    ensures
        source_spec(d, ctx, anns, all).0 matches Some(fs) ==> fs.parts == (if is_work_page(
            d.page_type,
        ) {
            work_page_source(d).parts
        } else {
            Seq::<PartV>::empty()
        }) + ctx.parts.map_values(|h: Section| heading_part(h)) + citations(anns, all).map_values(
            |a: Annotation| annotation_part(a),
        ),
{
    let work = is_work_page(d.page_type);
    let s1 = if work {
        work_page_source(d)
    } else {
        empty_source()
    };
    lemma_heading_parts(s1, ctx.parts, work);
    lemma_annotation_parts(headings_fold(s1, ctx.parts, work), citations(anns, all));
    if !work {
        assert(s1.parts =~= Seq::<PartV>::empty());
    }
}

proof fn lemma_hint_keeps_the_range_rule(fs: FullSourceV, h: HintV, is_work: bool)
    requires
        crate::citation::end_only_for_a_range(fs.cited),
    ensures
        crate::citation::end_only_for_a_range(hint_full(fs, h, is_work).cited),
{
}

proof fn lemma_headings_keep_the_range_rule(fs: FullSourceV, ss: Seq<Section>, is_work: bool)
    requires
        crate::citation::end_only_for_a_range(fs.cited),
    ensures
        crate::citation::end_only_for_a_range(headings_fold(fs, ss, is_work).cited),
    decreases ss.len(),
{
    if ss.len() > 0 {
        lemma_headings_keep_the_range_rule(fs, ss.drop_last(), is_work);
        let inner = headings_fold(fs, ss.drop_last(), is_work);
        let s = ss.last();
        let f1 = FullSourceV { parts: inner.parts.push(heading_part(s)), ..inner };
        match s.source_hint {
            Some(h) => {
                lemma_hint_keeps_the_range_rule(f1, h@, is_work);
                crate::citation::law_a_part_keeps_an_end_only_for_a_range(
                    hint_full(f1, h@, is_work).cited,
                    s.heading,
                );
            },
            None => {
                crate::citation::law_a_part_keeps_an_end_only_for_a_range(f1.cited, s.heading);
            },
        }
    }
}

proof fn lemma_annotations_keep_the_range_rule(fs: FullSourceV, anns: Seq<Annotation>)
    requires
        crate::citation::end_only_for_a_range(fs.cited),
    ensures
        crate::citation::end_only_for_a_range(annotations_fold(fs, anns).cited),
    decreases anns.len(),
{
    if anns.len() > 0 {
        lemma_annotations_keep_the_range_rule(fs, anns.drop_last());
        crate::citation::law_a_part_keeps_an_end_only_for_a_range(
            annotations_fold(fs, anns.drop_last()).cited,
            anns.last().text,
        );
    }
}

/// The end of a date is set only for a range: a source that has an end date
/// has the precision "range", or "decade" for a heading that spans years.
pub proof fn law_a_source_has_an_end_date_only_for_a_range(
    d: Document,
    ctx: CtxV,
    anns: Seq<Annotation>,
    all: bool,
)
    ensures
        source_spec(d, ctx, anns, all).0 matches Some(fs) ==> crate::citation::end_only_for_a_range(
            fs.cited,
        ),
{
    let work = is_work_page(d.page_type);
    let s1 = if work {
        work_page_source(d)
    } else {
        empty_source()
    };
    lemma_headings_keep_the_range_rule(s1, ctx.parts, work);
    lemma_annotations_keep_the_range_rule(headings_fold(s1, ctx.parts, work), citations(anns, all));
}

/// A source exists when a heading above the quote gives a hint, the quote
/// has a citation line, or the page is itself a work; and it says where it
/// came from: the headings, the citation lines, both ("mixed"), or the page.
pub proof fn law_the_source_says_where_it_came_from(
    d: Document,
    ctx: CtxV,
    anns: Seq<Annotation>,
    all: bool,
)
    ensures
        ({
            let (src, from) = source_spec(d, ctx, anns, all);
            let h = ctx.parts.len() > 0;
            let c = citations(anns, all).len() > 0;
            &&& (src is None <==> !h && !c && !is_work_page(d.page_type))
            &&& (src is None <==> from is None)
            &&& src is Some ==> from == Some(
                if h && c {
                    "mixed"@
                } else if h {
                    "heading"@
                } else if c {
                    "annotation"@
                } else {
                    "page_subject"@
                },
            )
        }),
{
}

/// A source's raw text is the non-blank parts, trimmed, joined with " — "
/// in page order, and it is complete exactly when it names a work, an
/// occasion, a date, an episode or a publication.
pub proof fn law_the_raw_source_joins_its_parts(d: Document, ctx: CtxV, anns: Seq<Annotation>, all: bool)
    ensures
        source_spec(d, ctx, anns, all).0 matches Some(fs) ==> fs.raw == join(
            raw_list(fs.parts),
            " \u{2014} "@,
        ) && fs.complete == is_complete(fs),
{
}

/// The kind of a quote follows its section, then its page: a tagline under
/// Taglines, a lyric under Song lyrics, a proverb on a proverbs page, and a
/// monologue anywhere else.
pub proof fn law_the_kind_of_a_quote_follows_its_section(d: Document, role: RoleV)
    ensures
        role is Taglines ==> item_kind(d, role) == "tagline"@,
        role is SongLyrics ==> item_kind(d, role) == "lyric"@,
        !(role is Taglines || role is SongLyrics) && d.page_type == PageType::Proverbs ==> item_kind(
            d,
            role,
        ) == "proverb"@,
        !(role is Taglines || role is SongLyrics) && d.page_type != PageType::Proverbs ==> item_kind(
            d,
            role,
        ) == "monologue"@,
{
}

/// Who speaks: nobody for a tagline, for a proverb on a proverbs page or
/// for a misattributed quote on a person's page; the person for the rest of
/// their page, except a quote about them, whose speaker only the citation
/// line can name.
pub proof fn law_who_speaks(d: Document, role: RoleV, anns: Seq<Annotation>, all: bool)
    ensures
        role is Taglines ==> speaker_spec(d, role, anns, all) == (None::<AgentV>, None::<Seq<char>>),
        d.page_type == PageType::Proverbs && role is Quotes ==> speaker_spec(d, role, anns, all) == (
            None::<AgentV>,
            None::<Seq<char>>,
        ),
        d.page_type == PageType::Person && role is Misattributed ==> speaker_spec(d, role, anns, all)
            == (None::<AgentV>, None::<Seq<char>>),
        d.page_type == PageType::Person && !(role is QuotesAbout || role is Taglines
            || role is Misattributed) ==> speaker_spec(d, role, anns, all) == (
            Some(subject_spec(d)),
            Some("page_subject"@),
        ),
        role is QuotesAbout ==> speaker_spec(d, role, anns, all).1 is None || speaker_spec(
            d,
            role,
            anns,
            all,
        ).1 == Some("annotation"@),
        ({
            let (sp, from) = speaker_spec(d, role, anns, all);
            &&& (sp is Some <==> from is Some)
            &&& (from is None || from == Some("page_subject"@) || from == Some("annotation"@))
            &&& from == Some("page_subject"@) ==> sp == Some(subject_spec(d))
        }),
{
    reveal_strlit("page_subject");
    reveal_strlit("annotation");
    assert("page_subject"@.len() != "annotation"@.len());
}

/// The context path is the literal heading path: each section adds its
/// heading text, root first, and a quote carries the path it stands under.
pub proof fn law_the_context_path_is_the_heading_path(
    d: Document,
    parent: CtxV,
    s: Section,
    item: QuoteItem,
    index: nat,
)
    ensures
        child_ctx(parent, s).path == parent.path.push(s.heading.text@),
        root_ctx().path.len() == 0,
        item_quote(d, parent, item, index) matches Some(q) ==> q.context_path == parent.path,
{
}

/// A status heading decides the status, and a quote about the subject is
/// an attributed one; elsewhere a record is `sourced` exactly when its
/// source is complete.
pub proof fn law_status_follows_the_role_then_the_source(role: RoleV, complete: bool)
    ensures
        role is Misattributed ==> status_spec(role, complete) == ("misattributed"@, "section_role"@),
        role is Disputed ==> status_spec(role, complete) == ("disputed"@, "section_role"@),
        role is Attributed ==> status_spec(role, complete) == ("attributed"@, "section_role"@),
        role is QuotesAbout ==> status_spec(role, complete) == ("attributed"@, "section_role"@),
        role is Unsourced ==> status_spec(role, complete) == ("unsourced"@, "section_role"@),
        !(role is Misattributed || role is Disputed || role is Attributed || role is QuotesAbout
            || role is Unsourced) ==> (status_spec(role, complete).0 == "sourced"@ <==> complete)
            && status_spec(role, complete).1 == "citation_presence"@,
{
    reveal_strlit("sourced");
    reveal_strlit("unsourced");
    if !(role is Misattributed || role is Disputed || role is Attributed || role is QuotesAbout
        || role is Unsourced) {
        if !complete {
            assert(status_spec(role, complete).0 == "unsourced"@);
            assert("unsourced"@.len() != "sourced"@.len());
        }
    }
}

} // verus!
