//! Builds the Layer 1 document model from wikitext.
//!
//! The grammar returns a nested tree of `section` nodes but a flat list of list
//! items: `**` is a sibling of `*` with a longer marker. Rebuilding that
//! parent-child link is the main job here.

use vstd::prelude::*;
use crate::dump::RawPage;
use crate::model::{
    annotations_of, blocks_of, section_view, sections_of, spans_of, tparam, Annotation,
    AnnotationKind, AnnotationV, Block, BlockV, Document, Exchange, ExchangeV, HintV, Media, MediaV,
    PageRef, PageRefV, PageType, ParseStats, QuoteItem, QuoteItemV, RichText, RichV, RoleV, Section,
    SectionRole, SectionV, SiteV, Span, SpanKind, SpanKindV, SpanV, TemplateRef, TemplateV, Turn,
    TurnV,
};
use crate::roles::{hint_spec, role_spec};
use crate::syntax::{child_of_kind, kids, wikitext_syntax, NodeRecord, NodeV};
use crate::text::{
    contains, ends_with, find_char, find_char_from, lowercase, occurs_at, starts_with, strip_prefix,
    text_between, trim, trim_char, trim_end, trim_end_char, trim_start, trim_start_char, utf8_len,
    chars_of, ends_with_lit, eq_lit, lower, starts_with_lit, string_of, trim_exec,
};
use crate::wikitext::{
    cx, kind_is, rich_text, rich_text_spec, slice, slice_spec, template_v, w32, walk_ok, Cx,
    eq_ignore_ascii_case, page_ref_v, Walk,
};

verus! {

// --- what one node gives ----------------------------------------------------

/// What a stretch of the tree gives the page: blocks, sections, category
/// names, and the nodes whose lines count as read.
pub struct Out {
    pub blocks: Seq<BlockV>,
    pub sections: Seq<SectionV>,
    pub cats: Seq<Seq<char>>,
    pub marks: Seq<int>,
}

pub open spec fn no_out() -> Out {
    Out { blocks: Seq::empty(), sections: Seq::empty(), cats: Seq::empty(), marks: Seq::empty() }
}

pub open spec fn join_out(a: Out, b: Out) -> Out {
    Out {
        blocks: a.blocks + b.blocks,
        sections: a.sections + b.sections,
        cats: a.cats + b.cats,
        marks: a.marks + b.marks,
    }
}

pub open spec fn w8(n: nat) -> u8 {
    (n % 256) as u8
}

/// Nothing but whitespace in either view.
pub open spec fn rich_empty(t: RichV) -> bool {
    trim(t.text).len() == 0 && trim(t.wikitext).len() == 0
}

// --- headings ---------------------------------------------------------------

/// `heading1` to `heading6`: eight bytes, starting with `heading`.
pub open spec fn is_heading_kind(k: Seq<char>) -> bool {
    utf8_len(k) == 8 && starts_with(k, "heading"@) && k != "heading_marker"@
}

pub open spec fn heading_from(c: Cx, ks: Seq<int>, j: int) -> Option<int>
    decreases ks.len() - j,
{
    if j < 0 || j >= ks.len() {
        None
    } else if is_heading_kind(c.ns[ks[j]].kind) {
        Some(ks[j])
    } else {
        heading_from(c, ks, j + 1)
    }
}

/// The heading of a `section` node, if it has one.
pub open spec fn heading_of(c: Cx, i: int) -> Option<int> {
    heading_from(c, kids(c.ns, i), 0)
}

/// The level in a heading kind: its last byte less `'0'`.
pub open spec fn level_of(k: Seq<char>) -> u8 {
    if k.len() > 7 {
        w8((k[7] as u32 + 208) as nat)
    } else {
        0
    }
}

/// The inside of a heading, without the `=` markers.
pub open spec fn heading_inner(c: Cx, h: int) -> Seq<char> {
    trim(trim_char(trim(slice_spec(c, h)), '='))
}

/// A heading holds its markup as plain text, so its inside is parsed on its
/// own.
pub open spec fn heading_rich(c: Cx, h: int) -> RichV {
    let inner = heading_inner(c, h);
    match wikitext_syntax(inner) {
        Some(ns2) => if ns2.len() > 0 {
            RichV {
                wikitext: inner,
                ..rich_text_spec(Cx { src: inner, ns: ns2, title: c.title }, 0)
            }
        } else {
            RichV { text: Seq::empty(), wikitext: inner, spans: Seq::empty() }
        },
        None => RichV { text: inner, wikitext: inner, spans: Seq::empty() },
    }
}

// --- list items -------------------------------------------------------------

/// Non-quote sections hold plain list entries, not quotes. An entry with an
/// annotation stays a quote, so nothing is lost when the role is wrong.
pub open spec fn finish_item(item: QuoteItemV, role: RoleV) -> BlockV {
    let is_list = role is Cast || role is SeeAlso || role is ExternalLinks || role is References;
    if is_list && item.annotations.len() == 0 {
        BlockV::Item(item.text)
    } else {
        BlockV::Quote(item)
    }
}

pub open spec fn cite_like_from(spans: Seq<SpanV>, i: int) -> bool
    decreases spans.len() - i,
{
    if i < 0 || i >= spans.len() {
        false
    } else {
        let hit = match spans[i].kind {
            SpanKindV::Template(t) => starts_with(t.name, "cite"@) || t.name == "citation"@,
            SpanKindV::ExternalLink { url } => url.len() > 0,
            _ => false,
        };
        hit || cite_like_from(spans, i + 1)
    }
}

/// A first guess at what an annotation is for. Layer 2 refines it.
pub open spec fn annotation_kind_spec(t: RichV) -> AnnotationKind {
    let lower = lowercase(trim(t.text));
    if starts_with(lower, "translation"@) || starts_with(lower, "translated"@) || starts_with(
        lower,
        "transliteration"@,
    ) || starts_with(lower, "meaning"@) || starts_with(lower, "literally"@) {
        AnnotationKind::Translation
    } else if starts_with(lower, "compare"@) || starts_with(lower, "variant"@) || starts_with(
        lower,
        "see also"@,
    ) {
        AnnotationKind::CrossRef
    } else if lower.len() > 0 {
        AnnotationKind::Citation
    } else if cite_like_from(t.spans, 0) {
        AnnotationKind::Citation
    } else {
        AnnotationKind::Note
    }
}

/// The number of `*` (or `#`) in a list marker; 1 when there is none.
pub open spec fn marker_depth(c: Cx, item: int) -> u8 {
    match child_of_kind(c.ns, item, "list_marker"@) {
        Some(m) => w8(utf8_len(trim(slice_spec(c, m)))),
        None => 1,
    }
}

/// The blocks made so far, the open quote, and the nodes read.
pub struct ListAcc {
    pub out: Seq<BlockV>,
    pub current: Option<QuoteItemV>,
    pub marks: Seq<int>,
}

pub open spec fn flush(out: Seq<BlockV>, current: Option<QuoteItemV>, role: RoleV) -> Seq<BlockV> {
    match current {
        Some(q) => out.push(finish_item(q, role)),
        None => out,
    }
}

pub open spec fn list_step(c: Cx, role: RoleV, acc: ListAcc, item: int) -> ListAcc {
    if !ends_with(c.ns[item].kind, "list_item"@) {
        acc
    } else {
        let depth = marker_depth(c, item);
        match child_of_kind(c.ns, item, "list_item_content"@) {
            None => acc,
            Some(content) => {
                let text = rich_text_spec(c, content);
                let marks = acc.marks.push(content);
                if depth <= 1 || acc.current is None {
                    ListAcc {
                        out: flush(acc.out, acc.current, role),
                        current: Some(QuoteItemV { text, annotations: Seq::empty() }),
                        marks,
                    }
                } else {
                    let q = acc.current->0;
                    ListAcc {
                        current: Some(
                            QuoteItemV {
                                annotations: q.annotations.push(
                                    AnnotationV { depth, text, kind: annotation_kind_spec(text) },
                                ),
                                ..q
                            },
                        ),
                        marks,
                        ..acc
                    }
                }
            },
        }
    }
}

pub open spec fn list_fold(c: Cx, role: RoleV, ks: Seq<int>) -> ListAcc
    decreases ks.len(),
{
    if ks.len() == 0 {
        ListAcc { out: Seq::empty(), current: None, marks: Seq::empty() }
    } else {
        list_step(c, role, list_fold(c, role, ks.drop_last()), ks.last())
    }
}

/// A `*` item opens a quote, and every `**` or deeper item below it is one
/// of its annotations.
pub open spec fn list_spec(c: Cx, k: int, role: RoleV) -> Out {
    let acc = list_fold(c, role, kids(c.ns, k));
    Out { blocks: flush(acc.out, acc.current, role), marks: acc.marks, ..no_out() }
}

// --- dialogue ---------------------------------------------------------------

pub open spec fn first_link_from(spans: Seq<SpanV>, i: int) -> Option<PageRefV>
    decreases spans.len() - i,
{
    if i < 0 || i >= spans.len() {
        None
    } else {
        match spans[i].kind {
            SpanKindV::Link { target } => Some(target),
            _ => first_link_from(spans, i + 1),
        }
    }
}

/// The spans that end after the first `dropped` bytes, moved back by that
/// many and cut at `end`.
pub open spec fn shift_spans(spans: Seq<SpanV>, dropped: u32, end: u32) -> Seq<SpanV>
    decreases spans.len(),
{
    if spans.len() == 0 {
        Seq::empty()
    } else {
        let rest = shift_spans(spans.drop_last(), dropped, end);
        if spans.last().end > dropped {
            rest.push(crate::wikitext::trim_span(spans.last(), dropped, end))
        } else {
            rest
        }
    }
}

/// Removes the `Name:` that opens a dialogue turn, and moves the spans with
/// it.
pub open spec fn strip_speaker_spec(t: RichV) -> RichV {
    match find_char(t.text, ':') {
        None => t,
        Some(colon) => {
            let rest = t.text.subrange(colon + 1, t.text.len() as int);
            let cut = utf8_len(rest);
            let removed = w32((utf8_len(t.text) - cut) as nat);
            let text = trim_start(trim_start_char(trim_start(rest), ':'));
            let dropped = w32((removed + w32((cut - utf8_len(text)) as nat)) as nat);
            let end = w32(utf8_len(text));
            RichV {
                text,
                spans: shift_spans(t.spans, dropped, end),
                ..t
            }
        },
    }
}

/// A `:` line: a bold name followed by a colon names the speaker, and a
/// line wholly in italics is a stage direction.
pub open spec fn turn_spec(c: Cx, content: int, text: RichV) -> TurnV {
    let ks = kids(c.ns, content);
    let has_first = ks.len() > 0;
    let first = ks[0];
    let is_bold = has_first && kind_is(c, first, "bold"@);
    let is_stage = has_first && kind_is(c, first, "italic"@) && trim(slice_spec(c, first)) == trim(
        text.wikitext,
    );
    let name = rich_text_spec(c, first);
    let name_text = trim(trim_end_char(trim(name.text), ':'));
    let after = text_between(c.src, c.ns[first].end as int, c.ns[content].end as int);
    let speaks = is_bold && name_text.len() > 0 && (starts_with(trim_start(after), ":"@)
        || ends_with(trim_end(name.text), ":"@));
    TurnV {
        speaker: if speaks {
            Some(name_text)
        } else {
            None
        },
        speaker_link: if speaks {
            first_link_from(name.spans, 0)
        } else {
            None
        },
        text: if speaks {
            strip_speaker_spec(text)
        } else {
            text
        },
        is_stage_direction: is_stage,
    }
}

pub struct DlAcc {
    pub turns: Seq<TurnV>,
    pub marks: Seq<int>,
}

pub open spec fn dl_step(c: Cx, acc: DlAcc, line: int) -> DlAcc {
    match child_of_kind(c.ns, line, "list_item_content"@) {
        None => acc,
        Some(content) => {
            let text = rich_text_spec(c, content);
            let marks = acc.marks.push(content);
            if rich_empty(text) {
                DlAcc { marks, ..acc }
            } else {
                DlAcc { turns: acc.turns.push(turn_spec(c, content, text)), marks }
            }
        },
    }
}

pub open spec fn dl_fold(c: Cx, ks: Seq<int>) -> DlAcc
    decreases ks.len(),
{
    if ks.len() == 0 {
        DlAcc { turns: Seq::empty(), marks: Seq::empty() }
    } else {
        dl_step(c, dl_fold(c, ks.drop_last()), ks.last())
    }
}

/// A run of `:` lines is one exchange.
pub open spec fn dl_spec(c: Cx, k: int) -> Out {
    let acc = dl_fold(c, kids(c.ns, k));
    Out {
        blocks: if acc.turns.len() > 0 {
            seq![BlockV::Exchange(ExchangeV { turns: acc.turns, annotations: Seq::empty() })]
        } else {
            Seq::empty()
        },
        marks: acc.marks,
        ..no_out()
    }
}

// --- paragraphs -------------------------------------------------------------

/// The last index at or before `k` where `p` occurs.
pub open spec fn rfind_from(s: Seq<char>, p: Seq<char>, k: int) -> Option<int>
    decreases k + 1,
{
    if k < 0 {
        None
    } else if occurs_at(s, p, k) {
        Some(k)
    } else {
        rfind_from(s, p, k - 1)
    }
}

/// The name after a ` ~ ` in a caption, as in `A quote ~ [[John Adams]]`.
pub open spec fn caption_attribution(t: Seq<char>) -> Option<Seq<char>> {
    match rfind_from(t, " ~ "@, t.len() - 3) {
        Some(k) => Some(trim(t.subrange(k + 3, t.len() as int))),
        None => None,
    }
}

/// An image: its file, its caption, and who the caption names.
pub open spec fn media_spec(c: Cx, n: int) -> (MediaV, Seq<int>) {
    let file = match child_of_kind(c.ns, n, "filename"@) {
        Some(f) => trim(slice_spec(c, f)),
        None => Seq::empty(),
    };
    match child_of_kind(c.ns, n, "file_caption"@) {
        Some(cap) => {
            let t = rich_text_spec(c, cap);
            (
                MediaV { file, caption: Some(t), caption_attribution: caption_attribution(t.text) },
                seq![cap],
            )
        },
        None => (MediaV { file, caption: None, caption_attribution: None }, Seq::empty()),
    }
}

/// The category a `[[Category:…]]` link files the page under.
pub open spec fn category_of(c: Cx, n: int) -> Option<Seq<char>> {
    match child_of_kind(c.ns, n, "wikilink_page"@) {
        Some(page) => {
            let title = trim(slice_spec(c, page));
            match strip_prefix(title, "Category:"@) {
                Some(rest) => Some(trim(rest)),
                None => match strip_prefix(title, "category:"@) {
                    Some(rest) => Some(trim(rest)),
                    None => None,
                },
            }
        },
        None => None,
    }
}

/// An `<hr>` tag.
pub open spec fn is_rule(c: Cx, n: int) -> bool {
    match child_of_kind(c.ns, n, "html_tag_name"@) {
        Some(t) => eq_ignore_ascii_case(slice_spec(c, t), "hr"@),
        None => false,
    }
}

pub struct ParaAcc {
    pub out: Out,
    pub plain: Seq<int>,
}

pub open spec fn para_step(c: Cx, acc: ParaAcc, ch: int) -> ParaAcc {
    let o = acc.out;
    if kind_is(c, ch, "medialink"@) {
        let (m, marks) = media_spec(c, ch);
        ParaAcc {
            out: Out {
                blocks: o.blocks.push(BlockV::Media(m)),
                marks: o.marks.push(ch) + marks,
                ..o
            },
            ..acc
        }
    } else if kind_is(c, ch, "wikilink"@) && category_of(c, ch) is Some {
        ParaAcc {
            out: Out { cats: o.cats.push(category_of(c, ch)->0), marks: o.marks.push(ch), ..o },
            ..acc
        }
    } else if kind_is(c, ch, "html_tag"@) && is_rule(c, ch) {
        ParaAcc {
            out: Out { blocks: o.blocks.push(BlockV::Rule), marks: o.marks.push(ch), ..o },
            ..acc
        }
    } else {
        ParaAcc { plain: acc.plain.push(ch), ..acc }
    }
}

pub open spec fn para_fold(c: Cx, ks: Seq<int>) -> ParaAcc
    decreases ks.len(),
{
    if ks.len() == 0 {
        ParaAcc { out: no_out(), plain: Seq::empty() }
    } else {
        para_step(c, para_fold(c, ks.drop_last()), ks.last())
    }
}

/// A paragraph: its images, categories and rules come out on their own; a
/// template alone is a template block; the rest is one paragraph whose
/// wikitext runs from its first to its last remaining child.
pub open spec fn para_spec(c: Cx, k: int) -> Out {
    let acc = para_fold(c, kids(c.ns, k));
    let o = acc.out;
    let plain = acc.plain;
    if plain.len() == 0 {
        o
    } else if plain.len() == 1 && kind_is(c, plain[0], "template"@) {
        Out {
            blocks: o.blocks.push(BlockV::Template(template_v(c, plain[0]))),
            marks: o.marks.push(plain[0]),
            ..o
        }
    } else {
        let text = RichV {
            wikitext: text_between(
                c.src,
                c.ns[plain[0]].start as int,
                c.ns[plain.last()].end as int,
            ),
            ..rich_text_spec(c, k)
        };
        Out {
            blocks: if rich_empty(text) {
                o.blocks
            } else {
                o.blocks.push(BlockV::Paragraph(text))
            },
            marks: o.marks.push(k),
            ..o
        }
    }
}

/// The blocks one child of a section body gives.
pub open spec fn block_spec(c: Cx, k: int, role: RoleV) -> Out {
    if kind_is(c, k, "unordered_list"@) || kind_is(c, k, "ordered_list"@) {
        list_spec(c, k, role)
    } else if kind_is(c, k, "definition_list"@) {
        dl_spec(c, k)
    } else if kind_is(c, k, "paragraph"@) {
        para_spec(c, k)
    } else if kind_is(c, k, "table"@) {
        Out { blocks: seq![BlockV::Table { wikitext: slice_spec(c, k) }], marks: seq![k], ..no_out() }
    } else if kind_is(c, k, "horizontal_rule"@) {
        Out { blocks: seq![BlockV::Rule], marks: seq![k], ..no_out() }
    } else {
        let t = rich_text_spec(c, k);
        Out {
            blocks: if rich_empty(t) {
                Seq::empty()
            } else {
                seq![BlockV::Paragraph(t)]
            },
            marks: seq![k],
            ..no_out()
        }
    }
}

// --- sections ---------------------------------------------------------------

/// A section with a heading: its level, its heading read as rich text, the
/// role and the source hint the heading gives, and its body.
pub open spec fn section_spec(c: Cx, i: int) -> Out
    decreases c.ns.len() - i, 2int, 0int,
{
    if i < 0 || i >= c.ns.len() {
        no_out()
    } else {
        match heading_of(c, i) {
            None => no_out(),
            Some(h) => {
                let heading = heading_rich(c, h);
                let role = role_spec(heading.text);
                let hint = hint_spec(heading.text, starts_with(heading.wikitext, "''"@));
                let body = body_fold(c, i, kids(c.ns, i), 0, role, no_out());
                Out {
                    blocks: Seq::empty(),
                    sections: seq![
                        SectionV {
                            level: level_of(c.ns[h].kind),
                            heading,
                            role,
                            source_hint: hint,
                            blocks: body.blocks,
                            sections: body.sections,
                        },
                    ],
                    cats: body.cats,
                    marks: seq![h] + body.marks,
                }
            },
        }
    }
}

/// Splits the children `ks[j..]` of a section node into its own blocks and
/// its nested sections; a section without a heading adds its content here.
pub open spec fn body_fold(c: Cx, p: int, ks: Seq<int>, j: int, role: RoleV, acc: Out) -> Out
    decreases c.ns.len() - p, 1int, ks.len() - j,
{
    if j < 0 || j >= ks.len() || ks[j] <= p || ks[j] >= c.ns.len() {
        acc
    } else {
        let k = ks[j];
        let next = if kind_is(c, k, "section"@) {
            match heading_of(c, k) {
                Some(_) => join_out(acc, section_spec(c, k)),
                None => join_out(acc, body_fold(c, k, kids(c.ns, k), 0, role, no_out())),
            }
        } else if starts_with(c.ns[k].kind, "heading"@) {
            acc
        } else {
            join_out(acc, block_spec(c, k, role))
        };
        body_fold(c, p, ks, j + 1, role, next)
    }
}

/// The children of the root: text above the first heading goes to the lead.
pub open spec fn root_fold(c: Cx, ks: Seq<int>, j: int, acc: Out) -> Out
    decreases ks.len() - j,
{
    if j < 0 || j >= ks.len() || ks[j] <= 0 || ks[j] >= c.ns.len() {
        acc
    } else {
        let k = ks[j];
        let next = if !kind_is(c, k, "section"@) {
            Out { marks: acc.marks.push(k), ..acc }
        } else {
            match heading_of(c, k) {
                Some(_) => join_out(acc, section_spec(c, k)),
                None => join_out(
                    acc,
                    body_fold(c, k, kids(c.ns, k), 0, RoleV::Quotes, no_out()),
                ),
            }
        };
        root_fold(c, ks, j + 1, next)
    }
}

pub open spec fn page_out(c: Cx) -> Out {
    root_fold(c, kids(c.ns, 0), 0, no_out())
}

// --- the whole page ---------------------------------------------------------

/// The templates that stand alone in the lead.
pub open spec fn lead_templates(lead: Seq<BlockV>) -> Seq<TemplateV>
    decreases lead.len(),
{
    if lead.len() == 0 {
        Seq::empty()
    } else {
        match lead.last() {
            BlockV::Template(t) => lead_templates(lead.drop_last()).push(t),
            _ => lead_templates(lead.drop_last()),
        }
    }
}

pub open spec fn interwiki_site(name: Seq<char>) -> Option<SiteV> {
    if name == "wikipedia"@ || name == "wikipediapar"@ {
        Some(SiteV::Wikipedia)
    } else if name == "wikisource"@ || name == "wikisource author"@ {
        Some(SiteV::Wikisource)
    } else if name == "wiktionary"@ {
        Some(SiteV::Wiktionary)
    } else if name == "commons"@ || name == "commonscat"@ || name == "commons category"@ || name
        == "commons cat"@ {
        Some(SiteV::Commons)
    } else {
        None
    }
}

/// The sister-project links the lead templates give, such as `{{wikipedia}}`.
pub open spec fn interwiki_spec(ts: Seq<TemplateV>, title: Seq<char>) -> Seq<PageRefV>
    decreases ts.len(),
{
    if ts.len() == 0 {
        Seq::empty()
    } else {
        let rest = interwiki_spec(ts.drop_last(), title);
        let t = ts.last();
        match interwiki_site(t.name) {
            Some(site) => rest.push(
                PageRefV {
                    site,
                    lang: "en"@,
                    title: match tparam(t, "1"@) {
                        Some(v) => if v.len() > 0 {
                            v
                        } else {
                            title
                        },
                        None => title,
                    },
                    fragment: None,
                },
            ),
            None => rest,
        }
    }
}

/// `str::lines`: split at `\n`, one `\r` before it dropped, no empty line
/// after a final `\n`. The lines from index `i` on.
pub open spec fn lines_from(s: Seq<char>, i: int) -> Seq<Seq<char>>
    decreases s.len() - i,
{
    if i < 0 || i >= s.len() {
        Seq::empty()
    } else {
        match find_char_from(s, '\n', i) {
            Some(k) => if k >= i && k < s.len() {
                let line = s.subrange(i, k);
                let line = if line.len() > 0 && line.last() == '\r' {
                    line.drop_last()
                } else {
                    line
                };
                seq![line] + lines_from(s, k + 1)
            } else {
                seq![s.subrange(i, s.len() as int)]
            },
            None => seq![s.subrange(i, s.len() as int)],
        }
    }
}

pub open spec fn lines_of(s: Seq<char>) -> Seq<Seq<char>> {
    lines_from(s, 0)
}

/// How many of the first `n` lines have something other than whitespace.
pub open spec fn count_filled(lines: Seq<Seq<char>>, n: int) -> nat
    decreases n,
{
    if n <= 0 || n > lines.len() {
        0
    } else if trim(lines[n - 1]).len() > 0 {
        count_filled(lines, n - 1) + 1
    } else {
        count_filled(lines, n - 1)
    }
}

/// Line `r` lies inside one of the first `k` marked nodes.
pub open spec fn covered(ns: Seq<NodeV>, marks: Seq<int>, k: int, r: int) -> bool
    decreases k,
{
    if k <= 0 || k > marks.len() {
        false
    } else {
        covered(ns, marks, k - 1, r) || (0 <= marks[k - 1] < ns.len() && ns[marks[k - 1]].start_row
            <= r <= ns[marks[k - 1]].end_row)
    }
}

/// How many of the first `n` lines have text but lie in no marked node.
pub open spec fn count_unassigned(lines: Seq<Seq<char>>, ns: Seq<NodeV>, marks: Seq<int>, n: int) -> nat
    decreases n,
{
    if n <= 0 || n > lines.len() {
        0
    } else if trim(lines[n - 1]).len() > 0 && !covered(ns, marks, marks.len() as int, n - 1) {
        count_unassigned(lines, ns, marks, n - 1) + 1
    } else {
        count_unassigned(lines, ns, marks, n - 1)
    }
}

/// The error and missing nodes, when the root says there are any.
pub open spec fn count_bad(ns: Seq<NodeV>, n: int) -> nat
    decreases n,
{
    if n <= 0 || n > ns.len() {
        0
    } else if ns[n - 1].error || ns[n - 1].missing {
        count_bad(ns, n - 1) + 1
    } else {
        count_bad(ns, n - 1)
    }
}

pub open spec fn error_count(ns: Seq<NodeV>) -> u32 {
    if ns.len() == 0 || !ns[0].has_error {
        0
    } else {
        w32(count_bad(ns, ns.len() as int))
    }
}

// --- building the page --------------------------------------------------------

/// What a stretch of the tree has given so far.
pub struct Acc {
    pub blocks: Vec<Block>,
    pub sections: Vec<Section>,
    pub cats: Vec<String>,
    pub marks: Vec<usize>,
}

pub open spec fn marks_of(m: Seq<usize>) -> Seq<int> {
    m.map_values(|k: usize| k as int)
}

pub open spec fn acc_view(a: Acc) -> Out {
    Out {
        blocks: blocks_of(a.blocks@),
        sections: sections_of(a.sections@),
        cats: a.cats.deep_view(),
        marks: marks_of(a.marks@),
    }
}

fn new_acc() -> (a: Acc)
    ensures
        acc_view(a) == no_out(),
{
    let a = Acc { blocks: Vec::new(), sections: Vec::new(), cats: Vec::new(), marks: Vec::new() };
    assert(acc_view(a).blocks =~= Seq::<BlockV>::empty());
    assert(acc_view(a).sections =~= Seq::<SectionV>::empty());
    assert(acc_view(a).cats =~= Seq::<Seq<char>>::empty());
    assert(acc_view(a).marks =~= Seq::<int>::empty());
    a
}

fn append_acc(a: &mut Acc, b: Acc)
    ensures
        acc_view(*final(a)) == join_out(acc_view(*old(a)), acc_view(b)),
{
    let mut b = b;
    let ghost a0 = *a;
    let ghost b0 = b;
    a.blocks.append(&mut b.blocks);
    a.sections.append(&mut b.sections);
    a.cats.append(&mut b.cats);
    a.marks.append(&mut b.marks);
    assert(blocks_of(a.blocks@) =~= blocks_of(a0.blocks@) + blocks_of(b0.blocks@));
    assert(sections_of(a.sections@) =~= sections_of(a0.sections@) + sections_of(b0.sections@));
    assert(a.cats.deep_view() =~= a0.cats.deep_view() + b0.cats.deep_view());
    assert(marks_of(a.marks@) =~= marks_of(a0.marks@) + marks_of(b0.marks@));
}

fn push_mark(a: &mut Acc, k: usize)
    ensures
        acc_view(*final(a)) == (Out { marks: acc_view(*old(a)).marks.push(k as int), ..acc_view(*old(a)) }),
{
    let ghost m0 = a.marks@;
    a.marks.push(k);
    assert(marks_of(a.marks@) =~= marks_of(m0).push(k as int));
}

fn push_block(a: &mut Acc, b: Block)
    ensures
        acc_view(*final(a)) == (Out { blocks: acc_view(*old(a)).blocks.push(b@), ..acc_view(*old(a)) }),
{
    let ghost b0 = a.blocks@;
    a.blocks.push(b);
    assert(blocks_of(a.blocks@) =~= blocks_of(b0).push(b@));
}

fn is_list_role(role: &SectionRole) -> (r: bool)
    ensures
        r == (role@ is Cast || role@ is SeeAlso || role@ is ExternalLinks || role@ is References),
{
    match role {
        SectionRole::Cast | SectionRole::SeeAlso | SectionRole::ExternalLinks
        | SectionRole::References => true,
        _ => false,
    }
}

fn finish_item_exec(item: QuoteItem, role: &SectionRole) -> (r: Block)
    ensures
        r@ == finish_item(item@, role@),
{
    if is_list_role(role) && item.annotations.len() == 0 {
        Block::Item(item.text)
    } else {
        Block::Quote(item)
    }
}

fn cite_like(spans: &Vec<Span>) -> (r: bool)
    ensures
        r == cite_like_from(spans_of(spans@), 0),
{
    let ghost sv = spans_of(spans@);
    let mut i: usize = 0;
    while i < spans.len()
        invariant
            i <= spans.len(),
            sv == spans_of(spans@),
            cite_like_from(sv, i as int) == cite_like_from(sv, 0),
        decreases spans.len() - i,
    {
        let hit = match &spans[i].kind {
            SpanKind::Template(t) => {
                let n = chars_of(t.name.as_str());
                starts_with_lit(&n, "cite") || eq_lit(&n, "citation")
            },
            SpanKind::ExternalLink { url } => chars_of(url.as_str()).len() > 0,
            _ => false,
        };
        if hit {
            return true;
        }
        i = i + 1;
    }
    false
}

/// A first guess at what an annotation is for: a translation, a cross
/// reference, a citation, or a note.
pub fn annotation_kind(t: &RichText) -> (r: AnnotationKind)
    ensures
        r == annotation_kind_spec(t@),
{
    let lower_text = lower(&trim_exec(&chars_of(t.text.as_str())));
    if starts_with_lit(&lower_text, "translation") || starts_with_lit(&lower_text, "translated")
        || starts_with_lit(&lower_text, "transliteration") || starts_with_lit(
        &lower_text,
        "meaning",
    ) || starts_with_lit(&lower_text, "literally") {
        AnnotationKind::Translation
    } else if starts_with_lit(&lower_text, "compare") || starts_with_lit(&lower_text, "variant")
        || starts_with_lit(&lower_text, "see also") {
        AnnotationKind::CrossRef
    } else if lower_text.len() > 0 {
        AnnotationKind::Citation
    } else if cite_like(&t.spans) {
        AnnotationKind::Citation
    } else {
        AnnotationKind::Note
    }
}

fn w8_len(v: &Vec<char>) -> (r: u8)
    ensures
        r == w8(utf8_len(v@)),
{
    let mut r: u8 = 0;
    let mut i: usize = 0;
    assert(v@.take(0) =~= Seq::<char>::empty());
    while i < v.len()
        invariant
            i <= v.len(),
            r == w8(utf8_len(v@.take(i as int))),
        decreases v.len() - i,
    {
        let b = crate::text::char_bytes_exec(v[i]);
        proof {
            crate::text::lemma_utf8_len_push(v@, i as int);
            let n = utf8_len(v@.take(i as int));
            vstd::arithmetic::div_mod::lemma_add_mod_noop(n as int, b as int, 256);
            vstd::arithmetic::div_mod::lemma_small_mod(b as nat, 256);
            vstd::arithmetic::div_mod::lemma_mod_sub_multiples_vanish((r as int + b as int), 256);
            if r as int + b as int >= 256 {
                vstd::arithmetic::div_mod::lemma_small_mod((r as int + b as int - 256) as nat, 256);
            } else {
                vstd::arithmetic::div_mod::lemma_small_mod((r as int + b as int) as nat, 256);
            }
        }
        if r as u64 + b >= 256 {
            r = (r as u64 + b - 256) as u8;
        } else {
            r = (r as u64 + b) as u8;
        }
        i = i + 1;
    }
    assert(v@.take(v.len() as int) =~= v@);
    r
}

fn marker_depth_exec(w: &Walk, item: usize) -> (r: u8)
    requires
        walk_ok(*w),
        item < w.ns.len(),
    ensures
        r == marker_depth(cx(*w), item as int),
{
    match crate::syntax::child_of_kind_exec(w.ns, item, "list_marker") {
        Some(m) => w8_len(&trim_exec(&slice(w, m))),
        None => 1,
    }
}

pub open spec fn current_view(c: Option<QuoteItem>) -> Option<QuoteItemV> {
    match c {
        Some(q) => Some(q@),
        None => None,
    }
}

fn list_exec(w: &Walk, k: usize, role: &SectionRole) -> (r: Acc)
    requires
        walk_ok(*w),
        k < w.ns.len(),
    ensures
        acc_view(r) == list_spec(cx(*w), k as int, role@),
{
    let ks = crate::syntax::kids_exec(w.ns, k);
    let ghost ki = ks@.map_values(|x: usize| x as int);
    let mut out: Vec<Block> = Vec::new();
    let mut current: Option<QuoteItem> = None;
    let mut marks: Vec<usize> = Vec::new();
    let mut j: usize = 0;
    assert(blocks_of(out@) =~= Seq::<BlockV>::empty());
    assert(marks_of(marks@) =~= Seq::<int>::empty());
    while j < ks.len()
        invariant
            j <= ks.len(),
            walk_ok(*w),
            ki == ks@.map_values(|x: usize| x as int),
            forall|m: int| 0 <= m < ks@.len() ==> k < #[trigger] ks@[m] < w.ns.len(),
            list_fold(cx(*w), role@, ki.take(j as int)) == (ListAcc {
                out: blocks_of(out@),
                current: current_view(current),
                marks: marks_of(marks@),
            }),
        decreases ks.len() - j,
    {
        let item = ks[j];
        assert(ki.take(j + 1).drop_last() =~= ki.take(j as int));
        assert(ki.take(j + 1).last() == item as int);
        let kind = chars_of(w.ns[item].kind.as_str());
        if ends_with_lit(&kind, "list_item") {
            let depth = marker_depth_exec(w, item);
            match crate::syntax::child_of_kind_exec(w.ns, item, "list_item_content") {
                None => {},
                Some(content) => {
                    let text = rich_text(w, content);
                    let ghost m0 = marks@;
                    marks.push(content);
                    assert(marks_of(marks@) =~= marks_of(m0).push(content as int));
                    if depth <= 1 || current.is_none() {
                        let ghost b0 = out@;
                        match current {
                            Some(prev) => {
                                out.push(finish_item_exec(prev, role));
                                assert(blocks_of(out@) =~= blocks_of(b0).push(
                                    finish_item(prev@, role@),
                                ));
                            },
                            None => {},
                        }
                        let q = QuoteItem { text, annotations: Vec::new() };
                        assert(q@.annotations =~= Seq::<AnnotationV>::empty());
                        current = Some(q);
                    } else {
                        match current {
                            Some(q) => {
                                let mut q = q;
                                let ghost a0 = q.annotations@;
                                let kind = annotation_kind(&text);
                                q.annotations.push(Annotation { depth, text, kind });
                                assert(annotations_of(q.annotations@) =~= annotations_of(a0).push(
                                    AnnotationV { depth, text: text@, kind },
                                ));
                                current = Some(q);
                            },
                            None => {
                                current = None;
                            },
                        }
                    }
                },
            }
        }
        j = j + 1;
    }
    assert(ki.take(ks.len() as int) =~= ki);
    let ghost b0 = out@;
    match current {
        Some(prev) => {
            out.push(finish_item_exec(prev, role));
            assert(blocks_of(out@) =~= blocks_of(b0).push(finish_item(prev@, role@)));
        },
        None => {},
    }
    let a = Acc { blocks: out, sections: Vec::new(), cats: Vec::new(), marks };
    assert(acc_view(a).sections =~= Seq::<SectionV>::empty());
    assert(acc_view(a).cats =~= Seq::<Seq<char>>::empty());
    a
}

proof fn lemma_w32_small(n: nat)
    requires
        n < 0x2_0000_0000,
    ensures
        w32(n) == (if n >= 0x1_0000_0000 {
            (n - 0x1_0000_0000) as u32
        } else {
            n as u32
        }),
{
    if n >= 0x1_0000_0000 {
        vstd::arithmetic::div_mod::lemma_mod_sub_multiples_vanish(n as int, 0x1_0000_0000);
        vstd::arithmetic::div_mod::lemma_small_mod((n - 0x1_0000_0000) as nat, 0x1_0000_0000);
    } else {
        vstd::arithmetic::div_mod::lemma_small_mod(n, 0x1_0000_0000);
    }
}

proof fn lemma_split_len(s: Seq<char>, k: int)
    requires
        0 <= k <= s.len(),
    ensures
        utf8_len(s) == utf8_len(s.take(k)) + utf8_len(s.subrange(k, s.len() as int)),
{
    assert(s =~= s.take(k) + s.subrange(k, s.len() as int));
    crate::wikitext::lemma_utf8_len_concat(s.take(k), s.subrange(k, s.len() as int));
}

/// Removes the `Name:` that opens a dialogue turn (and a stray second colon
/// after it), and moves the spans with it.
pub fn strip_speaker(t: RichText) -> (r: RichText)
    ensures
        r@ == strip_speaker_spec(t@),
{
    let text = chars_of(t.text.as_str());
    proof {
        crate::text::lemma_find_char_from(text@, ':', 0);
    }
    let colon = match crate::text::find_char_exec(&text, ':') {
        None => return t,
        Some(k) => k,
    };
    let rest = crate::text::slice_of(&text, colon + 1, text.len());
    let head = crate::text::slice_of(&text, 0, colon + 1);
    proof {
        lemma_split_len(text@, colon + 1);
        assert(head@ =~= text@.take(colon + 1));
    }
    let removed = crate::wikitext::w32_len(&head);
    let i1 = crate::text::skip_exec(&rest, true, ' ');
    let a = crate::text::slice_of(&rest, i1, rest.len());
    let i2 = crate::text::skip_exec(&a, false, ':');
    let b = crate::text::slice_of(&a, i2, a.len());
    let i3 = crate::text::skip_exec(&b, true, ' ');
    let newt = crate::text::slice_of(&b, i3, b.len());
    let d = i1 + i2 + i3;
    assert(newt@ =~= rest@.subrange(d as int, rest@.len() as int));
    assert(newt@ == trim_start(trim_start_char(trim_start(rest@), ':')));
    let dropped_head = crate::text::slice_of(&rest, 0, d);
    proof {
        lemma_split_len(rest@, d as int);
        assert(dropped_head@ =~= rest@.take(d as int));
    }
    let gone = crate::wikitext::w32_len(&dropped_head);
    let sum: u64 = removed as u64 + gone as u64;
    proof {
        lemma_w32_small(sum as nat);
    }
    let dropped: u32 = if sum >= 0x1_0000_0000 {
        (sum - 0x1_0000_0000) as u32
    } else {
        sum as u32
    };
    let end = crate::wikitext::w32_len(&newt);
    let ghost sv = spans_of(t.spans@);
    let mut out: Vec<Span> = Vec::new();
    let mut i: usize = 0;
    while i < t.spans.len()
        invariant
            i <= t.spans.len(),
            sv == spans_of(t.spans@),
            spans_of(out@) == shift_spans(sv.take(i as int), dropped, end),
        decreases t.spans.len() - i,
    {
        assert(sv.take(i + 1).drop_last() =~= sv.take(i as int));
        let s = &t.spans[i];
        if s.end > dropped {
            let ghost before = out@;
            let a = if s.start >= dropped { s.start - dropped } else { 0 };
            let z = s.end - dropped;
            out.push(
                Span {
                    start: if a <= end { a } else { end },
                    end: if z <= end { z } else { end },
                    kind: crate::wikitext::copy_span_kind(&s.kind),
                },
            );
            assert(spans_of(out@) =~= spans_of(before).push(
                crate::wikitext::trim_span(sv[i as int], dropped, end),
            ));
        }
        i = i + 1;
    }
    assert(sv.take(t.spans.len() as int) =~= sv);
    RichText { text: string_of(&newt), wikitext: t.wikitext, spans: out }
}

fn first_link(spans: &Vec<Span>) -> (r: Option<PageRef>)
    ensures
        (match r {
            Some(p) => Some(p@),
            None => None,
        }) == first_link_from(spans_of(spans@), 0),
{
    let ghost sv = spans_of(spans@);
    let mut i: usize = 0;
    while i < spans.len()
        invariant
            i <= spans.len(),
            sv == spans_of(spans@),
            first_link_from(sv, i as int) == first_link_from(sv, 0),
        decreases spans.len() - i,
    {
        match &spans[i].kind {
            SpanKind::Link { target } => {
                return Some(crate::wikitext::copy_page_ref(target));
            },
            _ => {},
        }
        i = i + 1;
    }
    None
}

fn turn_exec(w: &Walk, content: usize, text: RichText) -> (r: Turn)
    requires
        walk_ok(*w),
        content < w.ns.len(),
    ensures
        r@ == turn_spec(cx(*w), content as int, text@),
{
    let ks = crate::syntax::kids_exec(w.ns, content);
    if ks.len() == 0 {
        return Turn { speaker: None, speaker_link: None, text, is_stage_direction: false };
    }
    let first = ks[0];
    let kind = chars_of(w.ns[first].kind.as_str());
    let is_bold = eq_lit(&kind, "bold");
    let is_stage = eq_lit(&kind, "italic") && crate::text::eq_chars(
        &trim_exec(&slice(w, first)),
        &trim_exec(&chars_of(text.wikitext.as_str())),
    );
    if !is_bold {
        return Turn { speaker: None, speaker_link: None, text, is_stage_direction: is_stage };
    }
    let name = rich_text(w, first);
    let nt = chars_of(name.text.as_str());
    let name_text = trim_exec(&crate::text::trim_end_char_exec(&trim_exec(&nt), ':'));
    let after = w.src.between(w.ns[first].end, w.ns[content].end);
    let speaks = name_text.len() > 0 && (starts_with_lit(
        &crate::text::trim_start_exec(&after),
        ":",
    ) || ends_with_lit(&crate::text::trim_end_exec(&nt), ":"));
    if speaks {
        let link = first_link(&name.spans);
        Turn {
            speaker: Some(string_of(&name_text)),
            speaker_link: link,
            text: strip_speaker(text),
            is_stage_direction: is_stage,
        }
    } else {
        Turn { speaker: None, speaker_link: None, text, is_stage_direction: is_stage }
    }
}

fn dl_exec(w: &Walk, k: usize) -> (r: Acc)
    requires
        walk_ok(*w),
        k < w.ns.len(),
    ensures
        acc_view(r) == dl_spec(cx(*w), k as int),
{
    let ks = crate::syntax::kids_exec(w.ns, k);
    let ghost ki = ks@.map_values(|x: usize| x as int);
    let mut turns: Vec<Turn> = Vec::new();
    let mut marks: Vec<usize> = Vec::new();
    let mut j: usize = 0;
    assert(turns@.map_values(|t: Turn| t@) =~= Seq::<TurnV>::empty());
    assert(marks_of(marks@) =~= Seq::<int>::empty());
    while j < ks.len()
        invariant
            j <= ks.len(),
            walk_ok(*w),
            ki == ks@.map_values(|x: usize| x as int),
            forall|m: int| 0 <= m < ks@.len() ==> k < #[trigger] ks@[m] < w.ns.len(),
            dl_fold(cx(*w), ki.take(j as int)) == (DlAcc {
                turns: turns@.map_values(|t: Turn| t@),
                marks: marks_of(marks@),
            }),
        decreases ks.len() - j,
    {
        let line = ks[j];
        assert(ki.take(j + 1).drop_last() =~= ki.take(j as int));
        assert(ki.take(j + 1).last() == line as int);
        match crate::syntax::child_of_kind_exec(w.ns, line, "list_item_content") {
            None => {},
            Some(content) => {
                let text = rich_text(w, content);
                let ghost m0 = marks@;
                marks.push(content);
                assert(marks_of(marks@) =~= marks_of(m0).push(content as int));
                if !text.is_empty() {
                    let ghost t0 = turns@;
                    let ghost tv = text@;
                    let turn = turn_exec(w, content, text);
                    turns.push(turn);
                    assert(turns@.map_values(|t: Turn| t@) =~= t0.map_values(|t: Turn| t@).push(
                        turn_spec(cx(*w), content as int, tv),
                    ));
                }
            },
        }
        j = j + 1;
    }
    assert(ki.take(ks.len() as int) =~= ki);
    let mut blocks: Vec<Block> = Vec::new();
    if turns.len() > 0 {
        let ghost tv = turns@.map_values(|t: Turn| t@);
        let e = Exchange { turns, annotations: Vec::new() };
        assert(e@.annotations =~= Seq::<AnnotationV>::empty());
        assert(e@.turns == tv);
        blocks.push(Block::Exchange(e));
        assert(blocks_of(blocks@) =~= seq![
            BlockV::Exchange(ExchangeV { turns: tv, annotations: Seq::empty() }),
        ]);
    } else {
        assert(blocks_of(blocks@) =~= Seq::<BlockV>::empty());
    }
    let a = Acc { blocks, sections: Vec::new(), cats: Vec::new(), marks };
    assert(acc_view(a).sections =~= Seq::<SectionV>::empty());
    assert(acc_view(a).cats =~= Seq::<Seq<char>>::empty());
    a
}

fn rfind_tilde(t: &Vec<char>) -> (r: Option<usize>)
    ensures
        match r {
            Some(k) => rfind_from(t@, " ~ "@, t@.len() - 3) == Some(k as int) && k + 3 <= t@.len(),
            None => rfind_from(t@, " ~ "@, t@.len() - 3) is None,
        },
{
    let p = chars_of(" ~ ");
    proof {
        reveal_strlit(" ~ ");
    }
    if t.len() < 3 {
        return None;
    }
    let mut k: usize = t.len() - 3;
    loop
        invariant
            p@ == " ~ "@,
            p@.len() == 3,
            t.len() >= 3,
            k + 3 <= t.len(),
            rfind_from(t@, " ~ "@, k as int) == rfind_from(t@, " ~ "@, t@.len() - 3),
        decreases k,
    {
        if crate::text::occurs_at_exec(t, &p, k) {
            return Some(k);
        }
        if k == 0 {
            assert(rfind_from(t@, " ~ "@, -1) is None);
            return None;
        }
        k = k - 1;
    }
}

fn media_exec(w: &Walk, n: usize) -> (r: (Media, Vec<usize>))
    requires
        walk_ok(*w),
        n < w.ns.len(),
    ensures
        (r.0@, marks_of(r.1@)) == media_spec(cx(*w), n as int),
{
    let file = match crate::syntax::child_of_kind_exec(w.ns, n, "filename") {
        Some(f) => trim_exec(&slice(w, f)),
        None => Vec::new(),
    };
    let mut marks: Vec<usize> = Vec::new();
    match crate::syntax::child_of_kind_exec(w.ns, n, "file_caption") {
        Some(cap) => {
            let t = rich_text(w, cap);
            marks.push(cap);
            assert(marks_of(marks@) =~= seq![cap as int]);
            let tc = chars_of(t.text.as_str());
            let attribution = match rfind_tilde(&tc) {
                Some(k) => {
                    let n = tc.len();
                    Some(string_of(&trim_exec(&crate::text::slice_of(&tc, k + 3, n))))
                },
                None => None,
            };
            (Media { file: string_of(&file), caption: Some(t), caption_attribution: attribution }, marks)
        },
        None => {
            assert(marks_of(marks@) =~= Seq::<int>::empty());
            (Media { file: string_of(&file), caption: None, caption_attribution: None }, marks)
        },
    }
}

fn category_of_exec(w: &Walk, n: usize) -> (r: Option<String>)
    requires
        walk_ok(*w),
        n < w.ns.len(),
    ensures
        r.deep_view() == category_of(cx(*w), n as int),
{
    match crate::syntax::child_of_kind_exec(w.ns, n, "wikilink_page") {
        Some(page) => {
            let title = trim_exec(&slice(w, page));
            match crate::text::strip_prefix_lit(&title, "Category:") {
                Some(rest) => Some(string_of(&trim_exec(&rest))),
                None => match crate::text::strip_prefix_lit(&title, "category:") {
                    Some(rest) => Some(string_of(&trim_exec(&rest))),
                    None => None,
                },
            }
        },
        None => None,
    }
}

fn is_rule_exec(w: &Walk, n: usize) -> (r: bool)
    requires
        walk_ok(*w),
        n < w.ns.len(),
    ensures
        r == is_rule(cx(*w), n as int),
{
    match crate::syntax::child_of_kind_exec(w.ns, n, "html_tag_name") {
        Some(t) => crate::wikitext::eq_ignore_ascii_case_exec(&slice(w, t), "hr"),
        None => false,
    }
}

fn para_exec(w: &Walk, k: usize) -> (r: Acc)
    requires
        walk_ok(*w),
        k < w.ns.len(),
    ensures
        acc_view(r) == para_spec(cx(*w), k as int),
{
    let ks = crate::syntax::kids_exec(w.ns, k);
    let ghost ki = ks@.map_values(|x: usize| x as int);
    let mut a = new_acc();
    let mut plain: Vec<usize> = Vec::new();
    let mut j: usize = 0;
    assert(marks_of(plain@) =~= Seq::<int>::empty());
    while j < ks.len()
        invariant
            j <= ks.len(),
            walk_ok(*w),
            ki == ks@.map_values(|x: usize| x as int),
            forall|m: int| 0 <= m < ks@.len() ==> k < #[trigger] ks@[m] < w.ns.len(),
            forall|m: int| 0 <= m < plain@.len() ==> k < #[trigger] plain@[m] < w.ns.len(),
            acc_view(a).sections.len() == 0,
            para_fold(cx(*w), ki.take(j as int)) == (ParaAcc {
                out: acc_view(a),
                plain: marks_of(plain@),
            }),
        decreases ks.len() - j,
    {
        let ch = ks[j];
        assert(ki.take(j + 1).drop_last() =~= ki.take(j as int));
        assert(ki.take(j + 1).last() == ch as int);
        let kind = chars_of(w.ns[ch].kind.as_str());
        if eq_lit(&kind, "medialink") {
            let (m, marks) = media_exec(w, ch);
            push_block(&mut a, Block::Media(m));
            push_mark(&mut a, ch);
            let ghost m0 = a.marks@;
            let mut marks = marks;
            a.marks.append(&mut marks);
            assert(marks_of(a.marks@) =~= marks_of(m0) + media_spec(cx(*w), ch as int).1);
        } else if eq_lit(&kind, "wikilink") && category_of_exec(w, ch).is_some() {
            let cat = category_of_exec(w, ch);
            match cat {
                Some(name) => {
                    let ghost c0 = a.cats.deep_view();
                    let ghost n0 = name@;
                    a.cats.push(name);
                    assert(a.cats.deep_view() =~= c0.push(n0));
                },
                None => {},
            }
            push_mark(&mut a, ch);
        } else if eq_lit(&kind, "html_tag") && is_rule_exec(w, ch) {
            push_block(&mut a, Block::Rule);
            push_mark(&mut a, ch);
        } else {
            let ghost p0 = plain@;
            plain.push(ch);
            assert(marks_of(plain@) =~= marks_of(p0).push(ch as int));
        }
        j = j + 1;
    }
    assert(ki.take(ks.len() as int) =~= ki);
    if plain.len() == 0 {
        return a;
    }
    let p0 = plain[0];
    if plain.len() == 1 && eq_lit(&chars_of(w.ns[p0].kind.as_str()), "template") {
        push_block(&mut a, Block::Template(crate::wikitext::template_ref(w, p0)));
        push_mark(&mut a, p0);
        return a;
    }
    let last = plain[plain.len() - 1];
    let mut text = rich_text(w, k);
    text.wikitext = string_of(&w.src.between(w.ns[p0].start, w.ns[last].end));
    push_mark(&mut a, k);
    if !text.is_empty() {
        push_block(&mut a, Block::Paragraph(text));
    }
    a
}

/// The blocks one child of a section body gives, by its kind.
fn block_exec(w: &Walk, k: usize, role: &SectionRole) -> (r: Acc)
    requires
        walk_ok(*w),
        k < w.ns.len(),
    ensures
        acc_view(r) == block_spec(cx(*w), k as int, role@),
{
    let kind = chars_of(w.ns[k].kind.as_str());
    if eq_lit(&kind, "unordered_list") || eq_lit(&kind, "ordered_list") {
        list_exec(w, k, role)
    } else if eq_lit(&kind, "definition_list") {
        dl_exec(w, k)
    } else if eq_lit(&kind, "paragraph") {
        para_exec(w, k)
    } else if eq_lit(&kind, "table") {
        let mut a = new_acc();
        push_block(&mut a, Block::Table { wikitext: string_of(&slice(w, k)) });
        push_mark(&mut a, k);
        a
    } else if eq_lit(&kind, "horizontal_rule") {
        let mut a = new_acc();
        push_block(&mut a, Block::Rule);
        push_mark(&mut a, k);
        a
    } else {
        let t = rich_text(w, k);
        let mut a = new_acc();
        if !t.is_empty() {
            push_block(&mut a, Block::Paragraph(t));
        }
        push_mark(&mut a, k);
        a
    }
}

// --- sections ---------------------------------------------------------------

/// A part of a text takes no more bytes than the whole.
proof fn lemma_subrange_len(s: Seq<char>, a: int, b: int)
    requires
        0 <= a <= b <= s.len(),
    ensures
        utf8_len(s.subrange(a, b)) <= utf8_len(s),
{
    let t = s.subrange(a, s.len() as int);
    lemma_split_len(s, a);
    lemma_split_len(t, b - a);
    assert(t.take(b - a) =~= s.subrange(a, b));
}

proof fn lemma_inner_len(raw: Seq<char>)
    ensures
        utf8_len(trim(trim_char(trim(raw), '='))) <= utf8_len(raw),
{
    let t1s = trim_start(raw);
    crate::text::lemma_skip_bounds(raw, 0, true, ' ');
    lemma_subrange_len(raw, crate::text::skip_from(raw, 0, true, ' '), raw.len() as int);
    let t1 = trim(raw);
    crate::text::lemma_back_bounds(t1s, t1s.len() as int, true, ' ');
    lemma_subrange_len(t1s, 0, crate::text::back_from(t1s, t1s.len() as int, true, ' '));
    let t2s = trim_start_char(t1, '=');
    crate::text::lemma_skip_bounds(t1, 0, false, '=');
    lemma_subrange_len(t1, crate::text::skip_from(t1, 0, false, '='), t1.len() as int);
    let t2 = trim_char(t1, '=');
    crate::text::lemma_back_bounds(t2s, t2s.len() as int, false, '=');
    lemma_subrange_len(t2s, 0, crate::text::back_from(t2s, t2s.len() as int, false, '='));
    let t3s = trim_start(t2);
    crate::text::lemma_skip_bounds(t2, 0, true, ' ');
    lemma_subrange_len(t2, crate::text::skip_from(t2, 0, true, ' '), t2.len() as int);
    crate::text::lemma_back_bounds(t3s, t3s.len() as int, true, ' ');
    lemma_subrange_len(t3s, 0, crate::text::back_from(t3s, t3s.len() as int, true, ' '));
}

fn is_heading_kind_exec(k: &Vec<char>) -> (r: bool)
    ensures
        r == is_heading_kind(k@),
{
    crate::text::utf8_len_at_least(k, 8) && !crate::text::utf8_len_at_least(k, 9)
        && starts_with_lit(k, "heading") && !eq_lit(k, "heading_marker")
}

fn heading_of_exec(w: &Walk, i: usize) -> (r: Option<usize>)
    requires
        i < w.ns.len(),
    ensures
        match r {
            Some(h) => heading_of(cx(*w), i as int) == Some(h as int) && i < h < w.ns.len(),
            None => heading_of(cx(*w), i as int) is None,
        },
{
    let ks = crate::syntax::kids_exec(w.ns, i);
    let ghost ki = ks@.map_values(|x: usize| x as int);
    let mut j: usize = 0;
    while j < ks.len()
        invariant
            j <= ks.len(),
            ki == ks@.map_values(|x: usize| x as int),
            ki == kids(cx(*w).ns, i as int),
            forall|m: int| 0 <= m < ks@.len() ==> i < #[trigger] ks@[m] < w.ns.len(),
            heading_from(cx(*w), ki, j as int) == heading_of(cx(*w), i as int),
        decreases ks.len() - j,
    {
        let k = ks[j];
        if is_heading_kind_exec(&chars_of(w.ns[k].kind.as_str())) {
            return Some(k);
        }
        j = j + 1;
    }
    None
}

/// The text of a heading, parsed on its own.
fn heading_rich_exec(w: &Walk, h: usize) -> (r: RichText)
    requires
        walk_ok(*w),
        h < w.ns.len(),
    ensures
        r@ == heading_rich(cx(*w), h as int),
{
    let raw = slice(w, h);
    let inner = trim_exec(&crate::text::trim_char_exec(&trim_exec(&raw), '='));
    let inner_str = string_of(&inner);
    match crate::syntax::syntax_nodes(inner_str.as_str()) {
        None => {
            let r = RichText { text: string_of(&inner), wikitext: inner_str, spans: Vec::new() };
            assert(r@.spans =~= Seq::<SpanV>::empty());
            r
        },
        Some(ns2) => {
            if ns2.len() == 0 {
                let r = RichText { text: String::new(), wikitext: inner_str, spans: Vec::new() };
                assert(r@.spans =~= Seq::<SpanV>::empty());
                return r;
            }
            proof {
                let n = w.src.chars@.len();
                assert(w.src.offsets@[n as int] == utf8_len(w.src.chars@.take(n as int)));
                assert(w.src.chars@.take(n as int) =~= w.src.chars@);
                crate::text::lemma_byte_index_from(w.src.chars@, w.ns@[h as int].start as int, 0);
                crate::text::lemma_byte_index_from(w.src.chars@, w.ns@[h as int].end as int, 0);
                match crate::text::byte_get(w.src.chars@, w.ns@[h as int].start as int, w.ns@[h as int].end as int) {
                    Some(_) => {
                        let a = crate::text::byte_index(w.src.chars@, w.ns@[h as int].start as int)->0;
                        let b = crate::text::byte_index(w.src.chars@, w.ns@[h as int].end as int)->0;
                        lemma_subrange_len(w.src.chars@, a, b);
                    },
                    None => {},
                }
                lemma_inner_len(raw@);
            }
            let src2 = crate::text::Utf8Text::new(inner);
            let w2 = Walk { src: &src2, ns: &ns2, title: w.title };
            let mut r = rich_text(&w2, 0);
            r.wikitext = inner_str;
            r
        },
    }
}

/// Reads a section with a heading: its level, its heading, the role and the
/// source hint the heading gives, and its body.
fn section_exec(w: &Walk, i: usize) -> (r: Acc)
    requires
        walk_ok(*w),
        i < w.ns.len(),
    ensures
        acc_view(r) == section_spec(cx(*w), i as int),
    decreases w.ns.len() - i, 2nat,
{
    let h = match heading_of_exec(w, i) {
        Some(h) => h,
        None => return new_acc(),
    };
    let heading = heading_rich_exec(w, h);
    let role = crate::roles::role_of(heading.text.as_str());
    let is_italic = starts_with_lit(&chars_of(heading.wikitext.as_str()), "''");
    let hint = crate::roles::source_hint(heading.text.as_str(), is_italic);
    let body = body_exec(w, i, &role);
    let kind = chars_of(w.ns[h].kind.as_str());
    let level: u8 = if kind.len() > 7 {
        let code: u32 = kind[7] as u32;
        let lo: u32 = code % 256;
        proof {
            vstd::arithmetic::div_mod::lemma_add_mod_noop(code as int, 208, 256);
            vstd::arithmetic::div_mod::lemma_small_mod(208, 256);
            vstd::arithmetic::div_mod::lemma_mod_twice(code as int, 256);
        }
        ((lo + 208) % 256) as u8
    } else {
        0
    };
    let ghost bv = acc_view(body);
    let s = Section {
        level,
        heading,
        role,
        source_hint: hint,
        blocks: body.blocks,
        sections: body.sections,
    };
    proof {
        crate::model::lemma_subsections_view(s, 0);
        assert(crate::model::subsections_view(s, 0) =~= bv.sections);
    }
    let mut sections: Vec<Section> = Vec::new();
    sections.push(s);
    let mut marks: Vec<usize> = Vec::new();
    marks.push(h);
    let mut bm = body.marks;
    marks.append(&mut bm);
    let r = Acc { blocks: Vec::new(), sections, cats: body.cats, marks };
    assert(acc_view(r).blocks =~= Seq::<BlockV>::empty());
    assert(acc_view(r).sections =~= seq![section_view(s)]);
    assert(acc_view(r).marks =~= seq![h as int] + bv.marks);
    r
}

/// Splits a section node into its own blocks and its nested sections; a
/// section without a heading adds its content to the enclosing one.
fn body_exec(w: &Walk, p: usize, role: &SectionRole) -> (r: Acc)
    requires
        walk_ok(*w),
        p < w.ns.len(),
    ensures
        acc_view(r) == body_fold(cx(*w), p as int, kids(cx(*w).ns, p as int), 0, role@, no_out()),
    decreases w.ns.len() - p, 1nat,
{
    let ks = crate::syntax::kids_exec(w.ns, p);
    let ghost ki = ks@.map_values(|x: usize| x as int);
    let ghost c = cx(*w);
    let mut a = new_acc();
    let mut j: usize = 0;
    while j < ks.len()
        invariant
            j <= ks.len(),
            walk_ok(*w),
            c == cx(*w),
            ki == ks@.map_values(|x: usize| x as int),
            ki == kids(c.ns, p as int),
            forall|m: int| 0 <= m < ks@.len() ==> p < #[trigger] ks@[m] < w.ns.len(),
            body_fold(c, p as int, ki, j as int, role@, acc_view(a)) == body_fold(
                c,
                p as int,
                ki,
                0,
                role@,
                no_out(),
            ),
        decreases ks.len() - j,
    {
        let k = ks[j];
        assert(ki[j as int] == k as int);
        let kind = chars_of(w.ns[k].kind.as_str());
        if eq_lit(&kind, "section") {
            match heading_of_exec(w, k) {
                Some(_) => {
                    let r = section_exec(w, k);
                    append_acc(&mut a, r);
                },
                None => {
                    let r = body_exec(w, k, role);
                    append_acc(&mut a, r);
                },
            }
        } else if starts_with_lit(&kind, "heading") {
        } else {
            let r = block_exec(w, k, role);
            append_acc(&mut a, r);
        }
        j = j + 1;
    }
    a
}

/// The children of the root, in order: sections, and the text above the
/// first heading, which goes to the lead.
fn root_exec(w: &Walk) -> (r: Acc)
    requires
        walk_ok(*w),
    ensures
        acc_view(r) == page_out(cx(*w)),
{
    let mut a = new_acc();
    if w.ns.len() == 0 {
        assert(kids(cx(*w).ns, 0) =~= Seq::<int>::empty());
        return a;
    }
    let ks = crate::syntax::kids_exec(w.ns, 0);
    let ghost ki = ks@.map_values(|x: usize| x as int);
    let ghost c = cx(*w);
    let mut j: usize = 0;
    while j < ks.len()
        invariant
            j <= ks.len(),
            walk_ok(*w),
            c == cx(*w),
            ki == ks@.map_values(|x: usize| x as int),
            ki == kids(c.ns, 0),
            forall|m: int| 0 <= m < ks@.len() ==> 0 < #[trigger] ks@[m] < w.ns.len(),
            root_fold(c, ki, j as int, acc_view(a)) == root_fold(c, ki, 0, no_out()),
        decreases ks.len() - j,
    {
        let k = ks[j];
        assert(ki[j as int] == k as int);
        let kind = chars_of(w.ns[k].kind.as_str());
        if !eq_lit(&kind, "section") {
            push_mark(&mut a, k);
        } else {
            match heading_of_exec(w, k) {
                Some(_) => {
                    let r = section_exec(w, k);
                    append_acc(&mut a, r);
                },
                None => {
                    let r = body_exec(w, k, &SectionRole::Quotes);
                    append_acc(&mut a, r);
                },
            }
        }
        j = j + 1;
    }
    a
}

// --- the whole page ---------------------------------------------------------

fn lines_exec(s: &Vec<char>) -> (r: Vec<Vec<char>>)
    ensures
        crate::text::views(r@) == lines_of(s@),
{
    let mut out: Vec<Vec<char>> = Vec::new();
    let mut i: usize = 0;
    assert(crate::text::views(out@) =~= Seq::<Seq<char>>::empty());
    while i < s.len()
        invariant
            i <= s.len(),
            crate::text::views(out@) + lines_from(s@, i as int) == lines_of(s@),
        decreases s.len() - i,
    {
        let mut j: usize = i;
        while j < s.len() && s[j] != '\n'
            invariant
                i <= j <= s.len(),
                find_char_from(s@, '\n', j as int) == find_char_from(s@, '\n', i as int),
            decreases s.len() - j,
        {
            j = j + 1;
        }
        let ghost before = crate::text::views(out@);
        if j < s.len() {
            let mut line = crate::text::slice_of(s, i, j);
            if line.len() > 0 && line[line.len() - 1] == '\r' {
                line = crate::text::slice_of(&line, 0, line.len() - 1);
                assert(line@ =~= s@.subrange(i as int, j as int).drop_last());
            }
            out.push(line);
            assert(crate::text::views(out@) =~= before.push(line@));
            assert(lines_from(s@, i as int) =~= seq![line@] + lines_from(s@, j + 1));
            assert(crate::text::views(out@) + lines_from(s@, j + 1) =~= before + lines_from(
                s@,
                i as int,
            ));
            i = j + 1;
        } else {
            let line = crate::text::slice_of(s, i, s.len());
            out.push(line);
            assert(crate::text::views(out@) =~= before.push(line@));
            assert(lines_from(s@, i as int) =~= seq![line@]);
            assert(lines_from(s@, s.len() as int) =~= Seq::<Seq<char>>::empty());
            assert(crate::text::views(out@) + lines_from(s@, s.len() as int) =~= before
                + lines_from(s@, i as int));
            i = s.len();
        }
    }
    assert(lines_from(s@, i as int) =~= Seq::<Seq<char>>::empty());
    assert(crate::text::views(out@) + Seq::<Seq<char>>::empty() =~= crate::text::views(out@));
    out
}

fn w32_count(n: u64) -> (r: u32)
    ensures
        r == w32(n as nat),
{
    (n % 0x1_0000_0000) as u32
}

fn filled_exec(lines: &Vec<Vec<char>>) -> (r: u32)
    ensures
        r == w32(count_filled(crate::text::views(lines@), lines.len() as int)),
{
    let ghost lv = crate::text::views(lines@);
    let mut n: u64 = 0;
    let mut i: usize = 0;
    while i < lines.len()
        invariant
            i <= lines.len(),
            lv == crate::text::views(lines@),
            n == count_filled(lv, i as int),
            n <= i,
        decreases lines.len() - i,
    {
        if trim_exec(&lines[i]).len() > 0 {
            n = n + 1;
        }
        i = i + 1;
    }
    w32_count(n)
}

fn unassigned_exec(lines: &Vec<Vec<char>>, ns: &Vec<NodeRecord>, marks: &Vec<usize>) -> (r: u32)
    ensures
        r == w32(
            count_unassigned(
                crate::text::views(lines@),
                crate::syntax::nodes_view(ns@),
                marks_of(marks@),
                lines.len() as int,
            ),
        ),
{
    let ghost nv = crate::syntax::nodes_view(ns@);
    let ghost mv = marks_of(marks@);
    let n = lines.len();
    let mut cov: Vec<bool> = Vec::new();
    let mut r: usize = 0;
    while r < n
        invariant
            r <= n,
            n == lines.len(),
            cov@.len() == r,
            forall|q: int| 0 <= q < r ==> !#[trigger] cov@[q],
        decreases n - r,
    {
        cov.push(false);
        r = r + 1;
    }
    let mut j: usize = 0;
    while j < marks.len()
        invariant
            j <= marks.len(),
            n == lines.len(),
            cov@.len() == n,
            nv == crate::syntax::nodes_view(ns@),
            mv == marks_of(marks@),
            forall|q: int| 0 <= q < n ==> #[trigger] cov@[q] == covered(nv, mv, j as int, q),
        decreases marks.len() - j,
    {
        let m = marks[j];
        if m < ns.len() && n > 0 {
            let from = ns[m].start_row;
            let to = if ns[m].end_row < n { ns[m].end_row } else { n - 1 };
            if from <= to {
                let mut x: usize = from;
                while x <= to
                    invariant
                        from <= x <= to + 1,
                        to < n,
                        cov@.len() == n,
                        forall|q: int|
                            0 <= q < n ==> #[trigger] cov@[q] == (covered(nv, mv, j as int, q) || (
                            from <= q < x)),
                    decreases to + 1 - x,
                {
                    cov.set(x, true);
                    x = x + 1;
                }
            }
        }
        assert forall|q: int| 0 <= q < n implies #[trigger] cov@[q] == covered(
            nv,
            mv,
            j + 1,
            q,
        ) by {
            assert(mv[j as int] == m as int);
        }
        j = j + 1;
    }
    let ghost lv = crate::text::views(lines@);
    let mut count: u64 = 0;
    let mut i: usize = 0;
    while i < n
        invariant
            i <= n,
            n == lines.len(),
            cov@.len() == n,
            lv == crate::text::views(lines@),
            forall|q: int| 0 <= q < n ==> #[trigger] cov@[q] == covered(nv, mv, mv.len() as int, q),
            count == count_unassigned(lv, nv, mv, i as int),
            count <= i,
        decreases n - i,
    {
        if trim_exec(&lines[i]).len() > 0 && !cov[i] {
            count = count + 1;
        }
        i = i + 1;
    }
    w32_count(count)
}

fn error_count_exec(ns: &Vec<NodeRecord>) -> (r: u32)
    ensures
        r == error_count(crate::syntax::nodes_view(ns@)),
{
    if ns.len() == 0 || !ns[0].has_error {
        return 0;
    }
    let ghost nv = crate::syntax::nodes_view(ns@);
    let mut count: u64 = 0;
    let mut i: usize = 0;
    while i < ns.len()
        invariant
            i <= ns.len(),
            nv == crate::syntax::nodes_view(ns@),
            count == count_bad(nv, i as int),
            count <= i,
        decreases ns.len() - i,
    {
        if ns[i].error || ns[i].missing {
            count = count + 1;
        }
        i = i + 1;
    }
    w32_count(count)
}

pub open spec fn templates_of(t: Seq<TemplateRef>) -> Seq<TemplateV> {
    t.map_values(|x: TemplateRef| x@)
}

pub open spec fn refs_of(r: Seq<PageRef>) -> Seq<PageRefV> {
    r.map_values(|x: PageRef| x@)
}

fn lead_templates_exec(lead: &Vec<Block>) -> (r: Vec<TemplateRef>)
    ensures
        templates_of(r@) == lead_templates(blocks_of(lead@)),
{
    let ghost bv = blocks_of(lead@);
    let mut r: Vec<TemplateRef> = Vec::new();
    let mut i: usize = 0;
    assert(templates_of(r@) =~= Seq::<TemplateV>::empty());
    while i < lead.len()
        invariant
            i <= lead.len(),
            bv == blocks_of(lead@),
            templates_of(r@) == lead_templates(bv.take(i as int)),
        decreases lead.len() - i,
    {
        assert(bv.take(i + 1).drop_last() =~= bv.take(i as int));
        match &lead[i] {
            Block::Template(t) => {
                let ghost before = r@;
                r.push(crate::wikitext::copy_template(t));
                assert(templates_of(r@) =~= templates_of(before).push(t@));
            },
            _ => {},
        }
        i = i + 1;
    }
    assert(bv.take(lead.len() as int) =~= bv);
    r
}

/// The sister-project links of the lead templates, such as `{{wikipedia}}`.
fn interwiki_of(templates: &Vec<TemplateRef>, title: &String) -> (r: Vec<PageRef>)
    ensures
        refs_of(r@) == interwiki_spec(templates_of(templates@), title@),
{
    let ghost tv = templates_of(templates@);
    let mut r: Vec<PageRef> = Vec::new();
    let mut i: usize = 0;
    assert(refs_of(r@) =~= Seq::<PageRefV>::empty());
    while i < templates.len()
        invariant
            i <= templates.len(),
            tv == templates_of(templates@),
            refs_of(r@) == interwiki_spec(tv.take(i as int), title@),
        decreases templates.len() - i,
    {
        assert(tv.take(i + 1).drop_last() =~= tv.take(i as int));
        let t = &templates[i];
        let name = chars_of(t.name.as_str());
        let site = if eq_lit(&name, "wikipedia") || eq_lit(&name, "wikipediapar") {
            Some(crate::model::Site::Wikipedia)
        } else if eq_lit(&name, "wikisource") || eq_lit(&name, "wikisource author") {
            Some(crate::model::Site::Wikisource)
        } else if eq_lit(&name, "wiktionary") {
            Some(crate::model::Site::Wiktionary)
        } else if eq_lit(&name, "commons") || eq_lit(&name, "commonscat") || eq_lit(
            &name,
            "commons category",
        ) || eq_lit(&name, "commons cat") {
            Some(crate::model::Site::Commons)
        } else {
            None
        };
        match site {
            Some(site) => {
                let target = match t.param_nonempty("1") {
                    Some(v) => string_of(&v),
                    None => title.clone(),
                };
                let ghost before = r@;
                let p = PageRef { site, lang: string_of(&chars_of("en")), title: target, fragment: None };
                r.push(p);
                assert(refs_of(r@) =~= refs_of(before).push(p@));
            },
            None => {},
        }
        i = i + 1;
    }
    assert(tv.take(templates.len() as int) =~= tv);
    r
}

/// The fields of a document that come from the page record itself.
pub open spec fn header_ok(d: Document, page: RawPage, lang: Seq<char>) -> bool {
    &&& d.wiki_language@ == lang
    &&& d.title@ == page.title@
    &&& d.page_id == page.page_id
    &&& d.revision_id == page.revision_id
    &&& d.timestamp@ == page.timestamp@
    &&& (match d.redirect_to {
        Some(r) => Some(r@),
        None => None,
    }) == (match page.redirect_to {
        Some(t) => Some(page_ref_v(t@)),
        None => None,
    })
    &&& d.parse.bytes == w32(utf8_len(page.text@))
}

/// A document with nothing read from the wikitext.
pub open spec fn bare_ok(d: Document) -> bool {
    &&& d.page_type == PageType::Unknown
    &&& d.page_type_evidence@.len() == 0
    &&& d.categories@.len() == 0
    &&& d.templates@.len() == 0
    &&& d.interwiki@.len() == 0
    &&& d.lead@.len() == 0
    &&& d.sections@.len() == 0
    &&& d.parse.error_nodes == 0
    &&& d.parse.source_lines == 0
    &&& d.parse.unassigned_lines == 0
}

/// What the wikitext gives a document, read from its syntax tree.
pub open spec fn body_ok(d: Document, page: RawPage, ns: Seq<NodeV>) -> bool {
    let c = Cx { src: page.text@, ns, title: page.title@ };
    let o = page_out(c);
    let lines = lines_of(page.text@);
    let templates = lead_templates(o.blocks);
    &&& blocks_of(d.lead@) == o.blocks
    &&& sections_of(d.sections@) == o.sections
    &&& d.categories.deep_view() == o.cats
    &&& templates_of(d.templates@) == templates
    &&& refs_of(d.interwiki@) == interwiki_spec(templates, page.title@)
    &&& (d.page_type, d.page_type_evidence.deep_view()) == crate::classify::classify_spec(d)
    &&& d.parse.error_nodes == error_count(ns)
    &&& d.parse.source_lines == w32(count_filled(lines, lines.len() as int))
    &&& d.parse.unassigned_lines == w32(count_unassigned(lines, ns, o.marks, lines.len() as int))
}

/// The document of a page, given the syntax tree of its wikitext (or
/// nothing when the grammar could not run). A redirect keeps only its
/// target.
pub open spec fn document_ok(d: Document, page: RawPage, lang: Seq<char>, syntax: Option<Seq<NodeV>>) -> bool {
    &&& header_ok(d, page, lang)
    &&& if page.redirect_to is Some || syntax is None {
        bare_ok(d)
    } else {
        body_ok(d, page, syntax->0)
    }
}

fn bare_document(page: &RawPage, wiki_language: &str) -> (d: Document)
    ensures
        header_ok(d, *page, wiki_language@),
        bare_ok(d),
{
    let text = chars_of(page.text.as_str());
    Document {
        wiki_language: string_of(&chars_of(wiki_language)),
        title: page.title.clone(),
        page_id: page.page_id,
        revision_id: page.revision_id,
        timestamp: page.timestamp.clone(),
        redirect_to: match &page.redirect_to {
            Some(t) => Some(crate::wikitext::page_ref(t.as_str())),
            None => None,
        },
        page_type: PageType::Unknown,
        page_type_evidence: Vec::new(),
        categories: Vec::new(),
        templates: Vec::new(),
        interwiki: Vec::new(),
        lead: Vec::new(),
        sections: Vec::new(),
        parse: ParseStats {
            bytes: crate::wikitext::w32_len(&text),
            error_nodes: 0,
            source_lines: 0,
            unassigned_lines: 0,
        },
    }
}

/// Builds the document of a page from the syntax tree of its wikitext.
pub fn document_from(page: &RawPage, wiki_language: &str, nodes: Option<Vec<NodeRecord>>) -> (d: Document)
    requires
        utf8_len(page.text@) <= usize::MAX,
    ensures
        document_ok(
            d,
            *page,
            wiki_language@,
            match nodes {
                Some(v) => Some(crate::syntax::nodes_view(v@)),
                None => None,
            },
        ),
{
    let mut document = bare_document(page, wiki_language);
    if page.redirect_to.is_some() {
        return document;
    }
    let ns = match nodes {
        Some(v) => v,
        None => return document,
    };
    let text = chars_of(page.text.as_str());
    let lines = lines_exec(&text);
    let src = crate::text::Utf8Text::new(text);
    let title = chars_of(page.title.as_str());
    let w = Walk { src: &src, ns: &ns, title: &title };
    let out = root_exec(&w);
    let unassigned = unassigned_exec(&lines, &ns, &out.marks);
    let templates = lead_templates_exec(&out.blocks);
    document.interwiki = interwiki_of(&templates, &page.title);
    document.templates = templates;
    document.lead = out.blocks;
    document.sections = out.sections;
    document.categories = out.cats;
    let (page_type, evidence) = crate::classify::classify(&document);
    document.page_type = page_type;
    document.page_type_evidence = evidence;
    document.parse.error_nodes = error_count_exec(&ns);
    document.parse.source_lines = filled_exec(&lines);
    document.parse.unassigned_lines = unassigned;
    document
}

/// Builds documents from pages.
pub struct DocumentBuilder {}

impl DocumentBuilder {
    pub fn new() -> (b: DocumentBuilder) {
        DocumentBuilder {}
    }

    /// Parses the wikitext of a page and builds its document. A redirect
    /// keeps only its target.
    pub fn build(&mut self, page: &RawPage, wiki_language: &str) -> (d: Document)
        requires
            utf8_len(page.text@) <= usize::MAX,
        ensures
            document_ok(d, *page, wiki_language@, wikitext_syntax(page.text@)),
    {
        if page.redirect_to.is_some() {
            return bare_document(page, wiki_language);
        }
        let nodes = crate::syntax::syntax_nodes(page.text.as_str());
        document_from(page, wiki_language, nodes)
    }
}

// --- laws -------------------------------------------------------------------

pub open spec fn deep_annotations(b: BlockV) -> bool {
    match b {
        BlockV::Quote(q) => forall|k: int|
            0 <= k < q.annotations.len() ==> (#[trigger] q.annotations[k]).depth >= 2,
        _ => true,
    }
}

pub open spec fn all_deep(bs: Seq<BlockV>) -> bool {
    forall|k: int| 0 <= k < bs.len() ==> deep_annotations(#[trigger] bs[k])
}

proof fn lemma_list_fold_deep(c: Cx, role: RoleV, ks: Seq<int>)
    ensures
        all_deep(list_fold(c, role, ks).out),
        list_fold(c, role, ks).current matches Some(q) ==> deep_annotations(BlockV::Quote(q)),
    decreases ks.len(),
{
    if ks.len() > 0 {
        lemma_list_fold_deep(c, role, ks.drop_last());
        let acc = list_fold(c, role, ks.drop_last());
        let r = list_fold(c, role, ks);
        match acc.current {
            Some(q) => {
                assert(deep_annotations(finish_item(q, role)));
                assert forall|k: int| 0 <= k < flush(acc.out, acc.current, role).len() implies deep_annotations(
                    #[trigger] flush(acc.out, acc.current, role)[k],
                ) by {
                    if k < acc.out.len() {
                        assert(flush(acc.out, acc.current, role)[k] == acc.out[k]);
                    }
                }
            },
            None => {},
        }
        if let Some(q) = r.current {
            assert forall|k: int| 0 <= k < q.annotations.len() implies (
            #[trigger] q.annotations[k]).depth >= 2 by {
                if let Some(q0) = acc.current {
                    if q.annotations.len() == q0.annotations.len() + 1 && k < q0.annotations.len() {
                        assert(q.annotations[k] == q0.annotations[k]);
                    }
                }
            }
        }
    }
}

/// Nesting is rebuilt from the marker length: every annotation a list gives
/// a quote comes from a `**` line or deeper.
pub proof fn law_annotations_come_from_deeper_lines(c: Cx, k: int, role: RoleV)
    ensures
        forall|m: int|
            0 <= m < list_spec(c, k, role).blocks.len() ==> deep_annotations(
                #[trigger] list_spec(c, k, role).blocks[m],
            ),
{
    let acc = list_fold(c, role, kids(c.ns, k));
    lemma_list_fold_deep(c, role, kids(c.ns, k));
    let out = flush(acc.out, acc.current, role);
    assert forall|m: int| 0 <= m < out.len() implies deep_annotations(#[trigger] out[m]) by {
        if m < acc.out.len() {
            assert(out[m] == acc.out[m]);
        }
    }
}

/// A list entry outside the quote sections is a plain item only when it has
/// no annotation; either way its text is kept.
pub proof fn law_nothing_is_lost_when_the_role_is_wrong(item: QuoteItemV, role: RoleV)
    ensures
        finish_item(item, role) matches BlockV::Item(t) ==> t == item.text
            && item.annotations.len() == 0,
        item.annotations.len() > 0 ==> finish_item(item, role) == BlockV::Quote(item),
{
}

/// One run of `:` lines is at most one exchange.
pub proof fn law_a_definition_list_is_one_exchange(c: Cx, k: int)
    ensures
        dl_spec(c, k).blocks.len() <= 1,
{
}

pub open spec fn spans_inside(spans: Seq<SpanV>, text: Seq<char>) -> bool {
    forall|k: int|
        0 <= k < spans.len() ==> (#[trigger] spans[k]).start <= w32(utf8_len(text)) && spans[k].end
            <= w32(utf8_len(text))
}

proof fn lemma_shift_inside(spans: Seq<SpanV>, dropped: u32, end: u32)
    ensures
        forall|k: int|
            0 <= k < shift_spans(spans, dropped, end).len() ==> (#[trigger] shift_spans(
                spans,
                dropped,
                end,
            )[k]).start <= end && shift_spans(spans, dropped, end)[k].end <= end,
    decreases spans.len(),
{
    if spans.len() > 0 {
        lemma_shift_inside(spans.drop_last(), dropped, end);
    }
}

/// Spans point into the text: every span of a rich text starts and ends
/// within the bytes of its text, also once a speaker's name is removed.
pub proof fn law_spans_stay_inside_the_text(c: Cx, i: int, t: RichV)
    ensures
        spans_inside(rich_text_spec(c, i).spans, rich_text_spec(c, i).text),
        spans_inside(t.spans, t.text) ==> spans_inside(
            strip_speaker_spec(t).spans,
            strip_speaker_spec(t).text,
        ),
{
    match find_char(t.text, ':') {
        None => {},
        Some(colon) => {
            let rest = t.text.subrange(colon + 1, t.text.len() as int);
            let cut = utf8_len(rest);
            let removed = w32((utf8_len(t.text) - cut) as nat);
            let text = trim_start(trim_start_char(trim_start(rest), ':'));
            let dropped = w32((removed + w32((cut - utf8_len(text)) as nat)) as nat);
            lemma_shift_inside(t.spans, dropped, w32(utf8_len(text)));
        },
    }
}

/// A redirect keeps only its target: the document reads nothing from the
/// wikitext.
pub proof fn law_a_redirect_keeps_only_its_target(
    d: Document,
    page: RawPage,
    lang: Seq<char>,
    syntax: Option<Seq<NodeV>>,
)
    requires
        document_ok(d, page, lang, syntax),
        page.redirect_to is Some,
    ensures
        d.redirect_to is Some,
        d.lead@.len() == 0 && d.sections@.len() == 0 && d.categories@.len() == 0,
        d.templates@.len() == 0 && d.interwiki@.len() == 0,
        d.page_type == PageType::Unknown,
{
}

pub open spec fn shifted(dropped: u32, end: u32) -> spec_fn(SpanV) -> Option<SpanV> {
    |s: SpanV|
        if s.end > dropped {
            Some(crate::wikitext::trim_span(s, dropped, end))
        } else {
            None
        }
}

proof fn lemma_shift_spans_keeps_the_later_spans(spans: Seq<SpanV>, dropped: u32, end: u32)
    ensures
        shift_spans(spans, dropped, end) == spans.filter_map(shifted(dropped, end)),
    decreases spans.len(),
{
    if spans.len() > 0 {
        lemma_shift_spans_keeps_the_later_spans(spans.drop_last(), dropped, end);
    }
}

/// A span moved back by `dropped` bytes: one that lies inside the kept text
/// points at the same bytes as before, counted from the new start.
pub proof fn law_a_span_inside_moves_back_exactly(s: SpanV, dropped: u32, end: u32)
    requires
        dropped <= s.start <= s.end <= dropped + end,
    ensures
        crate::wikitext::trim_span(s, dropped, end) == (SpanV {
            start: (s.start - dropped) as u32,
            end: (s.end - dropped) as u32,
            kind: s.kind,
        }),
{
}

/// Removing the speaker's name keeps, in order, the spans that end after the
/// cut, each moved back by the bytes removed with the name and the space
/// after it; a text with no colon is kept as it is.
pub proof fn law_removing_the_speaker_moves_spans_back(t: RichV)
    ensures
        find_char(t.text, ':') is None ==> strip_speaker_spec(t) == t,
        find_char(t.text, ':') matches Some(colon) ==> ({
            let rest = t.text.subrange(colon + 1, t.text.len() as int);
            let cut = utf8_len(rest);
            let removed = w32((utf8_len(t.text) - cut) as nat);
            let text = trim_start(trim_start_char(trim_start(rest), ':'));
            let dropped = w32((removed + w32((cut - utf8_len(text)) as nat)) as nat);
            let end = w32(utf8_len(text));
            &&& strip_speaker_spec(t).text == text
            &&& strip_speaker_spec(t).spans == t.spans.filter_map(shifted(dropped, end))
        }),
{
    match find_char(t.text, ':') {
        None => {},
        Some(colon) => {
            let rest = t.text.subrange(colon + 1, t.text.len() as int);
            let cut = utf8_len(rest);
            let removed = w32((utf8_len(t.text) - cut) as nat);
            let text = trim_start(trim_start_char(trim_start(rest), ':'));
            let dropped = w32((removed + w32((cut - utf8_len(text)) as nat)) as nat);
            lemma_shift_spans_keeps_the_later_spans(t.spans, dropped, w32(utf8_len(text)));
        },
    }
}

proof fn lemma_prefixes_share_the_first_char(s: Seq<char>, a: Seq<char>, b: Seq<char>)
    requires
        starts_with(s, a),
        starts_with(s, b),
        a.len() > 0,
        b.len() > 0,
    ensures
        a[0] == b[0],
{
    assert(s.subrange(0, a.len() as int)[0] == s[0]);
    assert(s.subrange(0, b.len() as int)[0] == s[0]);
}

pub open spec fn names_a_translation(lower: Seq<char>) -> bool {
    ||| starts_with(lower, "translation"@)
    ||| starts_with(lower, "translated"@)
    ||| starts_with(lower, "transliteration"@)
    ||| starts_with(lower, "meaning"@)
    ||| starts_with(lower, "literally"@)
}

pub open spec fn points_elsewhere(lower: Seq<char>) -> bool {
    ||| starts_with(lower, "compare"@)
    ||| starts_with(lower, "variant"@)
    ||| starts_with(lower, "see also"@)
}

/// An annotation is read by its first word, case aside: one that opens with
/// "translation", "translated", "transliteration", "meaning" or "literally"
/// is a translation; one that opens with "compare", "variant" or "see also"
/// is a cross reference (a variant wording or a pointer, never the quote's
/// citation); only an annotation that opens with none of these can be a
/// citation.
pub proof fn law_an_annotation_is_read_by_its_first_word(t: RichV)
    ensures
        names_a_translation(lowercase(trim(t.text))) ==> annotation_kind_spec(t)
            == AnnotationKind::Translation,
        points_elsewhere(lowercase(trim(t.text))) ==> annotation_kind_spec(t)
            == AnnotationKind::CrossRef,
        annotation_kind_spec(t) == AnnotationKind::Citation ==> !names_a_translation(
            lowercase(trim(t.text)),
        ) && !points_elsewhere(lowercase(trim(t.text))),
{
    let lower = lowercase(trim(t.text));
    reveal_strlit("translation");
    reveal_strlit("translated");
    reveal_strlit("transliteration");
    reveal_strlit("meaning");
    reveal_strlit("literally");
    reveal_strlit("compare");
    reveal_strlit("variant");
    reveal_strlit("see also");
    if points_elsewhere(lower) && names_a_translation(lower) {
        let a = if starts_with(lower, "compare"@) {
            "compare"@
        } else if starts_with(lower, "variant"@) {
            "variant"@
        } else {
            "see also"@
        };
        let b = if starts_with(lower, "translation"@) {
            "translation"@
        } else if starts_with(lower, "translated"@) {
            "translated"@
        } else if starts_with(lower, "transliteration"@) {
            "transliteration"@
        } else if starts_with(lower, "meaning"@) {
            "meaning"@
        } else {
            "literally"@
        };
        lemma_prefixes_share_the_first_char(lower, a, b);
    }
}

/// A span that makes an otherwise empty line a citation: a `{{cite …}}` or
/// `{{citation}}` call, or a link to a web address.
pub open spec fn marks_a_citation(s: SpanV) -> bool {
    match s.kind {
        SpanKindV::Template(t) => starts_with(t.name, "cite"@) || t.name == "citation"@,
        SpanKindV::ExternalLink { url } => url.len() > 0,
        _ => false,
    }
}

proof fn lemma_cite_like_is_some_span(spans: Seq<SpanV>, i: int)
    requires
        0 <= i,
    ensures
        cite_like_from(spans, i) <==> exists|k: int| i <= k < spans.len() && marks_a_citation(
            #[trigger] spans[k],
        ),
    decreases spans.len() - i,
{
    if i < spans.len() {
        lemma_cite_like_is_some_span(spans, i + 1);
        if cite_like_from(spans, i + 1) {
            let k = choose|k: int| i + 1 <= k < spans.len() && marks_a_citation(#[trigger] spans[k]);
            assert(i <= k < spans.len() && marks_a_citation(spans[k]));
        }
        if !marks_a_citation(spans[i]) && !cite_like_from(spans, i + 1) {
            assert forall|k: int| i <= k < spans.len() implies !marks_a_citation(#[trigger] spans[k]) by {
                if k > i {
                }
            }
        }
    }
}

/// Past the first word: an annotation with words that is neither a
/// translation nor a cross reference is a citation; one with no words is a
/// citation exactly when it holds a cite call or a web link, and a note
/// otherwise.
pub proof fn law_an_annotation_with_words_is_a_citation(t: RichV)
    ensures
        lowercase(trim(t.text)).len() > 0 && !names_a_translation(lowercase(trim(t.text)))
            && !points_elsewhere(lowercase(trim(t.text))) ==> annotation_kind_spec(t)
            == AnnotationKind::Citation,
        lowercase(trim(t.text)).len() == 0 ==> (annotation_kind_spec(t) == AnnotationKind::Citation
            <==> exists|k: int| 0 <= k < t.spans.len() && marks_a_citation(#[trigger] t.spans[k])),
        lowercase(trim(t.text)).len() == 0 ==> (annotation_kind_spec(t) == AnnotationKind::Note
            <==> !exists|k: int| 0 <= k < t.spans.len() && marks_a_citation(#[trigger] t.spans[k])),
{
    lemma_cite_like_is_some_span(t.spans, 0);
    let lower = lowercase(trim(t.text));
    if lower.len() == 0 {
        if names_a_translation(lower) || points_elsewhere(lower) {
            reveal_strlit("translation");
            reveal_strlit("translated");
            reveal_strlit("transliteration");
            reveal_strlit("meaning");
            reveal_strlit("literally");
            reveal_strlit("compare");
            reveal_strlit("variant");
            reveal_strlit("see also");
        }
    }
}

} // verus!
