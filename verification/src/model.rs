//! Layer 1: the document model.
//!
//! A faithful tree of one wikitext page. It is built by mechanical rules only.
//! Nothing here guesses what a quote means; that is Layer 2's job.

use vstd::prelude::*;
use crate::text::{chars_of, eq_chars, trim, trim_exec};

verus! {

// --- rich text --------------------------------------------------------------

/// Prose in three views. `text` is for reading and search, `wikitext` is the
/// exact source, and `spans` point into `text` so links survive markup removal.
#[derive(Debug, Default, Clone, PartialEq, Eq)]
pub struct RichText {
    pub text: String,
    pub wikitext: String,
    pub spans: Vec<Span>,
}

impl RichText {
    /// Nothing but whitespace in either view.
    pub fn is_empty(&self) -> (r: bool)
        ensures
            r == (trim(self.text@).len() == 0 && trim(self.wikitext@).len() == 0),
    {
        let t = chars_of(self.text.as_str());
        let w = chars_of(self.wikitext.as_str());
        trim_exec(&t).len() == 0 && trim_exec(&w).len() == 0
    }
}

#[derive(Debug, Clone, PartialEq, Eq)]
pub struct Span {
    /// Byte offset into `RichText::text`.
    pub start: u32,
    pub end: u32,
    pub kind: SpanKind,
}

#[derive(Debug, Clone, PartialEq, Eq)]
pub enum SpanKind {
    Link { target: PageRef },
    ExternalLink { url: String },
    Italic,
    Bold,
    BoldItalic,
    Template(TemplateRef),
    /// `<!-- … -->`. The comment text is not part of `RichText::text`.
    Comment { text: String },
    /// `<ref>…</ref>`. The note text is not part of `RichText::text`.
    Reference { text: String },
}

/// A wikilink target. The interwiki prefix says which project it points at.
#[derive(Debug, Clone, PartialEq, Eq)]
pub struct PageRef {
    pub site: Site,
    pub lang: String,
    pub title: String,
    pub fragment: Option<String>,
}

#[derive(Debug, Clone, PartialEq, Eq)]
pub enum Site {
    Wikiquote,
    Wikipedia,
    Wikisource,
    Wiktionary,
    Commons,
    Other(String),
}

/// `Site` with its text as characters.
pub enum SiteV {
    Wikiquote,
    Wikipedia,
    Wikisource,
    Wiktionary,
    Commons,
    Other(Seq<char>),
}

impl View for Site {
    type V = SiteV;

    open spec fn view(&self) -> SiteV {
        match self {
            Site::Wikiquote => SiteV::Wikiquote,
            Site::Wikipedia => SiteV::Wikipedia,
            Site::Wikisource => SiteV::Wikisource,
            Site::Wiktionary => SiteV::Wiktionary,
            Site::Commons => SiteV::Commons,
            Site::Other(s) => SiteV::Other(s@),
        }
    }
}

/// A template call. Templates are recorded, never expanded.
#[derive(Debug, Clone, PartialEq, Eq)]
pub struct TemplateRef {
    /// Lowercase, spaces instead of underscores.
    pub name: String,
    /// Positional arguments get the keys "1", "2", and so on.
    pub params: Vec<(String, String)>,
    pub wikitext: String,
}

/// The index of the first parameter at or after `i` whose key is `key`.
pub open spec fn param_index_from(params: Seq<(Seq<char>, Seq<char>)>, key: Seq<char>, i: int) -> Option<
    int,
>
    decreases params.len() - i,
{
    if i < 0 || i >= params.len() {
        None
    } else if params[i].0 == key {
        Some(i)
    } else {
        param_index_from(params, key, i + 1)
    }
}

/// The value of the first parameter named `key`.
pub open spec fn tparam(t: TemplateV, key: Seq<char>) -> Option<Seq<char>> {
    match param_index_from(t.params, key, 0) {
        Some(i) => Some(t.params[i].1),
        None => None,
    }
}

/// The value of the first parameter named `key`.
pub open spec fn param_of(t: TemplateRef, key: Seq<char>) -> Option<Seq<char>> {
    tparam(t@, key)
}

pub proof fn lemma_param_index(params: Seq<(Seq<char>, Seq<char>)>, key: Seq<char>, i: int)
    requires
        0 <= i,
    ensures
        param_index_from(params, key, i) matches Some(k) ==> i <= k < params.len(),
    decreases params.len() - i,
{
    if i < params.len() && params[i].0 != key {
        lemma_param_index(params, key, i + 1);
    }
}

impl TemplateRef {
    /// The value of the first parameter named `key`.
    pub fn param(&self, key: &str) -> (r: Option<&str>)
        ensures
            match r {
                Some(v) => param_of(*self, key@) == Some(v@),
                None => param_of(*self, key@) is None,
            },
    {
        let k = chars_of(key);
        let mut i: usize = 0;
        while i < self.params.len()
            invariant
                i <= self.params.len(),
                k@ == key@,
                param_index_from(pairs_of(self.params@), key@, i as int) == param_index_from(
                    pairs_of(self.params@),
                    key@,
                    0,
                ),
            decreases self.params.len() - i,
        {
            let name = chars_of(self.params[i].0.as_str());
            if eq_chars(&name, &k) {
                return Some(self.params[i].1.as_str());
            }
            i = i + 1;
        }
        None
    }

    /// `param(key)`, as characters, when it is present and not empty.
    pub fn param_nonempty(&self, key: &str) -> (r: Option<Vec<char>>)
        ensures
            match r {
                Some(v) => param_of(*self, key@) == Some(v@) && v@.len() > 0,
                None => !(param_of(*self, key@) matches Some(v) && v.len() > 0),
            },
    {
        match self.param(key) {
            Some(v) => {
                let c = chars_of(v);
                if c.len() > 0 {
                    Some(c)
                } else {
                    None
                }
            },
            None => None,
        }
    }
}

// --- the page ---------------------------------------------------------------

#[derive(Debug, PartialEq, Eq)]
pub struct Document {
    pub wiki_language: String,
    pub title: String,
    pub page_id: u32,
    pub revision_id: u32,
    pub timestamp: String,
    pub redirect_to: Option<PageRef>,
    pub page_type: PageType,
    /// The category or template that decided the page type.
    pub page_type_evidence: Vec<String>,
    pub categories: Vec<String>,
    /// Templates outside any section body.
    pub templates: Vec<TemplateRef>,
    pub interwiki: Vec<PageRef>,
    /// Content before the first heading.
    pub lead: Vec<Block>,
    pub sections: Vec<Section>,
    pub parse: ParseStats,
}

#[derive(Debug, Default, Clone, PartialEq, Eq)]
pub struct ParseStats {
    pub bytes: u32,
    /// Tree-sitter ERROR nodes. The rest of the tree is still usable.
    pub error_nodes: u32,
    /// Non-blank source lines in the page.
    pub source_lines: u32,
    /// Non-blank source lines that reached no node.
    pub unassigned_lines: u32,
}

#[derive(Debug, Clone, Copy, PartialEq, Eq, Structural)]
pub enum PageType {
    Person,
    Film,
    TelevisionSeries,
    TelevisionSeason,
    LiteraryWork,
    VideoGame,
    MusicalWork,
    Theme,
    Proverbs,
    List,
    Disambiguation,
    Placeholder,
    Unknown,
}

#[derive(Debug, PartialEq, Eq)]
pub struct Section {
    pub level: u8,
    pub heading: RichText,
    pub role: SectionRole,
    pub source_hint: Option<SourceHint>,
    pub blocks: Vec<Block>,
    pub sections: Vec<Section>,
}

/// What a section is for. The role decides how a `*` line is read, so it is the
/// central heuristic of the pipeline. English only for now.
#[derive(Debug, Clone, PartialEq, Eq)]
pub enum SectionRole {
    Quotes,
    QuotesAbout,
    Attributed,
    Disputed,
    Misattributed,
    Unsourced,
    Dialogue,
    Taglines,
    SongLyrics,
    Cast,
    Episodes,
    SeeAlso,
    ExternalLinks,
    References,
    /// A heading that is a single letter, used to sort a long list.
    AlphaBucket(char),
    Other(String),
}

/// `SectionRole` with its text as characters.
pub enum RoleV {
    Quotes,
    QuotesAbout,
    Attributed,
    Disputed,
    Misattributed,
    Unsourced,
    Dialogue,
    Taglines,
    SongLyrics,
    Cast,
    Episodes,
    SeeAlso,
    ExternalLinks,
    References,
    AlphaBucket(char),
    Other(Seq<char>),
}

impl View for SectionRole {
    type V = RoleV;

    open spec fn view(&self) -> RoleV {
        match self {
            SectionRole::Quotes => RoleV::Quotes,
            SectionRole::QuotesAbout => RoleV::QuotesAbout,
            SectionRole::Attributed => RoleV::Attributed,
            SectionRole::Disputed => RoleV::Disputed,
            SectionRole::Misattributed => RoleV::Misattributed,
            SectionRole::Unsourced => RoleV::Unsourced,
            SectionRole::Dialogue => RoleV::Dialogue,
            SectionRole::Taglines => RoleV::Taglines,
            SectionRole::SongLyrics => RoleV::SongLyrics,
            SectionRole::Cast => RoleV::Cast,
            SectionRole::Episodes => RoleV::Episodes,
            SectionRole::SeeAlso => RoleV::SeeAlso,
            SectionRole::ExternalLinks => RoleV::ExternalLinks,
            SectionRole::References => RoleV::References,
            SectionRole::AlphaBucket(c) => RoleV::AlphaBucket(*c),
            SectionRole::Other(s) => RoleV::Other(s@),
        }
    }
}

/// Source meaning read from the shape of a heading. A heading with no hint
/// gives nothing to the source of a quote.
#[derive(Debug, Clone, PartialEq, Eq)]
pub enum SourceHint {
    Work { title: String, year: Option<u16> },
    Episode { title: Option<String>, code: Option<String> },
    Season { number: u16 },
    Period { from: i32, to: i32 },
    /// A place inside a work, such as `Chapter 5` or `Act II`.
    Locator { kind: String, value: String },
}

/// `SourceHint` with its text as characters.
pub enum HintV {
    Work { title: Seq<char>, year: Option<u16> },
    Episode { title: Option<Seq<char>>, code: Option<Seq<char>> },
    Season { number: u16 },
    Period { from: i32, to: i32 },
    Locator { kind: Seq<char>, value: Seq<char> },
}

impl View for SourceHint {
    type V = HintV;

    open spec fn view(&self) -> HintV {
        match self {
            SourceHint::Work { title, year } => HintV::Work { title: title@, year: *year },
            SourceHint::Episode { title, code } => HintV::Episode {
                title: title.deep_view(),
                code: code.deep_view(),
            },
            SourceHint::Season { number } => HintV::Season { number: *number },
            SourceHint::Period { from, to } => HintV::Period { from: *from, to: *to },
            SourceHint::Locator { kind, value } => HintV::Locator { kind: kind@, value: value@ },
        }
    }
}

#[derive(Debug, Clone, PartialEq, Eq)]
pub enum Block {
    /// A `*` item together with its `**` children.
    Quote(QuoteItem),
    /// Dialogue turns between two `<hr>` rules.
    Exchange(Exchange),
    /// A `*` item in Cast, See also or External links.
    Item(RichText),
    Paragraph(RichText),
    Media(Media),
    /// A template alone on a line.
    Template(TemplateRef),
    Table { wikitext: String },
    /// `<hr>`, kept so the page layout can be rebuilt.
    Rule,
}

#[derive(Debug, Clone, PartialEq, Eq)]
pub struct QuoteItem {
    pub text: RichText,
    pub annotations: Vec<Annotation>,
}

#[derive(Debug, Clone, PartialEq, Eq)]
pub struct Annotation {
    /// 2 for `**`, 3 for `***`.
    pub depth: u8,
    pub text: RichText,
    pub kind: AnnotationKind,
}

/// A guess about what an annotation is for. One line can be both a citation and
/// an attribution, so Layer 2 reads both meanings from the same line.
#[derive(Debug, Clone, Copy, PartialEq, Eq, Structural)]
pub enum AnnotationKind {
    Citation,
    Attribution,
    Translation,
    CrossRef,
    Note,
}

#[derive(Debug, Clone, PartialEq, Eq)]
pub struct Exchange {
    pub turns: Vec<Turn>,
    pub annotations: Vec<Annotation>,
}

#[derive(Debug, Clone, PartialEq, Eq)]
pub struct Turn {
    /// From `:'''Name''':`. None for a stage direction.
    pub speaker: Option<String>,
    pub speaker_link: Option<PageRef>,
    pub text: RichText,
    /// The whole line is italic, for example `:''[Alice waves]''`.
    pub is_stage_direction: bool,
}

/// An image. Captions on Wikiquote usually repeat a quote from the page body,
/// so they are marked and Layer 2 drops them.
#[derive(Debug, Clone, PartialEq, Eq)]
pub struct Media {
    pub file: String,
    pub caption: Option<RichText>,
    /// The part after `~` in `… ~ [[John Adams]]`.
    pub caption_attribution: Option<String>,
}

// --- views of the rich text -------------------------------------------------

/// `PageRef` with its text as characters.
pub struct PageRefV {
    pub site: SiteV,
    pub lang: Seq<char>,
    pub title: Seq<char>,
    pub fragment: Option<Seq<char>>,
}

impl View for PageRef {
    type V = PageRefV;

    open spec fn view(&self) -> PageRefV {
        PageRefV {
            site: self.site@,
            lang: self.lang@,
            title: self.title@,
            fragment: self.fragment.deep_view(),
        }
    }
}

/// `TemplateRef` with its text as characters.
pub struct TemplateV {
    pub name: Seq<char>,
    pub params: Seq<(Seq<char>, Seq<char>)>,
    pub wikitext: Seq<char>,
}

pub open spec fn pairs_of(p: Seq<(String, String)>) -> Seq<(Seq<char>, Seq<char>)> {
    p.map_values(|x: (String, String)| (x.0@, x.1@))
}

impl View for TemplateRef {
    type V = TemplateV;

    open spec fn view(&self) -> TemplateV {
        TemplateV { name: self.name@, params: pairs_of(self.params@), wikitext: self.wikitext@ }
    }
}

/// `SpanKind` with its text as characters.
pub enum SpanKindV {
    Link { target: PageRefV },
    ExternalLink { url: Seq<char> },
    Italic,
    Bold,
    BoldItalic,
    Template(TemplateV),
    Comment { text: Seq<char> },
    Reference { text: Seq<char> },
}

impl View for SpanKind {
    type V = SpanKindV;

    open spec fn view(&self) -> SpanKindV {
        match self {
            SpanKind::Link { target } => SpanKindV::Link { target: target@ },
            SpanKind::ExternalLink { url } => SpanKindV::ExternalLink { url: url@ },
            SpanKind::Italic => SpanKindV::Italic,
            SpanKind::Bold => SpanKindV::Bold,
            SpanKind::BoldItalic => SpanKindV::BoldItalic,
            SpanKind::Template(t) => SpanKindV::Template(t@),
            SpanKind::Comment { text } => SpanKindV::Comment { text: text@ },
            SpanKind::Reference { text } => SpanKindV::Reference { text: text@ },
        }
    }
}

/// `Span` with its text as characters.
pub struct SpanV {
    pub start: u32,
    pub end: u32,
    pub kind: SpanKindV,
}

impl View for Span {
    type V = SpanV;

    open spec fn view(&self) -> SpanV {
        SpanV { start: self.start, end: self.end, kind: self.kind@ }
    }
}

pub open spec fn spans_of(s: Seq<Span>) -> Seq<SpanV> {
    s.map_values(|x: Span| x@)
}

/// `RichText` with its text as characters.
pub struct RichV {
    pub text: Seq<char>,
    pub wikitext: Seq<char>,
    pub spans: Seq<SpanV>,
}

impl View for RichText {
    type V = RichV;

    open spec fn view(&self) -> RichV {
        RichV { text: self.text@, wikitext: self.wikitext@, spans: spans_of(self.spans@) }
    }
}

// --- views of the blocks and sections -----------------------------------------

pub struct AnnotationV {
    pub depth: u8,
    pub text: RichV,
    pub kind: AnnotationKind,
}

impl View for Annotation {
    type V = AnnotationV;

    open spec fn view(&self) -> AnnotationV {
        AnnotationV { depth: self.depth, text: self.text@, kind: self.kind }
    }
}

pub open spec fn annotations_of(a: Seq<Annotation>) -> Seq<AnnotationV> {
    a.map_values(|x: Annotation| x@)
}

pub struct QuoteItemV {
    pub text: RichV,
    pub annotations: Seq<AnnotationV>,
}

impl View for QuoteItem {
    type V = QuoteItemV;

    open spec fn view(&self) -> QuoteItemV {
        QuoteItemV { text: self.text@, annotations: annotations_of(self.annotations@) }
    }
}

pub struct TurnV {
    pub speaker: Option<Seq<char>>,
    pub speaker_link: Option<PageRefV>,
    pub text: RichV,
    pub is_stage_direction: bool,
}

impl View for Turn {
    type V = TurnV;

    open spec fn view(&self) -> TurnV {
        TurnV {
            speaker: self.speaker.deep_view(),
            speaker_link: match self.speaker_link {
                Some(l) => Some(l@),
                None => None,
            },
            text: self.text@,
            is_stage_direction: self.is_stage_direction,
        }
    }
}

pub struct ExchangeV {
    pub turns: Seq<TurnV>,
    pub annotations: Seq<AnnotationV>,
}

impl View for Exchange {
    type V = ExchangeV;

    open spec fn view(&self) -> ExchangeV {
        ExchangeV {
            turns: self.turns@.map_values(|t: Turn| t@),
            annotations: annotations_of(self.annotations@),
        }
    }
}

pub struct MediaV {
    pub file: Seq<char>,
    pub caption: Option<RichV>,
    pub caption_attribution: Option<Seq<char>>,
}

impl View for Media {
    type V = MediaV;

    open spec fn view(&self) -> MediaV {
        MediaV {
            file: self.file@,
            caption: match self.caption {
                Some(c) => Some(c@),
                None => None,
            },
            caption_attribution: self.caption_attribution.deep_view(),
        }
    }
}

pub enum BlockV {
    Quote(QuoteItemV),
    Exchange(ExchangeV),
    Item(RichV),
    Paragraph(RichV),
    Media(MediaV),
    Template(TemplateV),
    Table { wikitext: Seq<char> },
    Rule,
}

impl View for Block {
    type V = BlockV;

    open spec fn view(&self) -> BlockV {
        match self {
            Block::Quote(q) => BlockV::Quote(q@),
            Block::Exchange(e) => BlockV::Exchange(e@),
            Block::Item(t) => BlockV::Item(t@),
            Block::Paragraph(t) => BlockV::Paragraph(t@),
            Block::Media(m) => BlockV::Media(m@),
            Block::Template(t) => BlockV::Template(t@),
            Block::Table { wikitext } => BlockV::Table { wikitext: wikitext@ },
            Block::Rule => BlockV::Rule,
        }
    }
}

pub open spec fn blocks_of(b: Seq<Block>) -> Seq<BlockV> {
    b.map_values(|x: Block| x@)
}

/// `Section` with its text as characters, subsections included.
pub struct SectionV {
    pub level: u8,
    pub heading: RichV,
    pub role: RoleV,
    pub source_hint: Option<HintV>,
    pub blocks: Seq<BlockV>,
    pub sections: Seq<SectionV>,
}

pub open spec fn section_view(s: Section) -> SectionV
    decreases s, 1nat, 0int,
{
    SectionV {
        level: s.level,
        heading: s.heading@,
        role: s.role@,
        source_hint: match s.source_hint {
            Some(h) => Some(h@),
            None => None,
        },
        blocks: blocks_of(s.blocks@),
        sections: subsections_view(s, 0),
    }
}

/// The views of the subsections of `s` from the `k`-th on.
pub open spec fn subsections_view(s: Section, k: int) -> Seq<SectionV>
    decreases s, 0nat, s.sections@.len() - k,
{
    if k < 0 || k >= s.sections@.len() {
        Seq::empty()
    } else {
        seq![section_view(s.sections@[k])] + subsections_view(s, k + 1)
    }
}

pub proof fn lemma_subsections_view(s: Section, k: int)
    requires
        0 <= k <= s.sections@.len(),
    ensures
        subsections_view(s, k) =~= Seq::new(
            (s.sections@.len() - k) as nat,
            |m: int| section_view(s.sections@[k + m]),
        ),
    decreases s.sections@.len() - k,
{
    if k < s.sections@.len() {
        lemma_subsections_view(s, k + 1);
    }
}

/// The views of a list of sections.
pub open spec fn sections_of(ss: Seq<Section>) -> Seq<SectionV> {
    Seq::new(ss.len(), |m: int| section_view(ss[m]))
}

} // verus!
