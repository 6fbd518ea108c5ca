//! Layer 2: the quote record.
//!
//! One flat row per quote. No field carries an enum with data in it: a value
//! that varies becomes a set of columns beside a `*_kind` or `*_precision`
//! string, so the rows are easy to query.

use vstd::prelude::*;

verus! {

#[derive(Debug, Clone, PartialEq, Eq)]
pub struct Quote {
    /// Stable across runs: the page, the heading path and the position.
    pub id: String,
    /// The same text on another page gets the same hash, so duplicates group.
    pub content_hash: String,
    pub wiki_language: String,
    pub page_title: String,
    pub page_id: u32,
    pub page_type: String,
    pub revision_id: u32,
    pub text: String,
    pub wikitext: String,
    /// BCP 47 tag for the language of `text`.
    pub language: String,
    /// "declared" when the wikitext says so, "wiki_default" when assumed.
    pub language_from: String,
    pub kind: String,
    pub status: String,
    pub speaker: Option<Agent>,
    pub about: Vec<Agent>,
    pub source: Option<Source>,
    /// Heading texts from the page root down to the quote. Always literal.
    pub context_path: Vec<String>,
    pub annotations: Vec<AnnotationOut>,
    pub translations: Vec<Translation>,
    /// Every wikilink inside the quote text.
    pub links: Vec<Link>,
    pub provenance: Provenance,
}

/// Who said a quote, or who it is about.
#[derive(Debug, Clone, Default, PartialEq, Eq)]
pub struct Agent {
    pub name: String,
    /// "person", "character", "group", "work", "topic" or "unknown".
    pub kind: String,
    pub link_site: Option<String>,
    pub link_lang: Option<String>,
    pub link_title: Option<String>,
    /// For a character: the actor from the Cast section of the same page.
    pub played_by: Option<String>,
}

/// `Agent` with its text as characters.
pub struct AgentV {
    pub name: Seq<char>,
    pub kind: Seq<char>,
    pub link_site: Option<Seq<char>>,
    pub link_lang: Option<Seq<char>>,
    pub link_title: Option<Seq<char>>,
    pub played_by: Option<Seq<char>>,
}

impl View for Agent {
    type V = AgentV;

    open spec fn view(&self) -> AgentV {
        AgentV {
            name: self.name@,
            kind: self.kind@,
            link_site: self.link_site.deep_view(),
            link_lang: self.link_lang.deep_view(),
            link_title: self.link_title.deep_view(),
            played_by: self.played_by.deep_view(),
        }
    }
}

#[derive(Debug, Clone, PartialEq, Eq)]
pub struct Link {
    pub site: String,
    pub lang: String,
    pub title: String,
    pub fragment: Option<String>,
}

/// Where a quote comes from, assembled from several places on the page.
#[derive(Debug, Clone, Default, PartialEq, Eq)]
pub struct Source {
    /// Every part joined in page order, so this alone is a full citation.
    pub raw: String,
    /// False when the parts give only a locator, such as a lone "p. 223".
    pub complete: bool,
    pub parts: Vec<SourcePart>,
    pub work_title: Option<String>,
    pub work_type: Option<String>,
    pub work_year: Option<u16>,
    pub work_link_site: Option<String>,
    pub work_link_title: Option<String>,
    pub episode_series: Option<String>,
    pub episode_season: Option<u16>,
    pub episode_number: Option<String>,
    pub episode_title: Option<String>,
    /// "1776", "1776-12" or "1776-12-23".
    pub date_iso: Option<String>,
    pub date_end_iso: Option<String>,
    /// "year", "month", "day", "decade", "circa" or "range".
    pub date_precision: Option<String>,
    pub date_raw: Option<String>,
    pub locator_page: Option<String>,
    pub locator_chapter: Option<String>,
    pub locator_part: Option<String>,
    pub locator_act_scene: Option<String>,
    pub locator_line: Option<String>,
    pub publication: Option<String>,
    pub publisher: Option<String>,
    pub isbn: Option<String>,
    pub url: Option<String>,
    /// "letter", "speech", "interview", "essay", "post" and so on.
    pub occasion: Option<String>,
    pub cite_templates: Vec<CiteTemplate>,
}

/// The fields of a `Source` that a citation line can fill, as characters.
pub struct SourceV {
    pub work_title: Option<Seq<char>>,
    pub work_type: Option<Seq<char>>,
    pub work_link_site: Option<Seq<char>>,
    pub work_link_title: Option<Seq<char>>,
    pub date_iso: Option<Seq<char>>,
    pub date_end_iso: Option<Seq<char>>,
    pub date_precision: Option<Seq<char>>,
    pub date_raw: Option<Seq<char>>,
    pub locator_page: Option<Seq<char>>,
    pub locator_chapter: Option<Seq<char>>,
    pub locator_part: Option<Seq<char>>,
    pub locator_act_scene: Option<Seq<char>>,
    pub locator_line: Option<Seq<char>>,
    pub publication: Option<Seq<char>>,
    pub publisher: Option<Seq<char>>,
    pub isbn: Option<Seq<char>>,
    pub url: Option<Seq<char>>,
    pub occasion: Option<Seq<char>>,
    /// Each `{{cite …}}` call: its name and its parameters.
    pub cite_templates: Seq<(Seq<char>, Seq<(Seq<char>, Seq<char>)>)>,
}

pub open spec fn params_view(p: Seq<Param>) -> Seq<(Seq<char>, Seq<char>)> {
    p.map_values(|x: Param| (x.key@, x.value@))
}

pub open spec fn cites_view(c: Seq<CiteTemplate>) -> Seq<(Seq<char>, Seq<(Seq<char>, Seq<char>)>)> {
    c.map_values(|x: CiteTemplate| (x.name@, params_view(x.params@)))
}

impl View for Source {
    type V = SourceV;

    open spec fn view(&self) -> SourceV {
        SourceV {
            work_title: self.work_title.deep_view(),
            work_type: self.work_type.deep_view(),
            work_link_site: self.work_link_site.deep_view(),
            work_link_title: self.work_link_title.deep_view(),
            date_iso: self.date_iso.deep_view(),
            date_end_iso: self.date_end_iso.deep_view(),
            date_precision: self.date_precision.deep_view(),
            date_raw: self.date_raw.deep_view(),
            locator_page: self.locator_page.deep_view(),
            locator_chapter: self.locator_chapter.deep_view(),
            locator_part: self.locator_part.deep_view(),
            locator_act_scene: self.locator_act_scene.deep_view(),
            locator_line: self.locator_line.deep_view(),
            publication: self.publication.deep_view(),
            publisher: self.publisher.deep_view(),
            isbn: self.isbn.deep_view(),
            url: self.url.deep_view(),
            occasion: self.occasion.deep_view(),
            cite_templates: cites_view(self.cite_templates@),
        }
    }
}

/// One place on the page that gave part of the citation.
#[derive(Debug, Clone, PartialEq, Eq)]
pub struct SourcePart {
    /// "heading", "annotation" or "page_subject".
    pub origin: String,
    /// The heading level, when the origin is a heading.
    pub level: Option<u8>,
    /// "work", "episode", "season", "period" or "locator". None otherwise.
    pub hint: Option<String>,
    pub raw: String,
}

#[derive(Debug, Clone, PartialEq, Eq)]
pub struct CiteTemplate {
    pub name: String,
    pub params: Vec<Param>,
}

#[derive(Debug, Clone, PartialEq, Eq)]
pub struct Param {
    pub key: String,
    pub value: String,
}

#[derive(Debug, Clone, PartialEq, Eq)]
pub struct Translation {
    pub text: String,
    pub language: Option<String>,
    pub translator: Option<String>,
    /// True when the quote text is itself the translation.
    pub is_original: bool,
}

#[derive(Debug, Clone, PartialEq, Eq)]
pub struct AnnotationOut {
    pub kind: String,
    pub text: String,
    pub wikitext: String,
}

/// How much of the record was a guess. A consumer filters on this.
#[derive(Debug, Clone, Default, PartialEq, Eq)]
pub struct Provenance {
    /// "page_subject", "annotation", "dialogue_marker" or "cast_section".
    pub speaker_from: Option<String>,
    /// "heading", "annotation", "page_subject" or "mixed".
    pub source_from: Option<String>,
    /// "section_role" or "citation_presence".
    pub status_from: Option<String>,
    pub unparsed_annotations: u8,
}


/// `Link` with its text as characters.
pub struct LinkV {
    pub site: Seq<char>,
    pub lang: Seq<char>,
    pub title: Seq<char>,
    pub fragment: Option<Seq<char>>,
}

impl View for Link {
    type V = LinkV;

    open spec fn view(&self) -> LinkV {
        LinkV {
            site: self.site@,
            lang: self.lang@,
            title: self.title@,
            fragment: self.fragment.deep_view(),
        }
    }
}

/// `SourcePart` with its text as characters.
pub struct PartV {
    pub origin: Seq<char>,
    pub level: Option<u8>,
    pub hint: Option<Seq<char>>,
    pub raw: Seq<char>,
}

impl View for SourcePart {
    type V = PartV;

    open spec fn view(&self) -> PartV {
        PartV { origin: self.origin@, level: self.level, hint: self.hint.deep_view(), raw: self.raw@ }
    }
}

pub open spec fn parts_view(p: Seq<SourcePart>) -> Seq<PartV> {
    p.map_values(|x: SourcePart| x@)
}

/// Every field of a `Source`, as characters.
pub struct FullSourceV {
    pub cited: SourceV,
    pub raw: Seq<char>,
    pub complete: bool,
    pub parts: Seq<PartV>,
    pub work_year: Option<u16>,
    pub episode_series: Option<Seq<char>>,
    pub episode_season: Option<u16>,
    pub episode_number: Option<Seq<char>>,
    pub episode_title: Option<Seq<char>>,
}

pub open spec fn full_source(s: Source) -> FullSourceV {
    FullSourceV {
        cited: s@,
        raw: s.raw@,
        complete: s.complete,
        parts: parts_view(s.parts@),
        work_year: s.work_year,
        episode_series: s.episode_series.deep_view(),
        episode_season: s.episode_season,
        episode_number: s.episode_number.deep_view(),
        episode_title: s.episode_title.deep_view(),
    }
}

/// `Translation` with its text as characters.
pub struct TranslationV {
    pub text: Seq<char>,
    pub language: Option<Seq<char>>,
    pub translator: Option<Seq<char>>,
    pub is_original: bool,
}

impl View for Translation {
    type V = TranslationV;

    open spec fn view(&self) -> TranslationV {
        TranslationV {
            text: self.text@,
            language: self.language.deep_view(),
            translator: self.translator.deep_view(),
            is_original: self.is_original,
        }
    }
}

/// `AnnotationOut` with its text as characters.
pub struct AnnotationOutV {
    pub kind: Seq<char>,
    pub text: Seq<char>,
    pub wikitext: Seq<char>,
}

impl View for AnnotationOut {
    type V = AnnotationOutV;

    open spec fn view(&self) -> AnnotationOutV {
        AnnotationOutV { kind: self.kind@, text: self.text@, wikitext: self.wikitext@ }
    }
}

/// `Provenance` with its text as characters.
pub struct ProvenanceV {
    pub speaker_from: Option<Seq<char>>,
    pub source_from: Option<Seq<char>>,
    pub status_from: Option<Seq<char>>,
    pub unparsed_annotations: u8,
}

impl View for Provenance {
    type V = ProvenanceV;

    open spec fn view(&self) -> ProvenanceV {
        ProvenanceV {
            speaker_from: self.speaker_from.deep_view(),
            source_from: self.source_from.deep_view(),
            status_from: self.status_from.deep_view(),
            unparsed_annotations: self.unparsed_annotations,
        }
    }
}

/// `Quote` with its text as characters.
pub struct QuoteV {
    pub id: Seq<char>,
    pub content_hash: Seq<char>,
    pub wiki_language: Seq<char>,
    pub page_title: Seq<char>,
    pub page_id: u32,
    pub page_type: Seq<char>,
    pub revision_id: u32,
    pub text: Seq<char>,
    pub wikitext: Seq<char>,
    pub language: Seq<char>,
    pub language_from: Seq<char>,
    pub kind: Seq<char>,
    pub status: Seq<char>,
    pub speaker: Option<AgentV>,
    pub about: Seq<AgentV>,
    pub source: Option<FullSourceV>,
    pub context_path: Seq<Seq<char>>,
    pub annotations: Seq<AnnotationOutV>,
    pub translations: Seq<TranslationV>,
    pub links: Seq<LinkV>,
    pub provenance: ProvenanceV,
}

pub open spec fn agents_view(a: Seq<Agent>) -> Seq<AgentV> {
    a.map_values(|x: Agent| x@)
}

impl View for Quote {
    type V = QuoteV;

    open spec fn view(&self) -> QuoteV {
        QuoteV {
            id: self.id@,
            content_hash: self.content_hash@,
            wiki_language: self.wiki_language@,
            page_title: self.page_title@,
            page_id: self.page_id,
            page_type: self.page_type@,
            revision_id: self.revision_id,
            text: self.text@,
            wikitext: self.wikitext@,
            language: self.language@,
            language_from: self.language_from@,
            kind: self.kind@,
            status: self.status@,
            speaker: match self.speaker {
                Some(a) => Some(a@),
                None => None,
            },
            about: agents_view(self.about@),
            source: match self.source {
                Some(s) => Some(full_source(s)),
                None => None,
            },
            context_path: self.context_path.deep_view(),
            annotations: self.annotations@.map_values(|x: AnnotationOut| x@),
            translations: self.translations@.map_values(|x: Translation| x@),
            links: self.links@.map_values(|x: Link| x@),
            provenance: self.provenance@,
        }
    }
}

pub open spec fn quotes_view(q: Seq<Quote>) -> Seq<QuoteV> {
    q.map_values(|x: Quote| x@)
}

} // verus!
