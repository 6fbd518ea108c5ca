use wikiquotes_structured::dump::RawPage;
use wikiquotes_structured::model::{AnnotationKind, Block, Document, SectionRole, SourceHint};
use wikiquotes_structured::parse::{annotation_kind, strip_speaker, DocumentBuilder};
use wikiquotes_structured::model::RichText;

fn document(wikitext: &str) -> Document {
    let page = RawPage {
        title: "Test Page".to_string(),
        page_id: 1,
        namespace: 0,
        redirect_to: None,
        revision_id: 2,
        timestamp: "2026-01-01T00:00:00Z".to_string(),
        text: wikitext.to_string(),
    };
    DocumentBuilder::new().build(&page, "en")
}

const PERSON: &str = r#"'''Test''' was a writer.

== Quotes ==
=== 1770s ===
==== ''Common Sense'' (1776) ====
* These are the times that try men's souls.
** ''The American Crisis'', No. 1 (23 December 1776)
** Translation: not really
* A second quote.

== See also ==
* [[Other page]]

[[Category:1737 births]]
[[Category:Living people]]
"#;

#[test]
fn nests_the_sections_by_heading_level() {
    let document = document(PERSON);
    assert_eq!(document.sections.len(), 2);
    let quotes = &document.sections[0];
    assert_eq!(quotes.level, 2);
    assert_eq!(quotes.role, SectionRole::Quotes);
    let decade = &quotes.sections[0];
    assert_eq!(decade.level, 3);
    assert_eq!(decade.source_hint, Some(SourceHint::Period { from: 1770, to: 1779 }));
    let work = &decade.sections[0];
    assert_eq!(work.level, 4);
    assert_eq!(
        work.source_hint,
        Some(SourceHint::Work { title: "Common Sense".into(), year: Some(1776) })
    );
}

#[test]
fn hangs_the_double_star_lines_under_the_quote() {
    let document = document(PERSON);
    let work = &document.sections[0].sections[0].sections[0];
    let Block::Quote(first) = &work.blocks[0] else { panic!("expected a quote") };
    assert_eq!(first.text.text, "These are the times that try men's souls.");
    assert_eq!(first.annotations.len(), 2);
    assert_eq!(first.annotations[0].kind, AnnotationKind::Citation);
    assert_eq!(first.annotations[1].kind, AnnotationKind::Translation);
    let Block::Quote(second) = &work.blocks[1] else { panic!("expected a quote") };
    assert!(second.annotations.is_empty());
}

#[test]
fn collects_the_categories_and_the_lead() {
    let document = document(PERSON);
    assert_eq!(document.categories, ["1737 births", "Living people"]);
    assert_eq!(document.lead.len(), 1);
}

#[test]
fn a_see_also_entry_is_not_a_quote() {
    let document = document(PERSON);
    let see_also = &document.sections[1];
    assert!(matches!(see_also.blocks[0], Block::Item(_)));
}

#[test]
fn accounts_for_every_line() {
    assert_eq!(document(PERSON).parse.unassigned_lines, 0);
}

const DIALOGUE: &str = r#"== Dialogue ==
:'''Alice''': Hello there.
:'''Bob''': ''[waves]'' Hi.
<hr width="50%"/>
:''[Alice leaves]''
:'''Alice''': Bye.
"#;

#[test]
fn a_rule_ends_an_exchange() {
    let document = document(DIALOGUE);
    let blocks = &document.sections[0].blocks;
    let exchanges: Vec<_> = blocks
        .iter()
        .filter_map(|b| match b {
            Block::Exchange(e) => Some(e),
            _ => None,
        })
        .collect();
    assert_eq!(exchanges.len(), 2);
    assert_eq!(exchanges[0].turns.len(), 2);
    assert_eq!(exchanges[1].turns.len(), 2);
    assert!(blocks.iter().any(|b| matches!(b, Block::Rule)));
}

#[test]
fn reads_the_speaker_and_drops_it_from_the_text() {
    let document = document(DIALOGUE);
    let Block::Exchange(first) = &document.sections[0].blocks[0] else { panic!("no exchange") };
    assert_eq!(first.turns[0].speaker.as_deref(), Some("Alice"));
    assert_eq!(first.turns[0].text.text, "Hello there.");
    assert_eq!(first.turns[1].speaker.as_deref(), Some("Bob"));
    assert_eq!(first.turns[1].text.text, "[waves] Hi.");
}

#[test]
fn marks_a_stage_direction() {
    let document = document(DIALOGUE);
    let Block::Exchange(second) = &document.sections[0].blocks[2] else { panic!("no exchange") };
    assert!(second.turns[0].is_stage_direction);
    assert_eq!(second.turns[0].speaker, None);
    assert!(!second.turns[1].is_stage_direction);
}

#[test]
fn keeps_a_redirect_short() {
    let page = RawPage {
        title: "Les Miserables".to_string(),
        redirect_to: Some("Les Misérables".to_string()),
        text: "#REDIRECT [[Les Misérables]]".to_string(),
        ..RawPage::default()
    };
    let document = DocumentBuilder::new().build(&page, "en");
    assert_eq!(document.redirect_to.unwrap().title, "Les Misérables");
    assert!(document.sections.is_empty());
}

#[test]
fn reads_an_image_caption_and_its_attribution() {
    let document = document("== Quotes ==\n[[File:X.jpg|thumb|A quote here ~ [[John Adams]]]]\n* Body\n");
    let Block::Media(media) = &document.sections[0].blocks[0] else { panic!("no media") };
    assert_eq!(media.file, "File:X.jpg");
    assert_eq!(media.caption.as_ref().unwrap().text, "A quote here ~ John Adams");
    assert_eq!(media.caption_attribution.as_deref(), Some("John Adams"));
}

#[test]
fn counts_the_lines_and_the_bytes() {
    let document = document(PERSON);
    assert_eq!(document.parse.bytes as usize, PERSON.len());
    assert_eq!(document.parse.source_lines, 12);
    assert_eq!(document.parse.error_nodes, 0);
    assert_eq!(document.wiki_language, "en");
    assert_eq!(document.title, "Test Page");
}

#[test]
fn a_wikipedia_template_in_the_lead_is_an_interwiki_link() {
    let document = document("{{Wikipedia}}\n'''Someone''' said things.\n");
    assert_eq!(document.templates.len(), 1);
    assert_eq!(document.interwiki.len(), 1);
    assert_eq!(document.interwiki[0].title, "Test Page");
    assert_eq!(document.interwiki[0].lang, "en");
}

#[test]
fn guesses_what_an_annotation_is_for() {
    let rich = |t: &str| RichText { text: t.to_string(), wikitext: t.to_string(), spans: Vec::new() };
    assert_eq!(annotation_kind(&rich("Translation: hello")), AnnotationKind::Translation);
    assert_eq!(annotation_kind(&rich("Literally, a dog")), AnnotationKind::Translation);
    assert_eq!(annotation_kind(&rich("Compare the other one")), AnnotationKind::CrossRef);
    assert_eq!(annotation_kind(&rich("Some book, p. 4")), AnnotationKind::Citation);
    assert_eq!(annotation_kind(&rich("   ")), AnnotationKind::Note);
}

#[test]
fn strips_the_speaker_and_moves_the_spans() {
    let text = RichText {
        text: "Bob: :  Hi there".to_string(),
        wikitext: "'''Bob''': :  Hi there".to_string(),
        spans: Vec::new(),
    };
    let out = strip_speaker(text);
    assert_eq!(out.text, "Hi there");
    let plain = RichText { text: "no colon".to_string(), wikitext: String::new(), spans: Vec::new() };
    assert_eq!(strip_speaker(plain).text, "no colon");
}
