use wikiquotes_structured::dump::RawPage;
use wikiquotes_structured::normalize::quotes;
use wikiquotes_structured::parse::DocumentBuilder;
use wikiquotes_structured::quote::Quote;

fn quotes_of(title: &str, wikitext: &str) -> Vec<Quote> {
    let page = RawPage {
        title: title.to_string(),
        page_id: 1,
        namespace: 0,
        redirect_to: None,
        revision_id: 2,
        timestamp: String::new(),
        text: wikitext.to_string(),
    };
    let document = DocumentBuilder::new().build(&page, "en");
    quotes(&document)
}

const PERSON: &str = r#"'''Thomas Paine''' was a writer.

== Quotes ==
=== 1790s ===
==== ''Common Sense'' (1776) ====
* These are the times that try men's souls.
** ''The American Crisis'', No. 1 (23 December 1776)

== Quotes about Paine ==
* Without the pen of Paine, the sword of [[George Washington|Washington]] would have been wielded in vain.
** Attributed to [[John Adams]] since at least 1957

== Misattributed ==
* Lead, follow, or get out of the way.
** No source found.

[[Category:1737 births]]
"#;

#[test]
fn a_person_speaks_their_own_quotes() {
    let quotes = quotes_of("Thomas Paine", PERSON);
    let own = &quotes[0];
    assert_eq!(own.speaker.as_ref().unwrap().name, "Thomas Paine");
    assert_eq!(own.provenance.speaker_from.as_deref(), Some("page_subject"));
    assert!(own.about.is_empty());
    assert_eq!(own.status, "sourced");
}

#[test]
fn the_heading_path_and_the_citation_both_feed_the_source() {
    let quotes = quotes_of("Thomas Paine", PERSON);
    let source = quotes[0].source.as_ref().unwrap();
    assert_eq!(source.work_title.as_deref(), Some("The American Crisis"));
    assert_eq!(source.date_iso.as_deref(), Some("1776-12-23"));
    assert_eq!(source.locator_part.as_deref(), Some("No. 1"));
    assert!(source.complete);
    assert_eq!(quotes[0].provenance.source_from.as_deref(), Some("mixed"));
    let origins: Vec<&str> = source.parts.iter().map(|p| p.origin.as_str()).collect();
    assert_eq!(origins, ["heading", "heading", "annotation"]);
    let hints: Vec<Option<&str>> = source.parts.iter().map(|p| p.hint.as_deref()).collect();
    assert_eq!(hints, [Some("period"), Some("work"), None]);
}

#[test]
fn the_full_heading_path_stays_outside_the_source() {
    let quotes = quotes_of("Thomas Paine", PERSON);
    assert_eq!(quotes[0].context_path, ["Quotes", "1790s", "Common Sense (1776)"]);
    // "Quotes" is a role heading, so it gives the source nothing.
    let source = quotes[0].source.as_ref().unwrap();
    assert!(!source.parts.iter().any(|p| p.raw == "Quotes"));
}

#[test]
fn a_quote_about_the_subject_names_the_other_speaker() {
    let quotes = quotes_of("Thomas Paine", PERSON);
    let about = quotes.iter().find(|q| q.text.starts_with("Without the pen")).unwrap();
    assert_eq!(about.speaker.as_ref().unwrap().name, "John Adams");
    assert_eq!(about.provenance.speaker_from.as_deref(), Some("annotation"));
    assert_eq!(about.about[0].name, "Thomas Paine");
    assert_eq!(about.context_path, ["Quotes about Paine"]);
    assert!(about.links.iter().any(|l| l.title == "George Washington"));
}

#[test]
fn a_misattributed_quote_has_no_speaker() {
    let quotes = quotes_of("Thomas Paine", PERSON);
    let bad = quotes.iter().find(|q| q.text.starts_with("Lead, follow")).unwrap();
    assert!(bad.speaker.is_none());
    assert_eq!(bad.provenance.speaker_from, None);
    assert_eq!(bad.status, "misattributed");
    assert_eq!(bad.provenance.status_from.as_deref(), Some("section_role"));
}

#[test]
fn a_citation_that_is_only_a_locator_is_not_complete() {
    let quotes = quotes_of("Someone", "== Quotes ==\n* A quote.\n** p. 223\n[[Category:Living people]]\n");
    let source = quotes[0].source.as_ref().unwrap();
    assert_eq!(source.locator_page.as_deref(), Some("p. 223"));
    assert!(!source.complete);
    assert_eq!(quotes[0].status, "unsourced");
}

const FILM: &str = r#"'''''The Half of It''''' is a 2020 film.

== Dialogue ==
:'''Ellie Chu''': Aster thinks you're into abstract art.
:'''Paul Munsky''': Yeah.
<hr width="50%"/>
:'''Ellie Chu''': Gravity is matter's response to loneliness.

== Cast ==
* [[w:Leah Lewis|Leah Lewis]] as Ellie Chu

[[Category:2020 American films]]
"#;

#[test]
fn a_film_is_the_source_of_its_own_dialogue() {
    let quotes = quotes_of("The Half of It", FILM);
    let source = quotes[0].source.as_ref().unwrap();
    assert_eq!(source.work_title.as_deref(), Some("The Half of It"));
    assert_eq!(source.work_type.as_deref(), Some("film"));
    assert_eq!(source.parts[0].origin, "page_subject");
}

#[test]
fn an_exchange_makes_one_record_and_a_record_for_each_turn() {
    let quotes = quotes_of("The Half of It", FILM);
    let kinds: Vec<&str> = quotes.iter().map(|q| q.kind.as_str()).collect();
    // Two turns, so the exchange is quotable on its own. The single-turn
    // exchange that follows is not repeated.
    assert_eq!(kinds, ["dialogue", "dialogue_turn", "dialogue_turn", "dialogue_turn"]);
    assert!(quotes[0].text.starts_with("Ellie Chu: Aster thinks"));
}

#[test]
fn the_cast_section_says_who_played_a_character() {
    let quotes = quotes_of("The Half of It", FILM);
    let turn = quotes.iter().find(|q| q.kind == "dialogue_turn").unwrap();
    assert_eq!(turn.speaker.as_ref().unwrap().name, "Ellie Chu");
    assert_eq!(turn.speaker.as_ref().unwrap().kind, "character");
    assert_eq!(turn.speaker.as_ref().unwrap().played_by.as_deref(), Some("Leah Lewis"));
    assert_eq!(turn.provenance.speaker_from.as_deref(), Some("dialogue_marker"));
}

#[test]
fn a_theme_page_is_the_topic_not_the_speaker() {
    let quotes = quotes_of(
        "Warmness",
        "== Quotes ==\n* Someone has a great fire in his soul.\n** [[Vincent van Gogh]], Letter no. 155 (June 1880)\n[[Category:Themes]]\n",
    );
    assert_eq!(quotes[0].speaker.as_ref().unwrap().name, "Vincent van Gogh");
    assert_eq!(quotes[0].about[0].name, "Warmness");
    assert_eq!(quotes[0].about[0].kind, "topic");
    let source = quotes[0].source.as_ref().unwrap();
    assert_eq!(source.date_iso.as_deref(), Some("1880-06"));
    assert_eq!(source.occasion.as_deref(), Some("letter"));
}

#[test]
fn a_declared_language_beats_the_wiki_default() {
    let quotes = quotes_of(
        "Someone",
        "== Quotes ==\n* {{lang|la|Alea iacta est}}\n** Suetonius\n[[Category:Living people]]\n",
    );
    assert_eq!(quotes[0].language, "la");
    assert_eq!(quotes[0].language_from, "declared");
    let plain = quotes_of("Someone", "== Quotes ==\n* Plain words\n[[Category:Living people]]\n");
    assert_eq!(plain[0].language, "en");
    assert_eq!(plain[0].language_from, "wiki_default");
}

#[test]
fn the_same_words_get_the_same_content_hash() {
    let one = quotes_of("A", "== Quotes ==\n* The  same   words.\n[[Category:Living people]]\n");
    let two = quotes_of("B", "== Quotes ==\n* the same words.\n[[Category:Living people]]\n");
    assert_eq!(one[0].content_hash, two[0].content_hash);
    assert_ne!(one[0].id, two[0].id);
}

#[test]
fn a_disambiguation_page_has_no_quotes() {
    assert!(quotes_of("Smith", "{{disambig}}\n* [[Smith A]]\n* [[Smith B]]\n").is_empty());
}

#[test]
fn a_list_entry_is_not_a_quote() {
    let quotes = quotes_of(
        "Someone",
        "== Quotes ==\n* A real quote.\n== External links ==\n* [http://a.example Site]\n[[Category:Living people]]\n",
    );
    assert_eq!(quotes.len(), 1);
}

#[test]
fn the_ids_and_hashes_are_sixteen_hex_digits() {
    let quotes = quotes_of("Thomas Paine", PERSON);
    for q in &quotes {
        assert_eq!(q.id.len(), 16);
        assert_eq!(q.content_hash.len(), 16);
        assert!(q.id.chars().all(|c| c.is_ascii_hexdigit()));
    }
    let again = quotes_of("Thomas Paine", PERSON);
    assert_eq!(quotes[0].id, again[0].id);
}

#[test]
fn a_redirect_has_no_quotes() {
    let page = RawPage {
        title: "Paine".to_string(),
        redirect_to: Some("Thomas Paine".to_string()),
        text: "#REDIRECT [[Thomas Paine]]".to_string(),
        ..RawPage::default()
    };
    let document = DocumentBuilder::new().build(&page, "en");
    assert!(quotes(&document).is_empty());
}

const WORKED_EXAMPLE: &str = r#"== Quotes ==
=== 1770s ===
==== ''Common Sense'' (1776) ====
* These are the times that try men's souls.
** ''The American Crisis'', No. 1 (23 December 1776)

== Quotes about Paine ==
* Without the pen of Paine, the sword of [[George Washington|Washington]] would have been wielded in vain.
** Attributed to [[John Adams]] since at least 1957

[[Category:1737 births]]
"#;

#[test]
fn follows_the_worked_example() {
    let quotes = quotes_of("Thomas Paine", WORKED_EXAMPLE);
    let first = &quotes[0];
    let speaker = first.speaker.as_ref().unwrap();
    assert_eq!(speaker.link_site.as_deref(), Some("wikipedia"));
    assert_eq!(speaker.link_lang.as_deref(), Some("en"));
    assert_eq!(speaker.link_title.as_deref(), Some("Thomas Paine"));
    assert_eq!(first.status, "sourced");
    let source = first.source.as_ref().unwrap();
    assert_eq!(source.date_iso.as_deref(), Some("1776-12-23"));
    assert_eq!(source.date_precision.as_deref(), Some("day"));
    assert_eq!(source.date_end_iso, None);
    assert_eq!(source.work_title.as_deref(), Some("The American Crisis"));
    assert_eq!(source.work_type.as_deref(), Some("book"));
    assert_eq!(source.work_year, Some(1776));
    let about = quotes.iter().find(|q| q.text.starts_with("Without the pen")).unwrap();
    assert_eq!(about.status, "attributed");
    assert_eq!(about.provenance.status_from.as_deref(), Some("section_role"));
    let source = about.source.as_ref().unwrap();
    assert!(!source.complete);
    assert_eq!(source.raw, "Attributed to [[John Adams]] since at least 1957");
}

#[test]
fn a_tagline_has_no_speaker() {
    let quotes = quotes_of(
        "Someone",
        "== Taglines ==\n* Coming this summer.\n[[Category:Living people]]\n",
    );
    assert_eq!(quotes[0].kind, "tagline");
    assert!(quotes[0].speaker.is_none());
    assert_eq!(quotes[0].provenance.speaker_from, None);
}

#[test]
fn a_proverb_has_no_speaker() {
    let quotes = quotes_of(
        "Proverb",
        "== Quotes ==\n* Festina lente.\n** [[Augustus]]\n[[Category:Latin proverbs]]\n",
    );
    assert_eq!(quotes[0].kind, "proverb");
    assert!(quotes[0].speaker.is_none());
}

#[test]
fn hashes_are_lowercase_hex() {
    let quotes = quotes_of("Thomas Paine", WORKED_EXAMPLE);
    for q in &quotes {
        assert!(q.content_hash.chars().all(|c| c.is_ascii_digit() || ('a'..='f').contains(&c)));
        assert!(q.id.chars().all(|c| c.is_ascii_digit() || ('a'..='f').contains(&c)));
    }
}
