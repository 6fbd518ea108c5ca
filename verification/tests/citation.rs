use wikiquotes_structured::citation::{apply, date_from_captures, DateMatches};
use wikiquotes_structured::model::RichText;
use wikiquotes_structured::quote::Source;
use wikiquotes_structured::syntax::syntax_nodes;
use wikiquotes_structured::text::Utf8Text;
use wikiquotes_structured::wikitext::{rich_text, Walk};

/// The rich text of the list item `* {wikitext}`.
fn rich(wikitext: &str) -> RichText {
    let line = format!("* {wikitext}");
    let nodes = syntax_nodes(&line).expect("the grammar loads");
    let at = nodes.iter().position(|n| n.named && n.kind == "list_item_content").expect("no list item");
    let src = Utf8Text::new(line.chars().collect());
    let title: Vec<char> = "Test".chars().collect();
    let walk = Walk { src: &src, ns: &nodes, title: &title };
    rich_text(&walk, at)
}

fn source_of(wikitext: &str) -> Source {
    let mut source = Source::default();
    apply(&mut source, &rich(wikitext));
    source
}

#[test]
fn reads_a_work_title_and_a_full_date() {
    let source = source_of("''The American Crisis'', No. 1 (23 December 1776)");
    assert_eq!(source.work_title.as_deref(), Some("The American Crisis"));
    assert_eq!(source.date_iso.as_deref(), Some("1776-12-23"));
    assert_eq!(source.date_precision.as_deref(), Some("day"));
    assert_eq!(source.locator_part.as_deref(), Some("No. 1"));
}

#[test]
fn reads_the_date_forms() {
    assert_eq!(source_of("(5 February 2006)").date_iso.as_deref(), Some("2006-02-05"));
    assert_eq!(source_of("(February 5, 2006)").date_iso.as_deref(), Some("2006-02-05"));
    assert_eq!(source_of("(November 1886)").date_iso.as_deref(), Some("1886-11"));
    assert_eq!(source_of("''Book'' (1990)").date_iso.as_deref(), Some("1990"));
    assert_eq!(source_of("c. 1200").date_precision.as_deref(), Some("circa"));
    assert_eq!(source_of("399 BCE").date_iso.as_deref(), Some("-0399"));
    let range = source_of("''War'' (1914-1918)");
    assert_eq!(range.date_iso.as_deref(), Some("1914"));
    assert_eq!(range.date_end_iso.as_deref(), Some("1918"));
    assert_eq!(range.date_precision.as_deref(), Some("range"));
}

#[test]
fn does_not_read_a_page_number_as_a_year() {
    let source = source_of("p. 1776");
    assert_eq!(source.date_iso, None);
    assert_eq!(source.locator_page.as_deref(), Some("p. 1776"));
}

#[test]
fn reads_the_locators() {
    assert_eq!(source_of("pp. 77-78").locator_page.as_deref(), Some("pp. 77-78"));
    assert_eq!(source_of("Ch. 11").locator_chapter.as_deref(), Some("Ch. 11"));
    assert_eq!(source_of("Act II, scene i").locator_act_scene.as_deref(), Some("Act II, scene i"));
    assert_eq!(source_of("lines 39-40").locator_line.as_deref(), Some("lines 39-40"));
}

#[test]
fn reads_a_cite_template() {
    let source = source_of(
        "{{cite journal|title=Building Up of a University|journal=The Nineteenth Century|date=November 1886|pages=724-741}}",
    );
    assert_eq!(source.work_title.as_deref(), Some("Building Up of a University"));
    assert_eq!(source.publication.as_deref(), Some("The Nineteenth Century"));
    assert_eq!(source.work_type.as_deref(), Some("journal article"));
    assert_eq!(source.date_iso.as_deref(), Some("1886-11"));
    assert_eq!(source.cite_templates.len(), 1);
}

#[test]
fn reads_an_isbn_and_a_url() {
    assert_eq!(source_of("{{ISBN|978-0-444-52133-0}}").isbn.as_deref(), Some("978-0-444-52133-0"));
    assert_eq!(source_of("ISBN 0-444-52133-X").isbn.as_deref(), Some("0-444-52133-X"));
    assert_eq!(source_of("[http://a.example/x A page]").url.as_deref(), Some("http://a.example/x"));
}

#[test]
fn does_not_read_a_word_inside_another_word() {
    assert_eq!(source_of("Letterman show").occasion, None);
    assert_eq!(source_of("Letter no. 155").occasion.as_deref(), Some("letter"));
}

#[test]
fn reads_the_occasion() {
    let source = source_of("in a letter to [[Thomas Jefferson]] (22 June 1819)");
    assert_eq!(source.occasion.as_deref(), Some("letter"));
    assert_eq!(source.date_iso.as_deref(), Some("1819-06-22"));
}

#[test]
fn ignores_the_date_a_web_page_was_visited() {
    let source = source_of(
        "Letter no. 155 (June 1880), published in [http://a.example the letters]. Retrieved 29 July 2014.",
    );
    assert_eq!(source.date_iso.as_deref(), Some("1880-06"));
}

#[test]
fn a_bare_note_gives_nothing_but_stays_raw() {
    let source = source_of("Lu Xun's 1st Musou Attack");
    assert_eq!(source.work_title, None);
    assert_eq!(source.date_iso, None);
    assert_eq!(source.locator_page, None);
}

#[test]
fn a_later_part_wins_and_an_empty_one_changes_nothing() {
    let mut source = source_of("''Common Sense'' (1776)");
    assert_eq!(source.work_title.as_deref(), Some("Common Sense"));
    // The line nearest the quote is the most specific, so it wins.
    apply(&mut source, &rich("''The American Crisis'', p. 3"));
    assert_eq!(source.work_title.as_deref(), Some("The American Crisis"));
    assert_eq!(source.locator_page.as_deref(), Some("p. 3"));
    // A part that names no work leaves the one already found alone.
    apply(&mut source, &rich("p. 12"));
    assert_eq!(source.work_title.as_deref(), Some("The American Crisis"));
    assert_eq!(source.date_iso.as_deref(), Some("1776"));
}

#[test]
fn links_a_wikisource_work() {
    let source = source_of("''[[s:African Slavery in America|African Slavery in America]]'' (1775)");
    assert_eq!(source.work_link_site.as_deref(), Some("wikisource"));
    assert_eq!(source.work_link_title.as_deref(), Some("African Slavery in America"));
}

#[test]
fn an_empty_part_leaves_the_source_as_it_was() {
    let mut source = source_of("''Common Sense'' (1776), p. 4");
    let before = source.clone();
    apply(&mut source, &rich(""));
    assert_eq!(source, before);
}

#[test]
fn a_single_year_drops_the_end_of_an_earlier_range() {
    let mut source = source_of("''War'' (1914-1918)");
    assert_eq!(source.date_end_iso.as_deref(), Some("1918"));
    assert_eq!(source.date_precision.as_deref(), Some("range"));
    apply(&mut source, &rich("''Common Sense'' (1776)"));
    assert_eq!(source.date_iso.as_deref(), Some("1776"));
    assert_eq!(source.date_precision.as_deref(), Some("year"));
    assert_eq!(source.date_end_iso, None);
}

#[test]
fn finds_the_retrieval_marker_in_any_case() {
    let source = source_of("Speech (1 May 1990). RETRIEVED 29 July 2014.");
    assert_eq!(source.date_iso.as_deref(), Some("1990-05-01"));
    // Kelvin signs lowercase to a shorter "k"; the cut still falls just
    // before the marker, so the visit date is not read.
    let source = source_of("\u{212A}\u{212A} Retrieved 29 July 2014");
    assert_eq!(source.date_iso, None);
}

fn no_matches() -> DateMatches {
    DateMatches {
        bce: None,
        range: None,
        day_month_year: None,
        month_day_year: None,
        month_year: None,
        circa: None,
        bracket: None,
    }
}

fn groups(gs: &[&str]) -> Option<Vec<Option<String>>> {
    Some(gs.iter().map(|g| Some(g.to_string())).collect())
}

fn text(s: &str) -> String {
    s.to_string()
}

#[test]
fn reads_a_date_from_what_the_patterns_found() {
    let line: Vec<char> = "''War'' (1914-1918)".chars().collect();
    let m = DateMatches { range: groups(&["(1914-1918)", "1914", "1918"]), ..no_matches() };
    let d = date_from_captures(&line, &m).expect("a range");
    assert_eq!(d.iso.iter().collect::<String>(), text("1914"));
    assert_eq!(d.end.map(|e| e.iter().collect::<String>()), Some(text("1918")));
    assert_eq!(d.precision.iter().collect::<String>(), text("range"));
    assert_eq!(d.raw.iter().collect::<String>(), text("(1914-1918)"));

    // A day-month-year match whose month is no month gives way to the next pattern.
    let line: Vec<char> = "12 Foo 1990 (1776)".chars().collect();
    let m = DateMatches {
        day_month_year: groups(&["12 Foo 1990", "12", "Foo", "1990"]),
        bracket: groups(&["(1776)", "1776"]),
        ..no_matches()
    };
    let d = date_from_captures(&line, &m).expect("a bracketed year");
    assert_eq!(d.iso.iter().collect::<String>(), text("1776"));
    assert_eq!(d.precision.iter().collect::<String>(), text("year"));

    // With no match, only a text that is a bare four-digit year is read.
    let d = date_from_captures(&" 1776 ".chars().collect(), &no_matches()).expect("a bare year");
    assert_eq!(d.iso.iter().collect::<String>(), text("1776"));
    assert!(date_from_captures(&"p. 1776".chars().collect(), &no_matches()).is_none());
}
