use wikiquotes_structured::model::{SectionRole, SourceHint};
use wikiquotes_structured::roles::{
    locator_from_lowered, role_from_name, role_of, season_from_name, source_hint,
};

#[test]
fn reads_the_common_roles() {
    assert_eq!(role_of("Quotes"), SectionRole::Quotes);
    assert_eq!(role_of("  quotations "), SectionRole::Quotes);
    assert_eq!(role_of("External links"), SectionRole::ExternalLinks);
    assert_eq!(role_of("Other projects:"), SectionRole::ExternalLinks);
    assert_eq!(role_of("Voice cast"), SectionRole::Cast);
    assert_eq!(role_of("Dialogue"), SectionRole::Dialogue);
    assert_eq!(role_of("Taglines"), SectionRole::Taglines);
    assert_eq!(role_of("Season 3"), SectionRole::Episodes);
}

#[test]
fn tells_attributed_from_misattributed() {
    assert_eq!(role_of("Attributed"), SectionRole::Attributed);
    assert_eq!(role_of("Misattributed"), SectionRole::Misattributed);
    assert_eq!(role_of("Misattributed Quotes about Paine"), SectionRole::Misattributed);
}

#[test]
fn reads_the_quotes_about_forms() {
    assert_eq!(role_of("Quotes about Paine"), SectionRole::QuotesAbout);
    assert_eq!(role_of("About"), SectionRole::QuotesAbout);
    assert_eq!(role_of("About Thomas Paine"), SectionRole::QuotesAbout);
}

#[test]
fn a_single_letter_is_a_sort_bucket() {
    assert_eq!(role_of("S"), SectionRole::AlphaBucket('S'));
    assert_eq!(role_of("z"), SectionRole::AlphaBucket('Z'));
    assert_eq!(role_of("A - F"), SectionRole::Other("A - F".to_string()));
}

#[test]
fn an_unknown_heading_keeps_its_text() {
    assert_eq!(
        role_of("Hoyt's New Cyclopedia"),
        SectionRole::Other("Hoyt's New Cyclopedia".to_string())
    );
}

#[test]
fn a_role_heading_gives_no_source() {
    assert_eq!(source_hint("Quotes", false), None);
    assert_eq!(source_hint("Quotes about Paine", false), None);
    assert_eq!(source_hint("S", false), None);
}

#[test]
fn reads_a_work_title() {
    assert_eq!(
        source_hint("Common Sense (1776)", false),
        Some(SourceHint::Work { title: "Common Sense".into(), year: Some(1776) })
    );
    assert_eq!(
        source_hint("The American Crisis", true),
        Some(SourceHint::Work { title: "The American Crisis".into(), year: None })
    );
}

#[test]
fn reads_a_period() {
    assert_eq!(source_hint("1790s", false), Some(SourceHint::Period { from: 1790, to: 1799 }));
    assert_eq!(source_hint("1997", false), Some(SourceHint::Period { from: 1997, to: 1997 }));
    assert_eq!(source_hint("1914-1918", false), Some(SourceHint::Period { from: 1914, to: 1918 }));
}

#[test]
fn reads_a_season_and_an_episode() {
    assert_eq!(source_hint("Season 1", false), Some(SourceHint::Season { number: 1 }));
    assert_eq!(
        source_hint("Pilot [1.01]", true),
        Some(SourceHint::Episode { title: Some("Pilot".into()), code: Some("1.01".into()) })
    );
}

#[test]
fn reads_a_plain_episode_number() {
    assert_eq!(
        source_hint("Episode 4", false),
        Some(SourceHint::Episode { title: None, code: Some("4".into()) })
    );
    assert_eq!(source_hint("Episode of a life", false), None);
}

#[test]
fn a_plain_heading_is_not_a_work() {
    assert_eq!(source_hint("Other", false), None);
    assert_eq!(source_hint("Discourse to the Theophilanthropists", false), None);
}

#[test]
fn reads_a_place_inside_a_work() {
    assert_eq!(
        source_hint("Chapter 5", false),
        Some(SourceHint::Locator { kind: "chapter".into(), value: "Chapter 5".into() })
    );
    assert_eq!(
        source_hint("Act II", false),
        Some(SourceHint::Locator { kind: "act_scene".into(), value: "Act II".into() })
    );
    assert_eq!(
        source_hint("Preface", false),
        Some(SourceHint::Locator { kind: "part".into(), value: "Preface".into() })
    );
    // A title that opens with one of those words is still a title.
    assert_eq!(source_hint("Book of Mormon", false), None);
}

#[test]
fn reads_a_season_written_as_a_word() {
    assert_eq!(source_hint("Season One", false), Some(SourceHint::Season { number: 1 }));
    assert_eq!(role_of("Season One"), SectionRole::Episodes);
}

#[test]
fn a_decade_heading_is_a_period_and_no_role() {
    assert_eq!(role_of("1770s"), SectionRole::Other("1770s".to_string()));
    assert_eq!(source_hint("1770s", false), Some(SourceHint::Period { from: 1770, to: 1779 }));
}

fn chars(s: &str) -> Vec<char> {
    s.chars().collect()
}

#[test]
fn reads_the_role_from_a_lowercased_name() {
    assert_eq!(role_from_name(" QUOTES ", &chars("quotes")), SectionRole::Quotes);
    assert_eq!(role_from_name("Quotes about Paine", &chars("quotes about paine")), SectionRole::QuotesAbout);
    assert_eq!(role_from_name("x", &chars("x")), SectionRole::AlphaBucket('X'));
    assert_eq!(
        role_from_name(" Hoyt's ", &chars("hoyt's")),
        SectionRole::Other("Hoyt's".to_string())
    );
    assert_eq!(season_from_name(&chars("season one")), Some(1));
    assert_eq!(season_from_name(&chars("season 12")), Some(12));
    assert_eq!(locator_from_lowered(&chars("chapter 5")), Some(chars("chapter")));
    assert_eq!(locator_from_lowered(&chars("act ii")), Some(chars("act_scene")));
    assert_eq!(locator_from_lowered(&chars("preface")), Some(chars("part")));
    assert_eq!(locator_from_lowered(&chars("book of mormon")), None);
}
