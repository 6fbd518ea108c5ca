use wikiquotes_structured::model::{RichText, Site, SpanKind};
use wikiquotes_structured::syntax::syntax_nodes;
use wikiquotes_structured::text::Utf8Text;
use wikiquotes_structured::wikitext::{decode_entity, page_ref, rich_text, Walk};

/// Parses `* …` and returns the rich text of the list item content.
fn item(wikitext: &str) -> RichText {
    let nodes = syntax_nodes(wikitext).expect("the grammar loads");
    let at = nodes.iter().position(|n| n.named && n.kind == "list_item_content").expect("no list item");
    let src = Utf8Text::new(wikitext.chars().collect());
    let title: Vec<char> = "Thomas Paine".chars().collect();
    let walk = Walk { src: &src, ns: &nodes, title: &title };
    rich_text(&walk, at)
}

fn span_kinds(text: &RichText) -> Vec<&'static str> {
    text.spans
        .iter()
        .map(|s| match &s.kind {
            SpanKind::Link { .. } => "link",
            SpanKind::ExternalLink { .. } => "external",
            SpanKind::Italic => "italic",
            SpanKind::Bold => "bold",
            SpanKind::BoldItalic => "bold_italic",
            SpanKind::Template(_) => "template",
            SpanKind::Comment { .. } => "comment",
            SpanKind::Reference { .. } => "reference",
        })
        .collect()
}

#[test]
fn keeps_the_words_a_reader_sees() {
    let text = item("* Plain [[Foo]] and [[w:Bar|Bar shown]] and ''emphasis''.");
    assert_eq!(text.text, "Plain Foo and Bar shown and emphasis.");
    assert_eq!(span_kinds(&text), ["link", "link", "italic"]);
}

#[test]
fn spans_point_at_the_plain_text() {
    let text = item("* A [[Foo|bar]] c");
    let span = &text.spans[0];
    assert_eq!(&text.text[span.start as usize..span.end as usize], "bar");
}

#[test]
fn reads_the_link_target() {
    let text = item("* [[w:de:Berlin|Berlin]] and [[Baz#Sec]] and [[:Category:X|C]]");
    let targets: Vec<_> = text
        .spans
        .iter()
        .filter_map(|s| match &s.kind {
            SpanKind::Link { target } => Some(target.clone()),
            _ => None,
        })
        .collect();
    assert_eq!(targets[0].site, Site::Wikipedia);
    assert_eq!(targets[0].lang, "de");
    assert_eq!(targets[0].title, "Berlin");
    assert_eq!(targets[1].site, Site::Wikiquote);
    assert_eq!(targets[1].title, "Baz");
    assert_eq!(targets[1].fragment.as_deref(), Some("Sec"));
    assert_eq!(targets[2].title, "Category:X");
}

#[test]
fn shows_a_bare_link_without_its_project_prefix() {
    assert_eq!(item("* See [[w:Nikola Tesla]].").text, "See Nikola Tesla.");
}

#[test]
fn renders_the_templates_that_carry_words() {
    assert_eq!(item("* By {{w|Nikola Tesla|Tesla}} today").text, "By Tesla today");
    assert_eq!(item("* {{lang|fr|bonjour}} all").text, "bonjour all");
    assert_eq!(item("* {{ISBN|0-306-40615-2}}").text, "ISBN 0-306-40615-2");
}

#[test]
fn an_unknown_template_leaves_no_text_but_keeps_a_span() {
    let text = item("* Quote {{cite book|title=T|year=1990}}");
    assert_eq!(text.text, "Quote");
    match &text.spans[0].kind {
        SpanKind::Template(t) => {
            assert_eq!(t.name, "cite book");
            assert_eq!(t.param("title"), Some("T"));
            assert_eq!(t.param("year"), Some("1990"));
        }
        other => panic!("expected a template span, found {other:?}"),
    }
}

#[test]
fn positional_template_parameters_are_numbered() {
    let text = item("* {{unknown|first|second|key=value}}");
    match &text.spans[0].kind {
        SpanKind::Template(t) => {
            assert_eq!(t.param("1"), Some("first"));
            assert_eq!(t.param("2"), Some("second"));
            assert_eq!(t.param("key"), Some("value"));
        }
        other => panic!("expected a template span, found {other:?}"),
    }
}

#[test]
fn drops_comments_and_footnotes_from_the_text() {
    let text = item("* Said <!-- check this --> it<ref>Smith, p. 1</ref> once");
    assert_eq!(text.text, "Said  it once");
    assert_eq!(span_kinds(&text), ["comment", "reference"]);
}

#[test]
fn decodes_entities() {
    assert_eq!(item("* a &ndash; b &amp; c &#38; d").text, "a – b & c & d");
}

#[test]
fn keeps_nowiki_content() {
    assert_eq!(item("* shows <nowiki>[[raw]]</nowiki> here").text, "shows [[raw]] here");
}

#[test]
fn fills_in_the_page_name() {
    assert_eq!(item("* About {{PAGENAME}} only").text, "About Thomas Paine only");
}

#[test]
fn keeps_the_source_wikitext() {
    let text = item("* Plain [[Foo]].");
    assert_eq!(text.wikitext, " Plain [[Foo]].");
}

#[test]
fn a_wikipedia_template_is_also_a_link() {
    let text = item("* By {{w|Nikola Tesla|Tesla}} today");
    assert_eq!(span_kinds(&text), ["link", "template"]);
    match &text.spans[0].kind {
        SpanKind::Link { target } => {
            assert_eq!(target.site, Site::Wikipedia);
            assert_eq!(target.title, "Nikola Tesla");
        }
        other => panic!("expected a link span, found {other:?}"),
    }
}

#[test]
fn a_comment_span_keeps_its_words() {
    let text = item("* Said <!-- check this --> it");
    match &text.spans[0].kind {
        SpanKind::Comment { text } => assert_eq!(text, "check this"),
        other => panic!("expected a comment span, found {other:?}"),
    }
}

#[test]
fn decodes_an_entity_on_its_own() {
    let chars = |s: &str| s.chars().collect::<Vec<char>>();
    assert_eq!(decode_entity(&chars("&#x2014;")), chars("\u{2014}"));
    assert_eq!(decode_entity(&chars("&ndash;")), chars("\u{2013}"));
    assert_eq!(decode_entity(&chars("&nosuchthing;")), chars("&nosuchthing;"));
}

#[test]
fn splits_a_link_target() {
    let target = page_ref("  w:de:Berlin#Mitte ");
    assert_eq!(target.site, Site::Wikipedia);
    assert_eq!(target.lang, "de");
    assert_eq!(target.title, "Berlin");
    assert_eq!(target.fragment.as_deref(), Some("Mitte"));
}
