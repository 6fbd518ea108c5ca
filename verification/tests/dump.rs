use quick_xml::events::Event;
use quick_xml::{Reader, XmlVersion};
use wikiquotes_structured::dump::{resolve_entity, DumpState, DumpStep, RawPage, XmlEvent};

const SAMPLE: &str = r#"<mediawiki xmlns="http://www.mediawiki.org/xml/export-0.11/">
  <siteinfo><sitename>Wikiquote</sitename></siteinfo>
  <page>
    <title>Harry S Truman</title>
    <ns>0</ns>
    <id>26</id>
    <redirect title="Harry S. Truman" />
    <revision>
      <id>69978</id>
      <timestamp>2003-07-11T12:28:31Z</timestamp>
      <contributor><username>Nanobug</username><id>13</id></contributor>
      <text bytes="29">#REDIRECT [[Harry_S._Truman]]</text>
    </revision>
  </page>
  <page>
    <title>Talk:Something</title>
    <ns>1</ns>
    <id>27</id>
    <revision>
      <id>70000</id>
      <timestamp>2004-01-01T00:00:00Z</timestamp>
      <contributor><id>99</id></contributor>
      <text>* A quote with &lt;ref&gt; and &amp;amp; in it</text>
    </revision>
  </page>
</mediawiki>"#;

/// Feeds every XML event of `xml` to the reader state and keeps the pages.
fn read_all_of(xml: &str) -> Vec<RawPage> {
    let mut reader = Reader::from_str(xml);
    reader.config_mut().trim_text(false);
    let mut state = DumpState::new();
    let mut pages = Vec::new();
    loop {
        let event = match reader.read_event().expect("well-formed XML") {
            Event::Start(e) => XmlEvent::Start(e.name().local_name().into_inner().to_string()),
            Event::Empty(e) => XmlEvent::Empty {
                name: e.name().local_name().into_inner().to_string(),
                attrs: e
                    .attributes()
                    .map(|a| {
                        let a = a.ok()?;
                        let value = a.normalized_value(XmlVersion::Explicit1_0).ok()?;
                        Some((a.key.local_name().into_inner().to_string(), value.into_owned()))
                    })
                    .collect(),
            },
            Event::Text(e) => XmlEvent::Text(e.xml10_content().into_owned()),
            Event::CData(e) => XmlEvent::Text(e.to_string()),
            Event::GeneralRef(e) => XmlEvent::Reference(e.to_string()),
            Event::End(e) => XmlEvent::End(e.name().local_name().into_inner().to_string()),
            Event::Eof => return pages,
            _ => continue,
        };
        match state.step(event) {
            DumpStep::Page(page) => pages.push(page),
            DumpStep::Continue => {}
            DumpStep::BadAttribute => panic!("a redirect attribute could not be read"),
        }
    }
}

fn read_all() -> Vec<RawPage> {
    read_all_of(SAMPLE)
}

#[test]
fn reads_both_pages() {
    assert_eq!(read_all().len(), 2);
}

#[test]
fn takes_the_page_id_not_the_contributor_id() {
    let pages = read_all();
    assert_eq!(pages[0].page_id, 26);
    assert_eq!(pages[0].revision_id, 69978);
    assert_eq!(pages[1].page_id, 27);
    assert_eq!(pages[1].revision_id, 70000);
}

#[test]
fn reads_the_redirect_element() {
    let pages = read_all();
    assert_eq!(pages[0].redirect_to.as_deref(), Some("Harry S. Truman"));
    assert_eq!(pages[1].redirect_to, None);
}

#[test]
fn resolves_entities() {
    assert_eq!(resolve_entity("lt"), "<");
    assert_eq!(resolve_entity("#38"), "&");
    assert_eq!(resolve_entity("#x2014"), "\u{2014}");
    assert_eq!(resolve_entity("ndash"), "&ndash;");
}

#[test]
fn unescapes_the_text() {
    let pages = read_all();
    assert_eq!(pages[1].text, "* A quote with <ref> and &amp; in it");
    assert_eq!(pages[1].namespace, 1);
    assert_eq!(pages[1].timestamp, "2004-01-01T00:00:00Z");
}

#[test]
fn the_path_below_the_page_names_the_field() {
    let mut state = DumpState::new();
    for name in ["mediawiki", "page", "revision", "text"] {
        state.step(XmlEvent::Start(name.to_string()));
    }
    assert_eq!(state.field(), "revision/text".chars().collect::<Vec<char>>());
    state.step(XmlEvent::End("text".to_string()));
    state.step(XmlEvent::End("revision".to_string()));
    assert!(state.field().is_empty());
}

#[test]
fn an_unreadable_redirect_attribute_is_an_error() {
    let mut state = DumpState::new();
    state.step(XmlEvent::Start("page".to_string()));
    let step = state.step(XmlEvent::Empty { name: "redirect".to_string(), attrs: vec![None] });
    assert!(matches!(step, DumpStep::BadAttribute));
    let other = state.step(XmlEvent::Empty { name: "minor".to_string(), attrs: vec![None] });
    assert!(matches!(other, DumpStep::Continue));
}

#[test]
fn a_bad_number_reads_as_zero() {
    let pages = read_all_of("<page><ns>x</ns><id>nine</id><revision><id>7</id></revision></page>");
    assert_eq!(pages[0].namespace, 0);
    assert_eq!(pages[0].page_id, 0);
    assert_eq!(pages[0].revision_id, 7);
}

#[test]
fn a_bad_redirect_attribute_keeps_the_titles_read_before_it() {
    let mut state = DumpState::new();
    assert!(matches!(state.step(XmlEvent::Start("page".to_string())), DumpStep::Continue));
    let step = state.step(XmlEvent::Empty {
        name: "redirect".to_string(),
        attrs: vec![Some(("title".to_string(), "Target".to_string())), None],
    });
    assert!(matches!(step, DumpStep::BadAttribute));
    match state.step(XmlEvent::End("page".to_string())) {
        DumpStep::Page(page) => assert_eq!(page.redirect_to.as_deref(), Some("Target")),
        _ => panic!("expected the page"),
    }
}
