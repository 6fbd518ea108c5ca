use wikiquotes_structured::dump::RawPage;
use wikiquotes_structured::model::Document;
use wikiquotes_structured::normalize::quotes;
use wikiquotes_structured::parse::DocumentBuilder;
use wikiquotes_structured::report::{
    bump, collect_headings, unnamed_headings, Counter, PageTally, QuoteTally,
};

const PAGE: &str = r#"'''Someone''' said things.

== Quotes ==
* One.
** p. 3

== Other ==
* Two.

=== Other ===
* Three.

== Discourse to the Theophilanthropists ==
* Four.

[[Category:Living people]]
"#;

fn document() -> Document {
    let page = RawPage {
        title: "Someone".to_string(),
        page_id: 1,
        namespace: 0,
        redirect_to: None,
        revision_id: 2,
        timestamp: String::new(),
        text: PAGE.to_string(),
    };
    DocumentBuilder::new().build(&page, "en")
}

fn names(entries: &[(String, u64)]) -> Vec<(&str, u64)> {
    entries.iter().map(|(k, v)| (k.as_str(), *v)).collect()
}

#[test]
fn bump_keeps_one_entry_per_name_in_name_order() {
    let mut counts: Vec<(String, u64)> = Vec::new();
    for key in ["b", "a", "b", "c", "b"] {
        let chars: Vec<char> = key.chars().collect();
        bump(&mut counts, &chars);
    }
    assert_eq!(names(&counts), [("a", 1), ("b", 3), ("c", 1)]);
}

#[test]
fn bump_wraps_at_the_top_of_u64() {
    let mut counts = vec![("a".to_string(), u64::MAX)];
    bump(&mut counts, &vec!['a']);
    assert_eq!(names(&counts), [("a", 0)]);
}

#[test]
fn collects_the_headings_no_rule_could_name() {
    let document = document();
    let mut headings: Vec<(String, u64)> = Vec::new();
    collect_headings(&document.sections, &mut headings);
    assert_eq!(
        names(&headings),
        [("Discourse to the Theophilanthropists", 1), ("Other", 2)]
    );
}

#[test]
fn ranks_the_headings_most_common_first() {
    let headings = vec![
        ("b".to_string(), 1),
        ("a".to_string(), 1),
        ("c".to_string(), 5),
        ("d".to_string(), 2),
    ];
    let ranked: Vec<(String, u64)> = unnamed_headings(&headings)
        .into_iter()
        .map(|c| (c.heading, c.sections))
        .collect();
    assert_eq!(names(&ranked), [("c", 5), ("d", 2), ("a", 1), ("b", 1)]);
}

#[test]
fn keeps_at_most_forty_headings() {
    let headings: Vec<(String, u64)> =
        (0..45u64).map(|i| (format!("h{i:02}"), i)).collect();
    let ranked = unnamed_headings(&headings);
    assert_eq!(ranked.len(), 40);
    assert_eq!(ranked[0].heading, "h44");
    assert_eq!(ranked[0].sections, 44);
    assert_eq!(ranked[39].heading, "h05");
}

#[test]
fn tallies_a_page() {
    let document = document();
    let mut tally = PageTally::new();
    tally.add(&document);
    tally.add(&document);
    assert_eq!(tally.total, 2);
    assert_eq!(names(&tally.by_type), [("person", 2)]);
    assert_eq!(tally.error_nodes, 2 * u64::from(document.parse.error_nodes));
    assert_eq!(tally.source_lines, 2 * u64::from(document.parse.source_lines));
    assert_eq!(
        tally.unassigned_lines,
        2 * u64::from(document.parse.unassigned_lines)
    );
    assert_eq!(
        names(&tally.headings),
        [("Discourse to the Theophilanthropists", 2), ("Other", 4)]
    );
}

#[test]
fn counts_what_the_rules_filled_in() {
    let records = quotes(&document());
    assert_eq!(records.len(), 4);
    let mut counter = Counter::new();
    for record in &records {
        counter.add(record);
    }
    assert_eq!(counter.quotes, 4);
    assert_eq!(counter.speaker, 4);
    assert_eq!(counter.source, 1);
    assert_eq!(counter.complete, 0);
    assert_eq!(counter.work, 0);
    assert_eq!(counter.date, 0);
    assert_eq!(counter.unparsed, 0);
}

#[test]
fn tallies_the_records_by_kind_status_and_page_type() {
    let records = quotes(&document());
    let mut tally = QuoteTally::new();
    for record in &records {
        tally.add(record);
    }
    assert_eq!(tally.total, 4);
    assert_eq!(names(&tally.by_kind), [("monologue", 4)]);
    assert_eq!(names(&tally.by_status), [("unsourced", 4)]);
    assert_eq!(tally.by_page_type.len(), 1);
    assert_eq!(tally.by_page_type[0].0, "person");
    assert_eq!(tally.by_page_type[0].1.quotes, 4);
    assert_eq!(tally.by_page_type[0].1.source, 1);
    assert_eq!(tally.overall.quotes, 4);
    assert_eq!(tally.overall.speaker, 4);
}
