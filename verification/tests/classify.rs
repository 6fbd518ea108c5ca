use wikiquotes_structured::classify::{classify, classify_lowered};
use wikiquotes_structured::model::{Document, PageType, ParseStats, TemplateRef};

fn page(categories: &[&str], templates: &[&str], title: &str) -> Document {
    Document {
        wiki_language: "en".into(),
        title: title.into(),
        page_id: 1,
        revision_id: 1,
        timestamp: String::new(),
        redirect_to: None,
        page_type: PageType::Unknown,
        page_type_evidence: Vec::new(),
        categories: categories.iter().map(|c| c.to_string()).collect(),
        templates: templates
            .iter()
            .map(|name| TemplateRef {
                name: name.to_string(),
                params: Vec::new(),
                wikitext: String::new(),
            })
            .collect(),
        interwiki: Vec::new(),
        lead: Vec::new(),
        sections: Vec::new(),
        parse: ParseStats::default(),
    }
}

fn kind_of(categories: &[&str], templates: &[&str], title: &str) -> PageType {
    classify(&page(categories, templates, title)).0
}

#[test]
fn reads_a_person_from_a_birth_or_death_category() {
    assert_eq!(kind_of(&["1737 births"], &[], "Thomas Paine"), PageType::Person);
    assert_eq!(kind_of(&["BCE deaths"], &[], "Socrates"), PageType::Person);
    assert_eq!(kind_of(&["Living people"], &[], "Someone"), PageType::Person);
}

#[test]
fn an_actor_is_a_person_not_a_film() {
    let kind = kind_of(&["2020 American films", "Living people"], &[], "Leah Lewis");
    assert_eq!(kind, PageType::Person);
}

#[test]
fn a_film_of_a_novel_is_a_film() {
    assert_eq!(
        kind_of(&["Films based on novels", "2020 American films"], &[], "The Half of It"),
        PageType::Film
    );
}

#[test]
fn reads_the_other_subject_kinds() {
    assert_eq!(kind_of(&["The Simpsons seasons"], &[], "S21"), PageType::TelevisionSeason);
    assert_eq!(kind_of(&["Cancelled shows"], &[], "Show"), PageType::TelevisionSeries);
    assert_eq!(kind_of(&["1990s video games"], &[], "Game"), PageType::VideoGame);
    assert_eq!(kind_of(&["Works by Alexander Pope"], &[], "The Dunciad"), PageType::LiteraryWork);
    assert_eq!(kind_of(&["Latin proverbs"], &[], "Proverb"), PageType::Proverbs);
    assert_eq!(kind_of(&["Themes"], &[], "Warmness"), PageType::Theme);
    assert_eq!(kind_of(&[], &[], "List of last words"), PageType::List);
}

#[test]
fn a_template_marks_a_disambiguation_or_a_placeholder() {
    assert_eq!(kind_of(&[], &["disambig"], "Smith"), PageType::Disambiguation);
    assert_eq!(kind_of(&[], &["year page placeholder"], "1903"), PageType::Placeholder);
}

#[test]
fn an_unknown_page_says_so_and_gives_no_evidence() {
    let (kind, evidence) = classify(&page(&["American bands"], &[], "Steely Dan"));
    assert_eq!(kind, PageType::Unknown);
    assert!(evidence.is_empty());
}

#[test]
fn keeps_the_reason_for_the_answer() {
    let (_, evidence) = classify(&page(&["1737 births"], &[], "Thomas Paine"));
    assert_eq!(evidence, ["category: 1737 births"]);
}

#[test]
fn a_template_wins_over_a_category() {
    let (kind, evidence) = classify(&page(&["Living people"], &["disambig"], "Smith"));
    assert_eq!(kind, PageType::Disambiguation);
    assert_eq!(evidence, ["template: disambig"]);
}

#[test]
fn a_list_title_is_a_list_whatever_its_case() {
    let (kind, evidence) = classify(&page(&[], &[], "Lists of proverbs"));
    assert_eq!(kind, PageType::List);
    assert_eq!(evidence, ["title: Lists of proverbs"]);
}

#[test]
fn classifies_from_the_lowercased_categories_and_title() {
    let d = page(&["1737 Births"], &[], "Thomas Paine");
    let cats = vec!["1737 births".chars().collect::<Vec<char>>()];
    let title: Vec<char> = "thomas paine".chars().collect();
    let (kind, evidence) = classify_lowered(&d, &cats, &title);
    assert_eq!(kind, PageType::Person);
    assert_eq!(evidence, ["category: 1737 births"]);
    let d = page(&[], &[], "Lists of proverbs");
    let title: Vec<char> = "lists of proverbs".chars().collect();
    let (kind, evidence) = classify_lowered(&d, &Vec::new(), &title);
    assert_eq!(kind, PageType::List);
    assert_eq!(evidence, ["title: Lists of proverbs"]);
}
