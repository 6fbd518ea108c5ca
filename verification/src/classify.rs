//! Decides what a page is about.
//!
//! The signal is the category list, which is the only thing on a Wikiquote page
//! that says what kind of subject it has. `Unknown` is a normal answer, not a
//! failure.

use vstd::prelude::*;
use crate::model::{Block, Document, PageType};
use crate::text::{
    append, append_lit, chars_of, contains, contains_lit, ends_with, ends_with_lit, eq_lit, lower,
    lowercase, rfind_char, views, rfind_char_exec, slice_of, starts_with, starts_with_lit, string_of,
};

verus! {

/// The text after the last space of a category (all of it if it has none).
pub open spec fn last_word(c: Seq<char>) -> Seq<char> {
    match rfind_char(c, ' ') {
        Some(k) => c.skip(k + 1),
        None => c,
    }
}

/// The category tests, in the order they are tried. Order matters: an actor
/// page carries film categories, and a page about a film based on a novel
/// carries both, so the more specific subject comes first.
pub open spec fn category_test(rule: int, c: Seq<char>) -> bool {
    if rule == 2 {
        c == "living people"@ || ends_with(c, " births"@) || ends_with(c, " deaths"@)
    } else if rule == 3 {
        ends_with(c, " seasons"@)
    } else if rule == 4 {
        ends_with(c, " film"@) || ends_with(c, " films"@)
    } else if rule == 5 {
        c == "cancelled shows"@ || contains(c, "television series"@) || contains(
            c,
            "television programs"@,
        ) || contains(c, "web series"@) || contains(c, "anime"@)
    } else if rule == 6 {
        contains(c, "video games"@)
    } else if rule == 7 {
        ends_with(c, " songs"@) || ends_with(c, " albums"@)
    } else if rule == 8 {
        let w = last_word(c);
        starts_with(c, "works by"@) || w == "novels"@ || w == "books"@ || w == "plays"@ || w
            == "poems"@ || w == "essays"@ || w == "stories"@ || w == "works"@
    } else if rule == 9 {
        contains(c, "proverbs"@)
    } else {
        c == "themes"@ || c == "virtues"@ || c == "emotions"@
    }
}

fn category_test_exec(rule: u8, c: &Vec<char>) -> (r: bool)
    requires
        2 <= rule <= 10,
    ensures
        r == category_test(rule as int, c@),
{
    if rule == 2 {
        eq_lit(c, "living people") || ends_with_lit(c, " births") || ends_with_lit(c, " deaths")
    } else if rule == 3 {
        ends_with_lit(c, " seasons")
    } else if rule == 4 {
        ends_with_lit(c, " film") || ends_with_lit(c, " films")
    } else if rule == 5 {
        eq_lit(c, "cancelled shows") || contains_lit(c, "television series") || contains_lit(
            c,
            "television programs",
        ) || contains_lit(c, "web series") || contains_lit(c, "anime")
    } else if rule == 6 {
        contains_lit(c, "video games")
    } else if rule == 7 {
        ends_with_lit(c, " songs") || ends_with_lit(c, " albums")
    } else if rule == 8 {
        let w = match rfind_char_exec(c, ' ') {
            Some(k) => slice_of(c, k + 1, c.len()),
            None => slice_of(c, 0, c.len()),
        };
        assert(c@.subrange(0, c@.len() as int) =~= c@);
        starts_with_lit(c, "works by") || eq_lit(&w, "novels") || eq_lit(&w, "books") || eq_lit(&w, "plays")
            || eq_lit(&w, "poems") || eq_lit(&w, "essays") || eq_lit(&w, "stories") || eq_lit(&w, "works")
    } else if rule == 9 {
        contains_lit(c, "proverbs")
    } else {
        eq_lit(c, "themes") || eq_lit(c, "virtues") || eq_lit(c, "emotions")
    }
}

/// The first entry at or after `i` that passes a category test.
pub open spec fn first_category(cats: Seq<Seq<char>>, rule: int, i: int) -> Option<int>
    decreases cats.len() - i,
{
    if i < 0 || i >= cats.len() {
        None
    } else if category_test(rule, cats[i]) {
        Some(i)
    } else {
        first_category(cats, rule, i + 1)
    }
}

proof fn lemma_first_category(cats: Seq<Seq<char>>, rule: int, i: int)
    requires
        0 <= i,
    ensures
        first_category(cats, rule, i) matches Some(k) ==> i <= k < cats.len(),
    decreases cats.len() - i,
{
    if i < cats.len() && !category_test(rule, cats[i]) {
        lemma_first_category(cats, rule, i + 1);
    }
}

/// A template name marks the page: a disambiguation page (rule 0) or a year
/// placeholder (rule 1).
pub open spec fn template_test(rule: int, t: Seq<char>) -> bool {
    if rule == 0 {
        t == "disambig"@ || t == "disambiguation"@ || t == "hndis"@
    } else {
        t == "year page placeholder"@
    }
}

pub open spec fn first_template(names: Seq<Seq<char>>, rule: int, i: int) -> Option<int>
    decreases names.len() - i,
{
    if i < 0 || i >= names.len() {
        None
    } else if template_test(rule, names[i]) {
        Some(i)
    } else {
        first_template(names, rule, i + 1)
    }
}

proof fn lemma_first_template(names: Seq<Seq<char>>, rule: int, i: int)
    requires
        0 <= i,
    ensures
        first_template(names, rule, i) matches Some(k) ==> i <= k < names.len(),
    decreases names.len() - i,
{
    if i < names.len() && !template_test(rule, names[i]) {
        lemma_first_template(names, rule, i + 1);
    }
}

/// The names of the templates that stand alone in the lead.
pub open spec fn lead_template_names(lead: Seq<Block>) -> Seq<Seq<char>>
    decreases lead.len(),
{
    if lead.len() == 0 {
        Seq::empty()
    } else {
        let rest = lead_template_names(lead.drop_last());
        match lead.last() {
            Block::Template(t) => rest.push(t.name@),
            _ => rest,
        }
    }
}

/// Template names from the lead, then the page-level templates.
pub open spec fn template_names(d: Document) -> Seq<Seq<char>> {
    lead_template_names(d.lead@) + d.templates@.map_values(|t: crate::model::TemplateRef| t.name@)
}

/// The categories, lowercase.
pub open spec fn lower_categories(d: Document) -> Seq<Seq<char>> {
    d.categories@.map_values(|c: String| lowercase(c@))
}

/// The page type, and the words that say which category, template or title
/// decided it.
pub open spec fn classify_spec(d: Document) -> (PageType, Seq<Seq<char>>) {
    classify_lowered_spec(d, lower_categories(d), lowercase(d.title@))
}

/// The page type and its evidence, given the categories and the title
/// already lowercased.
pub open spec fn classify_lowered_spec(
    d: Document,
    cats: Seq<Seq<char>>,
    lower_title: Seq<char>,
) -> (PageType, Seq<Seq<char>>) {
    let names = template_names(d);
    if first_template(names, 0, 0) is Some {
        (PageType::Disambiguation, seq!["template: "@ + names[first_template(names, 0, 0)->0]])
    } else if first_template(names, 1, 0) is Some {
        (PageType::Placeholder, seq!["template: "@ + names[first_template(names, 1, 0)->0]])
    } else if first_category(cats, 2, 0) is Some {
        (PageType::Person, seq!["category: "@ + cats[first_category(cats, 2, 0)->0]])
    } else if first_category(cats, 3, 0) is Some {
        (PageType::TelevisionSeason, seq!["category: "@ + cats[first_category(cats, 3, 0)->0]])
    } else if first_category(cats, 4, 0) is Some {
        (PageType::Film, seq!["category: "@ + cats[first_category(cats, 4, 0)->0]])
    } else if first_category(cats, 5, 0) is Some {
        (PageType::TelevisionSeries, seq!["category: "@ + cats[first_category(cats, 5, 0)->0]])
    } else if first_category(cats, 6, 0) is Some {
        (PageType::VideoGame, seq!["category: "@ + cats[first_category(cats, 6, 0)->0]])
    } else if first_category(cats, 7, 0) is Some {
        (PageType::MusicalWork, seq!["category: "@ + cats[first_category(cats, 7, 0)->0]])
    } else if first_category(cats, 8, 0) is Some {
        (PageType::LiteraryWork, seq!["category: "@ + cats[first_category(cats, 8, 0)->0]])
    } else if first_category(cats, 9, 0) is Some {
        (PageType::Proverbs, seq!["category: "@ + cats[first_category(cats, 9, 0)->0]])
    } else if first_category(cats, 10, 0) is Some {
        (PageType::Theme, seq!["category: "@ + cats[first_category(cats, 10, 0)->0]])
    } else if starts_with(lower_title, "list of"@) || starts_with(lower_title, "lists of"@) {
        (PageType::List, seq!["title: "@ + d.title@])
    } else {
        (PageType::Unknown, Seq::empty())
    }
}

fn template_names_exec(d: &Document) -> (r: Vec<Vec<char>>)
    ensures
        views(r@) == template_names(*d),
{
    let mut r: Vec<Vec<char>> = Vec::new();
    let mut i: usize = 0;
    assert(d.lead@.take(0) =~= Seq::<Block>::empty());
    while i < d.lead.len()
        invariant
            i <= d.lead.len(),
            views(r@) == lead_template_names(d.lead@.take(i as int)),
        decreases d.lead.len() - i,
    {
        assert(d.lead@.take(i + 1).drop_last() =~= d.lead@.take(i as int));
        match &d.lead[i] {
            Block::Template(t) => {
                let ghost before = r@;
                r.push(chars_of(t.name.as_str()));
                assert(views(r@) =~= views(before).push(t.name@));
            },
            _ => {},
        }
        i = i + 1;
    }
    assert(d.lead@.take(d.lead.len() as int) =~= d.lead@);
    let ghost lead_names = views(r@);
    let mut j: usize = 0;
    while j < d.templates.len()
        invariant
            j <= d.templates.len(),
            views(r@) =~= lead_names + d.templates@.take(j as int).map_values(
                |t: crate::model::TemplateRef| t.name@,
            ),
        decreases d.templates.len() - j,
    {
        let ghost before = r@;
        r.push(chars_of(d.templates[j].name.as_str()));
        assert(views(r@) =~= views(before).push(d.templates@[j as int].name@));
        assert(d.templates@.take(j + 1).map_values(|t: crate::model::TemplateRef| t.name@)
            =~= d.templates@.take(j as int).map_values(|t: crate::model::TemplateRef| t.name@).push(
            d.templates@[j as int].name@,
        ));
        j = j + 1;
    }
    assert(d.templates@.take(d.templates.len() as int) =~= d.templates@);
    r
}

fn lower_categories_exec(d: &Document) -> (r: Vec<Vec<char>>)
    ensures
        views(r@) == lower_categories(*d),
{
    let mut r: Vec<Vec<char>> = Vec::new();
    let mut i: usize = 0;
    while i < d.categories.len()
        invariant
            i <= d.categories.len(),
            views(r@) =~= d.categories@.take(i as int).map_values(|c: String| lowercase(c@)),
        decreases d.categories.len() - i,
    {
        let c = chars_of(d.categories[i].as_str());
        let ghost before = r@;
        r.push(lower(&c));
        assert(views(r@) =~= views(before).push(lowercase(d.categories@[i as int]@)));
        assert(d.categories@.take(i + 1).map_values(|c: String| lowercase(c@))
            =~= d.categories@.take(i as int).map_values(|c: String| lowercase(c@)).push(
            lowercase(d.categories@[i as int]@),
        ));
        i = i + 1;
    }
    assert(d.categories@.take(d.categories.len() as int) =~= d.categories@);
    r
}

fn find_category(cats: &Vec<Vec<char>>, rule: u8) -> (r: Option<usize>)
    requires
        2 <= rule <= 10,
    ensures
        match r {
            Some(k) => first_category(views(cats@), rule as int, 0) == Some(k as int) && k
                < cats.len(),
            None => first_category(views(cats@), rule as int, 0) is None,
        },
{
    let mut i: usize = 0;
    while i < cats.len()
        invariant
            2 <= rule <= 10,
            i <= cats.len(),
            first_category(views(cats@), rule as int, i as int) == first_category(
                views(cats@),
                rule as int,
                0,
            ),
        decreases cats.len() - i,
    {
        if category_test_exec(rule, &cats[i]) {
            return Some(i);
        }
        i = i + 1;
    }
    None
}

fn find_template(names: &Vec<Vec<char>>, rule: u8) -> (r: Option<usize>)
    requires
        rule <= 1,
    ensures
        match r {
            Some(k) => first_template(views(names@), rule as int, 0) == Some(k as int) && k
                < names.len(),
            None => first_template(views(names@), rule as int, 0) is None,
        },
{
    let mut i: usize = 0;
    while i < names.len()
        invariant
            rule <= 1,
            i <= names.len(),
            first_template(views(names@), rule as int, i as int) == first_template(
                views(names@),
                rule as int,
                0,
            ),
        decreases names.len() - i,
    {
        let t = &names[i];
        let hit = if rule == 0 {
            eq_lit(t, "disambig") || eq_lit(t, "disambiguation") || eq_lit(t, "hndis")
        } else {
            eq_lit(t, "year page placeholder")
        };
        if hit {
            return Some(i);
        }
        i = i + 1;
    }
    None
}

/// `prefix` followed by `body`, as a `String`.
fn labelled(prefix: &str, body: &Vec<char>) -> (r: String)
    ensures
        r@ == prefix@ + body@,
{
    let mut v = chars_of(prefix);
    append(&mut v, body);
    string_of(&v)
}

/// Returns the page type and the category or template that decided it.
pub fn classify(document: &Document) -> (r: (PageType, Vec<String>))
    ensures
        r.0 == classify_spec(*document).0,
        r.1.deep_view() == classify_spec(*document).1,
{
    let cats = lower_categories_exec(document);
    let title = chars_of(document.title.as_str());
    let lt = lower(&title);
    classify_lowered(document, &cats, &lt)
}

/// The page type and its evidence from the categories and the title as
/// `classify` reads them once they are lowercased.
pub fn classify_lowered(document: &Document, cats: &Vec<Vec<char>>, lower_title: &Vec<char>) -> (r: (
    PageType,
    Vec<String>,
))
    ensures
        r.0 == classify_lowered_spec(*document, views(cats@), lower_title@).0,
        r.1.deep_view() == classify_lowered_spec(*document, views(cats@), lower_title@).1,
{
    let names = template_names_exec(document);
    let mut evidence: Vec<String> = Vec::new();
    if let Some(k) = find_template(&names, 0) {
        evidence.push(labelled("template: ", &names[k]));
        assert(evidence.deep_view() =~= seq!["template: "@ + views(names@)[k as int]]);
        return (PageType::Disambiguation, evidence);
    }
    if let Some(k) = find_template(&names, 1) {
        evidence.push(labelled("template: ", &names[k]));
        assert(evidence.deep_view() =~= seq!["template: "@ + views(names@)[k as int]]);
        return (PageType::Placeholder, evidence);
    }
    let mut rule: u8 = 2;
    while rule <= 10
        invariant
            2 <= rule <= 11,
            evidence@.len() == 0,
            views(names@) == template_names(*document),
            first_template(views(names@), 0, 0) is None,
            first_template(views(names@), 1, 0) is None,
            forall|q: int| 2 <= q < rule ==> first_category(views(cats@), q, 0) is None,
        decreases 11 - rule,
    {
        if let Some(k) = find_category(&cats, rule) {
            evidence.push(labelled("category: ", &cats[k]));
            assert(evidence.deep_view() =~= seq!["category: "@ + views(cats@)[k as int]]);
            let t = if rule == 2 {
                PageType::Person
            } else if rule == 3 {
                PageType::TelevisionSeason
            } else if rule == 4 {
                PageType::Film
            } else if rule == 5 {
                PageType::TelevisionSeries
            } else if rule == 6 {
                PageType::VideoGame
            } else if rule == 7 {
                PageType::MusicalWork
            } else if rule == 8 {
                PageType::LiteraryWork
            } else if rule == 9 {
                PageType::Proverbs
            } else {
                PageType::Theme
            };
            return (t, evidence);
        }
        rule = rule + 1;
    }
    let title = chars_of(document.title.as_str());
    if starts_with_lit(lower_title, "list of") || starts_with_lit(lower_title, "lists of") {
        evidence.push(labelled("title: ", &title));
        assert(evidence.deep_view() =~= seq!["title: "@ + document.title@]);
        return (PageType::List, evidence);
    }
    assert(evidence.deep_view() =~= Seq::<Seq<char>>::empty());
    (PageType::Unknown, evidence)
}

/// `Unknown` is the one answer that gives no evidence; every other page type
/// names the category, template or title that decided it.
pub proof fn law_unknown_is_the_only_answer_without_evidence(d: Document)
    ensures
        (classify_spec(d).0 == PageType::Unknown) <==> classify_spec(d).1.len() == 0,
        classify_spec(d).1.len() <= 1,
{
}

proof fn lemma_first_template_finds_any(names: Seq<Seq<char>>, rule: int, i: int)
    requires
        0 <= i,
    ensures
        first_template(names, rule, i) is Some <==> exists|k: int| i <= k < names.len()
            && template_test(rule, #[trigger] names[k]),
    decreases names.len() - i,
{
    if i < names.len() {
        lemma_first_template_finds_any(names, rule, i + 1);
        if !template_test(rule, names[i]) && first_template(names, rule, i + 1) is None {
            assert forall|k: int| i <= k < names.len() implies !template_test(
                rule,
                #[trigger] names[k],
            ) by {
                if k > i {
                }
            }
        }
    }
}

proof fn lemma_first_category_finds_any(cats: Seq<Seq<char>>, rule: int, i: int)
    requires
        0 <= i,
    ensures
        first_category(cats, rule, i) is Some <==> exists|k: int| i <= k < cats.len()
            && category_test(rule, #[trigger] cats[k]),
        first_category(cats, rule, i) matches Some(k) ==> i <= k < cats.len() && category_test(
            rule,
            cats[k],
        ) && forall|j: int| i <= j < k ==> !category_test(rule, #[trigger] cats[j]),
    decreases cats.len() - i,
{
    if i < cats.len() {
        lemma_first_category_finds_any(cats, rule, i + 1);
        if !category_test(rule, cats[i]) && first_category(cats, rule, i + 1) is None {
            assert forall|k: int| i <= k < cats.len() implies !category_test(
                rule,
                #[trigger] cats[k],
            ) by {
                if k > i {
                }
            }
        }
    }
}

/// A template that marks a disambiguation page.
pub open spec fn marks_disambiguation(t: Seq<char>) -> bool {
    t == "disambig"@ || t == "disambiguation"@ || t == "hndis"@
}

/// A lowercased category that says the page is about a person.
pub open spec fn names_a_person(c: Seq<char>) -> bool {
    c == "living people"@ || ends_with(c, " births"@) || ends_with(c, " deaths"@)
}

/// What decides a page type first: a disambiguation template makes a
/// disambiguation page whatever the categories say; then the placeholder
/// template a placeholder; then a category of births, deaths or living
/// people makes a person, named by the first such category; and a page that
/// no template or category decides, whose lowercased title starts with
/// "list of" or "lists of", is a list named by its title.
pub proof fn law_the_strongest_evidence_decides_the_page_type(
    d: Document,
    cats: Seq<Seq<char>>,
    lower_title: Seq<char>,
)
    ensures
        (exists|k: int| 0 <= k < template_names(d).len() && marks_disambiguation(
            #[trigger] template_names(d)[k],
        )) ==> classify_lowered_spec(d, cats, lower_title).0 == PageType::Disambiguation,
        !(exists|k: int| 0 <= k < template_names(d).len() && marks_disambiguation(
            #[trigger] template_names(d)[k],
        )) && (exists|k: int| 0 <= k < template_names(d).len() && #[trigger] template_names(d)[k]
            == "year page placeholder"@) ==> classify_lowered_spec(d, cats, lower_title).0
            == PageType::Placeholder,
        !(exists|k: int| 0 <= k < template_names(d).len() && (marks_disambiguation(
            #[trigger] template_names(d)[k],
        ) || template_names(d)[k] == "year page placeholder"@)) ==> (forall|k: int|
            0 <= k < cats.len() && names_a_person(#[trigger] cats[k]) && (forall|j: int|
                0 <= j < k ==> !names_a_person(#[trigger] cats[j])) ==> classify_lowered_spec(
                d,
                cats,
                lower_title,
            ) == (PageType::Person, seq!["category: "@ + cats[k]])),
        !(exists|k: int| 0 <= k < template_names(d).len() && (marks_disambiguation(
            #[trigger] template_names(d)[k],
        ) || template_names(d)[k] == "year page placeholder"@)) && (forall|r: int, k: int|
            2 <= r <= 10 && 0 <= k < cats.len() ==> !#[trigger] category_test(r, cats[k])) && (
        starts_with(lower_title, "list of"@) || starts_with(lower_title, "lists of"@))
            ==> classify_lowered_spec(d, cats, lower_title) == (
            PageType::List,
            seq!["title: "@ + d.title@],
        ),
{
    let names = template_names(d);
    lemma_first_template_finds_any(names, 0, 0);
    lemma_first_template_finds_any(names, 1, 0);
    lemma_first_category_finds_any(cats, 2, 0);
    lemma_first_category_finds_any(cats, 3, 0);
    lemma_first_category_finds_any(cats, 4, 0);
    lemma_first_category_finds_any(cats, 5, 0);
    lemma_first_category_finds_any(cats, 6, 0);
    lemma_first_category_finds_any(cats, 7, 0);
    lemma_first_category_finds_any(cats, 8, 0);
    lemma_first_category_finds_any(cats, 9, 0);
    lemma_first_category_finds_any(cats, 10, 0);
    assert forall|k: int|
        0 <= k < names.len() && template_test(1, #[trigger] names[k]) implies names[k]
        == "year page placeholder"@ by {
    }
    assert forall|k: int|
        0 <= k < names.len() && template_test(0, #[trigger] names[k]) implies marks_disambiguation(
        names[k],
    ) by {
    }
    if first_category(cats, 2, 0) is Some {
        let f = first_category(cats, 2, 0)->0;
        assert forall|k: int|
            0 <= k < cats.len() && names_a_person(#[trigger] cats[k]) && (forall|j: int|
                0 <= j < k ==> !names_a_person(#[trigger] cats[j])) implies k == f by {
            if k < f {
                assert(category_test(2, cats[k]));
            }
            if f < k {
                assert(!names_a_person(cats[f]));
            }
        }
    }
    assert forall|k: int| 0 <= k < cats.len() && names_a_person(#[trigger] cats[k]) implies category_test(
        2,
        cats[k],
    ) by {
    }
}

} // verus!
