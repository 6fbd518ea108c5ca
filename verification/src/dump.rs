//! Reading a MediaWiki XML export, one `<page>` at a time.
//!
//! The export is one big file, so it is read as a stream of XML events and
//! never held in memory. Only the fields the pipeline needs are kept. The
//! reader hands each event to `DumpState::step`, which decides what it means
//! for the page being read.

use vstd::prelude::*;
use crate::number::{parse_i32, parse_i32_spec, parse_u32, parse_unsigned};
use crate::text::{append, chars_of, eq_lit, join, join_exec, string_of, trim, trim_exec, views};
use crate::wikitext::{numeric_char, numeric_char_exec};

verus! {

/// One `<page>` of the export, before any wikitext parsing.
#[derive(Debug, Default, Clone)]
pub struct RawPage {
    pub title: String,
    pub page_id: u32,
    pub namespace: i32,
    /// From the `<redirect title="…"/>` element, which is authoritative.
    pub redirect_to: Option<String>,
    pub revision_id: u32,
    pub timestamp: String,
    pub text: String,
}

/// `RawPage` with its text as characters.
pub struct RawPageV {
    pub title: Seq<char>,
    pub page_id: u32,
    pub namespace: i32,
    pub redirect_to: Option<Seq<char>>,
    pub revision_id: u32,
    pub timestamp: Seq<char>,
    pub text: Seq<char>,
}

impl View for RawPage {
    type V = RawPageV;

    open spec fn view(&self) -> RawPageV {
        RawPageV {
            title: self.title@,
            page_id: self.page_id,
            namespace: self.namespace,
            redirect_to: self.redirect_to.deep_view(),
            revision_id: self.revision_id,
            timestamp: self.timestamp@,
            text: self.text@,
        }
    }
}

/// A page with nothing read yet.
pub open spec fn empty_page() -> RawPageV {
    RawPageV {
        title: Seq::empty(),
        page_id: 0,
        namespace: 0,
        redirect_to: None,
        revision_id: 0,
        timestamp: Seq::empty(),
        text: Seq::empty(),
    }
}

/// The XML events the reader passes on: element names are local names.
pub enum XmlEvent {
    Start(String),
    /// An empty element and its attributes, as key and value. `None` stands
    /// for an attribute the XML reader could not read.
    Empty { name: String, attrs: Vec<Option<(String, String)>> },
    /// Text or CDATA content, already unescaped.
    Text(String),
    /// A reference such as `&lt;`, by the name between `&` and `;`.
    Reference(String),
    End(String),
}

/// What one event means for the reader.
pub enum DumpStep {
    /// Nothing to hand out yet.
    Continue,
    /// A `</page>` closed a page.
    Page(RawPage),
    /// A `<redirect>` element had an attribute that could not be read.
    BadAttribute,
}

// --- entities ---------------------------------------------------------------

/// The five entities XML defines.
pub open spec fn xml_entity(name: Seq<char>) -> Option<Seq<char>> {
    if name == "lt"@ {
        Some("<"@)
    } else if name == "gt"@ {
        Some(">"@)
    } else if name == "amp"@ {
        Some("&"@)
    } else if name == "apos"@ {
        Some("'"@)
    } else if name == "quot"@ {
        Some("\""@)
    } else {
        None
    }
}

/// `quick_xml::escape::resolve_xml_entity`: the text of `lt`, `gt`, `amp`,
/// `apos` and `quot`, and nothing for any other name.
#[verifier::external_body]
fn resolve_xml_entity(name: &str) -> (r: Option<String>)
    ensures
        r.deep_view() == xml_entity(name@),
{
    quick_xml::escape::resolve_xml_entity(name).map(|s| s.to_string())
}

/// The text a reference stands for: a character reference such as `#38`
/// or `#x2014`, or one of the entities XML defines. Any other name is kept
/// as written, so nothing is silently lost.
pub open spec fn resolve_entity_spec(name: Seq<char>) -> Seq<char> {
    match numeric_char(name) {
        Some(c) => seq![c],
        None => match xml_entity(name) {
            Some(t) => t,
            None => "&"@ + name + ";"@,
        },
    }
}

/// Turns the body of `&…;` into the text it stands for.
pub fn resolve_entity(name: &str) -> (r: String)
    ensures
        r@ == resolve_entity_spec(name@),
{
    let n = chars_of(name);
    if let Some(c) = numeric_char_exec(&n) {
        let mut v: Vec<char> = Vec::new();
        v.push(c);
        assert(v@ =~= seq![c]);
        return string_of(&v);
    }
    match resolve_xml_entity(name) {
        Some(t) => t,
        None => {
            let mut v = chars_of("&");
            append(&mut v, &n);
            crate::text::append_lit(&mut v, ";");
            string_of(&v)
        },
    }
}

// --- the reader's state -----------------------------------------------------

/// Element names from `<mediawiki>` down to the current element, and the
/// page being read. The path tells `<id>` inside `<page>` apart from `<id>`
/// inside `<contributor>`.
pub struct DumpState {
    pub path: Vec<String>,
    pub page: Option<RawPage>,
}

pub struct DumpV {
    pub path: Seq<Seq<char>>,
    pub page: Option<RawPageV>,
}

impl View for DumpState {
    type V = DumpV;

    open spec fn view(&self) -> DumpV {
        DumpV {
            path: self.path.deep_view(),
            page: match self.page {
                Some(p) => Some(p@),
                None => None,
            },
        }
    }
}

pub open spec fn page_index_from(path: Seq<Seq<char>>, i: int) -> Option<int>
    decreases path.len() - i,
{
    if i < 0 || i >= path.len() {
        None
    } else if path[i] == "page"@ {
        Some(i)
    } else {
        page_index_from(path, i + 1)
    }
}

/// The path below `<page>`, joined with `/`; empty outside a page.
pub open spec fn field_spec(path: Seq<Seq<char>>) -> Seq<char> {
    match page_index_from(path, 0) {
        Some(i) => join(path.subrange(i + 1, path.len() as int), "/"@),
        None => Seq::empty(),
    }
}

/// What a piece of text does to the page, by the field it stands in. A page
/// holds several `<id>` elements; the first of each kind is kept.
pub open spec fn text_spec(p: RawPageV, field: Seq<char>, text: Seq<char>) -> RawPageV {
    if field == "title"@ {
        RawPageV { title: p.title + text, ..p }
    } else if field == "ns"@ {
        RawPageV {
            namespace: match parse_i32_spec(trim(text)) {
                Some(v) => v as i32,
                None => 0,
            },
            ..p
        }
    } else if field == "id"@ && p.page_id == 0 {
        RawPageV {
            page_id: match parse_unsigned(trim(text), 10, 0xffff_ffff) {
                Some(v) => v as u32,
                None => 0,
            },
            ..p
        }
    } else if field == "revision/id"@ && p.revision_id == 0 {
        RawPageV {
            revision_id: match parse_unsigned(trim(text), 10, 0xffff_ffff) {
                Some(v) => v as u32,
                None => 0,
            },
            ..p
        }
    } else if field == "revision/timestamp"@ && p.timestamp.len() == 0 {
        RawPageV { timestamp: p.timestamp + text, ..p }
    } else if field == "revision/text"@ {
        RawPageV { text: p.text + text, ..p }
    } else {
        p
    }
}

pub open spec fn on_text_spec(s: DumpV, text: Seq<char>) -> DumpV {
    match s.page {
        Some(p) => DumpV { page: Some(text_spec(p, field_spec(s.path), text)), ..s },
        None => s,
    }
}

/// The `title` attributes of a `<redirect>`, read in order up to the first
/// that could not be read; the last one read wins. The flag says whether
/// every attribute could be read.
pub open spec fn redirect_attrs(
    target: Option<Seq<char>>,
    attrs: Seq<Option<(Seq<char>, Seq<char>)>>,
) -> (Option<Seq<char>>, bool)
    decreases attrs.len(),
{
    if attrs.len() == 0 {
        (target, true)
    } else {
        match attrs[0] {
            None => (target, false),
            Some((k, v)) => redirect_attrs(
                if k == "title"@ {
                    Some(v)
                } else {
                    target
                },
                attrs.drop_first(),
            ),
        }
    }
}

pub open spec fn attrs_view(a: Seq<Option<(String, String)>>) -> Seq<Option<(Seq<char>, Seq<char>)>> {
    a.map_values(
        |x: Option<(String, String)>|
            match x {
                Some(kv) => Some((kv.0@, kv.1@)),
                None => None,
            },
    )
}

/// How the state moves on one event, and what it hands out.
pub open spec fn step_spec(s: DumpV, ev: XmlEvent) -> (DumpV, Option<Option<RawPageV>>) {
    match ev {
        XmlEvent::Start(name) => (
            DumpV {
                path: s.path.push(name@),
                page: if name@ == "page"@ {
                    Some(empty_page())
                } else {
                    s.page
                },
            },
            Some(None),
        ),
        XmlEvent::Empty { name, attrs } => if name@ != "redirect"@ || s.page is None {
            (s, Some(None))
        } else {
            let p = s.page->0;
            let (r, ok) = redirect_attrs(p.redirect_to, attrs_view(attrs@));
            (
                DumpV { page: Some(RawPageV { redirect_to: r, ..p }), ..s },
                if ok {
                    Some(None)
                } else {
                    None
                },
            )
        },
        XmlEvent::Text(t) => (on_text_spec(s, t@), Some(None)),
        XmlEvent::Reference(name) => (on_text_spec(s, resolve_entity_spec(name@)), Some(None)),
        XmlEvent::End(name) => {
            let path = if s.path.len() > 0 {
                s.path.drop_last()
            } else {
                s.path
            };
            if name@ == "page"@ && s.page is Some {
                (DumpV { path, page: None }, Some(s.page))
            } else {
                (DumpV { path, ..s }, Some(None))
            }
        },
    }
}

pub open spec fn step_view(r: DumpStep) -> Option<Option<RawPageV>> {
    match r {
        DumpStep::Continue => Some(None),
        DumpStep::Page(p) => Some(Some(p@)),
        DumpStep::BadAttribute => None,
    }
}

fn new_page() -> (p: RawPage)
    ensures
        p@ == empty_page(),
{
    RawPage {
        title: String::new(),
        page_id: 0,
        namespace: 0,
        redirect_to: None,
        revision_id: 0,
        timestamp: String::new(),
        text: String::new(),
    }
}

fn push_str(s: &mut String, t: &String)
    ensures
        final(s)@ == old(s)@ + t@,
{
    let mut v = chars_of(s.as_str());
    append(&mut v, &chars_of(t.as_str()));
    *s = string_of(&v);
}

/// The `title` of a `<redirect>`, read attribute by attribute up to the
/// first that could not be read, and whether all of them could be read.
fn redirect_target(current: Option<String>, attrs: &Vec<Option<(String, String)>>) -> (r: (
    Option<String>,
    bool,
))
    ensures
        (r.0.deep_view(), r.1) == redirect_attrs(current.deep_view(), attrs_view(attrs@)),
{
    let ghost av = attrs_view(attrs@);
    let mut target = current;
    let mut i: usize = 0;
    assert(av.subrange(0, av.len() as int) =~= av);
    while i < attrs.len()
        invariant
            i <= attrs.len(),
            av == attrs_view(attrs@),
            redirect_attrs(target.deep_view(), av.subrange(i as int, av.len() as int))
                == redirect_attrs(current.deep_view(), av),
        decreases attrs.len() - i,
    {
        assert(av.subrange(i as int, av.len() as int).drop_first() =~= av.subrange(
            i + 1,
            av.len() as int,
        ));
        assert(av.subrange(i as int, av.len() as int)[0] == av[i as int]);
        match &attrs[i] {
            None => {
                return (target, false);
            },
            Some(kv) => {
                if eq_lit(&chars_of(kv.0.as_str()), "title") {
                    target = Some(kv.1.clone());
                }
            },
        }
        i = i + 1;
    }
    assert(av.subrange(attrs.len() as int, av.len() as int) =~= Seq::<
        Option<(Seq<char>, Seq<char>)>,
    >::empty());
    (target, true)
}

impl DumpState {
    pub fn new() -> (s: DumpState)
        ensures
            s@.path.len() == 0,
            s@.page is None,
    {
        DumpState { path: Vec::new(), page: None }
    }

    /// The path below `<page>`, joined with `/`. Empty when outside a page.
    pub fn field(&self) -> (r: Vec<char>)
        ensures
            r@ == field_spec(self@.path),
    {
        let ghost pv = self.path.deep_view();
        let mut i: usize = 0;
        while i < self.path.len()
            invariant
                i <= self.path.len(),
                pv == self.path.deep_view(),
                page_index_from(pv, i as int) == page_index_from(pv, 0),
            decreases self.path.len() - i,
        {
            if eq_lit(&chars_of(self.path[i].as_str()), "page") {
                let mut parts: Vec<Vec<char>> = Vec::new();
                let mut k: usize = i + 1;
                while k < self.path.len()
                    invariant
                        i < k <= self.path.len(),
                        pv == self.path.deep_view(),
                        views(parts@) == pv.subrange(i + 1, k as int),
                    decreases self.path.len() - k,
                {
                    let ghost before = parts@;
                    parts.push(chars_of(self.path[k].as_str()));
                    assert(views(parts@) =~= views(before).push(pv[k as int]));
                    assert(pv.subrange(i + 1, k + 1) =~= pv.subrange(i + 1, k as int).push(
                        pv[k as int],
                    ));
                    k = k + 1;
                }
                return join_exec(&parts, &chars_of("/"));
            }
            i = i + 1;
        }
        Vec::new()
    }

    fn on_text(&mut self, text: &String)
        ensures
            final(self)@ == on_text_spec(old(self)@, text@),
    {
        let field = self.field();
        let ghost f = field@;
        match &mut self.page {
            None => {},
            Some(page) => {
                if eq_lit(&field, "title") {
                    push_str(&mut page.title, text);
                } else if eq_lit(&field, "ns") {
                    page.namespace = match parse_i32(&trim_exec(&chars_of(text.as_str()))) {
                        Some(v) => v,
                        None => 0,
                    };
                } else if eq_lit(&field, "id") && page.page_id == 0 {
                    page.page_id = match parse_u32(&trim_exec(&chars_of(text.as_str())), 10) {
                        Some(v) => v,
                        None => 0,
                    };
                } else if eq_lit(&field, "revision/id") && page.revision_id == 0 {
                    page.revision_id = match parse_u32(&trim_exec(&chars_of(text.as_str())), 10) {
                        Some(v) => v,
                        None => 0,
                    };
                } else if eq_lit(&field, "revision/timestamp") && chars_of(
                    page.timestamp.as_str(),
                ).len() == 0 {
                    push_str(&mut page.timestamp, text);
                } else if eq_lit(&field, "revision/text") {
                    push_str(&mut page.text, text);
                }
            },
        }
    }

    /// Moves the state on by one event. A `</page>` hands out the page just
    /// read; a `<redirect>` whose attributes could not be read is an error.
    pub fn step(&mut self, event: XmlEvent) -> (r: DumpStep)
        ensures
            (final(self)@, step_view(r)) == step_spec(old(self)@, event),
    {
        match event {
            XmlEvent::Start(name) => {
                let is_page = eq_lit(&chars_of(name.as_str()), "page");
                let ghost p0 = self.path.deep_view();
                self.path.push(name);
                assert(self.path.deep_view() =~= p0.push(name@));
                if is_page {
                    self.page = Some(new_page());
                }
                DumpStep::Continue
            },
            XmlEvent::Empty { name, attrs } => {
                if !eq_lit(&chars_of(name.as_str()), "redirect") || self.page.is_none() {
                    return DumpStep::Continue;
                }
                let current = match &self.page {
                    Some(p) => match &p.redirect_to {
                        Some(t) => Some(t.clone()),
                        None => None,
                    },
                    None => None,
                };
                // The titles read before an unreadable attribute stay on
                // the page, as the reader had already taken them.
                let (target, ok) = redirect_target(current, &attrs);
                match &mut self.page {
                    Some(p) => {
                        p.redirect_to = target;
                    },
                    None => {},
                }
                if ok {
                    DumpStep::Continue
                } else {
                    DumpStep::BadAttribute
                }
            },
            XmlEvent::Text(t) => {
                self.on_text(&t);
                DumpStep::Continue
            },
            XmlEvent::Reference(name) => {
                let t = resolve_entity(name.as_str());
                self.on_text(&t);
                DumpStep::Continue
            },
            XmlEvent::End(name) => {
                let is_page = eq_lit(&chars_of(name.as_str()), "page");
                let ghost p0 = self.path.deep_view();
                if self.path.len() > 0 {
                    let _ = self.path.pop();
                    assert(self.path.deep_view() =~= p0.drop_last());
                }
                if is_page && self.page.is_some() {
                    let page = self.page.take();
                    match page {
                        Some(p) => DumpStep::Page(p),
                        None => DumpStep::Continue,
                    }
                } else {
                    DumpStep::Continue
                }
            },
        }
    }
}

// --- laws -------------------------------------------------------------------

/// Closing an element undoes opening it: the path is as it was, and a page
/// opened and closed at once is handed out empty.
pub proof fn law_an_end_undoes_a_start(s: DumpV, open: String, close: String)
    ensures
        step_spec(step_spec(s, XmlEvent::Start(open)).0, XmlEvent::End(close)).0.path == s.path,
        open@ == "page"@ && close@ == "page"@ ==> step_spec(
            step_spec(s, XmlEvent::Start(open)).0,
            XmlEvent::End(close),
        ).1 == Some(Some(empty_page())),
{
    let opened = step_spec(s, XmlEvent::Start(open)).0;
    assert(opened.path.drop_last() =~= s.path);
}

/// A page holds several `<id>` elements; once the page id or the revision id
/// is read, no later text changes it.
pub proof fn law_the_first_id_stays(p: RawPageV, field: Seq<char>, text: Seq<char>)
    ensures
        p.page_id != 0 ==> text_spec(p, field, text).page_id == p.page_id,
        p.revision_id != 0 ==> text_spec(p, field, text).revision_id == p.revision_id,
        p.timestamp.len() != 0 ==> text_spec(p, field, text).timestamp == p.timestamp,
{
}

/// Text outside a page changes nothing.
pub proof fn law_text_outside_a_page_is_ignored(s: DumpV, text: Seq<char>)
    requires
        s.page is None,
    ensures
        on_text_spec(s, text) == s,
{
}

} // verus!
