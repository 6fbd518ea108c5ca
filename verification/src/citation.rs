//! Reads what it safely can out of a citation line.
//!
//! A `**` line on Wikiquote is free text. This module extracts only the fields
//! it can find with high confidence and always keeps the raw line. The
//! structure comes from Layer 1: the first italic run is the work title, link
//! spans give the URL and the work page, and template spans give the
//! `{{cite …}}` parameters. Dates and locators are read with regular
//! expressions.

use vstd::prelude::*;
use crate::model::{param_of, RichText, SiteV, Site, Span, SpanKind, TemplateRef};
use crate::number::{
    padded2, padded2_exec, padded4, padded4_exec, parse_i32, parse_i32_spec, parse_u16, parse_u8,
    parse_unsigned,
};
use crate::quote::{CiteTemplate, Param, Source, SourceV, params_view};
use crate::text::{
    alphanumeric, append, append_lit, byte_get, byte_get_exec, chars_of, contains, contains_lit,
    find, find_exec, find_from, eq_lit, is_alphanumeric, lemma_find_from_bounds, lower, lowercase,
    occurs_at, slice_of, starts_with, starts_with_lit, string_of, trim, trim_char, trim_char_exec,
    trim_end_char, trim_end_char_exec, trim_exec, utf8_len, utf8_len_at_least,
};
use crate::wikitext::nonempty_param;

verus! {

// --- regular expressions ----------------------------------------------------

pub const DAY_MONTH_YEAR: &'static str = r"(?i)\b([0-3]?\d)\s+([a-z]{3,9})\.?,?\s+(\d{3,4})\b";

pub const MONTH_DAY_YEAR: &'static str = r"(?i)\b([a-z]{3,9})\.?\s+([0-3]?\d),\s*(\d{3,4})\b";

pub const MONTH_YEAR: &'static str = r"(?i)\b([a-z]{3,9})\.?\s+(\d{3,4})\b";

pub const CIRCA: &'static str = r"(?i)\bc(?:irca)?\.?\s*(\d{3,4})\b";

pub const BCE: &'static str = r"(?i)\b(\d{1,4})\s*(?:BCE?|B\.C\.E?\.)\b";

pub const YEAR_RANGE: &'static str = r"\((\d{4})\s*[-\x{2013}]\s*(\d{4})\)";

/// A bare year is trusted only inside brackets. Elsewhere a four-digit number
/// is as likely to be a page or a line number.
pub const YEAR_IN_BRACKETS: &'static str = r"[(\[](?:in\s+)?(1\d{3}|20\d{2}|[1-9]\d{2})[)\],;]";

pub const PAGE: &'static str = r"(?i)\bpp?\.\s*([0-9ivxlc]+(?:\s*[-\x{2013}]\s*[0-9ivxlc]+)?)";

pub const CHAPTER: &'static str = r"(?i)\b(?:ch\.|chapter)\s*([0-9]+|[ivxlc]+)\b";

pub const PART: &'static str = r"(?i)\b(?:no\.|number|book|part|vol\.|volume)\s*([0-9]+|[ivxlc]+)\b";

pub const ACT: &'static str =
    r"(?i)\bact\s+([0-9]+|[ivxlc]+)(?:\s*,?\s*sc(?:ene)?\.?\s*([0-9]+|[ivxlc]+))?";

pub const LINE: &'static str = r"(?i)\blines?\s*([0-9]+(?:\s*[-\x{2013}]\s*[0-9]+)?)";

pub const ISBN: &'static str = r"(?i)\bISBN\s*([0-9][0-9\-x]{8,})";

/// What `regex::Regex::captures` finds of `pattern` in `text`: the text of
/// each group of the leftmost match, group 0 being the whole match.
pub uninterp spec fn regex_captures(pattern: Seq<char>, text: Seq<char>) -> Option<
    Seq<Option<Seq<char>>>,
>;

/// `regex::Regex::new(pattern)` then `captures(text)`, each group turned into
/// its text. The result is named, not spelled out: it is whatever the regex
/// engine finds. A pattern that does not compile finds nothing.
#[verifier::external_body]
fn captures(pattern: &str, text: &str) -> (r: Option<Vec<Option<String>>>)
    ensures
        r.deep_view() == regex_captures(pattern@, text@),
{
    let re = regex::Regex::new(pattern).ok()?;
    re.captures(text).map(|c| c.iter().map(|m| m.map(|m| m.as_str().to_string())).collect())
}

/// The text of group `i`; empty when the group took no part in the match.
pub open spec fn group_text(caps: Seq<Option<Seq<char>>>, i: int) -> Seq<char> {
    if 0 <= i < caps.len() && caps[i] is Some {
        caps[i]->0
    } else {
        Seq::empty()
    }
}

pub open spec fn group_of(caps: Seq<Option<Seq<char>>>, i: int) -> Option<Seq<char>> {
    if 0 <= i < caps.len() {
        caps[i]
    } else {
        None
    }
}

fn group_text_exec(caps: &Vec<Option<String>>, i: usize) -> (r: Vec<char>)
    ensures
        r@ == group_text(caps.deep_view(), i as int),
{
    if i < caps.len() {
        match &caps[i] {
            Some(t) => chars_of(t.as_str()),
            None => Vec::new(),
        }
    } else {
        Vec::new()
    }
}

fn group_exec(caps: &Vec<Option<String>>, i: usize) -> (r: Option<Vec<char>>)
    ensures
        match r {
            Some(v) => group_of(caps.deep_view(), i as int) == Some(v@),
            None => group_of(caps.deep_view(), i as int) is None,
        },
{
    if i < caps.len() {
        match &caps[i] {
            Some(t) => Some(chars_of(t.as_str())),
            None => None,
        }
    } else {
        None
    }
}

/// The whole match, trimmed. Locators keep their label, so that `p. 12`
/// reads as written.
pub open spec fn capture_spec(pattern: Seq<char>, text: Seq<char>) -> Option<Seq<char>> {
    match regex_captures(pattern, text) {
        Some(c) => match group_of(c, 0) {
            Some(t) => Some(trim(t)),
            None => None,
        },
        None => None,
    }
}

/// The first group, trimmed.
pub open spec fn capture_group_spec(pattern: Seq<char>, text: Seq<char>) -> Option<Seq<char>> {
    match regex_captures(pattern, text) {
        Some(c) => match group_of(c, 1) {
            Some(t) => Some(trim(t)),
            None => None,
        },
        None => None,
    }
}

fn capture(pattern: &str, text: &Vec<char>, group: usize) -> (r: Option<Vec<char>>)
    requires
        group == 0 || group == 1,
    ensures
        match r {
            Some(v) => (if group == 0 {
                capture_spec(pattern@, text@)
            } else {
                capture_group_spec(pattern@, text@)
            }) == Some(v@),
            None => (if group == 0 {
                capture_spec(pattern@, text@)
            } else {
                capture_group_spec(pattern@, text@)
            }) is None,
        },
{
    let t = string_of(text);
    match captures(pattern, t.as_str()) {
        Some(c) => match group_exec(&c, group) {
            Some(g) => Some(trim_exec(&g)),
            None => None,
        },
        None => None,
    }
}

// --- dates ------------------------------------------------------------------

/// `name` is the month `m`, or at least three letters of it.
pub open spec fn month_hit(m: Seq<char>, name: Seq<char>) -> bool {
    m == name || (utf8_len(name) >= 3 && starts_with(m, name))
}

/// The number of the month a word names: `Dec.`, `december`, `DECEMBER`.
pub open spec fn month_number(raw: Seq<char>) -> Option<nat> {
    let n = lowercase(trim_end_char(raw, '.'));
    if month_hit("january"@, n) {
        Some(1)
    } else if month_hit("february"@, n) {
        Some(2)
    } else if month_hit("march"@, n) {
        Some(3)
    } else if month_hit("april"@, n) {
        Some(4)
    } else if month_hit("may"@, n) {
        Some(5)
    } else if month_hit("june"@, n) {
        Some(6)
    } else if month_hit("july"@, n) {
        Some(7)
    } else if month_hit("august"@, n) {
        Some(8)
    } else if month_hit("september"@, n) {
        Some(9)
    } else if month_hit("october"@, n) {
        Some(10)
    } else if month_hit("november"@, n) {
        Some(11)
    } else if month_hit("december"@, n) {
        Some(12)
    } else {
        None
    }
}

fn month_hit_exec(m: &str, name: &Vec<char>) -> (r: bool)
    ensures
        r == month_hit(m@, name@),
{
    let mc = chars_of(m);
    if eq_chars_lit(&mc, name) {
        return true;
    }
    utf8_len_at_least(name, 3) && crate::text::starts_with_exec(&mc, name)
}

fn eq_chars_lit(a: &Vec<char>, b: &Vec<char>) -> (r: bool)
    ensures
        r == (a@ == b@),
{
    crate::text::eq_chars(a, b)
}

fn month_number_exec(raw: &Vec<char>) -> (r: Option<u64>)
    ensures
        match r {
            Some(v) => month_number(raw@) == Some(v as nat) && 1 <= v <= 12,
            None => month_number(raw@) is None,
        },
{
    let n = lower(&trim_end_char_exec(raw, '.'));
    if month_hit_exec("january", &n) {
        Some(1)
    } else if month_hit_exec("february", &n) {
        Some(2)
    } else if month_hit_exec("march", &n) {
        Some(3)
    } else if month_hit_exec("april", &n) {
        Some(4)
    } else if month_hit_exec("may", &n) {
        Some(5)
    } else if month_hit_exec("june", &n) {
        Some(6)
    } else if month_hit_exec("july", &n) {
        Some(7)
    } else if month_hit_exec("august", &n) {
        Some(8)
    } else if month_hit_exec("september", &n) {
        Some(9)
    } else if month_hit_exec("october", &n) {
        Some(10)
    } else if month_hit_exec("november", &n) {
        Some(11)
    } else if month_hit_exec("december", &n) {
        Some(12)
    } else {
        None
    }
}

/// A date read from a citation: the ISO date, the end of a range, the
/// precision and the text it was read from.
pub type DateV = (Seq<char>, Option<Seq<char>>, Seq<char>, Seq<char>);

/// `year-month-day` in ISO form.
pub open spec fn iso_day(year: nat, month: nat, day: nat) -> Seq<char> {
    padded4(year as int) + "-"@ + padded2(month) + "-"@ + padded2(day)
}

/// The day-precision date from three groups: day, month name, year.
pub open spec fn day_date(day: Seq<char>, month: nat, year: Seq<char>, raw: Seq<char>) -> Option<
    DateV,
> {
    match (parse_unsigned(day, 10, 0xff), parse_unsigned(year, 10, 0xffff)) {
        (Some(d), Some(y)) => Some((iso_day(y, month, d), None, "day"@, trim(raw))),
        _ => None,
    }
}

/// The date a text names, tried in this order: a BCE year, a year range in
/// brackets, day-month-year, month-day-year, month-year, a circa year, a year
/// in brackets, and a text that is only a year. A match whose number does not
/// parse ends the search with nothing.
pub open spec fn read_date_spec(text: Seq<char>) -> Option<DateV> {
    date_from_matches(text, date_matches_of(text))
}

/// What each date pattern finds in a text.
pub open spec fn date_matches_of(text: Seq<char>) -> DateMatchesV {
    DateMatchesV {
        bce: regex_captures(BCE@, text),
        range: regex_captures(YEAR_RANGE@, text),
        day_month_year: regex_captures(DAY_MONTH_YEAR@, text),
        month_day_year: regex_captures(MONTH_DAY_YEAR@, text),
        month_year: regex_captures(MONTH_YEAR@, text),
        circa: regex_captures(CIRCA@, text),
        bracket: regex_captures(YEAR_IN_BRACKETS@, text),
    }
}

/// The date a text names, given what each date pattern found in it.
pub open spec fn date_from_matches(text: Seq<char>, m: DateMatchesV) -> Option<DateV> {
    let bce = m.bce;
    let range = m.range;
    let dmy = m.day_month_year;
    let mdy = m.month_day_year;
    let my = m.month_year;
    let circa = m.circa;
    let bracket = m.bracket;
    let trimmed = trim(text);
    if bce is Some {
        let c = bce->0;
        match parse_i32_spec(group_text(c, 1)) {
            Some(y) => Some(("-"@ + padded4(y), None, "year"@, trim(group_text(c, 0)))),
            None => None,
        }
    } else if range is Some {
        let c = range->0;
        Some((group_text(c, 1), Some(group_text(c, 2)), "range"@, group_text(c, 0)))
    } else if dmy is Some && month_number(group_text(dmy->0, 2)) is Some {
        let c = dmy->0;
        day_date(group_text(c, 1), month_number(group_text(c, 2))->0, group_text(c, 3), group_text(c, 0))
    } else if mdy is Some && month_number(group_text(mdy->0, 1)) is Some {
        let c = mdy->0;
        day_date(group_text(c, 2), month_number(group_text(c, 1))->0, group_text(c, 3), group_text(c, 0))
    } else if my is Some && month_number(group_text(my->0, 1)) is Some {
        let c = my->0;
        let month = month_number(group_text(c, 1))->0;
        match parse_unsigned(group_text(c, 2), 10, 0xffff) {
            Some(y) => Some((padded4(y as int) + "-"@ + padded2(month), None, "month"@, trim(group_text(c, 0)))),
            None => None,
        }
    } else if circa is Some {
        let c = circa->0;
        match parse_unsigned(group_text(c, 1), 10, 0xffff) {
            Some(y) => Some((padded4(y as int), None, "circa"@, trim(group_text(c, 0)))),
            None => None,
        }
    } else if bracket is Some {
        let c = bracket->0;
        match parse_unsigned(group_text(c, 1), 10, 0xffff) {
            Some(y) => Some((padded4(y as int), None, "year"@, group_text(c, 1))),
            None => None,
        }
    } else if utf8_len(trimmed) == 4 && parse_unsigned(trimmed, 10, 0xffff) is Some {
        Some((padded4(parse_unsigned(trimmed, 10, 0xffff)->0 as int), None, "year"@, trimmed))
    } else {
        None
    }
}

/// A date read from a text: its ISO form, the end of a range, the
/// precision, and the words it was read from.
pub struct Date {
    pub iso: Vec<char>,
    pub end: Option<Vec<char>>,
    pub precision: Vec<char>,
    pub raw: Vec<char>,
}

/// What each date pattern found in a text: the groups of its first match.
pub struct DateMatches {
    pub bce: Option<Vec<Option<String>>>,
    pub range: Option<Vec<Option<String>>>,
    pub day_month_year: Option<Vec<Option<String>>>,
    pub month_day_year: Option<Vec<Option<String>>>,
    pub month_year: Option<Vec<Option<String>>>,
    pub circa: Option<Vec<Option<String>>>,
    pub bracket: Option<Vec<Option<String>>>,
}

pub struct DateMatchesV {
    pub bce: Option<Seq<Option<Seq<char>>>>,
    pub range: Option<Seq<Option<Seq<char>>>>,
    pub day_month_year: Option<Seq<Option<Seq<char>>>>,
    pub month_day_year: Option<Seq<Option<Seq<char>>>>,
    pub month_year: Option<Seq<Option<Seq<char>>>>,
    pub circa: Option<Seq<Option<Seq<char>>>>,
    pub bracket: Option<Seq<Option<Seq<char>>>>,
}

impl View for DateMatches {
    type V = DateMatchesV;

    open spec fn view(&self) -> DateMatchesV {
        DateMatchesV {
            bce: self.bce.deep_view(),
            range: self.range.deep_view(),
            day_month_year: self.day_month_year.deep_view(),
            month_day_year: self.month_day_year.deep_view(),
            month_year: self.month_year.deep_view(),
            circa: self.circa.deep_view(),
            bracket: self.bracket.deep_view(),
        }
    }
}

pub open spec fn date_view(d: Date) -> DateV {
    (d.iso@, match d.end {
        Some(e) => Some(e@),
        None => None,
    }, d.precision@, d.raw@)
}

fn day_date_exec(day: &Vec<char>, month: u64, year: &Vec<char>, raw: &Vec<char>) -> (r: Option<Date>)
    requires
        1 <= month <= 12,
    ensures
        match r {
            Some(d) => day_date(day@, month as nat, year@, raw@) == Some(date_view(d)),
            None => day_date(day@, month as nat, year@, raw@) is None,
        },
{
    match (parse_u8(day), parse_u16(year)) {
        (Some(d), Some(y)) => {
            let mut iso = padded4_exec(y as i64);
            append_lit(&mut iso, "-");
            append(&mut iso, &padded2_exec(month));
            append_lit(&mut iso, "-");
            append(&mut iso, &padded2_exec(d as u64));
            Some(Date { iso, end: None, precision: chars_of("day"), raw: trim_exec(raw) })
        },
        _ => None,
    }
}

fn read_date(text: &Vec<char>) -> (r: Option<Date>)
    ensures
        match r {
            Some(d) => read_date_spec(text@) == Some(date_view(d)),
            None => read_date_spec(text@) is None,
        },
{
    let t = string_of(text);
    let ts = t.as_str();
    let m = DateMatches {
        bce: captures(BCE, ts),
        range: captures(YEAR_RANGE, ts),
        day_month_year: captures(DAY_MONTH_YEAR, ts),
        month_day_year: captures(MONTH_DAY_YEAR, ts),
        month_year: captures(MONTH_YEAR, ts),
        circa: captures(CIRCA, ts),
        bracket: captures(YEAR_IN_BRACKETS, ts),
    };
    date_from_captures(text, &m)
}

/// The date a text names, from what each date pattern found in it: the
/// order of the patterns and what each match gives, as `read_date` reads
/// them once the patterns have run.
pub fn date_from_captures(text: &Vec<char>, m: &DateMatches) -> (r: Option<Date>)
    ensures
        match r {
            Some(d) => date_from_matches(text@, m@) == Some(date_view(d)),
            None => date_from_matches(text@, m@) is None,
        },
{
    if let Some(c) = &m.bce {
        match parse_i32(&group_text_exec(c, 1)) {
            Some(y) => {
                let mut iso = chars_of("-");
                append(&mut iso, &padded4_exec(y as i64));
                return Some(
                    Date {
                        iso,
                        end: None,
                        precision: chars_of("year"),
                        raw: trim_exec(&group_text_exec(c, 0)),
                    },
                );
            },
            None => {
                return None;
            },
        }
    }
    if let Some(c) = &m.range {
        return Some(
            Date {
                iso: group_text_exec(c, 1),
                end: Some(group_text_exec(c, 2)),
                precision: chars_of("range"),
                raw: group_text_exec(c, 0),
            },
        );
    }
    if let Some(c) = &m.day_month_year {
        if let Some(month) = month_number_exec(&group_text_exec(c, 2)) {
            return day_date_exec(
                &group_text_exec(c, 1),
                month,
                &group_text_exec(c, 3),
                &group_text_exec(c, 0),
            );
        }
    }
    if let Some(c) = &m.month_day_year {
        if let Some(month) = month_number_exec(&group_text_exec(c, 1)) {
            return day_date_exec(
                &group_text_exec(c, 2),
                month,
                &group_text_exec(c, 3),
                &group_text_exec(c, 0),
            );
        }
    }
    if let Some(c) = &m.month_year {
        if let Some(month) = month_number_exec(&group_text_exec(c, 1)) {
            match parse_u16(&group_text_exec(c, 2)) {
                Some(y) => {
                    let mut iso = padded4_exec(y as i64);
                    append_lit(&mut iso, "-");
                    append(&mut iso, &padded2_exec(month));
                    return Some(
                        Date {
                            iso,
                            end: None,
                            precision: chars_of("month"),
                            raw: trim_exec(&group_text_exec(c, 0)),
                        },
                    );
                },
                None => {
                    return None;
                },
            }
        }
    }
    if let Some(c) = &m.circa {
        match parse_u16(&group_text_exec(c, 1)) {
            Some(y) => {
                return Some(
                    Date {
                        iso: padded4_exec(y as i64),
                        end: None,
                        precision: chars_of("circa"),
                        raw: trim_exec(&group_text_exec(c, 0)),
                    },
                );
            },
            None => {
                return None;
            },
        }
    }
    if let Some(c) = &m.bracket {
        match parse_u16(&group_text_exec(c, 1)) {
            Some(y) => {
                return Some(
                    Date {
                        iso: padded4_exec(y as i64),
                        end: None,
                        precision: chars_of("year"),
                        raw: group_text_exec(c, 1),
                    },
                );
            },
            None => {
                return None;
            },
        }
    }
    let trimmed = trim_exec(text);
    if utf8_len_at_least(&trimmed, 4) && !utf8_len_at_least(&trimmed, 5) {
        if let Some(y) = parse_u16(&trimmed) {
            return Some(
                Date { iso: padded4_exec(y as i64), end: None, precision: chars_of("year"), raw: trimmed },
            );
        }
    }
    None
}

// --- where the line stops talking about the quote ---------------------------

pub open spec fn min_index(a: Option<int>, b: Option<int>) -> Option<int> {
    match (a, b) {
        (Some(x), Some(y)) => Some(if x <= y {
            x
        } else {
            y
        }),
        (Some(x), None) => Some(x),
        (None, y) => y,
    }
}

/// `p` stands at `k` in `s`, ASCII letters compared without case.
pub open spec fn occurs_at_ci(s: Seq<char>, p: Seq<char>, k: int) -> bool {
    0 <= k && k + p.len() <= s.len() && crate::wikitext::eq_ignore_ascii_case(
        s.subrange(k, k + p.len()),
        p,
    )
}

/// The first place at or after `i` where `p` stands in `s`, without case.
pub open spec fn find_ci_from(s: Seq<char>, p: Seq<char>, i: int) -> Option<int>
    decreases s.len() + 1 - i,
{
    if i < 0 || i + p.len() > s.len() {
        None
    } else if occurs_at_ci(s, p, i) {
        Some(i)
    } else {
        find_ci_from(s, p, i + 1)
    }
}

pub proof fn lemma_find_ci_bounds(s: Seq<char>, p: Seq<char>, i: int)
    ensures
        find_ci_from(s, p, i) matches Some(k) ==> i <= k && k + p.len() <= s.len() && 0 <= k
            && occurs_at_ci(s, p, k) && (forall|m: int| i <= m < k ==> !occurs_at_ci(s, p, m)),
        0 <= i && find_ci_from(s, p, i) is None ==> forall|m: int| i <= m ==> !occurs_at_ci(s, p, m),
    decreases s.len() + 1 - i,
{
    if !(i < 0 || i + p.len() > s.len()) && !occurs_at_ci(s, p, i) {
        lemma_find_ci_bounds(s, p, i + 1);
    }
}

/// Cuts the line where it stops talking about the quote: "Retrieved 29 July
/// 2014" is when somebody visited a web page, not when the words were said.
/// The line is cut just before the first of the markers, found in the line
/// itself with its letters compared without case. (No character outside
/// ASCII lowercases to a letter of these markers, so this finds what a
/// search in the lowercased line finds.)
pub open spec fn before_retrieval_spec(text: Seq<char>) -> Seq<char> {
    let first = min_index(
        min_index(find_ci_from(text, "retrieved"@, 0), find_ci_from(text, "accessed"@, 0)),
        min_index(find_ci_from(text, "archived"@, 0), find_ci_from(text, "as reported in"@, 0)),
    );
    match first {
        Some(k) => text.take(k),
        None => text,
    }
}

fn occurs_at_ci_exec(s: &Vec<char>, p: &Vec<char>, k: usize) -> (r: bool)
    requires
        k + p.len() <= s.len(),
    ensures
        r == occurs_at_ci(s@, p@, k as int),
{
    let mut j: usize = 0;
    while j < p.len()
        invariant
            j <= p.len(),
            k + p.len() <= s.len(),
            forall|m: int|
                0 <= m < j ==> crate::text::ascii_upper(#[trigger] s@[k + m])
                    == crate::text::ascii_upper(p@[m]),
        decreases p.len() - j,
    {
        if crate::text::to_ascii_uppercase(s[k + j]) != crate::text::to_ascii_uppercase(p[j]) {
            assert(s@.subrange(k as int, k + p.len())[j as int] == s@[k + j]);
            return false;
        }
        j = j + 1;
    }
    assert forall|m: int| 0 <= m < p@.len() implies crate::text::ascii_upper(
        #[trigger] s@.subrange(k as int, k + p.len())[m],
    ) == crate::text::ascii_upper(p@[m]) by {
        assert(s@.subrange(k as int, k + p.len())[m] == s@[k + m]);
    }
    true
}

fn find_ci(s: &Vec<char>, lit: &str) -> (r: Option<u64>)
    ensures
        match r {
            Some(k) => find_ci_from(s@, lit@, 0) == Some(k as int),
            None => find_ci_from(s@, lit@, 0) is None,
        },
{
    let p = chars_of(lit);
    if p.len() > s.len() {
        return None;
    }
    let mut k: usize = 0;
    while k <= s.len() - p.len()
        invariant
            p@ == lit@,
            p.len() <= s.len(),
            k <= s.len() - p.len() + 1,
            find_ci_from(s@, p@, k as int) == find_ci_from(s@, p@, 0),
        decreases s.len() - k,
    {
        if occurs_at_ci_exec(s, &p, k) {
            return Some(k as u64);
        }
        k = k + 1;
    }
    None
}

fn min_exec(a: Option<u64>, b: Option<u64>) -> (r: Option<u64>)
    ensures
        (match r {
            Some(x) => Some(x as int),
            None => None,
        }) == min_index(
            match a {
                Some(x) => Some(x as int),
                None => None,
            },
            match b {
                Some(x) => Some(x as int),
                None => None,
            },
        ),
{
    match (a, b) {
        (Some(x), Some(y)) => Some(if x <= y {
            x
        } else {
            y
        }),
        (Some(x), None) => Some(x),
        (None, y) => y,
    }
}

fn before_retrieval(text: &Vec<char>) -> (r: Vec<char>)
    ensures
        r@ == before_retrieval_spec(text@),
{
    let first = min_exec(
        min_exec(find_ci(text, "retrieved"), find_ci(text, "accessed")),
        min_exec(find_ci(text, "archived"), find_ci(text, "as reported in")),
    );
    match first {
        Some(k) => {
            proof {
                lemma_find_ci_bounds(text@, "retrieved"@, 0);
                lemma_find_ci_bounds(text@, "accessed"@, 0);
                lemma_find_ci_bounds(text@, "archived"@, 0);
                lemma_find_ci_bounds(text@, "as reported in"@, 0);
            }
            let r = slice_of(text, 0, k as usize);
            assert(r@ =~= text@.take(k as int));
            r
        },
        None => {
            assert(text@.subrange(0, text@.len() as int) =~= text@);
            slice_of(text, 0, text.len())
        },
    }
}


// --- the occasion -----------------------------------------------------------

/// `word` stands at `start..end` of `t` on its own, not inside a longer word.
pub open spec fn word_ok(t: Seq<char>, start: int, end: int) -> bool {
    (start == 0 || !alphanumeric(t[start - 1])) && (end >= t.len() || !alphanumeric(t[end]))
}

/// `word` appears in `t` on its own at or after `from`. The occurrences are
/// tried in order, each search starting where the previous one ended.
pub open spec fn word_from(t: Seq<char>, w: Seq<char>, from: int) -> bool
    decreases t.len() + 1 - from,
{
    if w.len() == 0 || from < 0 || from > t.len() {
        false
    } else {
        match find_from(t, w, from) {
            Some(start) => {
                proof {
                    lemma_find_from_bounds(t, w, from);
                }
                if word_ok(t, start, start + w.len()) {
                    true
                } else {
                    word_from(t, w, start + w.len())
                }
            },
            None => false,
        }
    }
}

/// True when `word` appears in `text` on its own, not inside a longer word.
pub open spec fn contains_word_spec(t: Seq<char>, w: Seq<char>) -> bool {
    word_from(t, w, 0)
}

fn find_from_exec(s: &Vec<char>, p: &Vec<char>, from: usize) -> (r: Option<usize>)
    requires
        from <= s.len(),
    ensures
        match r {
            Some(k) => find_from(s@, p@, from as int) == Some(k as int),
            None => find_from(s@, p@, from as int) is None,
        },
{
    let rest = slice_of(s, from, s.len());
    proof {
        lemma_find_shift(s@, p@, from as int, 0);
    }
    proof {
        lemma_find_from_bounds(rest@, p@, 0);
    }
    match find_exec(&rest, p) {
        Some(k) => Some(from + k),
        None => None,
    }
}

proof fn lemma_find_shift(s: Seq<char>, p: Seq<char>, from: int, i: int)
    requires
        0 <= from <= s.len(),
        0 <= i,
    ensures
        find_from(s, p, from + i) == (match find_from(s.subrange(from, s.len() as int), p, i) {
            Some(k) => Some(from + k),
            None => None,
        }),
    decreases s.len() + 1 - (from + i),
{
    let r = s.subrange(from, s.len() as int);
    if from + i + p.len() > s.len() {
    } else {
        assert(occurs_at(s, p, from + i) == occurs_at(r, p, i)) by {
            if 0 <= from + i && from + i + p.len() <= s.len() {
                assert(s.subrange(from + i, from + i + p.len()) =~= r.subrange(i, i + p.len()));
            }
        }
        if !occurs_at(s, p, from + i) {
            lemma_find_shift(s, p, from, i + 1);
        }
    }
}

fn contains_word(t: &Vec<char>, word: &str) -> (r: bool)
    ensures
        r == contains_word_spec(t@, word@),
{
    let w = chars_of(word);
    if w.len() == 0 {
        return false;
    }
    let mut from: usize = 0;
    while from <= t.len()
        invariant
            w@ == word@,
            w.len() > 0,
            word_from(t@, w@, from as int) == word_from(t@, w@, 0),
        decreases t.len() + 1 - from,
    {
        match find_from_exec(t, &w, from) {
            Some(start) => {
                proof {
                    lemma_find_from_bounds(t@, w@, from as int);
                }
                let end = start + w.len();
                let before_ok = start == 0 || !is_alphanumeric(t[start - 1]);
                let after_ok = end >= t.len() || !is_alphanumeric(t[end]);
                if before_ok && after_ok {
                    return true;
                }
                from = end;
            },
            None => {
                return false;
            },
        }
    }
    false
}

/// What kind of thing the words came from, read from the nouns a citation
/// uses. The multi-word phrases come first, because "address to the nation"
/// is a speech while "his address" is where somebody lives.
pub open spec fn occasion_spec(text: Seq<char>) -> Option<Seq<char>> {
    let l = lowercase(text);
    if contains(l, "press conference"@) || contains(l, "news conference"@) {
        Some("press conference"@)
    } else if contains(l, "address to"@) || contains(l, "address at"@) {
        Some("speech"@)
    } else if contains(l, "blog post"@) || contains(l, "facebook post"@) {
        Some("post"@)
    } else if contains_word_spec(l, "letter"@) || contains_word_spec(l, "letters"@) {
        Some("letter"@)
    } else if contains_word_spec(l, "interview"@) {
        Some("interview"@)
    } else if contains_word_spec(l, "speech"@) {
        Some("speech"@)
    } else if contains_word_spec(l, "lecture"@) {
        Some("lecture"@)
    } else if contains_word_spec(l, "sermon"@) {
        Some("sermon"@)
    } else if contains_word_spec(l, "testimony"@) {
        Some("testimony"@)
    } else if contains_word_spec(l, "diary"@) {
        Some("diary"@)
    } else if contains_word_spec(l, "essay"@) {
        Some("essay"@)
    } else if contains_word_spec(l, "editorial"@) {
        Some("editorial"@)
    } else if contains_word_spec(l, "tweet"@) {
        Some("post"@)
    } else {
        None
    }
}

fn read_occasion(text: &Vec<char>) -> (r: Option<Vec<char>>)
    ensures
        match r {
            Some(v) => occasion_spec(text@) == Some(v@),
            None => occasion_spec(text@) is None,
        },
{
    let l = lower(text);
    let o = if contains_lit(&l, "press conference") || contains_lit(&l, "news conference") {
        "press conference"
    } else if contains_lit(&l, "address to") || contains_lit(&l, "address at") {
        "speech"
    } else if contains_lit(&l, "blog post") || contains_lit(&l, "facebook post") {
        "post"
    } else if contains_word(&l, "letter") || contains_word(&l, "letters") {
        "letter"
    } else if contains_word(&l, "interview") {
        "interview"
    } else if contains_word(&l, "speech") {
        "speech"
    } else if contains_word(&l, "lecture") {
        "lecture"
    } else if contains_word(&l, "sermon") {
        "sermon"
    } else if contains_word(&l, "testimony") {
        "testimony"
    } else if contains_word(&l, "diary") {
        "diary"
    } else if contains_word(&l, "essay") {
        "essay"
    } else if contains_word(&l, "editorial") {
        "editorial"
    } else if contains_word(&l, "tweet") {
        "post"
    } else {
        return None;
    };
    Some(chars_of(o))
}

// --- spans ------------------------------------------------------------------

pub open spec fn is_italic_kind(k: SpanKind) -> bool {
    k is Italic || k is BoldItalic
}

/// The italic span that starts first (the earliest of equals), looking at
/// `spans[i..]` with `best` the best one so far.
pub open spec fn first_italic_from(spans: Seq<Span>, i: int, best: Option<int>) -> Option<int>
    decreases spans.len() - i,
{
    if i < 0 || i >= spans.len() {
        best
    } else if is_italic_kind(spans[i].kind) && (best is None || spans[i].start
        < spans[best->0].start) {
        first_italic_from(spans, i + 1, Some(i))
    } else {
        first_italic_from(spans, i + 1, best)
    }
}

proof fn lemma_first_italic_from(spans: Seq<Span>, i: int, best: Option<int>)
    requires
        0 <= i,
        best matches Some(b) ==> 0 <= b < spans.len(),
    ensures
        first_italic_from(spans, i, best) matches Some(b) ==> 0 <= b < spans.len(),
    decreases spans.len() - i,
{
    if i < spans.len() {
        if is_italic_kind(spans[i].kind) && (best is None || spans[i].start
            < spans[best->0].start) {
            lemma_first_italic_from(spans, i + 1, Some(i));
        } else {
            lemma_first_italic_from(spans, i + 1, best);
        }
    }
}

/// The first italic run of a citation is the title of the work. A run of
/// two bytes or fewer is usually emphasis, not a title.
pub open spec fn first_italic_spec(part: RichText) -> Option<Seq<char>> {
    match first_italic_from(part.spans@, 0, None) {
        Some(i) => {
            let span = part.spans@[i];
            match byte_get(part.text@, span.start as int, span.end as int) {
                Some(t) => {
                    let title = trim(t);
                    if utf8_len(title) > 2 {
                        Some(trim(trim_char(title, ',')))
                    } else {
                        None
                    }
                },
                None => None,
            }
        },
        None => None,
    }
}

fn first_italic(part: &RichText) -> (r: Option<Vec<char>>)
    ensures
        match r {
            Some(v) => first_italic_spec(*part) == Some(v@),
            None => first_italic_spec(*part) is None,
        },
{
    let mut best: Option<usize> = None;
    let mut i: usize = 0;
    while i < part.spans.len()
        invariant
            i <= part.spans.len(),
            best matches Some(b) ==> b < part.spans.len(),
            first_italic_from(
                part.spans@,
                i as int,
                match best {
                    Some(b) => Some(b as int),
                    None => None,
                },
            ) == first_italic_from(part.spans@, 0, None),
        decreases part.spans.len() - i,
    {
        let italic = match part.spans[i].kind {
            SpanKind::Italic => true,
            SpanKind::BoldItalic => true,
            _ => false,
        };
        let better = match best {
            None => true,
            Some(b) => part.spans[i].start < part.spans[b].start,
        };
        if italic && better {
            best = Some(i);
        }
        i = i + 1;
    }
    let b = match best {
        Some(b) => b,
        None => {
            return None;
        },
    };
    let text = chars_of(part.text.as_str());
    let t = match byte_get_exec(&text, part.spans[b].start, part.spans[b].end) {
        Some(t) => t,
        None => {
            return None;
        },
    };
    let title = trim_exec(&t);
    if utf8_len_at_least(&title, 3) {
        Some(trim_exec(&trim_char_exec(&title, ',')))
    } else {
        None
    }
}

/// The name of a project, as Layer 2 writes it.
pub open spec fn site_name_spec(s: SiteV) -> Seq<char> {
    match s {
        SiteV::Wikiquote => "wikiquote"@,
        SiteV::Wikipedia => "wikipedia"@,
        SiteV::Wikisource => "wikisource"@,
        SiteV::Wiktionary => "wiktionary"@,
        SiteV::Commons => "commons"@,
        SiteV::Other(n) => n,
    }
}

pub fn site_name(s: &Site) -> (r: String)
    ensures
        r@ == site_name_spec(s@),
{
    match s {
        Site::Wikiquote => string_of(&chars_of("wikiquote")),
        Site::Wikipedia => string_of(&chars_of("wikipedia")),
        Site::Wikisource => string_of(&chars_of("wikisource")),
        Site::Wiktionary => string_of(&chars_of("wiktionary")),
        Site::Commons => string_of(&chars_of("commons")),
        Site::Other(n) => n.clone(),
    }
}

/// The kind of work a `{{cite …}}` template names.
pub open spec fn cite_work_type(name: Seq<char>) -> Option<Seq<char>> {
    if name == "cite book"@ {
        Some("book"@)
    } else if name == "cite journal"@ {
        Some("journal article"@)
    } else if name == "cite news"@ {
        Some("news article"@)
    } else if name == "cite web"@ {
        Some("web page"@)
    } else if name == "cite episode"@ {
        Some("episode"@)
    } else if name == "cite interview"@ {
        Some("interview"@)
    } else if name == "cite speech"@ {
        Some("speech"@)
    } else {
        None
    }
}

fn cite_work_type_exec(name: &Vec<char>) -> (r: Option<Vec<char>>)
    ensures
        match r {
            Some(v) => cite_work_type(name@) == Some(v@),
            None => cite_work_type(name@) is None,
        },
{
    let k = if eq_lit(name, "cite book") {
        "book"
    } else if eq_lit(name, "cite journal") {
        "journal article"
    } else if eq_lit(name, "cite news") {
        "news article"
    } else if eq_lit(name, "cite web") {
        "web page"
    } else if eq_lit(name, "cite episode") {
        "episode"
    } else if eq_lit(name, "cite interview") {
        "interview"
    } else if eq_lit(name, "cite speech") {
        "speech"
    } else {
        return None;
    };
    Some(chars_of(k))
}

/// A field keeps its value unless the new one says something.
pub open spec fn set(field: Option<Seq<char>>, value: Option<Seq<char>>) -> Option<Seq<char>> {
    match value {
        Some(v) => Some(v),
        None => field,
    }
}

fn set_exec(field: &mut Option<String>, value: Option<Vec<char>>)
    ensures
        final(field).deep_view() == set(
            old(field).deep_view(),
            match value {
                Some(v) => Some(v@),
                None => None,
            },
        ),
{
    if let Some(v) = value {
        *field = Some(string_of(&v));
    }
}

/// The first value among `keys` that is present and not empty.
pub open spec fn first_param(t: TemplateRef, a: Seq<char>, b: Seq<char>, c: Seq<char>) -> Option<
    Seq<char>,
> {
    match nonempty_param(t, a) {
        Some(v) => Some(v),
        None => match nonempty_param(t, b) {
            Some(v) => Some(v),
            None => nonempty_param(t, c),
        },
    }
}

/// A source with a date read from a citation. The new date replaces the
/// old one whole: its end is kept only when the new date is a range.
pub open spec fn with_date(s: SourceV, d: Option<DateV>) -> SourceV {
    match d {
        Some((iso, end, precision, raw)) => SourceV {
            date_iso: Some(iso),
            date_end_iso: end,
            date_precision: Some(precision),
            date_raw: Some(raw),
            ..s
        },
        None => s,
    }
}

/// The name and the parameters of a template, as a `CiteTemplate` records them.
pub open spec fn cite_record(t: TemplateRef) -> (Seq<char>, Seq<(Seq<char>, Seq<char>)>) {
    (t.name@, t.params@.map_values(|p: (String, String)| (p.0@, p.1@)))
}

/// What a `{{cite …}}` call gives a source.
pub open spec fn cite_spec(s: SourceV, t: TemplateRef) -> SourceV {
    let date_text = match nonempty_param(t, "date"@) {
        Some(v) => Some(v),
        None => nonempty_param(t, "year"@),
    };
    let s1 = SourceV {
        work_title: set(s.work_title, nonempty_param(t, "title"@)),
        publication: set(s.publication, first_param(t, "journal"@, "work"@, "newspaper"@)),
        publisher: set(s.publisher, nonempty_param(t, "publisher"@)),
        isbn: set(s.isbn, nonempty_param(t, "isbn"@)),
        url: set(s.url, nonempty_param(t, "url"@)),
        work_type: set(s.work_type, cite_work_type(t.name@)),
        ..s
    };
    let s2 = match date_text {
        Some(d) => with_date(s1, read_date_spec(d)),
        None => s1,
    };
    SourceV { cite_templates: s2.cite_templates.push(cite_record(t)), ..s2 }
}

/// What one span of a citation line gives a source.
pub open spec fn span_spec(s: SourceV, part: RichText, span: Span) -> SourceV {
    match span.kind {
        SpanKind::ExternalLink { url } => if url@.len() > 0 {
            SourceV { url: Some(url@), ..s }
        } else {
            s
        },
        SpanKind::Link { target } => {
            let is_work = target.site is Wikisource || match byte_get(
                part.text@,
                span.start as int,
                span.end as int,
            ) {
                Some(shown) => s.work_title == Some(trim(shown)),
                None => false,
            };
            if is_work {
                SourceV {
                    work_link_site: Some(site_name_spec(target.site@)),
                    work_link_title: Some(target.title@),
                    ..s
                }
            } else {
                s
            }
        },
        SpanKind::Template(t) => {
            let s1 = if t.name@ == "isbn"@ {
                SourceV { isbn: set(s.isbn, param_of(t, "1"@)), ..s }
            } else {
                s
            };
            if !starts_with(t.name@, "cite"@) && t.name@ != "citation"@ {
                s1
            } else {
                cite_spec(s1, t)
            }
        },
        _ => s,
    }
}

/// The spans from `i` on, applied in order.
pub open spec fn spans_spec(s: SourceV, part: RichText, i: int) -> SourceV
    decreases part.spans@.len() - i,
{
    if i < 0 || i >= part.spans@.len() {
        s
    } else {
        spans_spec(span_spec(s, part, part.spans@[i]), part, i + 1)
    }
}

/// The fields of a source that `apply` leaves alone are unchanged.
pub open spec fn keeps_rest(a: Source, b: Source) -> bool {
    &&& a.raw == b.raw
    &&& a.complete == b.complete
    &&& a.parts == b.parts
    &&& a.work_year == b.work_year
    &&& a.episode_series == b.episode_series
    &&& a.episode_season == b.episode_season
    &&& a.episode_number == b.episode_number
    &&& a.episode_title == b.episode_title
}

/// Everything one citation part says about a source. Later parts win over
/// earlier ones; a part that says nothing about a field leaves it alone.
pub open spec fn apply_spec(s: SourceV, part: RichText) -> SourceV {
    let text = part.text@;
    let s1 = SourceV { work_title: set(s.work_title, first_italic_spec(part)), ..s };
    let s2 = spans_spec(s1, part, 0);
    let s3 = with_date(s2, read_date_spec(before_retrieval_spec(text)));
    SourceV {
        locator_page: set(s3.locator_page, capture_spec(PAGE@, text)),
        locator_chapter: set(s3.locator_chapter, capture_spec(CHAPTER@, text)),
        locator_part: set(s3.locator_part, capture_spec(PART@, text)),
        locator_act_scene: set(s3.locator_act_scene, capture_spec(ACT@, text)),
        locator_line: set(s3.locator_line, capture_spec(LINE@, text)),
        isbn: set(s3.isbn, capture_group_spec(ISBN@, text)),
        occasion: set(s3.occasion, occasion_spec(text)),
        ..s3
    }
}

fn apply_date(source: &mut Source, d: Option<Date>)
    ensures
        final(source)@ == with_date(
            old(source)@,
            match d {
                Some(d) => Some(date_view(d)),
                None => None,
            },
        ),
        keeps_rest(*old(source), *final(source)),
        final(source).cite_templates == old(source).cite_templates,
{
    if let Some(d) = d {
        source.date_iso = Some(string_of(&d.iso));
        source.date_end_iso = match d.end {
            Some(e) => Some(string_of(&e)),
            None => None,
        };
        source.date_precision = Some(string_of(&d.precision));
        source.date_raw = Some(string_of(&d.raw));
    }
}

fn cite_params(t: &TemplateRef) -> (r: Vec<Param>)
    ensures
        params_view(r@) == cite_record(*t).1,
{
    let mut r: Vec<Param> = Vec::new();
    let mut i: usize = 0;
    while i < t.params.len()
        invariant
            i <= t.params.len(),
            params_view(r@) =~= t.params@.take(i as int).map_values(
                |p: (String, String)| (p.0@, p.1@),
            ),
        decreases t.params.len() - i,
    {
        let ghost before = r@;
        r.push(Param { key: t.params[i].0.clone(), value: t.params[i].1.clone() });
        assert(params_view(r@) =~= params_view(before).push(
            (t.params@[i as int].0@, t.params@[i as int].1@),
        ));
        assert(t.params@.take(i + 1).map_values(|p: (String, String)| (p.0@, p.1@))
            =~= t.params@.take(i as int).map_values(|p: (String, String)| (p.0@, p.1@)).push(
            (t.params@[i as int].0@, t.params@[i as int].1@),
        ));
        i = i + 1;
    }
    assert(t.params@.take(t.params.len() as int) =~= t.params@);
    r
}

#[verifier::rlimit(60)]
fn read_cite_template(source: &mut Source, t: &TemplateRef)
    ensures
        final(source)@ == cite_spec(old(source)@, *t),
        keeps_rest(*old(source), *final(source)),
{
    set_exec(&mut source.work_title, t.param_nonempty("title"));
    let publication = match t.param_nonempty("journal") {
        Some(v) => Some(v),
        None => match t.param_nonempty("work") {
            Some(v) => Some(v),
            None => t.param_nonempty("newspaper"),
        },
    };
    set_exec(&mut source.publication, publication);
    set_exec(&mut source.publisher, t.param_nonempty("publisher"));
    set_exec(&mut source.isbn, t.param_nonempty("isbn"));
    set_exec(&mut source.url, t.param_nonempty("url"));
    let name = chars_of(t.name.as_str());
    set_exec(&mut source.work_type, cite_work_type_exec(&name));
    let date_text = match t.param_nonempty("date") {
        Some(v) => Some(v),
        None => t.param_nonempty("year"),
    };
    if let Some(d) = date_text {
        let date = read_date(&d);
        apply_date(source, date);
    }
    let ghost before = source.cite_templates@;
    source.cite_templates.push(CiteTemplate { name: t.name.clone(), params: cite_params(t) });
    assert(crate::quote::cites_view(source.cite_templates@) =~= crate::quote::cites_view(before).push(
        cite_record(*t),
    ));
}

fn read_span(source: &mut Source, part: &RichText, text: &Vec<char>, span: &Span)
    requires
        text@ == part.text@,
    ensures
        final(source)@ == span_spec(old(source)@, *part, *span),
        keeps_rest(*old(source), *final(source)),
{
    match &span.kind {
        SpanKind::ExternalLink { url } => {
            if chars_of(url.as_str()).len() > 0 {
                source.url = Some(url.clone());
            }
        },
        SpanKind::Link { target } => {
            let is_work = match target.site {
                Site::Wikisource => true,
                _ => match byte_get_exec(text, span.start, span.end) {
                    Some(shown) => {
                        let shown = trim_exec(&shown);
                        match &source.work_title {
                            Some(w) => {
                                let wc = chars_of(w.as_str());
                                crate::text::eq_chars(&wc, &shown)
                            },
                            None => false,
                        }
                    },
                    None => false,
                },
            };
            if is_work {
                source.work_link_site = Some(site_name(&target.site));
                source.work_link_title = Some(target.title.clone());
            }
        },
        SpanKind::Template(t) => {
            let name = chars_of(t.name.as_str());
            if eq_lit(&name, "isbn") {
                match t.param("1") {
                    Some(v) => {
                        source.isbn = Some(string_of(&chars_of(v)));
                    },
                    None => {},
                }
            }
            if !starts_with_lit(&name, "cite") && !eq_lit(&name, "citation") {
                return;
            }
            read_cite_template(source, t);
        },
        _ => {},
    }
}

/// Fills in whatever `part` says. Later parts win over earlier ones, because
/// the parts arrive outermost heading first and the line nearest the quote is
/// the most specific.
pub fn apply(source: &mut Source, part: &RichText)
    ensures
        final(source)@ == apply_spec(old(source)@, *part),
        keeps_rest(*old(source), *final(source)),
{
    let text = chars_of(part.text.as_str());
    set_exec(&mut source.work_title, first_italic(part));
    let ghost s1 = source@;
    let ghost start = *source;
    let mut i: usize = 0;
    while i < part.spans.len()
        invariant
            i <= part.spans.len(),
            text@ == part.text@,
            spans_spec(source@, *part, i as int) == spans_spec(s1, *part, 0),
            keeps_rest(start, *source),
        decreases part.spans.len() - i,
    {
        read_span(source, part, &text, &part.spans[i]);
        i = i + 1;
    }
    let cut = before_retrieval(&text);
    let date = read_date(&cut);
    apply_date(source, date);
    set_exec(&mut source.locator_page, capture(PAGE, &text, 0));
    set_exec(&mut source.locator_chapter, capture(CHAPTER, &text, 0));
    set_exec(&mut source.locator_part, capture(PART, &text, 0));
    set_exec(&mut source.locator_act_scene, capture(ACT, &text, 0));
    set_exec(&mut source.locator_line, capture(LINE, &text, 0));
    set_exec(&mut source.isbn, capture(ISBN, &text, 1));
    set_exec(&mut source.occasion, read_occasion(&text));
}

proof fn lemma_spans_keep_locators(s: SourceV, part: RichText, i: int)
    ensures
        spans_spec(s, part, i).locator_page == s.locator_page,
        spans_spec(s, part, i).locator_chapter == s.locator_chapter,
        spans_spec(s, part, i).locator_part == s.locator_part,
        spans_spec(s, part, i).locator_act_scene == s.locator_act_scene,
        spans_spec(s, part, i).locator_line == s.locator_line,
        spans_spec(s, part, i).occasion == s.occasion,
    decreases part.spans@.len() - i,
{
    if 0 <= i < part.spans@.len() {
        lemma_spans_keep_locators(span_spec(s, part, part.spans@[i]), part, i + 1);
    }
}

/// Later parts win, and a part that says nothing about a field leaves it
/// alone: after two parts, each locator, the ISBN and the occasion are the
/// second part's when it gives them and the first part's result otherwise.
pub proof fn law_a_later_part_wins(s: SourceV, first: RichText, second: RichText)
    ensures
        ({
            let a = apply_spec(s, first);
            let b = apply_spec(a, second);
            let t = second.text@;
            &&& b.locator_page == match capture_spec(PAGE@, t) {
                Some(v) => Some(v),
                None => a.locator_page,
            }
            &&& b.locator_chapter == match capture_spec(CHAPTER@, t) {
                Some(v) => Some(v),
                None => a.locator_chapter,
            }
            &&& b.locator_part == match capture_spec(PART@, t) {
                Some(v) => Some(v),
                None => a.locator_part,
            }
            &&& b.locator_act_scene == match capture_spec(ACT@, t) {
                Some(v) => Some(v),
                None => a.locator_act_scene,
            }
            &&& b.locator_line == match capture_spec(LINE@, t) {
                Some(v) => Some(v),
                None => a.locator_line,
            }
            &&& b.occasion == match occasion_spec(t) {
                Some(v) => Some(v),
                None => a.occasion,
            }
        }),
{
    let a = apply_spec(s, first);
    let a1 = SourceV { work_title: set(a.work_title, first_italic_spec(second)), ..a };
    lemma_spans_keep_locators(a1, second, 0);
}

/// A part with no words and no spans leaves every field but those the
/// patterns could read from an empty text as it was: the title, the links
/// and the templates.
pub proof fn law_an_empty_part_names_no_work(s: SourceV, part: RichText)
    requires
        part.spans@.len() == 0,
    ensures
        apply_spec(s, part).work_title == s.work_title,
        apply_spec(s, part).work_link_site == s.work_link_site,
        apply_spec(s, part).work_link_title == s.work_link_title,
        apply_spec(s, part).cite_templates == s.cite_templates,
        apply_spec(s, part).publication == s.publication,
{
}

/// An end date stands only beside a date range or a decade.
pub open spec fn end_only_for_a_range(s: SourceV) -> bool {
    s.date_end_iso is Some ==> (s.date_precision == Some("range"@) || s.date_precision == Some(
        "decade"@,
    ))
}

/// A date read from a text has an end exactly when it is a range, and its
/// precision is one of year, month, day, circa and range.
pub proof fn law_a_date_has_an_end_only_as_a_range(text: Seq<char>)
    ensures
        read_date_spec(text) matches Some((iso, end, precision, raw)) ==> ((end is Some) <==> precision
            == "range"@) && (precision == "year"@ || precision == "month"@ || precision == "day"@
            || precision == "circa"@ || precision == "range"@),
{
    reveal_strlit("year");
    reveal_strlit("month");
    reveal_strlit("day");
    reveal_strlit("circa");
    reveal_strlit("range");
    assert("year"@.len() != "range"@.len());
    assert("month"@[0] != "range"@[0]);
    assert("day"@.len() != "range"@.len());
    assert("circa"@[0] != "range"@[0]);
}

proof fn lemma_with_date_keeps_the_range_rule(s: SourceV, d: Option<DateV>)
    requires
        end_only_for_a_range(s),
        d matches Some((iso, end, precision, raw)) ==> ((end is Some) <==> precision == "range"@),
    ensures
        end_only_for_a_range(with_date(s, d)),
{
}

proof fn lemma_spans_keep_the_range_rule(s: SourceV, part: RichText, i: int)
    requires
        end_only_for_a_range(s),
    ensures
        end_only_for_a_range(spans_spec(s, part, i)),
    decreases part.spans@.len() - i,
{
    if 0 <= i < part.spans@.len() {
        let span = part.spans@[i];
        match span.kind {
            SpanKind::Template(t) => {
                let date_text = match nonempty_param(t, "date"@) {
                    Some(v) => Some(v),
                    None => nonempty_param(t, "year"@),
                };
                match date_text {
                    Some(d) => {
                        law_a_date_has_an_end_only_as_a_range(d);
                    },
                    None => {},
                }
            },
            _ => {},
        }
        lemma_spans_keep_the_range_rule(span_spec(s, part, span), part, i + 1);
    }
}

/// A citation part keeps the rule that an end date stands only beside a
/// range or a decade: a new date replaces the old one whole.
pub proof fn law_a_part_keeps_an_end_only_for_a_range(s: SourceV, part: RichText)
    requires
        end_only_for_a_range(s),
    ensures
        end_only_for_a_range(apply_spec(s, part)),
{
    let s1 = SourceV { work_title: set(s.work_title, first_italic_spec(part)), ..s };
    lemma_spans_keep_the_range_rule(s1, part, 0);
    law_a_date_has_an_end_only_as_a_range(before_retrieval_spec(part.text@));
    lemma_with_date_keeps_the_range_rule(
        spans_spec(s1, part, 0),
        read_date_spec(before_retrieval_spec(part.text@)),
    );
}

/// `b` keeps every field `a` has filled, all but the end of the date, and
/// keeps the cite templates of `a` in front of its own.
pub open spec fn fills(a: SourceV, b: SourceV) -> bool {
    &&& a.work_title is Some ==> b.work_title is Some
    &&& a.work_type is Some ==> b.work_type is Some
    &&& a.work_link_site is Some ==> b.work_link_site is Some
    &&& a.work_link_title is Some ==> b.work_link_title is Some
    &&& a.date_iso is Some ==> b.date_iso is Some
    &&& a.date_precision is Some ==> b.date_precision is Some
    &&& a.date_raw is Some ==> b.date_raw is Some
    &&& a.locator_page is Some ==> b.locator_page is Some
    &&& a.locator_chapter is Some ==> b.locator_chapter is Some
    &&& a.locator_part is Some ==> b.locator_part is Some
    &&& a.locator_act_scene is Some ==> b.locator_act_scene is Some
    &&& a.locator_line is Some ==> b.locator_line is Some
    &&& a.publication is Some ==> b.publication is Some
    &&& a.publisher is Some ==> b.publisher is Some
    &&& a.isbn is Some ==> b.isbn is Some
    &&& a.url is Some ==> b.url is Some
    &&& a.occasion is Some ==> b.occasion is Some
    &&& a.cite_templates.len() <= b.cite_templates.len()
    &&& b.cite_templates.take(a.cite_templates.len() as int) == a.cite_templates
}

proof fn lemma_fills_refl(a: SourceV)
    ensures
        fills(a, a),
{
    assert(a.cite_templates.take(a.cite_templates.len() as int) =~= a.cite_templates);
}

proof fn lemma_fills_trans(a: SourceV, b: SourceV, c: SourceV)
    requires
        fills(a, b),
        fills(b, c),
    ensures
        fills(a, c),
{
    assert(c.cite_templates.take(a.cite_templates.len() as int) =~= c.cite_templates.take(
        b.cite_templates.len() as int,
    ).take(a.cite_templates.len() as int));
}

proof fn lemma_span_fills(s: SourceV, part: RichText, span: Span)
    ensures
        fills(s, span_spec(s, part, span)),
{
    lemma_fills_refl(s);
    match span.kind {
        SpanKind::Template(t) => {
            let s1 = if t.name@ == "isbn"@ {
                SourceV { isbn: set(s.isbn, param_of(t, "1"@)), ..s }
            } else {
                s
            };
            lemma_fills_refl(s1);
            let r = cite_spec(s1, t);
            assert(r.cite_templates.take(s1.cite_templates.len() as int) =~= s1.cite_templates);
        },
        _ => {},
    }
}

proof fn lemma_spans_fill(s: SourceV, part: RichText, i: int)
    ensures
        fills(s, spans_spec(s, part, i)),
    decreases part.spans@.len() - i,
{
    if 0 <= i < part.spans@.len() {
        let s1 = span_spec(s, part, part.spans@[i]);
        lemma_span_fills(s, part, part.spans@[i]);
        lemma_spans_fill(s1, part, i + 1);
        lemma_fills_trans(s, s1, spans_spec(s1, part, i + 1));
    } else {
        lemma_fills_refl(s);
    }
}

/// A citation part only fills fields in: every field that had a value keeps
/// one, except the end of the date, which goes when a new date that is not
/// a range replaces the old one; the cite templates already read stay, in
/// front of any new ones.
pub proof fn law_a_part_only_fills_fields_in(s: SourceV, part: RichText)
    ensures
        fills(s, apply_spec(s, part)),
{
    let s1 = SourceV { work_title: set(s.work_title, first_italic_spec(part)), ..s };
    lemma_fills_refl(s);
    assert(fills(s, s1));
    lemma_spans_fill(s1, part, 0);
    lemma_fills_trans(s, s1, spans_spec(s1, part, 0));
    let s2 = spans_spec(s1, part, 0);
    let s3 = with_date(s2, read_date_spec(before_retrieval_spec(part.text@)));
    lemma_fills_refl(s2);
    assert(fills(s2, s3));
    lemma_fills_trans(s, s2, s3);
    lemma_fills_refl(s3);
    assert(fills(s3, apply_spec(s, part)));
    lemma_fills_trans(s, s3, apply_spec(s, part));
}

/// One of the markers after which a line stops talking about the quote
/// stands at `k`, letters compared without case.
pub open spec fn retrieval_marker_at(text: Seq<char>, k: int) -> bool {
    ||| occurs_at_ci(text, "retrieved"@, k)
    ||| occurs_at_ci(text, "accessed"@, k)
    ||| occurs_at_ci(text, "archived"@, k)
    ||| occurs_at_ci(text, "as reported in"@, k)
}

/// What is kept of a citation line is a prefix of it that holds no marker,
/// cut, when anything is cut, just where the first marker starts; a line
/// with no marker is kept whole.
pub proof fn law_the_line_is_cut_before_the_first_marker(text: Seq<char>)
    ensures
        ({
            let r = before_retrieval_spec(text);
            &&& r.len() <= text.len()
            &&& text.take(r.len() as int) == r
            &&& forall|k: int| 0 <= k < r.len() ==> !retrieval_marker_at(text, k)
            &&& r.len() < text.len() ==> retrieval_marker_at(text, r.len() as int)
            &&& (forall|k: int| 0 <= k < text.len() ==> !retrieval_marker_at(text, k)) ==> r
                == text
        }),
{
    lemma_find_ci_bounds(text, "retrieved"@, 0);
    lemma_find_ci_bounds(text, "accessed"@, 0);
    lemma_find_ci_bounds(text, "archived"@, 0);
    lemma_find_ci_bounds(text, "as reported in"@, 0);
    reveal_strlit("retrieved");
    reveal_strlit("accessed");
    reveal_strlit("archived");
    reveal_strlit("as reported in");
    let r = before_retrieval_spec(text);
    let first = min_index(
        min_index(find_ci_from(text, "retrieved"@, 0), find_ci_from(text, "accessed"@, 0)),
        min_index(find_ci_from(text, "archived"@, 0), find_ci_from(text, "as reported in"@, 0)),
    );
    match first {
        Some(k) => {
            assert(r =~= text.take(k));
            assert(text.take(r.len() as int) =~= r);
            assert(retrieval_marker_at(text, k));
            assert forall|m: int| 0 <= m < r.len() implies !retrieval_marker_at(text, m) by {
                assert(m < k);
            }
        },
        None => {
            assert(r =~= text);
            assert(text.take(r.len() as int) =~= r);
        },
    }
}

/// The English month names, January first.
pub open spec fn month_names() -> Seq<Seq<char>> {
    seq![
        "january"@, "february"@, "march"@, "april"@, "may"@, "june"@, "july"@, "august"@,
        "september"@, "october"@, "november"@, "december"@,
    ]
}

proof fn lemma_utf8_len_at_least_len(s: Seq<char>)
    ensures
        utf8_len(s) >= s.len(),
    decreases s.len(),
{
    if s.len() > 0 {
        lemma_utf8_len_at_least_len(s.drop_last());
    }
}

proof fn lemma_prefix_hits(w: Seq<char>, p: Seq<char>)
    requires
        3 <= p.len() <= w.len(),
        p == w.take(p.len() as int),
    ensures
        month_hit(w, p),
{
    lemma_utf8_len_at_least_len(p);
    assert(w.subrange(0, p.len() as int) == p);
}

proof fn lemma_prefix_misses(m: Seq<char>, w: Seq<char>, p: Seq<char>)
    requires
        3 <= p.len() <= w.len(),
        p == w.take(p.len() as int),
        m.len() >= 3,
        m[0] != w[0] || m[1] != w[1] || m[2] != w[2],
    ensures
        !month_hit(m, p),
{
    assert(p[0] == w[0] && p[1] == w[1] && p[2] == w[2]);
    if m == p {
        assert(m[0] == p[0]);
    }
    if starts_with(m, p) {
        let q = m.subrange(0, p.len() as int);
        assert(q[0] == m[0] && q[1] == m[1] && q[2] == m[2]);
    }
}

/// A month is read by its name, case and a final dot aside: the full
/// English name of a month, or its first three letters or more, gives that
/// month's number in the calendar, January being 1 and December 12.
pub proof fn law_a_month_name_gives_its_calendar_number(raw: Seq<char>, k: int, j: int)
    requires
        0 <= k < 12,
        3 <= j <= month_names()[k].len(),
        lowercase(trim_end_char(raw, '.')) == month_names()[k].take(j),
    ensures
        month_number(raw) == Some((k + 1) as nat),
{
    reveal_strlit("january");
    reveal_strlit("february");
    reveal_strlit("march");
    reveal_strlit("april");
    reveal_strlit("may");
    reveal_strlit("june");
    reveal_strlit("july");
    reveal_strlit("august");
    reveal_strlit("september");
    reveal_strlit("october");
    reveal_strlit("november");
    reveal_strlit("december");
    let w = month_names()[k];
    let p = w.take(j);
    assert(p.len() == j);
    if k == 0 {
        assert(w == "january"@);
        lemma_prefix_hits("january"@, p);
    } else if k == 1 {
        assert(w == "february"@);
        lemma_prefix_hits("february"@, p);
        lemma_prefix_misses("january"@, "february"@, p);
    } else if k == 2 {
        assert(w == "march"@);
        lemma_prefix_hits("march"@, p);
        lemma_prefix_misses("january"@, "march"@, p);
        lemma_prefix_misses("february"@, "march"@, p);
    } else if k == 3 {
        assert(w == "april"@);
        lemma_prefix_hits("april"@, p);
        lemma_prefix_misses("january"@, "april"@, p);
        lemma_prefix_misses("february"@, "april"@, p);
        lemma_prefix_misses("march"@, "april"@, p);
    } else if k == 4 {
        assert(w == "may"@);
        lemma_prefix_hits("may"@, p);
        lemma_prefix_misses("january"@, "may"@, p);
        lemma_prefix_misses("february"@, "may"@, p);
        lemma_prefix_misses("march"@, "may"@, p);
        lemma_prefix_misses("april"@, "may"@, p);
    } else if k == 5 {
        assert(w == "june"@);
        lemma_prefix_hits("june"@, p);
        lemma_prefix_misses("january"@, "june"@, p);
        lemma_prefix_misses("february"@, "june"@, p);
        lemma_prefix_misses("march"@, "june"@, p);
        lemma_prefix_misses("april"@, "june"@, p);
        lemma_prefix_misses("may"@, "june"@, p);
    } else if k == 6 {
        assert(w == "july"@);
        lemma_prefix_hits("july"@, p);
        lemma_prefix_misses("january"@, "july"@, p);
        lemma_prefix_misses("february"@, "july"@, p);
        lemma_prefix_misses("march"@, "july"@, p);
        lemma_prefix_misses("april"@, "july"@, p);
        lemma_prefix_misses("may"@, "july"@, p);
        lemma_prefix_misses("june"@, "july"@, p);
    } else if k == 7 {
        assert(w == "august"@);
        lemma_prefix_hits("august"@, p);
        lemma_prefix_misses("january"@, "august"@, p);
        lemma_prefix_misses("february"@, "august"@, p);
        lemma_prefix_misses("march"@, "august"@, p);
        lemma_prefix_misses("april"@, "august"@, p);
        lemma_prefix_misses("may"@, "august"@, p);
        lemma_prefix_misses("june"@, "august"@, p);
        lemma_prefix_misses("july"@, "august"@, p);
    } else if k == 8 {
        assert(w == "september"@);
        lemma_prefix_hits("september"@, p);
        lemma_prefix_misses("january"@, "september"@, p);
        lemma_prefix_misses("february"@, "september"@, p);
        lemma_prefix_misses("march"@, "september"@, p);
        lemma_prefix_misses("april"@, "september"@, p);
        lemma_prefix_misses("may"@, "september"@, p);
        lemma_prefix_misses("june"@, "september"@, p);
        lemma_prefix_misses("july"@, "september"@, p);
        lemma_prefix_misses("august"@, "september"@, p);
    } else if k == 9 {
        assert(w == "october"@);
        lemma_prefix_hits("october"@, p);
        lemma_prefix_misses("january"@, "october"@, p);
        lemma_prefix_misses("february"@, "october"@, p);
        lemma_prefix_misses("march"@, "october"@, p);
        lemma_prefix_misses("april"@, "october"@, p);
        lemma_prefix_misses("may"@, "october"@, p);
        lemma_prefix_misses("june"@, "october"@, p);
        lemma_prefix_misses("july"@, "october"@, p);
        lemma_prefix_misses("august"@, "october"@, p);
        lemma_prefix_misses("september"@, "october"@, p);
    } else if k == 10 {
        assert(w == "november"@);
        lemma_prefix_hits("november"@, p);
        lemma_prefix_misses("january"@, "november"@, p);
        lemma_prefix_misses("february"@, "november"@, p);
        lemma_prefix_misses("march"@, "november"@, p);
        lemma_prefix_misses("april"@, "november"@, p);
        lemma_prefix_misses("may"@, "november"@, p);
        lemma_prefix_misses("june"@, "november"@, p);
        lemma_prefix_misses("july"@, "november"@, p);
        lemma_prefix_misses("august"@, "november"@, p);
        lemma_prefix_misses("september"@, "november"@, p);
        lemma_prefix_misses("october"@, "november"@, p);
    } else if k == 11 {
        assert(w == "december"@);
        lemma_prefix_hits("december"@, p);
        lemma_prefix_misses("january"@, "december"@, p);
        lemma_prefix_misses("february"@, "december"@, p);
        lemma_prefix_misses("march"@, "december"@, p);
        lemma_prefix_misses("april"@, "december"@, p);
        lemma_prefix_misses("may"@, "december"@, p);
        lemma_prefix_misses("june"@, "december"@, p);
        lemma_prefix_misses("july"@, "december"@, p);
        lemma_prefix_misses("august"@, "december"@, p);
        lemma_prefix_misses("september"@, "december"@, p);
        lemma_prefix_misses("october"@, "december"@, p);
        lemma_prefix_misses("november"@, "december"@, p);
    }
}

/// A word read as a month is the name of that month, or three or more of
/// its first letters, case and a final dot aside; the number is between 1
/// and 12.
pub proof fn law_a_month_number_names_a_month(raw: Seq<char>)
    ensures
        month_number(raw) matches Some(m) ==> 1 <= m <= 12 && month_hit(
            month_names()[m - 1],
            lowercase(trim_end_char(raw, '.')),
        ),
{
}

/// A date written day, month, year (`23 December 1776`) or month, day,
/// year (`December 23, 1776`) reads as the year, the calendar number of the
/// month and the day, in that order, with the precision "day", once no BCE
/// year and no bracketed range came first.
pub proof fn law_a_full_date_reads_year_month_day(text: Seq<char>, m: DateMatchesV)
    requires
        m.bce is None,
        m.range is None,
    ensures
        ({
            let c = m.day_month_year->0;
            m.day_month_year is Some && month_number(group_text(c, 2)) is Some && parse_unsigned(
                group_text(c, 1),
                10,
                0xff,
            ) is Some && parse_unsigned(group_text(c, 3), 10, 0xffff) is Some ==> date_from_matches(
                text,
                m,
            ) == Some(
                (
                    padded4(parse_unsigned(group_text(c, 3), 10, 0xffff)->0 as int) + "-"@ + padded2(
                        month_number(group_text(c, 2))->0,
                    ) + "-"@ + padded2(parse_unsigned(group_text(c, 1), 10, 0xff)->0),
                    None::<Seq<char>>,
                    "day"@,
                    trim(group_text(c, 0)),
                ),
            )
        }),
        ({
            let c = m.month_day_year->0;
            !(m.day_month_year is Some && month_number(group_text(m.day_month_year->0, 2)) is Some)
                && m.month_day_year is Some && month_number(group_text(c, 1)) is Some
                && parse_unsigned(group_text(c, 2), 10, 0xff) is Some && parse_unsigned(
                group_text(c, 3),
                10,
                0xffff,
            ) is Some ==> date_from_matches(text, m) == Some(
                (
                    padded4(parse_unsigned(group_text(c, 3), 10, 0xffff)->0 as int) + "-"@ + padded2(
                        month_number(group_text(c, 1))->0,
                    ) + "-"@ + padded2(parse_unsigned(group_text(c, 2), 10, 0xff)->0),
                    None::<Seq<char>>,
                    "day"@,
                    trim(group_text(c, 0)),
                ),
            )
        }),
{
}

} // verus!
