//! What a section heading means.
//!
//! The role decides how a `*` line below the heading is read, so this table is
//! the central heuristic of the pipeline. English only.

use vstd::prelude::*;
use crate::model::{HintV, RoleV, SectionRole, SourceHint};
use crate::number::{lemma_short_i32, parse_i32, parse_i32_spec, parse_u16, parse_unsigned};
use crate::text::{
    alphabetic, alphanumeric, ascii_upper, chars_of, contains, contains_lit, ends_with,
    ends_with_lit, eq_lit, is_alphabetic, is_alphanumeric, is_digit, is_ws, lower, lowercase,
    rfind_char, rfind_char_exec, slice_of, starts_with, starts_with_lit, string_of, strip_prefix,
    strip_prefix_lit, strip_suffix, strip_suffix_lit, to_ascii_uppercase, trim, trim_end,
    trim_end_char, trim_end_char_exec, trim_end_exec, trim_exec, back_from, lemma_rfind_char,
    rfind_char_before,
};

verus! {

// --- the role ---------------------------------------------------------------

/// The heading as the role table reads it: trimmed, without a trailing colon,
/// lowercase.
pub open spec fn normalise(heading: Seq<char>) -> Seq<char> {
    lowercase(trim(trim_end_char(trim(heading), ':')))
}

fn normalise_exec(heading: &Vec<char>) -> (r: Vec<char>)
    ensures
        r@ == normalise(heading@),
{
    let a = trim_exec(heading);
    let b = trim_end_char_exec(&a, ':');
    let c = trim_exec(&b);
    lower(&c)
}

/// `Season One` is as common on Wikiquote as `Season 1`.
pub open spec fn word_number(w: Seq<char>) -> Option<u16> {
    if w == "one"@ {
        Some(1)
    } else if w == "two"@ {
        Some(2)
    } else if w == "three"@ {
        Some(3)
    } else if w == "four"@ {
        Some(4)
    } else if w == "five"@ {
        Some(5)
    } else if w == "six"@ {
        Some(6)
    } else if w == "seven"@ {
        Some(7)
    } else if w == "eight"@ {
        Some(8)
    } else if w == "nine"@ {
        Some(9)
    } else if w == "ten"@ {
        Some(10)
    } else if w == "eleven"@ {
        Some(11)
    } else if w == "twelve"@ {
        Some(12)
    } else {
        None
    }
}

fn word_number_exec(w: &Vec<char>) -> (r: Option<u16>)
    ensures
        r == word_number(w@),
{
    if eq_lit(w, "one") {
        Some(1)
    } else if eq_lit(w, "two") {
        Some(2)
    } else if eq_lit(w, "three") {
        Some(3)
    } else if eq_lit(w, "four") {
        Some(4)
    } else if eq_lit(w, "five") {
        Some(5)
    } else if eq_lit(w, "six") {
        Some(6)
    } else if eq_lit(w, "seven") {
        Some(7)
    } else if eq_lit(w, "eight") {
        Some(8)
    } else if eq_lit(w, "nine") {
        Some(9)
    } else if eq_lit(w, "ten") {
        Some(10)
    } else if eq_lit(w, "eleven") {
        Some(11)
    } else if eq_lit(w, "twelve") {
        Some(12)
    } else {
        None
    }
}

/// The number in `season N`, `series N` or `season one`.
pub open spec fn season_of(name: Seq<char>) -> Option<u16> {
    let rest = match strip_prefix(name, "season "@) {
        Some(r) => Some(trim(r)),
        None => match strip_prefix(name, "series "@) {
            Some(r) => Some(trim(r)),
            None => None,
        },
    };
    match rest {
        Some(rest) => match parse_unsigned(rest, 10, 0xffff) {
            Some(v) => Some(v as u16),
            None => word_number(rest),
        },
        None => None,
    }
}

/// The season a normalised heading names, as `role_of` and `source_hint`
/// read it once the heading is lowercased.
pub fn season_from_name(name: &Vec<char>) -> (r: Option<u16>)
    ensures
        r == season_of(name@),
{
    let rest = match strip_prefix_lit(name, "season ") {
        Some(r) => trim_exec(&r),
        None => match strip_prefix_lit(name, "series ") {
            Some(r) => trim_exec(&r),
            None => {
                return None;
            },
        },
    };
    match parse_u16(&rest) {
        Some(v) => Some(v),
        None => word_number_exec(&rest),
    }
}

/// The role of a heading, from its plain text.
pub open spec fn role_spec(heading: Seq<char>) -> RoleV {
    role_by_name(heading, normalise(heading))
}

/// The role of a heading, given its normalised name (trimmed, without a
/// final colon, lowercased) beside its plain text.
pub open spec fn role_by_name(heading: Seq<char>, name: Seq<char>) -> RoleV {
    let t = trim(heading);
    if contains(name, "misattributed"@) {
        RoleV::Misattributed
    } else if contains(name, "disputed"@) {
        RoleV::Disputed
    } else if contains(name, "unsourced"@) || name == "suggestions"@ {
        RoleV::Unsourced
    } else if starts_with(name, "attributed"@) {
        RoleV::Attributed
    } else if starts_with(name, "quotes about"@) || name == "about"@ || starts_with(
        name,
        "about "@,
    ) {
        RoleV::QuotesAbout
    } else if name == "quotes"@ || name == "quote"@ || name == "quotations"@ || name
        == "sourced"@ || name == "sourced quotes"@ {
        RoleV::Quotes
    } else if name == "dialogue"@ || name == "dialogues"@ || name == "dialog"@ || name
        == "dialogs"@ {
        RoleV::Dialogue
    } else if contains(name, "tagline"@) {
        RoleV::Taglines
    } else if name == "song lyrics"@ || name == "lyrics"@ || name == "songs"@ {
        RoleV::SongLyrics
    } else if ends_with(name, "cast"@) || name == "cast members"@ {
        RoleV::Cast
    } else if name == "episodes"@ || name == "seasons"@ || season_of(name) is Some {
        RoleV::Episodes
    } else if name == "see also"@ || name == "related"@ {
        RoleV::SeeAlso
    } else if starts_with(name, "external link"@) || starts_with(name, "other project"@) {
        RoleV::ExternalLinks
    } else if name == "references"@ || name == "notes"@ || name == "footnotes"@ || name
        == "citations"@ {
        RoleV::References
    } else if t.len() == 1 && alphanumeric(t[0]) {
        RoleV::AlphaBucket(ascii_upper(t[0]))
    } else {
        RoleV::Other(t)
    }
}

/// Reads the role from the plain text of a heading. "Misattributed" holds
/// "attributed", so the longer names are tested first; a heading that is one
/// letter or digit is a sort bucket; anything else keeps its trimmed text.
pub fn role_of(heading: &str) -> (r: SectionRole)
    ensures
        r@ == role_spec(heading@),
{
    let name = normalise_exec(&chars_of(heading));
    role_from_name(heading, &name)
}

/// The role of a heading from its normalised name, as `role_of` reads it
/// once the name is lowercased.
pub fn role_from_name(heading: &str, name: &Vec<char>) -> (r: SectionRole)
    ensures
        r@ == role_by_name(heading@, name@),
{
    let h = chars_of(heading);
    if contains_lit(&name, "misattributed") {
        return SectionRole::Misattributed;
    }
    if contains_lit(&name, "disputed") {
        return SectionRole::Disputed;
    }
    if contains_lit(&name, "unsourced") || eq_lit(&name, "suggestions") {
        return SectionRole::Unsourced;
    }
    if starts_with_lit(&name, "attributed") {
        return SectionRole::Attributed;
    }
    if starts_with_lit(&name, "quotes about") || eq_lit(&name, "about") || starts_with_lit(
        &name,
        "about ",
    ) {
        return SectionRole::QuotesAbout;
    }
    if eq_lit(&name, "quotes") || eq_lit(&name, "quote") || eq_lit(&name, "quotations") || eq_lit(
        &name,
        "sourced",
    ) || eq_lit(&name, "sourced quotes") {
        return SectionRole::Quotes;
    }
    if eq_lit(&name, "dialogue") || eq_lit(&name, "dialogues") || eq_lit(&name, "dialog") || eq_lit(
        &name,
        "dialogs",
    ) {
        return SectionRole::Dialogue;
    }
    if contains_lit(&name, "tagline") {
        return SectionRole::Taglines;
    }
    if eq_lit(&name, "song lyrics") || eq_lit(&name, "lyrics") || eq_lit(&name, "songs") {
        return SectionRole::SongLyrics;
    }
    if ends_with_lit(&name, "cast") || eq_lit(&name, "cast members") {
        return SectionRole::Cast;
    }
    if eq_lit(&name, "episodes") || eq_lit(&name, "seasons") || season_from_name(&name).is_some() {
        return SectionRole::Episodes;
    }
    if eq_lit(&name, "see also") || eq_lit(&name, "related") {
        return SectionRole::SeeAlso;
    }
    if starts_with_lit(&name, "external link") || starts_with_lit(&name, "other project") {
        return SectionRole::ExternalLinks;
    }
    if eq_lit(&name, "references") || eq_lit(&name, "notes") || eq_lit(&name, "footnotes") || eq_lit(
        &name,
        "citations",
    ) {
        return SectionRole::References;
    }
    let t = trim_exec(&h);
    if t.len() == 1 && is_alphanumeric(t[0]) {
        return SectionRole::AlphaBucket(to_ascii_uppercase(t[0]));
    }
    SectionRole::Other(string_of(&t))
}

// --- the source hint --------------------------------------------------------

/// Every character is an ASCII digit.
pub open spec fn all_ascii_digits(s: Seq<char>) -> bool {
    forall|i: int| 0 <= i < s.len() ==> is_digit(#[trigger] s[i])
}

fn all_ascii_digits_exec(s: &Vec<char>) -> (r: bool)
    ensures
        r == all_ascii_digits(s@),
{
    let mut i: usize = 0;
    while i < s.len()
        invariant
            i <= s.len(),
            forall|k: int| 0 <= k < i ==> is_digit(#[trigger] s@[k]),
        decreases s.len() - i,
    {
        if !('0' <= s[i] && s[i] <= '9') {
            return false;
        }
        i = i + 1;
    }
    true
}

pub open spec fn is_roman_char(c: char) -> bool {
    c == 'i' || c == 'v' || c == 'x' || c == 'l' || c == 'c'
}

pub open spec fn all_roman(s: Seq<char>) -> bool {
    forall|i: int| 0 <= i < s.len() ==> is_roman_char(#[trigger] s[i])
}

fn all_roman_exec(s: &Vec<char>) -> (r: bool)
    ensures
        r == all_roman(s@),
{
    let mut i: usize = 0;
    while i < s.len()
        invariant
            i <= s.len(),
            forall|k: int| 0 <= k < i ==> is_roman_char(#[trigger] s@[k]),
        decreases s.len() - i,
    {
        let c = s[i];
        if !(c == 'i' || c == 'v' || c == 'x' || c == 'l' || c == 'c') {
            return false;
        }
        i = i + 1;
    }
    true
}

/// `lower` opens with `label` and the rest is a number: digits, a roman
/// numeral or a number word.
pub open spec fn label_hit(lower: Seq<char>, label: Seq<char>) -> bool {
    match strip_prefix(lower, label) {
        Some(rest) => {
            let rest = trim(rest);
            rest.len() > 0 && (all_ascii_digits(rest) || all_roman(rest) || word_number(
                rest,
            ) is Some)
        },
        None => false,
    }
}

fn label_hit_exec(lower: &Vec<char>, label: &str) -> (r: bool)
    ensures
        r == label_hit(lower@, label@),
{
    match strip_prefix_lit(lower, label) {
        Some(rest) => {
            let rest = trim_exec(&rest);
            rest.len() > 0 && (all_ascii_digits_exec(&rest) || all_roman_exec(&rest)
                || word_number_exec(&rest).is_some())
        },
        None => false,
    }
}

/// A heading that names a place inside a work: `Chapter 5`, `Act II`,
/// `Book I`, `Preface`. The kind of place, if it is one.
pub open spec fn locator_kind(text: Seq<char>) -> Option<Seq<char>> {
    locator_of_lowered(lowercase(trim(text)))
}

/// The kind of place a trimmed, lowercased heading names, if it names one.
pub open spec fn locator_of_lowered(lower: Seq<char>) -> Option<Seq<char>> {
    if label_hit(lower, "chapter"@) || label_hit(lower, "ch."@) || label_hit(lower, "canto"@) {
        Some("chapter"@)
    } else if label_hit(lower, "act"@) || label_hit(lower, "scene"@) {
        Some("act_scene"@)
    } else if label_hit(lower, "part"@) || label_hit(lower, "book"@) || label_hit(
        lower,
        "volume"@,
    ) || label_hit(lower, "vol."@) || label_hit(lower, "no."@) {
        Some("part"@)
    } else if lower == "preface"@ || lower == "prologue"@ || lower == "epilogue"@ || lower
        == "introduction"@ || lower == "incipit"@ || lower == "foreword"@ || lower
        == "afterword"@ {
        Some("part"@)
    } else {
        None
    }
}

fn as_locator(text: &Vec<char>) -> (r: Option<SourceHint>)
    ensures
        match r {
            Some(h) => locator_kind(text@) matches Some(k) && h@ == (HintV::Locator {
                kind: k,
                value: trim(text@),
            }),
            None => locator_kind(text@) is None,
        },
{
    let t = trim_exec(text);
    let l = lower(&t);
    match locator_from_lowered(&l) {
        Some(k) => Some(SourceHint::Locator { kind: string_of(&k), value: string_of(&t) }),
        None => None,
    }
}

/// The kind of place a heading names, from the heading trimmed and
/// lowercased, as `source_hint` reads it.
pub fn locator_from_lowered(l: &Vec<char>) -> (r: Option<Vec<char>>)
    ensures
        match r {
            Some(k) => locator_of_lowered(l@) == Some(k@),
            None => locator_of_lowered(l@) is None,
        },
{
    let kind = if label_hit_exec(l, "chapter") || label_hit_exec(&l, "ch.") || label_hit_exec(
        &l,
        "canto",
    ) {
        "chapter"
    } else if label_hit_exec(&l, "act") || label_hit_exec(&l, "scene") {
        "act_scene"
    } else if label_hit_exec(&l, "part") || label_hit_exec(&l, "book") || label_hit_exec(
        &l,
        "volume",
    ) || label_hit_exec(&l, "vol.") || label_hit_exec(&l, "no.") {
        "part"
    } else if eq_lit(&l, "preface") || eq_lit(&l, "prologue") || eq_lit(&l, "epilogue") || eq_lit(
        &l,
        "introduction",
    ) || eq_lit(&l, "incipit") || eq_lit(&l, "foreword") || eq_lit(&l, "afterword") {
        "part"
    } else {
        return None;
    };
    Some(chars_of(kind))
}

/// The first index at or after `i` that holds `-` or an en dash.
pub open spec fn dash_from(s: Seq<char>, i: int) -> Option<int>
    decreases s.len() - i,
{
    if i < 0 || i >= s.len() {
        None
    } else if s[i] == '-' || s[i] == '\u{2013}' {
        Some(i)
    } else {
        dash_from(s, i + 1)
    }
}

proof fn lemma_dash_from(s: Seq<char>, i: int)
    requires
        0 <= i,
    ensures
        dash_from(s, i) matches Some(k) ==> i <= k < s.len(),
    decreases s.len() - i,
{
    if i < s.len() && !(s[i] == '-' || s[i] == '\u{2013}') {
        lemma_dash_from(s, i + 1);
    }
}

/// `1790s`, `1997` or `1914-1918`.
pub open spec fn period_of(text: Seq<char>) -> Option<(i32, i32)> {
    let t = trim(text);
    let decade = strip_suffix(t, "s"@);
    if decade is Some && parse_i32_spec(decade->0) is Some && decade->0.len() == 4 {
        let y = parse_i32_spec(decade->0)->0;
        Some((y as i32, (y + 9) as i32))
    } else if t.len() == 4 && parse_i32_spec(t) is Some {
        let y = parse_i32_spec(t)->0;
        Some((y as i32, y as i32))
    } else {
        match dash_from(t, 0) {
            Some(k) => {
                let from = parse_i32_spec(trim(t.take(k)));
                let to = parse_i32_spec(trim(t.skip(k + 1)));
                if from is Some && to is Some && from->0 <= to->0 {
                    Some((from->0 as i32, to->0 as i32))
                } else {
                    None
                }
            },
            None => None,
        }
    }
}

fn as_period(text: &Vec<char>) -> (r: Option<SourceHint>)
    ensures
        match r {
            Some(h) => period_of(text@) matches Some((a, b)) && h@ == (HintV::Period {
                from: a,
                to: b,
            }),
            None => period_of(text@) is None,
        },
{
    let t = trim_exec(text);
    if let Some(decade) = strip_suffix_lit(&t, "s") {
        if let Some(year) = parse_i32(&decade) {
            if decade.len() == 4 {
                proof {
                    lemma_short_i32(decade@);
                }
                return Some(SourceHint::Period { from: year, to: year + 9 });
            }
        }
    }
    if t.len() == 4 {
        if let Some(year) = parse_i32(&t) {
            return Some(SourceHint::Period { from: year, to: year });
        }
    }
    let mut i: usize = 0;
    while i < t.len() && !(t[i] == '-' || t[i] == '\u{2013}')
        invariant
            i <= t.len(),
            dash_from(t@, i as int) == dash_from(t@, 0),
        decreases t.len() - i,
    {
        i = i + 1;
    }
    if i == t.len() {
        return None;
    }
    let a = trim_exec(&slice_of(&t, 0, i));
    let b = trim_exec(&slice_of(&t, i + 1, t.len()));
    assert(t@.take(i as int) =~= t@.subrange(0, i as int));
    assert(t@.skip(i + 1) =~= t@.subrange(i + 1, t@.len() as int));
    match (parse_i32(&a), parse_i32(&b)) {
        (Some(from), Some(to)) => {
            if from > to {
                None
            } else {
                Some(SourceHint::Period { from, to })
            }
        },
        _ => None,
    }
}


pub open spec fn is_code_char(c: char) -> bool {
    is_digit(c) || c == '.' || c == 'x' || c == '-'
}

pub open spec fn all_code(s: Seq<char>) -> bool {
    forall|i: int| 0 <= i < s.len() ==> is_code_char(#[trigger] s[i])
}

fn all_code_exec(s: &Vec<char>) -> (r: bool)
    ensures
        r == all_code(s@),
{
    let mut i: usize = 0;
    while i < s.len()
        invariant
            i <= s.len(),
            forall|k: int| 0 <= k < i ==> is_code_char(#[trigger] s@[k]),
        decreases s.len() - i,
    {
        let c = s[i];
        if !(('0' <= c && c <= '9') || c == '.' || c == 'x' || c == '-') {
            return false;
        }
        i = i + 1;
    }
    true
}

/// `Pilot [1.01]`, `The Cage [1x01]` or a plain `Episode 4`: the title and
/// the code.
pub open spec fn episode_of(text: Seq<char>) -> Option<(Option<Seq<char>>, Seq<char>)> {
    let t = trim(text);
    let number = match strip_prefix(t, "Episode "@) {
        Some(r) => Some(trim(r)),
        None => match strip_prefix(t, "episode "@) {
            Some(r) => Some(trim(r)),
            None => None,
        },
    };
    if number is Some && all_ascii_digits(number->0) && number->0.len() > 0 {
        Some((None, number->0))
    } else {
        match (rfind_char(text, '['), rfind_char(text, ']')) {
            (Some(open), Some(close)) => {
                if close < open {
                    None
                } else {
                    let code = trim(text.subrange(open + 1, close));
                    if !(code.len() > 0 && all_code(code)) {
                        None
                    } else {
                        let title = trim(text.take(open));
                        Some((if title.len() > 0 { Some(title) } else { None }, code))
                    }
                }
            },
            _ => None,
        }
    }
}

fn as_episode(text: &Vec<char>) -> (r: Option<SourceHint>)
    ensures
        match r {
            Some(h) => episode_of(text@) matches Some((title, code)) && h@ == (HintV::Episode {
                title,
                code: Some(code),
            }),
            None => episode_of(text@) is None,
        },
{
    let t = trim_exec(text);
    let number = match strip_prefix_lit(&t, "Episode ") {
        Some(r) => Some(trim_exec(&r)),
        None => match strip_prefix_lit(&t, "episode ") {
            Some(r) => Some(trim_exec(&r)),
            None => None,
        },
    };
    if let Some(n) = number {
        if all_ascii_digits_exec(&n) && n.len() > 0 {
            return Some(SourceHint::Episode { title: None, code: Some(string_of(&n)) });
        }
    }
    let open = match rfind_char_exec(text, '[') {
        Some(k) => k,
        None => {
            return None;
        },
    };
    let close = match rfind_char_exec(text, ']') {
        Some(k) => k,
        None => {
            return None;
        },
    };
    if close < open {
        return None;
    }
    proof {
        lemma_rfind_char(text@, '[', text@.len() as int);
        lemma_rfind_char(text@, ']', text@.len() as int);
    }
    assert(open != close);
    let code = trim_exec(&slice_of(text, open + 1, close));
    if !(code.len() > 0 && all_code_exec(&code)) {
        return None;
    }
    let title = trim_exec(&slice_of(text, 0, open));
    assert(text@.take(open as int) =~= text@.subrange(0, open as int));
    let title = if title.len() > 0 {
        Some(string_of(&title))
    } else {
        None
    };
    Some(SourceHint::Episode { title, code: Some(string_of(&code)) })
}

/// The ASCII digits of `s`, in order.
pub open spec fn digits_only(s: Seq<char>) -> Seq<char>
    decreases s.len(),
{
    if s.len() == 0 {
        s
    } else {
        let r = digits_only(s.drop_last());
        if is_digit(s.last()) {
            r.push(s.last())
        } else {
            r
        }
    }
}

fn digits_only_exec(s: &Vec<char>) -> (r: Vec<char>)
    ensures
        r@ == digits_only(s@),
{
    let mut r: Vec<char> = Vec::new();
    let mut i: usize = 0;
    assert(s@.take(0) =~= Seq::<char>::empty());
    while i < s.len()
        invariant
            i <= s.len(),
            r@ == digits_only(s@.take(i as int)),
        decreases s.len() - i,
    {
        assert(s@.take(i + 1).drop_last() =~= s@.take(i as int));
        if '0' <= s[i] && s[i] <= '9' {
            r.push(s[i]);
        }
        i = i + 1;
    }
    assert(s@.take(s.len() as int) =~= s@);
    r
}

/// Splits `Common Sense (1776)` into its title and its year. A year is four
/// digits inside the last brackets, which close the text.
pub open spec fn split_year(text: Seq<char>) -> (Seq<char>, Option<u16>) {
    match rfind_char(text, '(') {
        None => (text, None),
        Some(open) => if !ends_with(trim_end(text), ")"@) {
            (text, None)
        } else {
            let close = match rfind_char(text, ')') {
                Some(c) => c,
                None => text.len() as int,
            };
            let inside = trim(text.subrange(open + 1, close));
            let digits = digits_only(inside);
            if digits.len() != 4 || !(inside.len() > 0 && (is_digit(inside[0]) || alphabetic(
                inside[0],
            ))) {
                (text, None)
            } else {
                match parse_unsigned(digits, 10, 0xffff) {
                    Some(year) => (trim(text.take(open)), Some(year as u16)),
                    None => (text, None),
                }
            }
        },
    }
}

/// Every character from `j` to the end is whitespace once `back_from` stops.
proof fn lemma_back_from_tail(s: Seq<char>, j: int)
    requires
        0 <= j <= s.len(),
    ensures
        0 <= back_from(s, j, true, ' ') <= j,
        forall|k: int| back_from(s, j, true, ' ') <= k < j ==> is_ws(#[trigger] s[k]),
    decreases j,
{
    if 0 < j && is_ws(s[j - 1]) {
        lemma_back_from_tail(s, j - 1);
    }
}

proof fn lemma_rfind_last(s: Seq<char>, c: char, j: int)
    requires
        j <= s.len(),
    ensures
        rfind_char_before(s, c, j) matches Some(k) ==> forall|m: int| k < m < j ==> s[m] != c,
        rfind_char_before(s, c, j) is None ==> forall|m: int| 0 <= m < j ==> s[m] != c,
    decreases j,
{
    if j <= 0 || j > s.len() {
    } else if s[j - 1] == c {
    } else {
        lemma_rfind_last(s, c, j - 1);
    }
}

fn split_year_exec(text: &Vec<char>) -> (r: (Vec<char>, Option<u16>))
    ensures
        (r.0@, r.1) == split_year(text@),
{
    let open = match rfind_char_exec(text, '(') {
        Some(k) => k,
        None => {
            return (slice_of(text, 0, text.len()), None);
        },
    };
    let te = trim_end_exec(text);
    if !ends_with_lit(&te, ")") {
        assert(text@.subrange(0, text@.len() as int) =~= text@);
        return (slice_of(text, 0, text.len()), None);
    }
    let close = match rfind_char_exec(text, ')') {
        Some(c) => c,
        None => text.len(),
    };
    proof {
        let b = back_from(text@, text@.len() as int, true, ' ');
        lemma_back_from_tail(text@, text@.len() as int);
        reveal_strlit(")");
        assert(")"@.len() == 1 && ")"@[0] == ')');
        assert(te@.subrange(te@.len() - 1, te@.len() as int)[0] == ")"@[0]);
        assert(te@[te@.len() - 1] == ')');
        assert(text@[b - 1] == ')');
        lemma_rfind_char(text@, '(', text@.len() as int);
        lemma_rfind_char(text@, ')', text@.len() as int);
        lemma_rfind_last(text@, ')', text@.len() as int);
        assert(close as int == b - 1);
        assert(open < b);
    }
    let inside = trim_exec(&slice_of(text, open + 1, close));
    let digits = digits_only_exec(&inside);
    if digits.len() != 4 || !(inside.len() > 0 && (('0' <= inside[0] && inside[0] <= '9')
        || is_alphabetic(inside[0]))) {
        assert(text@.subrange(0, text@.len() as int) =~= text@);
        return (slice_of(text, 0, text.len()), None);
    }
    match parse_u16(&digits) {
        Some(year) => {
            let title = trim_exec(&slice_of(text, 0, open));
            assert(text@.take(open as int) =~= text@.subrange(0, open as int));
            (title, Some(year))
        },
        None => {
            assert(text@.subrange(0, text@.len() as int) =~= text@);
            (slice_of(text, 0, text.len()), None)
        },
    }
}

/// What a heading says about the source of the quotes below it.
pub open spec fn hint_spec(heading: Seq<char>, is_italic: bool) -> Option<HintV> {
    let text = trim(heading);
    if text.len() == 0 {
        None
    } else if season_of(normalise(text)) is Some {
        Some(HintV::Season { number: season_of(normalise(text))->0 })
    } else if period_of(text) is Some {
        let p = period_of(text)->0;
        Some(HintV::Period { from: p.0, to: p.1 })
    } else if episode_of(text) is Some {
        let e = episode_of(text)->0;
        Some(HintV::Episode { title: e.0, code: Some(e.1) })
    } else if locator_kind(text) is Some {
        Some(HintV::Locator { kind: locator_kind(text)->0, value: trim(text) })
    } else {
        let (title, year) = split_year(text);
        if is_italic || year is Some {
            Some(HintV::Work { title, year })
        } else {
            None
        }
    }
}

/// Reads source meaning from the shape of a heading: a season, a period, an
/// episode, a place inside a work, or a work title (in italics, or followed
/// by a year). `Quotes`, `Misattributed`, `Quotes about X` and the
/// single-letter sort buckets give no hint.
pub fn source_hint(heading: &str, is_italic: bool) -> (r: Option<SourceHint>)
    ensures
        match r {
            Some(h) => hint_spec(heading@, is_italic) == Some(h@),
            None => hint_spec(heading@, is_italic) is None,
        },
{
    let h = chars_of(heading);
    let text = trim_exec(&h);
    if text.len() == 0 {
        return None;
    }
    if let Some(number) = season_from_name(&normalise_exec(&text)) {
        return Some(SourceHint::Season { number });
    }
    if let Some(period) = as_period(&text) {
        return Some(period);
    }
    if let Some(episode) = as_episode(&text) {
        return Some(episode);
    }
    if let Some(locator) = as_locator(&text) {
        return Some(locator);
    }
    let (title, year) = split_year_exec(&text);
    if is_italic || year.is_some() {
        return Some(SourceHint::Work { title: string_of(&title), year });
    }
    None
}

/// "Misattributed" holds "attributed", so the longer name is tested first:
/// a heading that names a misattribution is read as one, and a heading that
/// starts with "attributed" is an attribution unless it also names a
/// misattribution, a dispute or an unsourced list.
pub proof fn law_misattributed_is_never_attributed(heading: Seq<char>)
    ensures
        contains(normalise(heading), "misattributed"@) ==> role_spec(heading)
            == RoleV::Misattributed,
        ({
            let name = normalise(heading);
            starts_with(name, "attributed"@) && !contains(name, "misattributed"@) && !contains(
                name,
                "disputed"@,
            ) && !contains(name, "unsourced"@)
        }) ==> role_spec(heading) == RoleV::Attributed,
{
    let name = normalise(heading);
    if starts_with(name, "attributed"@) && name == "suggestions"@ {
        reveal_strlit("attributed");
        reveal_strlit("suggestions");
        assert(name.subrange(0, 10)[0] == name[0]);
        assert(name[0] == 'a');
    }
}

/// A named role reads only the normalised heading (trimmed, without a final
/// colon, lowercased): two headings with the same normalised name get the
/// same named role. Sort letters and unnamed headings keep their own text.
pub proof fn law_a_named_role_reads_the_normalised_name(a: Seq<char>, b: Seq<char>)
    requires
        normalise(a) == normalise(b),
        !(role_spec(a) is Other),
        !(role_spec(a) is AlphaBucket),
    ensures
        role_spec(b) == role_spec(a),
{
}

proof fn lemma_prefixes_agree(s: Seq<char>, a: Seq<char>, b: Seq<char>, i: int)
    requires
        starts_with(s, a),
        starts_with(s, b),
        0 <= i < a.len(),
        i < b.len(),
    ensures
        a[i] == b[i],
{
    assert(s.subrange(0, a.len() as int)[i] == s[i]);
    assert(s.subrange(0, b.len() as int)[i] == s[i]);
}

/// The status headings and the "quotes about" headings are read by the
/// words in their name, case, spaces and a final colon aside: a name that
/// holds "misattributed" is a misattribution; one that holds "disputed" is
/// disputed unless it is a misattribution; one that holds "unsourced", or
/// is "suggestions", is unsourced unless it is one of those; one that
/// starts with "attributed" is an attribution unless it is one of those;
/// and "quotes about …", "about" and "about …" are quotes about the subject
/// unless the name is one of those.
pub proof fn law_a_status_heading_gives_its_status(heading: Seq<char>, name: Seq<char>)
    ensures
        contains(name, "misattributed"@) ==> role_by_name(heading, name) == RoleV::Misattributed,
        contains(name, "disputed"@) && !contains(name, "misattributed"@) ==> role_by_name(
            heading,
            name,
        ) == RoleV::Disputed,
        (contains(name, "unsourced"@) || name == "suggestions"@) && !contains(
            name,
            "misattributed"@,
        ) && !contains(name, "disputed"@) ==> role_by_name(heading, name) == RoleV::Unsourced,
        starts_with(name, "attributed"@) && !contains(name, "misattributed"@) && !contains(
            name,
            "disputed"@,
        ) && !contains(name, "unsourced"@) ==> role_by_name(heading, name) == RoleV::Attributed,
        (starts_with(name, "quotes about"@) || name == "about"@ || starts_with(name, "about "@))
            && !contains(name, "misattributed"@) && !contains(name, "disputed"@) && !contains(
            name,
            "unsourced"@,
        ) ==> role_by_name(heading, name) == RoleV::QuotesAbout,
{
    reveal_strlit("attributed");
    reveal_strlit("suggestions");
    reveal_strlit("quotes about");
    reveal_strlit("about");
    reveal_strlit("about ");
    if starts_with(name, "attributed"@) && name == "suggestions"@ {
        assert(name.subrange(0, 10)[0] == name[0]);
    }
    if starts_with(name, "quotes about"@) {
        assert(name.subrange(0, 12)[0] == name[0]);
        if starts_with(name, "attributed"@) {
            lemma_prefixes_agree(name, "quotes about"@, "attributed"@, 0);
        }
    }
    if name == "about"@ {
        assert(name.len() == 5);
        if starts_with(name, "attributed"@) {
            assert(false);
        }
    }
    if starts_with(name, "about "@) {
        assert(name.subrange(0, 6)[0] == name[0]);
        if starts_with(name, "attributed"@) {
            lemma_prefixes_agree(name, "about "@, "attributed"@, 1);
        }
    }
}

proof fn lemma_a_missing_letter_rules_out(s: Seq<char>, p: Seq<char>, j: int)
    requires
        0 <= j < p.len(),
        forall|i: int| 0 <= i < s.len() ==> s[i] != p[j],
    ensures
        !contains(s, p),
{
    crate::text::lemma_find_from_bounds(s, p, 0);
    if contains(s, p) {
        let k = crate::text::find(s, p)->0;
        assert(s.subrange(k, k + p.len())[j] == s[k + j]);
    }
}

/// The section names that say what a section holds are read as such,
/// case, spaces and a final colon aside: "quotes", "quote", "quotations",
/// "sourced" and "sourced quotes" hold quotes; "dialogue", "dialogues",
/// "dialog" and "dialogs" hold dialogue.
pub proof fn law_the_quote_and_dialogue_names_are_read(heading: Seq<char>, name: Seq<char>)
    ensures
        (name == "quotes"@ || name == "quote"@ || name == "quotations"@ || name == "sourced"@
            || name == "sourced quotes"@) ==> role_by_name(heading, name) == RoleV::Quotes,
        (name == "dialogue"@ || name == "dialogues"@ || name == "dialog"@ || name == "dialogs"@)
            ==> role_by_name(heading, name) == RoleV::Dialogue,
{
    reveal_strlit("quotes");
    reveal_strlit("quote");
    reveal_strlit("quotations");
    reveal_strlit("sourced");
    reveal_strlit("sourced quotes");
    reveal_strlit("dialogue");
    reveal_strlit("dialogues");
    reveal_strlit("dialog");
    reveal_strlit("dialogs");
    reveal_strlit("misattributed");
    reveal_strlit("disputed");
    reveal_strlit("unsourced");
    reveal_strlit("suggestions");
    reveal_strlit("attributed");
    reveal_strlit("quotes about");
    reveal_strlit("about");
    reveal_strlit("about ");
    if name == "quotes"@ || name == "quote"@ || name == "quotations"@ || name == "sourced"@
        || name == "sourced quotes"@ || name == "dialogue"@ || name == "dialogues"@ || name
        == "dialog"@ || name == "dialogs"@ {
        // "m" of "misattributed" and "p" of "disputed" stand in none of these
        // names; "sourced" lacks the "n" of "unsourced", and the others its
        // "c" or its "n".
        assert("misattributed"@[0] == 'm');
        assert(forall|i: int| 0 <= i < name.len() ==> name[i] != 'm');
        lemma_a_missing_letter_rules_out(name, "misattributed"@, 0);
        assert("disputed"@[3] == 'p');
        assert(forall|i: int| 0 <= i < name.len() ==> name[i] != 'p');
        lemma_a_missing_letter_rules_out(name, "disputed"@, 3);
        if name == "sourced"@ || name == "sourced quotes"@ || name == "dialogue"@ || name
            == "dialogues"@ || name == "dialog"@ || name == "dialogs"@ || name == "quote"@
            || name == "quotes"@ {
            assert("unsourced"@[1] == 'n');
            assert(forall|i: int| 0 <= i < name.len() ==> name[i] != 'n');
            lemma_a_missing_letter_rules_out(name, "unsourced"@, 1);
        } else {
            assert("unsourced"@[6] == 'c');
            assert(forall|i: int| 0 <= i < name.len() ==> name[i] != 'c');
            lemma_a_missing_letter_rules_out(name, "unsourced"@, 6);
        }
        assert(name != "suggestions"@ && name != "about"@) by {
            assert(name[0] != 's' || name.len() != 11);
            assert(name[0] != 'a');
        }
        assert(!starts_with(name, "attributed"@)) by {
            if starts_with(name, "attributed"@) {
                assert(name.subrange(0, 10)[0] == name[0]);
            }
        }
        assert(!starts_with(name, "about "@)) by {
            if starts_with(name, "about "@) {
                assert(name.subrange(0, 6)[0] == name[0]);
            }
        }
        assert(!starts_with(name, "quotes about"@)) by {
            if starts_with(name, "quotes about"@) {
                assert(name.subrange(0, 12)[6] == name[6]);
                assert(name.len() >= 12);
            }
        }
        if name == "dialogue"@ || name == "dialogues"@ || name == "dialog"@ || name == "dialogs"@ {
            assert(name[0] == 'd');
            assert("quotes"@[0] == 'q' && "quote"@[0] == 'q' && "quotations"@[0] == 'q'
                && "sourced"@[0] == 's' && "sourced quotes"@[0] == 's');
        }
    }
}

/// A season written as a word: "one" to "twelve" give 1 to 12.
pub proof fn law_a_number_word_gives_its_value(w: Seq<char>)
    ensures
        w == "one"@ ==> word_number(w) == Some(1u16),
        w == "two"@ ==> word_number(w) == Some(2u16),
        w == "three"@ ==> word_number(w) == Some(3u16),
        w == "four"@ ==> word_number(w) == Some(4u16),
        w == "five"@ ==> word_number(w) == Some(5u16),
        w == "six"@ ==> word_number(w) == Some(6u16),
        w == "seven"@ ==> word_number(w) == Some(7u16),
        w == "eight"@ ==> word_number(w) == Some(8u16),
        w == "nine"@ ==> word_number(w) == Some(9u16),
        w == "ten"@ ==> word_number(w) == Some(10u16),
        w == "eleven"@ ==> word_number(w) == Some(11u16),
        w == "twelve"@ ==> word_number(w) == Some(12u16),
{
    reveal_strlit("one");
    reveal_strlit("two");
    reveal_strlit("three");
    reveal_strlit("four");
    reveal_strlit("five");
    reveal_strlit("six");
    reveal_strlit("seven");
    reveal_strlit("eight");
    reveal_strlit("nine");
    reveal_strlit("ten");
    reveal_strlit("eleven");
    reveal_strlit("twelve");
    if w == "two"@ {
        assert("two"@[0] != "one"@[0]);
    }
    if w == "three"@ {
        assert("three"@.len() != "one"@.len());
        assert("three"@.len() != "two"@.len());
    }
    if w == "four"@ {
        assert("four"@.len() != "one"@.len());
        assert("four"@.len() != "two"@.len());
        assert("four"@.len() != "three"@.len());
    }
    if w == "five"@ {
        assert("five"@.len() != "one"@.len());
        assert("five"@.len() != "two"@.len());
        assert("five"@.len() != "three"@.len());
        assert("five"@[1] != "four"@[1]);
    }
    if w == "six"@ {
        assert("six"@[0] != "one"@[0]);
        assert("six"@[0] != "two"@[0]);
        assert("six"@.len() != "three"@.len());
        assert("six"@.len() != "four"@.len());
        assert("six"@.len() != "five"@.len());
    }
    if w == "seven"@ {
        assert("seven"@.len() != "one"@.len());
        assert("seven"@.len() != "two"@.len());
        assert("seven"@[0] != "three"@[0]);
        assert("seven"@.len() != "four"@.len());
        assert("seven"@.len() != "five"@.len());
        assert("seven"@.len() != "six"@.len());
    }
    if w == "eight"@ {
        assert("eight"@.len() != "one"@.len());
        assert("eight"@.len() != "two"@.len());
        assert("eight"@[0] != "three"@[0]);
        assert("eight"@.len() != "four"@.len());
        assert("eight"@.len() != "five"@.len());
        assert("eight"@.len() != "six"@.len());
        assert("eight"@[0] != "seven"@[0]);
    }
    if w == "nine"@ {
        assert("nine"@.len() != "one"@.len());
        assert("nine"@.len() != "two"@.len());
        assert("nine"@.len() != "three"@.len());
        assert("nine"@[0] != "four"@[0]);
        assert("nine"@[0] != "five"@[0]);
        assert("nine"@.len() != "six"@.len());
        assert("nine"@.len() != "seven"@.len());
        assert("nine"@.len() != "eight"@.len());
    }
    if w == "ten"@ {
        assert("ten"@[0] != "one"@[0]);
        assert("ten"@[1] != "two"@[1]);
        assert("ten"@.len() != "three"@.len());
        assert("ten"@.len() != "four"@.len());
        assert("ten"@.len() != "five"@.len());
        assert("ten"@[0] != "six"@[0]);
        assert("ten"@.len() != "seven"@.len());
        assert("ten"@.len() != "eight"@.len());
        assert("ten"@.len() != "nine"@.len());
    }
    if w == "eleven"@ {
        assert("eleven"@.len() != "one"@.len());
        assert("eleven"@.len() != "two"@.len());
        assert("eleven"@.len() != "three"@.len());
        assert("eleven"@.len() != "four"@.len());
        assert("eleven"@.len() != "five"@.len());
        assert("eleven"@.len() != "six"@.len());
        assert("eleven"@.len() != "seven"@.len());
        assert("eleven"@.len() != "eight"@.len());
        assert("eleven"@.len() != "nine"@.len());
        assert("eleven"@.len() != "ten"@.len());
    }
    if w == "twelve"@ {
        assert("twelve"@.len() != "one"@.len());
        assert("twelve"@.len() != "two"@.len());
        assert("twelve"@.len() != "three"@.len());
        assert("twelve"@.len() != "four"@.len());
        assert("twelve"@.len() != "five"@.len());
        assert("twelve"@.len() != "six"@.len());
        assert("twelve"@.len() != "seven"@.len());
        assert("twelve"@.len() != "eight"@.len());
        assert("twelve"@.len() != "nine"@.len());
        assert("twelve"@.len() != "ten"@.len());
        assert("twelve"@[0] != "eleven"@[0]);
    }
}

} // verus!
