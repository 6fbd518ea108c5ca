//! Character-level text primitives.
//!
//! Every piece of text is modelled as a sequence of `char`. The executable
//! functions work on `Vec<char>` and are proved against the spec functions
//! beside them. Unicode tables (case mapping, letter classes) come from the
//! standard library through the few trusted wrappers at the end of the file.

use vstd::prelude::*;

verus! {

// --- whitespace -------------------------------------------------------------

/// The Unicode `White_Space` property, which is what `char::is_whitespace`
/// and `str::trim` test.
pub open spec fn is_ws(c: char) -> bool {
    ||| c == ' '
    ||| ('\t' <= c && c <= '\r')
    ||| c == '\u{85}'
    ||| c == '\u{a0}'
    ||| c == '\u{1680}'
    ||| ('\u{2000}' <= c && c <= '\u{200a}')
    ||| c == '\u{2028}'
    ||| c == '\u{2029}'
    ||| c == '\u{202f}'
    ||| c == '\u{205f}'
    ||| c == '\u{3000}'
}

pub fn is_space(c: char) -> (b: bool)
    ensures
        b == is_ws(c),
{
    c == ' ' || ('\t' <= c && c <= '\r') || c == '\u{85}' || c == '\u{a0}' || c == '\u{1680}'
        || ('\u{2000}' <= c && c <= '\u{200a}') || c == '\u{2028}' || c == '\u{2029}' || c
        == '\u{202f}' || c == '\u{205f}' || c == '\u{3000}'
}

/// The first index at or after `i` whose character is not `c` (or not
/// whitespace when `ws` is set).
pub open spec fn skip_from(s: Seq<char>, i: int, ws: bool, c: char) -> int
    decreases s.len() - i,
{
    if 0 <= i < s.len() && (if ws { is_ws(s[i]) } else { s[i] == c }) {
        skip_from(s, i + 1, ws, c)
    } else {
        i
    }
}

/// The end of `s.take(j)` once trailing whitespace (or trailing `c`) is cut.
pub open spec fn back_from(s: Seq<char>, j: int, ws: bool, c: char) -> int
    decreases j,
{
    if 0 < j <= s.len() && (if ws { is_ws(s[j - 1]) } else { s[j - 1] == c }) {
        back_from(s, j - 1, ws, c)
    } else {
        j
    }
}

pub open spec fn trim_start(s: Seq<char>) -> Seq<char> {
    s.subrange(skip_from(s, 0, true, ' '), s.len() as int)
}

pub open spec fn trim_end(s: Seq<char>) -> Seq<char> {
    s.subrange(0, back_from(s, s.len() as int, true, ' '))
}

/// `str::trim`.
pub open spec fn trim(s: Seq<char>) -> Seq<char> {
    trim_end(trim_start(s))
}

/// `str::trim_start_matches(c)` for a single character.
pub open spec fn trim_start_char(s: Seq<char>, c: char) -> Seq<char> {
    s.subrange(skip_from(s, 0, false, c), s.len() as int)
}

/// `str::trim_end_matches(c)` for a single character.
pub open spec fn trim_end_char(s: Seq<char>, c: char) -> Seq<char> {
    s.subrange(0, back_from(s, s.len() as int, false, c))
}

/// `str::trim_matches(c)` for a single character.
pub open spec fn trim_char(s: Seq<char>, c: char) -> Seq<char> {
    trim_end_char(trim_start_char(s, c), c)
}

pub proof fn lemma_skip_bounds(s: Seq<char>, i: int, ws: bool, c: char)
    requires
        0 <= i <= s.len(),
    ensures
        i <= skip_from(s, i, ws, c) <= s.len(),
        skip_from(s, i, ws, c) < s.len() ==> !(if ws {
            is_ws(s[skip_from(s, i, ws, c)])
        } else {
            s[skip_from(s, i, ws, c)] == c
        }),
    decreases s.len() - i,
{
    if 0 <= i < s.len() && (if ws { is_ws(s[i]) } else { s[i] == c }) {
        lemma_skip_bounds(s, i + 1, ws, c);
    }
}

pub proof fn lemma_back_bounds(s: Seq<char>, j: int, ws: bool, c: char)
    requires
        0 <= j <= s.len(),
    ensures
        0 <= back_from(s, j, ws, c) <= j,
    decreases j,
{
    if 0 < j <= s.len() && (if ws { is_ws(s[j - 1]) } else { s[j - 1] == c }) {
        lemma_back_bounds(s, j - 1, ws, c);
    }
}

fn matches_class(x: char, ws: bool, c: char) -> (b: bool)
    ensures
        b == (if ws { is_ws(x) } else { x == c }),
{
    if ws {
        is_space(x)
    } else {
        x == c
    }
}

pub fn skip_exec(s: &Vec<char>, ws: bool, c: char) -> (i: usize)
    ensures
        i == skip_from(s@, 0, ws, c),
        i <= s.len(),
{
    let mut i: usize = 0;
    proof {
        lemma_skip_bounds(s@, 0, ws, c);
    }
    while i < s.len() && matches_class(s[i], ws, c)
        invariant
            i <= s.len(),
            skip_from(s@, i as int, ws, c) == skip_from(s@, 0, ws, c),
        decreases s.len() - i,
    {
        i = i + 1;
    }
    i
}

fn back_exec(s: &Vec<char>, ws: bool, c: char) -> (j: usize)
    ensures
        j == back_from(s@, s.len() as int, ws, c),
        j <= s.len(),
{
    let mut j: usize = s.len();
    while j > 0 && matches_class(s[j - 1], ws, c)
        invariant
            j <= s.len(),
            back_from(s@, j as int, ws, c) == back_from(s@, s.len() as int, ws, c),
        decreases j,
    {
        j = j - 1;
    }
    j
}

/// The characters `s[from..to]`.
pub fn slice_of(s: &Vec<char>, from: usize, to: usize) -> (r: Vec<char>)
    requires
        from <= to <= s.len(),
    ensures
        r@ == s@.subrange(from as int, to as int),
{
    let mut r: Vec<char> = Vec::new();
    let mut k = from;
    while k < to
        invariant
            from <= k <= to <= s.len(),
            r@ == s@.subrange(from as int, k as int),
        decreases to - k,
    {
        r.push(s[k]);
        k = k + 1;
    }
    r
}

pub fn trim_start_exec(s: &Vec<char>) -> (r: Vec<char>)
    ensures
        r@ == trim_start(s@),
{
    let i = skip_exec(s, true, ' ');
    slice_of(s, i, s.len())
}

pub fn trim_end_exec(s: &Vec<char>) -> (r: Vec<char>)
    ensures
        r@ == trim_end(s@),
{
    let j = back_exec(s, true, ' ');
    slice_of(s, 0, j)
}

/// `str::trim`.
pub fn trim_exec(s: &Vec<char>) -> (r: Vec<char>)
    ensures
        r@ == trim(s@),
{
    let t = trim_start_exec(s);
    trim_end_exec(&t)
}

pub fn trim_start_char_exec(s: &Vec<char>, c: char) -> (r: Vec<char>)
    ensures
        r@ == trim_start_char(s@, c),
{
    let i = skip_exec(s, false, c);
    slice_of(s, i, s.len())
}

pub fn trim_end_char_exec(s: &Vec<char>, c: char) -> (r: Vec<char>)
    ensures
        r@ == trim_end_char(s@, c),
{
    let j = back_exec(s, false, c);
    slice_of(s, 0, j)
}

pub fn trim_char_exec(s: &Vec<char>, c: char) -> (r: Vec<char>)
    ensures
        r@ == trim_char(s@, c),
{
    let t = trim_start_char_exec(s, c);
    trim_end_char_exec(&t, c)
}

// --- comparison and search -------------------------------------------------

pub fn eq_chars(a: &Vec<char>, b: &Vec<char>) -> (r: bool)
    ensures
        r == (a@ == b@),
{
    if a.len() != b.len() {
        return false;
    }
    let mut i: usize = 0;
    while i < a.len()
        invariant
            a.len() == b.len(),
            i <= a.len(),
            forall|k: int| 0 <= k < i ==> a@[k] == b@[k],
        decreases a.len() - i,
    {
        if a[i] != b[i] {
            return false;
        }
        i = i + 1;
    }
    assert(a@ =~= b@);
    true
}

/// Compares `s` with a literal.
pub fn eq_lit(s: &Vec<char>, lit: &str) -> (r: bool)
    ensures
        r == (s@ == lit@),
{
    let l = chars_of(lit);
    eq_chars(s, &l)
}

/// `p` occurs in `s` at index `i`.
pub open spec fn occurs_at(s: Seq<char>, p: Seq<char>, i: int) -> bool {
    0 <= i && i + p.len() <= s.len() && s.subrange(i, i + p.len()) == p
}

pub open spec fn starts_with(s: Seq<char>, p: Seq<char>) -> bool {
    occurs_at(s, p, 0)
}

pub open spec fn ends_with(s: Seq<char>, p: Seq<char>) -> bool {
    p.len() <= s.len() && occurs_at(s, p, s.len() - p.len())
}

pub fn occurs_at_exec(s: &Vec<char>, p: &Vec<char>, i: usize) -> (r: bool)
    ensures
        r == occurs_at(s@, p@, i as int),
{
    if p.len() > s.len() || i > s.len() - p.len() {
        return false;
    }
    let mut k: usize = 0;
    while k < p.len()
        invariant
            i + p.len() <= s.len(),
            k <= p.len(),
            forall|m: int| 0 <= m < k ==> s@[i + m] == p@[m],
        decreases p.len() - k,
    {
        if s[i + k] != p[k] {
            assert(s@.subrange(i as int, i + p.len())[k as int] != p@[k as int]);
            return false;
        }
        k = k + 1;
    }
    assert(s@.subrange(i as int, i + p.len()) =~= p@);
    true
}

pub fn starts_with_exec(s: &Vec<char>, p: &Vec<char>) -> (r: bool)
    ensures
        r == starts_with(s@, p@),
{
    occurs_at_exec(s, p, 0)
}

pub fn ends_with_exec(s: &Vec<char>, p: &Vec<char>) -> (r: bool)
    ensures
        r == ends_with(s@, p@),
{
    if p.len() > s.len() {
        return false;
    }
    occurs_at_exec(s, p, s.len() - p.len())
}

pub fn starts_with_lit(s: &Vec<char>, lit: &str) -> (r: bool)
    ensures
        r == starts_with(s@, lit@),
{
    let p = chars_of(lit);
    starts_with_exec(s, &p)
}

pub fn ends_with_lit(s: &Vec<char>, lit: &str) -> (r: bool)
    ensures
        r == ends_with(s@, lit@),
{
    let p = chars_of(lit);
    ends_with_exec(s, &p)
}

/// The first index at or after `i` where `p` occurs.
pub open spec fn find_from(s: Seq<char>, p: Seq<char>, i: int) -> Option<int>
    decreases s.len() + 1 - i,
{
    if i < 0 || i + p.len() > s.len() {
        None
    } else if occurs_at(s, p, i) {
        Some(i)
    } else {
        find_from(s, p, i + 1)
    }
}

/// `str::find` with a string pattern.
pub open spec fn find(s: Seq<char>, p: Seq<char>) -> Option<int> {
    find_from(s, p, 0)
}

/// `str::contains` with a string pattern.
pub open spec fn contains(s: Seq<char>, p: Seq<char>) -> bool {
    find(s, p) is Some
}

pub proof fn lemma_find_from_bounds(s: Seq<char>, p: Seq<char>, i: int)
    requires
        0 <= i,
    ensures
        find_from(s, p, i) matches Some(k) ==> i <= k && occurs_at(s, p, k) && (forall|m: int|
            i <= m < k ==> !occurs_at(s, p, m)),
        find_from(s, p, i) is None ==> forall|m: int| i <= m ==> !occurs_at(s, p, m),
    decreases s.len() + 1 - i,
{
    if i < 0 || i + p.len() > s.len() {
    } else if occurs_at(s, p, i) {
    } else {
        lemma_find_from_bounds(s, p, i + 1);
    }
}

pub fn find_exec(s: &Vec<char>, p: &Vec<char>) -> (r: Option<usize>)
    ensures
        match r {
            Some(k) => find(s@, p@) == Some(k as int),
            None => find(s@, p@) is None,
        },
{
    if p.len() > s.len() {
        return None;
    }
    let mut i: usize = 0;
    loop
        invariant
            p.len() <= s.len(),
            i <= s.len() - p.len(),
            find_from(s@, p@, i as int) == find_from(s@, p@, 0),
        decreases s.len() - p.len() - i,
    {
        if occurs_at_exec(s, p, i) {
            return Some(i);
        }
        if i == s.len() - p.len() {
            assert(find_from(s@, p@, i + 1) is None);
            return None;
        }
        i = i + 1;
    }
}

pub fn contains_exec(s: &Vec<char>, p: &Vec<char>) -> (r: bool)
    ensures
        r == contains(s@, p@),
{
    find_exec(s, p).is_some()
}

pub fn contains_lit(s: &Vec<char>, lit: &str) -> (r: bool)
    ensures
        r == contains(s@, lit@),
{
    let p = chars_of(lit);
    contains_exec(s, &p)
}

/// The first index at or after `i` that holds `c`.
pub open spec fn find_char_from(s: Seq<char>, c: char, i: int) -> Option<int>
    decreases s.len() - i,
{
    if i < 0 || i >= s.len() {
        None
    } else if s[i] == c {
        Some(i)
    } else {
        find_char_from(s, c, i + 1)
    }
}

/// `str::find` with a `char` pattern.
pub open spec fn find_char(s: Seq<char>, c: char) -> Option<int> {
    find_char_from(s, c, 0)
}

pub proof fn lemma_find_char_from(s: Seq<char>, c: char, i: int)
    requires
        0 <= i,
    ensures
        find_char_from(s, c, i) matches Some(k) ==> i <= k < s.len() && s[k] == c && (forall|
            m: int,
        |
            i <= m < k ==> s[m] != c),
        find_char_from(s, c, i) is None ==> forall|m: int| i <= m < s.len() ==> s[m] != c,
    decreases s.len() - i,
{
    if i >= s.len() {
    } else if s[i] == c {
    } else {
        lemma_find_char_from(s, c, i + 1);
    }
}

pub fn find_char_exec(s: &Vec<char>, c: char) -> (r: Option<usize>)
    ensures
        match r {
            Some(k) => find_char(s@, c) == Some(k as int) && k < s.len(),
            None => find_char(s@, c) is None,
        },
{
    let mut i: usize = 0;
    while i < s.len()
        invariant
            i <= s.len(),
            find_char_from(s@, c, i as int) == find_char_from(s@, c, 0),
        decreases s.len() - i,
    {
        if s[i] == c {
            return Some(i);
        }
        i = i + 1;
    }
    None
}

pub open spec fn has_char(s: Seq<char>, c: char) -> bool {
    find_char(s, c) is Some
}

/// The last index before `j` that holds `c`.
pub open spec fn rfind_char_before(s: Seq<char>, c: char, j: int) -> Option<int>
    decreases j,
{
    if j <= 0 || j > s.len() {
        None
    } else if s[j - 1] == c {
        Some(j - 1)
    } else {
        rfind_char_before(s, c, j - 1)
    }
}

/// `str::rfind` with a `char` pattern.
pub open spec fn rfind_char(s: Seq<char>, c: char) -> Option<int> {
    rfind_char_before(s, c, s.len() as int)
}

pub proof fn lemma_rfind_char(s: Seq<char>, c: char, j: int)
    requires
        j <= s.len(),
    ensures
        rfind_char_before(s, c, j) matches Some(k) ==> 0 <= k < j && s[k] == c,
    decreases j,
{
    if j <= 0 || j > s.len() {
    } else if s[j - 1] == c {
    } else {
        lemma_rfind_char(s, c, j - 1);
    }
}

pub fn rfind_char_exec(s: &Vec<char>, c: char) -> (r: Option<usize>)
    ensures
        match r {
            Some(k) => rfind_char(s@, c) == Some(k as int) && k < s.len(),
            None => rfind_char(s@, c) is None,
        },
{
    let mut j: usize = s.len();
    while j > 0
        invariant
            j <= s.len(),
            rfind_char_before(s@, c, j as int) == rfind_char(s@, c),
        decreases j,
    {
        if s[j - 1] == c {
            return Some(j - 1);
        }
        j = j - 1;
    }
    None
}

/// `str::split_once(c)`: the parts before and after the first `c`.
pub open spec fn split_once(s: Seq<char>, c: char) -> Option<(Seq<char>, Seq<char>)> {
    match find_char(s, c) {
        Some(k) => Some((s.take(k), s.skip(k + 1))),
        None => None,
    }
}

pub fn split_once_exec(s: &Vec<char>, c: char) -> (r: Option<(Vec<char>, Vec<char>)>)
    ensures
        match r {
            Some((a, b)) => split_once(s@, c) == Some((a@, b@)),
            None => split_once(s@, c) is None,
        },
{
    match find_char_exec(s, c) {
        Some(k) => {
            let a = slice_of(s, 0, k);
            let b = slice_of(s, k + 1, s.len());
            Some((a, b))
        },
        None => None,
    }
}

/// `str::strip_prefix` with a literal.
pub open spec fn strip_prefix(s: Seq<char>, p: Seq<char>) -> Option<Seq<char>> {
    if starts_with(s, p) {
        Some(s.skip(p.len() as int))
    } else {
        None
    }
}

pub fn strip_prefix_lit(s: &Vec<char>, lit: &str) -> (r: Option<Vec<char>>)
    ensures
        match r {
            Some(v) => strip_prefix(s@, lit@) == Some(v@),
            None => strip_prefix(s@, lit@) is None,
        },
{
    let p = chars_of(lit);
    if starts_with_exec(s, &p) {
        Some(slice_of(s, p.len(), s.len()))
    } else {
        None
    }
}

/// `str::strip_suffix` with a literal.
pub open spec fn strip_suffix(s: Seq<char>, p: Seq<char>) -> Option<Seq<char>> {
    if ends_with(s, p) {
        Some(s.take(s.len() - p.len()))
    } else {
        None
    }
}

pub fn strip_suffix_lit(s: &Vec<char>, lit: &str) -> (r: Option<Vec<char>>)
    ensures
        match r {
            Some(v) => strip_suffix(s@, lit@) == Some(v@),
            None => strip_suffix(s@, lit@) is None,
        },
{
    let p = chars_of(lit);
    if ends_with_exec(s, &p) {
        Some(slice_of(s, 0, s.len() - p.len()))
    } else {
        None
    }
}

// --- byte offsets ------------------------------------------------------------

/// The number of bytes UTF-8 spends on `c`.
pub open spec fn char_bytes(c: char) -> nat {
    let u = c as u32;
    if u < 0x80 {
        1
    } else if u < 0x800 {
        2
    } else if u < 0x10000 {
        3
    } else {
        4
    }
}

/// The length of `s` in UTF-8 bytes: `str::len`.
pub open spec fn utf8_len(s: Seq<char>) -> nat
    decreases s.len(),
{
    if s.len() == 0 {
        0
    } else {
        utf8_len(s.drop_last()) + char_bytes(s.last())
    }
}

pub fn char_bytes_exec(c: char) -> (r: u64)
    ensures
        r == char_bytes(c),
{
    let u = c as u32;
    if u < 0x80 {
        1
    } else if u < 0x800 {
        2
    } else if u < 0x10000 {
        3
    } else {
        4
    }
}

pub proof fn lemma_utf8_len_push(s: Seq<char>, k: int)
    requires
        0 <= k < s.len(),
    ensures
        utf8_len(s.take(k + 1)) == utf8_len(s.take(k)) + char_bytes(s[k]),
{
    assert(s.take(k + 1).drop_last() =~= s.take(k));
}

/// The index of the character that starts at byte `b`, looking from `k` on.
pub open spec fn byte_index_from(s: Seq<char>, b: int, k: int) -> Option<int>
    decreases s.len() - k,
{
    if k < 0 || k > s.len() {
        None
    } else if utf8_len(s.take(k)) == b {
        Some(k)
    } else if utf8_len(s.take(k)) > b || k == s.len() {
        None
    } else {
        byte_index_from(s, b, k + 1)
    }
}

/// The character index whose byte offset is `b`, when `b` is a character
/// boundary of `s`.
pub open spec fn byte_index(s: Seq<char>, b: int) -> Option<int> {
    byte_index_from(s, b, 0)
}

pub proof fn lemma_byte_index_from(s: Seq<char>, b: int, k: int)
    requires
        0 <= k,
    ensures
        byte_index_from(s, b, k) matches Some(i) ==> k <= i <= s.len() && utf8_len(s.take(i))
            == b,
    decreases s.len() - k,
{
    if k <= s.len() && utf8_len(s.take(k)) != b && !(utf8_len(s.take(k)) > b || k == s.len()) {
        lemma_byte_index_from(s, b, k + 1);
    }
}

/// `str::get(a..b)`: the text between two byte offsets, when both are
/// character boundaries and in order.
pub open spec fn byte_get(s: Seq<char>, a: int, b: int) -> Option<Seq<char>> {
    match (byte_index(s, a), byte_index(s, b)) {
        (Some(i), Some(j)) => if i <= j {
            Some(s.subrange(i, j))
        } else {
            None
        },
        _ => None,
    }
}

pub fn byte_index_exec(s: &Vec<char>, b: u32) -> (r: Option<usize>)
    ensures
        match r {
            Some(i) => byte_index(s@, b as int) == Some(i as int),
            None => byte_index(s@, b as int) is None,
        },
{
    let mut k: usize = 0;
    let mut acc: u64 = 0;
    assert(s@.take(0) =~= Seq::<char>::empty());
    loop
        invariant
            k <= s.len(),
            acc == utf8_len(s@.take(k as int)),
            acc <= b,
            byte_index_from(s@, b as int, k as int) == byte_index(s@, b as int),
        decreases s.len() - k,
    {
        if acc == b as u64 {
            return Some(k);
        }
        if k == s.len() {
            return None;
        }
        proof {
            lemma_utf8_len_push(s@, k as int);
        }
        acc = acc + char_bytes_exec(s[k]);
        k = k + 1;
        if acc > b as u64 {
            assert(byte_index_from(s@, b as int, k as int) is None);
            return None;
        }
    }
}

pub fn byte_get_exec(s: &Vec<char>, a: u32, b: u32) -> (r: Option<Vec<char>>)
    ensures
        match r {
            Some(v) => byte_get(s@, a as int, b as int) == Some(v@),
            None => byte_get(s@, a as int, b as int) is None,
        },
{
    proof {
        lemma_byte_index_from(s@, a as int, 0);
        lemma_byte_index_from(s@, b as int, 0);
    }
    match (byte_index_exec(s, a), byte_index_exec(s, b)) {
        (Some(i), Some(j)) => {
            if i <= j {
                Some(slice_of(s, i, j))
            } else {
                None
            }
        },
        _ => None,
    }
}

/// `utf8_len(s) >= n`, without walking past the first `n` bytes.
pub fn utf8_len_at_least(s: &Vec<char>, n: u64) -> (r: bool)
    requires
        n <= 0xffff_ffff,
    ensures
        r == (utf8_len(s@) >= n),
{
    let mut k: usize = 0;
    let mut acc: u64 = 0;
    assert(s@.take(0) =~= Seq::<char>::empty());
    while k < s.len()
        invariant
            k <= s.len(),
            n <= 0xffff_ffff,
            acc == utf8_len(s@.take(k as int)),
            acc <= n + 4,
        decreases s.len() - k,
    {
        if acc >= n {
            proof {
                lemma_utf8_len_prefix(s@, k as int);
            }
            return true;
        }
        proof {
            lemma_utf8_len_push(s@, k as int);
        }
        acc = acc + char_bytes_exec(s[k]);
        k = k + 1;
    }
    assert(s@.take(s.len() as int) =~= s@);
    acc >= n
}

/// A prefix is never longer in bytes than the whole.
pub proof fn lemma_utf8_len_prefix(s: Seq<char>, k: int)
    requires
        0 <= k <= s.len(),
    ensures
        utf8_len(s.take(k)) <= utf8_len(s),
    decreases s.len() - k,
{
    if k < s.len() {
        lemma_utf8_len_push(s, k);
        lemma_utf8_len_prefix(s, k + 1);
    } else {
        assert(s.take(k) =~= s);
    }
}

/// Longer prefixes take more bytes.
pub proof fn lemma_utf8_len_strict(s: Seq<char>, m: int, n: int)
    requires
        0 <= m < n <= s.len(),
    ensures
        utf8_len(s.take(m)) < utf8_len(s.take(n)),
    decreases n - m,
{
    lemma_utf8_len_push(s, n - 1);
    if m < n - 1 {
        lemma_utf8_len_strict(s, m, n - 1);
    }
}

pub proof fn lemma_byte_index_found(s: Seq<char>, b: int, m: int, j: int)
    requires
        0 <= m <= j <= s.len(),
        utf8_len(s.take(j)) == b,
    ensures
        byte_index_from(s, b, m) == Some(j),
    decreases j - m,
{
    if m < j {
        lemma_utf8_len_strict(s, m, j);
        lemma_byte_index_found(s, b, m + 1, j);
    }
}

pub proof fn lemma_byte_index_between(s: Seq<char>, b: int, m: int, j: int)
    requires
        0 <= m <= j <= s.len(),
        utf8_len(s.take(j)) > b,
        j == 0 || utf8_len(s.take(j - 1)) < b,
    ensures
        byte_index_from(s, b, m) is None,
    decreases j - m,
{
    if m < j {
        if m < j - 1 {
            lemma_utf8_len_strict(s, m, j - 1);
        }
        lemma_byte_index_between(s, b, m + 1, j);
    }
}

pub proof fn lemma_byte_index_beyond(s: Seq<char>, b: int, m: int)
    requires
        0 <= m <= s.len(),
        utf8_len(s) < b,
    ensures
        byte_index_from(s, b, m) is None,
    decreases s.len() - m,
{
    lemma_utf8_len_prefix(s, m);
    if m < s.len() {
        lemma_byte_index_beyond(s, b, m + 1);
    } else {
        assert(s.take(m) =~= s);
    }
}


// --- words and joins ---------------------------------------------------------

/// The end of the word that starts at `j`: the next whitespace, or the end.
pub open spec fn word_end(s: Seq<char>, j: int) -> int
    decreases s.len() - j,
{
    if 0 <= j < s.len() && !is_ws(s[j]) {
        word_end(s, j + 1)
    } else {
        j
    }
}

pub proof fn lemma_word_end(s: Seq<char>, j: int)
    requires
        0 <= j <= s.len(),
    ensures
        j <= word_end(s, j) <= s.len(),
        j < s.len() && !is_ws(s[j]) ==> j < word_end(s, j),
    decreases s.len() - j,
{
    if j < s.len() && !is_ws(s[j]) {
        lemma_word_end(s, j + 1);
    }
}

/// The words of `s[i..]`: `str::split_whitespace`.
pub open spec fn words_from(s: Seq<char>, i: int) -> Seq<Seq<char>>
    decreases s.len() - i,
{
    if i < 0 || i > s.len() {
        Seq::empty()
    } else {
        let j = skip_from(s, i, true, ' ');
        proof {
            lemma_skip_bounds(s, i, true, ' ');
        }
        if j >= s.len() {
            Seq::empty()
        } else {
            let e = word_end(s, j);
            proof {
                lemma_word_end(s, j);
            }
            seq![s.subrange(j, e)] + words_from(s, e)
        }
    }
}

pub open spec fn words(s: Seq<char>) -> Seq<Seq<char>> {
    words_from(s, 0)
}

pub fn words_exec(s: &Vec<char>) -> (r: Vec<Vec<char>>)
    ensures
        views(r@) == words(s@),
{
    let mut r: Vec<Vec<char>> = Vec::new();
    let mut i: usize = 0;
    while i <= s.len()
        invariant
            i <= s.len() + 1,
            i <= s.len() ==> views(r@) + words_from(s@, i as int) == words(s@),
            i > s.len() ==> views(r@) == words(s@),
        decreases s.len() + 1 - i,
    {
        proof {
            lemma_skip_bounds(s@, i as int, true, ' ');
        }
        let mut j = i;
        while j < s.len() && is_space(s[j])
            invariant
                i <= j <= s.len(),
                skip_from(s@, j as int, true, ' ') == skip_from(s@, i as int, true, ' '),
            decreases s.len() - j,
        {
            j = j + 1;
        }
        if j >= s.len() {
            assert(words_from(s@, i as int) =~= Seq::<Seq<char>>::empty());
            assert(views(r@) + Seq::<Seq<char>>::empty() =~= views(r@));
            return r;
        }
        proof {
            lemma_word_end(s@, j as int);
        }
        let mut e = j;
        while e < s.len() && !is_space(s[e])
            invariant
                j <= e <= s.len(),
                word_end(s@, e as int) == word_end(s@, j as int),
            decreases s.len() - e,
        {
            e = e + 1;
        }
        let ghost before = r@;
        r.push(slice_of(s, j, e));
        assert(views(r@) =~= views(before).push(s@.subrange(j as int, e as int)));
        assert(views(before) + words_from(s@, i as int) =~= views(r@) + words_from(s@, e as int));
        i = e;
        if e == s.len() {
            assert(words_from(s@, e as int) =~= Seq::<Seq<char>>::empty());
            assert(views(r@) + Seq::<Seq<char>>::empty() =~= views(r@));
            return r;
        }
    }
    r
}

/// `parts.join(sep)`.
pub open spec fn join(parts: Seq<Seq<char>>, sep: Seq<char>) -> Seq<char>
    decreases parts.len(),
{
    if parts.len() == 0 {
        Seq::empty()
    } else if parts.len() == 1 {
        parts[0]
    } else {
        join(parts.drop_last(), sep) + sep + parts.last()
    }
}

pub fn join_exec(parts: &Vec<Vec<char>>, sep: &Vec<char>) -> (r: Vec<char>)
    ensures
        r@ == join(views(parts@), sep@),
{
    let mut r: Vec<char> = Vec::new();
    let mut i: usize = 0;
    while i < parts.len()
        invariant
            i <= parts.len(),
            r@ == join(views(parts@).take(i as int), sep@),
        decreases parts.len() - i,
    {
        let ghost before = r@;
        if i > 0 {
            append(&mut r, sep);
        }
        append(&mut r, &parts[i]);
        assert(views(parts@).take(i + 1).drop_last() =~= views(parts@).take(i as int));
        if i == 0 {
            assert(before =~= Seq::<char>::empty());
            assert(r@ =~= views(parts@).take(1)[0]);
        }
        i = i + 1;
    }
    assert(views(parts@).take(parts.len() as int) =~= views(parts@));
    r
}

// --- conversions -----------------------------------------------------------

/// The texts of a list of character vectors.
pub open spec fn views(v: Seq<Vec<char>>) -> Seq<Seq<char>> {
    v.map_values(|x: Vec<char>| x@)
}

/// The characters of `s`, in order.
pub fn chars_of(s: &str) -> (v: Vec<char>)
    ensures
        v@ == s@,
{
    let mut v: Vec<char> = Vec::new();
    for c in it: s.chars()
        invariant
            v@ == it.seq().take(it.index() as int),
            it.seq() == s@,
    {
        v.push(c);
    }
    v
}

pub fn append(v: &mut Vec<char>, w: &Vec<char>)
    ensures
        final(v)@ == old(v)@ + w@,
{
    let mut k: usize = 0;
    while k < w.len()
        invariant
            k <= w.len(),
            v@ == old(v)@ + w@.take(k as int),
        decreases w.len() - k,
    {
        v.push(w[k]);
        k = k + 1;
        assert(w@.take(k as int) =~= w@.take(k - 1).push(w@[k - 1]));
    }
    assert(w@.take(w.len() as int) =~= w@);
}

pub fn append_lit(v: &mut Vec<char>, lit: &str)
    ensures
        final(v)@ == old(v)@ + lit@,
{
    let w = chars_of(lit);
    append(v, &w);
}

/// `String::from_iter` over the characters: the text whose view is `v`.
#[verifier::external_body]
pub(crate) fn string_of(v: &Vec<char>) -> (s: String)
    ensures
        s@ == v@,
{
    String::from_iter(v.iter())
}

// --- case and character classes ---------------------------------------------

/// What `str::to_lowercase` gives for a text. The mapping comes from the
/// Unicode tables of the standard library.
pub uninterp spec fn lowercase(s: Seq<char>) -> Seq<char>;

/// `str::to_lowercase`. The result is named, not spelled out: it follows the
/// Unicode case tables, including the final-sigma rule.
#[verifier::external_body]
fn str_to_lowercase(s: &str) -> (r: String)
    ensures
        r@ == lowercase(s@),
{
    s.to_lowercase()
}

pub fn lower(s: &Vec<char>) -> (r: Vec<char>)
    ensures
        r@ == lowercase(s@),
{
    let st = string_of(s);
    let l = str_to_lowercase(st.as_str());
    chars_of(l.as_str())
}

/// What `char::is_alphanumeric` says of a character (the Unicode `Alphabetic`
/// and `Numeric` classes).
pub uninterp spec fn alphanumeric(c: char) -> bool;

/// `char::is_alphanumeric`. Its result is named: it follows Unicode tables.
#[verifier::external_body]
pub(crate) fn is_alphanumeric(c: char) -> (b: bool)
    ensures
        b == alphanumeric(c),
{
    c.is_alphanumeric()
}

/// What `char::is_alphabetic` says of a character.
pub uninterp spec fn alphabetic(c: char) -> bool;

/// `char::is_alphabetic`. Its result is named: it follows Unicode tables.
#[verifier::external_body]
pub(crate) fn is_alphabetic(c: char) -> (b: bool)
    ensures
        b == alphabetic(c),
{
    c.is_alphabetic()
}

/// What `char::is_uppercase` says of a character.
pub uninterp spec fn uppercase_letter(c: char) -> bool;

/// `char::is_uppercase`. Its result is named: it follows Unicode tables.
#[verifier::external_body]
pub(crate) fn is_uppercase(c: char) -> (b: bool)
    ensures
        b == uppercase_letter(c),
{
    c.is_uppercase()
}

pub open spec fn is_digit(c: char) -> bool {
    '0' <= c && c <= '9'
}

pub open spec fn ascii_upper(c: char) -> char {
    if 'a' <= c && c <= 'z' {
        ((c as u32) - 32) as char
    } else {
        c
    }
}

/// `char::to_ascii_uppercase`.
pub fn to_ascii_uppercase(c: char) -> (r: char)
    ensures
        r == ascii_upper(c),
{
    if 'a' <= c && c <= 'z' {
        let u = (c as u32) - 32;
        char_from_ascii(u)
    } else {
        c
    }
}

/// The character with an ASCII code.
fn char_from_ascii(u: u32) -> (c: char)
    requires
        u < 128,
    ensures
        c == u as char,
{
    let b: u8 = u as u8;
    b as char
}

// --- a text addressed by byte offsets ----------------------------------------

/// The text between two byte offsets, or nothing when they are not
/// character boundaries in order.
pub open spec fn text_between(s: Seq<char>, a: int, b: int) -> Seq<char> {
    match byte_get(s, a, b) {
        Some(t) => t,
        None => Seq::empty(),
    }
}

/// A text together with the byte offset of each of its characters, so that
/// a byte offset finds its character quickly.
pub struct Utf8Text {
    pub chars: Vec<char>,
    pub offsets: Vec<usize>,
}

impl Utf8Text {
    pub open spec fn wf(&self) -> bool {
        &&& self.offsets.len() == self.chars.len() + 1
        &&& forall|k: int|
            0 <= k <= self.chars.len() ==> #[trigger] self.offsets@[k] == utf8_len(
                self.chars@.take(k),
            )
    }

    /// Indexes a text whose UTF-8 length fits in a `usize`.
    pub fn new(chars: Vec<char>) -> (r: Utf8Text)
        requires
            utf8_len(chars@) <= usize::MAX,
        ensures
            r.wf(),
            r.chars@ == chars@,
    {
        let mut offsets: Vec<usize> = Vec::new();
        let mut acc: usize = 0;
        let mut k: usize = 0;
        assert(chars@.take(0) =~= Seq::<char>::empty());
        while k < chars.len()
            invariant
                k <= chars.len(),
                utf8_len(chars@) <= usize::MAX,
                acc == utf8_len(chars@.take(k as int)),
                offsets@.len() == k,
                forall|m: int| 0 <= m < k ==> #[trigger] offsets@[m] == utf8_len(chars@.take(m)),
            decreases chars.len() - k,
        {
            offsets.push(acc);
            proof {
                lemma_utf8_len_push(chars@, k as int);
                lemma_utf8_len_prefix(chars@, k + 1);
            }
            acc = acc + char_bytes_exec(chars[k]) as usize;
            k = k + 1;
        }
        offsets.push(acc);
        Utf8Text { chars, offsets }
    }

    /// The character index at byte offset `b` (`byte_index`).
    pub fn index_of(&self, b: usize) -> (r: Option<usize>)
        requires
            self.wf(),
        ensures
            match r {
                Some(i) => byte_index(self.chars@, b as int) == Some(i as int),
                None => byte_index(self.chars@, b as int) is None,
            },
    {
        let ghost s = self.chars@;
        let n = self.chars.len();
        if self.offsets[n] < b {
            proof {
                assert(s.take(n as int) =~= s);
                lemma_byte_index_beyond(s, b as int, 0);
            }
            return None;
        }
        let mut lo: usize = 0;
        let mut hi: usize = n;
        while lo < hi
            invariant
                self.wf(),
                s == self.chars@,
                n == s.len(),
                lo <= hi <= n,
                b <= utf8_len(s.take(hi as int)),
                lo == 0 || utf8_len(s.take(lo - 1)) < b,
            decreases hi - lo,
        {
            let mid = lo + (hi - lo) / 2;
            if self.offsets[mid] < b {
                lo = mid + 1;
            } else {
                hi = mid;
            }
        }
        if self.offsets[lo] == b {
            proof {
                lemma_byte_index_found(s, b as int, 0, lo as int);
            }
            Some(lo)
        } else {
            proof {
                lemma_byte_index_between(s, b as int, 0, lo as int);
            }
            None
        }
    }

    /// The text between byte offsets `a` and `b` (`text_between`).
    pub fn between(&self, a: usize, b: usize) -> (r: Vec<char>)
        requires
            self.wf(),
        ensures
            r@ == text_between(self.chars@, a as int, b as int),
    {
        match (self.index_of(a), self.index_of(b)) {
            (Some(i), Some(j)) => {
                if i <= j {
                    proof {
                        lemma_byte_index_from(self.chars@, a as int, 0);
                        lemma_byte_index_from(self.chars@, b as int, 0);
                    }
                    slice_of(&self.chars, i, j)
                } else {
                    Vec::new()
                }
            },
            _ => Vec::new(),
        }
    }
}

} // verus!
