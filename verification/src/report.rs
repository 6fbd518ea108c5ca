//! Counts what the pipeline produced and how much of it was a guess.
//!
//! The numbers here are the ones to watch when a rule changes: the lines
//! that reached no node, the quotes with a speaker or a complete source, and
//! the headings no rule could name. Counts are kept per name, in name order.

use vstd::prelude::*;
use crate::model::{Document, Section, SectionRole};
use crate::normalize::{page_type_name, lit};
use crate::quote::{full_source, Quote};
use crate::text::{chars_of, string_of};

verus! {

// --- names in order -----------------------------------------------------------

/// The order of `String`: code point by code point, a prefix first. UTF-8
/// keeps code point order, so this is the byte order `Ord` uses.
pub open spec fn str_lt(a: Seq<char>, b: Seq<char>) -> bool
    decreases a.len(),
{
    if a.len() == 0 {
        b.len() > 0
    } else if b.len() == 0 {
        false
    } else if a[0] != b[0] {
        a[0] < b[0]
    } else {
        str_lt(a.drop_first(), b.drop_first())
    }
}

pub proof fn lemma_str_lt_irreflexive(a: Seq<char>)
    ensures
        !str_lt(a, a),
    decreases a.len(),
{
    if a.len() > 0 {
        lemma_str_lt_irreflexive(a.drop_first());
    }
}

pub proof fn lemma_str_lt_transitive(a: Seq<char>, b: Seq<char>, c: Seq<char>)
    requires
        str_lt(a, b),
        str_lt(b, c),
    ensures
        str_lt(a, c),
    decreases a.len(),
{
    if a.len() > 0 && b.len() > 0 && c.len() > 0 && a[0] == b[0] && b[0] == c[0] {
        lemma_str_lt_transitive(a.drop_first(), b.drop_first(), c.drop_first());
    }
}

pub proof fn lemma_str_lt_total(a: Seq<char>, b: Seq<char>)
    ensures
        a == b || str_lt(a, b) || str_lt(b, a),
    decreases a.len(),
{
    if a.len() > 0 && b.len() > 0 && a[0] == b[0] {
        lemma_str_lt_total(a.drop_first(), b.drop_first());
        if a.drop_first() == b.drop_first() {
            assert(a =~= seq![a[0]] + a.drop_first());
            assert(b =~= seq![b[0]] + b.drop_first());
        }
    } else if a.len() == 0 && b.len() == 0 {
        assert(a =~= b);
    }
}

fn str_lt_exec(a: &Vec<char>, b: &Vec<char>) -> (r: bool)
    ensures
        r == str_lt(a@, b@),
{
    let mut i: usize = 0;
    assert(a@.subrange(0, a.len() as int) =~= a@);
    assert(b@.subrange(0, b.len() as int) =~= b@);
    while i < a.len() && i < b.len() && a[i] == b[i]
        invariant
            i <= a.len(),
            i <= b.len(),
            str_lt(a@.subrange(i as int, a.len() as int), b@.subrange(i as int, b.len() as int))
                == str_lt(a@, b@),
        decreases a.len() - i,
    {
        assert(a@.subrange(i as int, a.len() as int).drop_first() =~= a@.subrange(
            i + 1,
            a.len() as int,
        ));
        assert(b@.subrange(i as int, b.len() as int).drop_first() =~= b@.subrange(
            i + 1,
            b.len() as int,
        ));
        i = i + 1;
    }
    if i == a.len() {
        i < b.len()
    } else if i == b.len() {
        false
    } else {
        assert(a@.subrange(i as int, a.len() as int)[0] == a@[i as int]);
        assert(b@.subrange(i as int, b.len() as int)[0] == b@[i as int]);
        a[i] < b[i]
    }
}

pub open spec fn keys_of<V>(es: Seq<(String, V)>) -> Seq<Seq<char>> {
    es.map_values(|e: (String, V)| e.0@)
}

/// Strictly increasing names: one entry per name, in name order, as a
/// `BTreeMap` keeps them.
pub open spec fn in_order(ks: Seq<Seq<char>>) -> bool {
    forall|i: int, j: int| 0 <= i < j < ks.len() ==> str_lt(#[trigger] ks[i], #[trigger] ks[j])
}

/// The number of names below `key`: where `key` is or would go.
pub open spec fn below(ks: Seq<Seq<char>>, key: Seq<char>) -> nat
    decreases ks.len(),
{
    if ks.len() == 0 {
        0
    } else if str_lt(ks.last(), key) {
        below(ks.drop_last(), key) + 1
    } else {
        below(ks.drop_last(), key)
    }
}

/// The entry for `key`: found in place, or inserted in order with `fresh`.
/// Returns its index.
fn slot<V>(es: &mut Vec<(String, V)>, key: &Vec<char>, fresh: V) -> (r: usize)
    requires
        in_order(keys_of(old(es)@)),
    ensures
        in_order(keys_of(final(es)@)),
        r < final(es)@.len(),
        r <= old(es)@.len(),
        final(es)@[r as int].0@ == key@,
        (exists|j: int| 0 <= j < old(es)@.len() && old(es)@[j].0@ == key@) ==> final(es)@ == old(
            es,
        )@ && r == below(keys_of(old(es)@), key@),
        !(exists|j: int| 0 <= j < old(es)@.len() && old(es)@[j].0@ == key@) ==> r == below(
            keys_of(old(es)@),
            key@,
        ) && final(es)@ == old(es)@.insert(r as int, (final(es)@[r as int].0, fresh)),
{
    let ghost ks = keys_of(es@);
    let mut p: usize = 0;
    while p < es.len() && str_lt_exec(&chars_of(es[p].0.as_str()), key)
        invariant
            p <= es.len(),
            ks == keys_of(es@),
            in_order(ks),
            forall|q: int| 0 <= q < p ==> str_lt(#[trigger] ks[q], key@),
        decreases es.len() - p,
    {
        p = p + 1;
    }
    proof {
        lemma_below(ks, key@, p as int);
    }
    if p < es.len() && crate::text::eq_chars(&chars_of(es[p].0.as_str()), key) {
        return p;
    }
    proof {
        assert forall|j: int| 0 <= j < es@.len() implies es@[j].0@ != key@ by {
            assert(ks[j] == es@[j].0@);
            if j < p {
                lemma_str_lt_irreflexive(key@);
            } else if j > p {
                lemma_str_lt_total(ks[p as int], key@);
                assert(str_lt(ks[p as int], ks[j]));
                if ks[j] == key@ {
                    lemma_str_lt_irreflexive(key@);
                    if str_lt(key@, ks[p as int]) {
                        lemma_str_lt_transitive(key@, ks[p as int], ks[j]);
                    }
                }
            }
        }
    }
    let ghost old_es = es@;
    es.insert(p, (string_of(key), fresh));
    proof {
        let nk = keys_of(es@);
        assert(nk =~= ks.insert(p as int, key@));
        if p < ks.len() {
            lemma_str_lt_total(ks[p as int], key@);
        }
        assert forall|i: int, j: int| 0 <= i < j < nk.len() implies str_lt(
            #[trigger] nk[i],
            #[trigger] nk[j],
        ) by {
            if j < p {
            } else if j == p {
            } else if i < p {
                assert(nk[j] == ks[j - 1]);
                if j - 1 > p {
                    assert(str_lt(ks[p as int], ks[j - 1]));
                    lemma_str_lt_transitive(key@, ks[p as int], ks[j - 1]);
                }
                lemma_str_lt_transitive(ks[i], key@, ks[j - 1]);
            } else if i == p {
                assert(nk[j] == ks[j - 1]);
                if j - 1 > p {
                    assert(str_lt(ks[p as int], ks[j - 1]));
                    lemma_str_lt_transitive(key@, ks[p as int], ks[j - 1]);
                }
            } else {
                assert(nk[i] == ks[i - 1] && nk[j] == ks[j - 1]);
            }
        }
    }
    p
}

/// `below` is the first place whose name is not below `key`.
proof fn lemma_below(ks: Seq<Seq<char>>, key: Seq<char>, p: int)
    requires
        in_order(ks),
        0 <= p <= ks.len(),
        forall|q: int| 0 <= q < p ==> str_lt(#[trigger] ks[q], key),
        p < ks.len() ==> !str_lt(ks[p], key),
    ensures
        below(ks, key) == p,
    decreases ks.len(),
{
    if ks.len() > 0 {
        if p == ks.len() {
            assert(str_lt(ks[p - 1], key));
            lemma_below(ks.drop_last(), key, p - 1);
        } else {
            assert(!str_lt(ks.last(), key)) by {
                if ks.len() - 1 > p {
                    assert(str_lt(ks[p], ks[ks.len() - 1]));
                    if str_lt(ks.last(), key) {
                        lemma_str_lt_transitive(ks[p], ks.last(), key);
                    }
                }
            }
            assert forall|i: int, j: int| 0 <= i < j < ks.drop_last().len() implies str_lt(
                #[trigger] ks.drop_last()[i],
                #[trigger] ks.drop_last()[j],
            ) by {
                assert(ks.drop_last()[i] == ks[i] && ks.drop_last()[j] == ks[j]);
            }
            lemma_below(ks.drop_last(), key, p);
        }
    }
}

// --- counting ---------------------------------------------------------------

/// `a + b` as `u64` arithmetic wraps it.
pub open spec fn wadd(a: u64, b: u64) -> u64 {
    if a + b > u64::MAX {
        (a + b - 0x1_0000_0000_0000_0000) as u64
    } else {
        (a + b) as u64
    }
}

fn wadd_exec(a: u64, b: u64) -> (r: u64)
    ensures
        r == wadd(a, b),
{
    if a > u64::MAX - b {
        a - (u64::MAX - b) - 1
    } else {
        a + b
    }
}

/// One more for `key`: its count goes up by one, or it enters, in name
/// order, with a count of one.
pub fn bump(es: &mut Vec<(String, u64)>, key: &Vec<char>)
    requires
        in_order(keys_of(old(es)@)),
    ensures
        in_order(keys_of(final(es)@)),
        (exists|j: int| 0 <= j < old(es)@.len() && old(es)@[j].0@ == key@) ==> final(es)@.len()
            == old(es)@.len() && keys_of(final(es)@) == keys_of(old(es)@) && ({
            let r = below(keys_of(old(es)@), key@) as int;
            &&& final(es)@[r].1 == wadd(old(es)@[r].1, 1)
            &&& forall|j: int| 0 <= j < old(es)@.len() && j != r ==> #[trigger] final(es)@[j].1 == old(es)@[j].1
        }),
        !(exists|j: int| 0 <= j < old(es)@.len() && old(es)@[j].0@ == key@) ==> ({
            let r = below(keys_of(old(es)@), key@) as int;
            &&& keys_of(final(es)@) == keys_of(old(es)@).insert(r, key@)
            &&& final(es)@[r].1 == 1
            &&& forall|j: int| 0 <= j < r ==> #[trigger] final(es)@[j].1 == old(es)@[j].1
            &&& forall|j: int| r < j < final(es)@.len() ==> #[trigger] final(es)@[j].1 == old(es)@[j - 1].1
        }),
{
    let ghost e0 = es@;
    let r = slot(es, key, 0);
    let ghost e1 = es@;
    let (k, v) = es.remove(r);
    es.insert(r, (k, wadd_exec(v, 1)));
    proof {
        assert(keys_of(es@) =~= keys_of(e1));
        if !(exists|j: int| 0 <= j < e0.len() && e0[j].0@ == key@) {
            assert forall|m: int| 0 <= m < e1.len() implies #[trigger] keys_of(e1)[m] == keys_of(
                e0,
            ).insert(r as int, key@)[m] by {
                if m < r {
                    assert(e1[m] == e0[m]);
                } else if m > r {
                    assert(e1[m] == e0[m - 1]);
                }
            }
            assert(keys_of(e1) =~= keys_of(e0).insert(r as int, key@));
            assert forall|j: int| 0 <= j < r implies #[trigger] es@[j].1 == e0[j].1 by {
                assert(e1[j] == e0[j]);
            }
            assert forall|j: int| r < j < es@.len() implies #[trigger] es@[j].1 == e0[j - 1].1 by {
                assert(e1[j] == e0[j - 1]);
            }
        }
    }
}

/// How much of a group of records the rules could fill in.
#[derive(Debug, Clone, Copy, Default)]
pub struct Counter {
    pub quotes: u64,
    pub speaker: u64,
    pub source: u64,
    pub complete: u64,
    pub work: u64,
    pub date: u64,
    pub unparsed: u64,
}

pub open spec fn flag(b: bool) -> u64 {
    if b {
        1
    } else {
        0
    }
}

pub open spec fn counter_add(c: Counter, q: Quote) -> Counter {
    let with_source = Counter {
        quotes: wadd(c.quotes, 1),
        speaker: wadd(c.speaker, flag(q.speaker is Some)),
        unparsed: wadd(c.unparsed, q.provenance.unparsed_annotations as u64),
        ..c
    };
    match q.source {
        None => with_source,
        Some(s) => Counter {
            source: wadd(c.source, 1),
            complete: wadd(c.complete, flag(s.complete)),
            work: wadd(c.work, flag(s.work_title is Some)),
            date: wadd(c.date, flag(s.date_iso is Some)),
            ..with_source
        },
    }
}

impl Counter {
    pub fn new() -> (c: Counter)
        ensures
            c == (Counter { quotes: 0, speaker: 0, source: 0, complete: 0, work: 0, date: 0, unparsed: 0 }),
    {
        Counter { quotes: 0, speaker: 0, source: 0, complete: 0, work: 0, date: 0, unparsed: 0 }
    }

    /// Counts one record: whether it has a speaker and a source, whether the
    /// source is complete and names a work and a date, and how many
    /// annotations no rule could read.
    pub fn add(&mut self, quote: &Quote)
        ensures
            *final(self) == counter_add(*old(self), *quote),
    {
        self.quotes = wadd_exec(self.quotes, 1);
        self.speaker = wadd_exec(self.speaker, if quote.speaker.is_some() { 1 } else { 0 });
        self.unparsed = wadd_exec(self.unparsed, quote.provenance.unparsed_annotations as u64);
        match &quote.source {
            None => {},
            Some(source) => {
                self.source = wadd_exec(self.source, 1);
                self.complete = wadd_exec(self.complete, if source.complete { 1 } else { 0 });
                self.work = wadd_exec(self.work, if source.work_title.is_some() { 1 } else { 0 });
                self.date = wadd_exec(self.date, if source.date_iso.is_some() { 1 } else { 0 });
            },
        }
    }
}

// --- headings no rule could name ------------------------------------------------

/// A heading counts as unnamed when its role is `Other`, it gives no source
/// hint, and it is not empty.
pub open spec fn unnamed(s: Section) -> Option<Seq<char>> {
    match s.role {
        SectionRole::Other(h) => if s.source_hint is None && h@.len() > 0 {
            Some(h@)
        } else {
            None
        },
        _ => None,
    }
}

/// The unnamed headings of a section and of its subsections, in page order.
pub open spec fn unnamed_in(s: Section) -> Seq<Seq<char>>
    decreases s, 1nat, 0int,
{
    let own = match unnamed(s) {
        Some(h) => seq![h],
        None => Seq::empty(),
    };
    own + unnamed_below(s, 0)
}

pub open spec fn unnamed_below(s: Section, i: int) -> Seq<Seq<char>>
    decreases s, 0nat, s.sections@.len() - i,
{
    if i < 0 || i >= s.sections@.len() {
        Seq::empty()
    } else {
        unnamed_in(s.sections@[i]) + unnamed_below(s, i + 1)
    }
}

/// The counts after one more of each name in `hs`, in turn.
pub open spec fn counted(es: Seq<(Seq<char>, u64)>, hs: Seq<Seq<char>>) -> Seq<(Seq<char>, u64)>
    decreases hs.len(),
{
    if hs.len() == 0 {
        es
    } else {
        count_one(counted(es, hs.drop_last()), hs.last())
    }
}

/// One more for `key` in counts kept in name order.
pub open spec fn count_one(es: Seq<(Seq<char>, u64)>, key: Seq<char>) -> Seq<(Seq<char>, u64)> {
    let ks = es.map_values(|e: (Seq<char>, u64)| e.0);
    let r = below(ks, key) as int;
    if r < es.len() && es[r].0 == key {
        es.update(r, (key, wadd(es[r].1, 1)))
    } else {
        es.insert(r, (key, 1))
    }
}

pub open spec fn counts_view(es: Seq<(String, u64)>) -> Seq<(Seq<char>, u64)> {
    es.map_values(|e: (String, u64)| (e.0@, e.1))
}

proof fn lemma_bump_is_count_one(e0: Seq<(String, u64)>, e1: Seq<(String, u64)>, key: Seq<char>)
    requires
        in_order(keys_of(e0)),
        in_order(keys_of(e1)),
        (exists|j: int| 0 <= j < e0.len() && e0[j].0@ == key) ==> e1.len() == e0.len() && keys_of(e1)
            == keys_of(e0) && ({
            let r = below(keys_of(e0), key) as int;
            &&& e1[r].1 == wadd(e0[r].1, 1)
            &&& forall|j: int| 0 <= j < e0.len() && j != r ==> #[trigger] e1[j].1 == e0[j].1
        }),
        !(exists|j: int| 0 <= j < e0.len() && e0[j].0@ == key) ==> ({
            let r = below(keys_of(e0), key) as int;
            &&& keys_of(e1) == keys_of(e0).insert(r, key)
            &&& e1[r].1 == 1
            &&& forall|j: int| 0 <= j < r ==> #[trigger] e1[j].1 == e0[j].1
            &&& forall|j: int| r < j < e1.len() ==> #[trigger] e1[j].1 == e0[j - 1].1
        }),
    ensures
        counts_view(e1) == count_one(counts_view(e0), key),
{
    let ks = keys_of(e0);
    let v0 = counts_view(e0);
    assert(v0.map_values(|e: (Seq<char>, u64)| e.0) =~= ks);
    let r = below(ks, key) as int;
    lemma_below_bounds(ks, key);
    if exists|j: int| 0 <= j < e0.len() && e0[j].0@ == key {
        let j = choose|j: int| 0 <= j < e0.len() && e0[j].0@ == key;
        lemma_below_at(ks, key, j);
        assert(keys_of(e1)[r] == ks[r]);
        assert(counts_view(e1) =~= v0.update(r, (key, wadd(v0[r].1, 1)))) by {
            assert forall|m: int| 0 <= m < e1.len() implies #[trigger] counts_view(e1)[m] == v0.update(
                r,
                (key, wadd(v0[r].1, 1)),
            )[m] by {
                assert(keys_of(e1)[m] == ks[m]);
            }
        }
    } else {
        if r < e0.len() {
            assert(v0[r].0 == ks[r]);
        }
        assert(e1.len() == e0.len() + 1) by {
            assert(keys_of(e1).len() == ks.insert(r, key).len());
        }
        assert(counts_view(e1) =~= v0.insert(r, (key, 1))) by {
            assert forall|m: int| 0 <= m < e1.len() implies #[trigger] counts_view(e1)[m] == v0.insert(
                r,
                (key, 1),
            )[m] by {
                assert(keys_of(e1)[m] == ks.insert(r, key)[m]);
                if m < r {
                    assert(e1[m].1 == e0[m].1);
                } else if m > r {
                    assert(e1[m].1 == e0[m - 1].1);
                }
            }
        }
    }
}

proof fn lemma_below_bounds(ks: Seq<Seq<char>>, key: Seq<char>)
    ensures
        below(ks, key) <= ks.len(),
    decreases ks.len(),
{
    if ks.len() > 0 {
        lemma_below_bounds(ks.drop_last(), key);
    }
}

/// In names kept in order, a name that is there sits at the place `below`
/// gives.
proof fn lemma_below_at(ks: Seq<Seq<char>>, key: Seq<char>, j: int)
    requires
        in_order(ks),
        0 <= j < ks.len(),
        ks[j] == key,
    ensures
        below(ks, key) == j,
{
    lemma_str_lt_irreflexive(key);
    assert forall|q: int| 0 <= q < j implies str_lt(#[trigger] ks[q], key) by {}
    lemma_below(ks, key, j);
}

fn collect_section(s: &Section, out: &mut Vec<(String, u64)>)
    requires
        in_order(keys_of(old(out)@)),
    ensures
        in_order(keys_of(final(out)@)),
        counts_view(final(out)@) == counted(counts_view(old(out)@), unnamed_in(*s)),
    decreases *s,
{
    let ghost c0 = counts_view(out@);
    let own: Option<Vec<char>> = match &s.role {
        SectionRole::Other(h) => {
            let hc = chars_of(h.as_str());
            if s.source_hint.is_none() && hc.len() > 0 {
                Some(hc)
            } else {
                None
            }
        },
        _ => None,
    };
    let ghost own_seq: Seq<Seq<char>> = match unnamed(*s) {
        Some(h) => seq![h],
        None => Seq::empty(),
    };
    match own {
        Some(h) => {
            let ghost e0 = out@;
            bump(out, &h);
            proof {
                lemma_bump_is_count_one(e0, out@, h@);
                assert(unnamed(*s) == Some(h@));
                assert(own_seq =~= seq![h@]);
                assert(own_seq.drop_last() =~= Seq::<Seq<char>>::empty());
                assert(counted(c0, own_seq.drop_last()) == c0);
                assert(own_seq.last() == h@);
                assert(counted(c0, own_seq) == count_one(c0, h@));
            }
        },
        None => {
            assert(unnamed(*s) is None);
            assert(own_seq =~= Seq::<Seq<char>>::empty());
        },
    }
    assert(counts_view(out@) == counted(c0, own_seq));
    let mut i: usize = 0;
    while i < s.sections.len()
        invariant
            i <= s.sections.len(),
            in_order(keys_of(out@)),
            counts_view(out@) == counted(c0, own_seq + unnamed_below_upto(*s, i as int)),
        decreases s.sections.len() - i,
    {
        collect_section(&s.sections[i], out);
        proof {
            lemma_counted_concat(
                c0,
                own_seq + unnamed_below_upto(*s, i as int),
                unnamed_in(s.sections@[i as int]),
            );
            assert(own_seq + unnamed_below_upto(*s, i + 1) =~= own_seq + unnamed_below_upto(
                *s,
                i as int,
            ) + unnamed_in(s.sections@[i as int]));
        }
        i = i + 1;
    }
    proof {
        lemma_below_upto(*s, s.sections@.len() as int);
        assert(unnamed_in(*s) =~= own_seq + unnamed_below_upto(*s, s.sections@.len() as int));
    }
}

/// The unnamed headings of the first `n` subsections of `s`.
pub open spec fn unnamed_below_upto(s: Section, n: int) -> Seq<Seq<char>>
    decreases n,
{
    if n <= 0 || n > s.sections@.len() {
        Seq::empty()
    } else {
        unnamed_below_upto(s, n - 1) + unnamed_in(s.sections@[n - 1])
    }
}

proof fn lemma_below_upto(s: Section, n: int)
    requires
        0 <= n <= s.sections@.len(),
    ensures
        unnamed_below_upto(s, n) + unnamed_below(s, n) =~= unnamed_below(s, 0),
    decreases n,
{
    if n > 0 {
        lemma_below_upto(s, n - 1);
        assert(unnamed_below(s, n - 1) =~= unnamed_in(s.sections@[n - 1]) + unnamed_below(s, n));
    }
}

proof fn lemma_counted_concat(es: Seq<(Seq<char>, u64)>, a: Seq<Seq<char>>, b: Seq<Seq<char>>)
    ensures
        counted(es, a + b) == counted(counted(es, a), b),
    decreases b.len(),
{
    if b.len() == 0 {
        assert(a + b =~= a);
    } else {
        assert((a + b).drop_last() =~= a + b.drop_last());
        lemma_counted_concat(es, a, b.drop_last());
    }
}

/// The unnamed headings of a page, in page order.
pub open spec fn unnamed_on_page(ss: Seq<Section>, n: int) -> Seq<Seq<char>>
    decreases n,
{
    if n <= 0 || n > ss.len() {
        Seq::empty()
    } else {
        unnamed_on_page(ss, n - 1) + unnamed_in(ss[n - 1])
    }
}

/// Adds one to the count of each heading that no rule could name, in the
/// sections and all their subsections.
pub fn collect_headings(sections: &Vec<Section>, out: &mut Vec<(String, u64)>)
    requires
        in_order(keys_of(old(out)@)),
    ensures
        in_order(keys_of(final(out)@)),
        counts_view(final(out)@) == counted(
            counts_view(old(out)@),
            unnamed_on_page(sections@, sections@.len() as int),
        ),
{
    let ghost c0 = counts_view(out@);
    let mut i: usize = 0;
    while i < sections.len()
        invariant
            i <= sections.len(),
            in_order(keys_of(out@)),
            counts_view(out@) == counted(c0, unnamed_on_page(sections@, i as int)),
        decreases sections.len() - i,
    {
        collect_section(&sections[i], out);
        proof {
            lemma_counted_concat(
                c0,
                unnamed_on_page(sections@, i as int),
                unnamed_in(sections@[i as int]),
            );
        }
        i = i + 1;
    }
}

// --- pages --------------------------------------------------------------------

/// What the pages of a run add up to.
pub struct PageTally {
    pub total: u64,
    /// Pages per page type, in name order.
    pub by_type: Vec<(String, u64)>,
    pub with_error_node: u64,
    pub error_nodes: u64,
    /// Non-blank source lines that reached no node.
    pub unassigned_lines: u64,
    pub source_lines: u64,
    /// Headings no rule could name, with how many sections carry each.
    pub headings: Vec<(String, u64)>,
}

pub open spec fn page_tally_ok(t: PageTally) -> bool {
    in_order(keys_of(t.by_type@)) && in_order(keys_of(t.headings@))
}

impl PageTally {
    pub fn new() -> (t: PageTally)
        ensures
            page_tally_ok(t),
            t.total == 0 && t.by_type@.len() == 0 && t.headings@.len() == 0,
            t.with_error_node == 0 && t.error_nodes == 0,
            t.unassigned_lines == 0 && t.source_lines == 0,
    {
        PageTally {
            total: 0,
            by_type: Vec::new(),
            with_error_node: 0,
            error_nodes: 0,
            unassigned_lines: 0,
            source_lines: 0,
            headings: Vec::new(),
        }
    }

    /// Counts one page: its type, its error nodes, its lines, and the
    /// headings in it that no rule could name.
    pub fn add(&mut self, d: &Document)
        requires
            page_tally_ok(*old(self)),
        ensures
            page_tally_ok(*final(self)),
            final(self).total == wadd(old(self).total, 1),
            counts_view(final(self).by_type@) == count_one(
                counts_view(old(self).by_type@),
                page_type_name(d.page_type),
            ),
            final(self).error_nodes == wadd(old(self).error_nodes, d.parse.error_nodes as u64),
            final(self).with_error_node == wadd(
                old(self).with_error_node,
                flag(d.parse.error_nodes > 0),
            ),
            final(self).unassigned_lines == wadd(
                old(self).unassigned_lines,
                d.parse.unassigned_lines as u64,
            ),
            final(self).source_lines == wadd(old(self).source_lines, d.parse.source_lines as u64),
            counts_view(final(self).headings@) == counted(
                counts_view(old(self).headings@),
                unnamed_on_page(d.sections@, d.sections@.len() as int),
            ),
    {
        self.total = wadd_exec(self.total, 1);
        let name = chars_of(crate::normalize::page_type_name_exec(d.page_type).as_str());
        let ghost e0 = self.by_type@;
        bump(&mut self.by_type, &name);
        proof {
            lemma_bump_is_count_one(e0, self.by_type@, name@);
        }
        self.error_nodes = wadd_exec(self.error_nodes, d.parse.error_nodes as u64);
        if d.parse.error_nodes > 0 {
            self.with_error_node = wadd_exec(self.with_error_node, 1);
        } else {
            self.with_error_node = wadd_exec(self.with_error_node, 0);
        }
        self.unassigned_lines = wadd_exec(self.unassigned_lines, d.parse.unassigned_lines as u64);
        self.source_lines = wadd_exec(self.source_lines, d.parse.source_lines as u64);
        collect_headings(&d.sections, &mut self.headings);
    }
}

// --- quotes -------------------------------------------------------------------

pub open spec fn zero() -> Counter {
    Counter { quotes: 0, speaker: 0, source: 0, complete: 0, work: 0, date: 0, unparsed: 0 }
}

/// One more record in the group `key`, kept in name order.
pub open spec fn group_add(gs: Seq<(Seq<char>, Counter)>, key: Seq<char>, q: Quote) -> Seq<
    (Seq<char>, Counter),
> {
    let ks = gs.map_values(|e: (Seq<char>, Counter)| e.0);
    let r = below(ks, key) as int;
    if r < gs.len() && gs[r].0 == key {
        gs.update(r, (key, counter_add(gs[r].1, q)))
    } else {
        gs.insert(r, (key, counter_add(zero(), q)))
    }
}

pub open spec fn groups_view(gs: Seq<(String, Counter)>) -> Seq<(Seq<char>, Counter)> {
    gs.map_values(|e: (String, Counter)| (e.0@, e.1))
}

fn add_to_group(gs: &mut Vec<(String, Counter)>, key: &Vec<char>, q: &Quote)
    requires
        in_order(keys_of(old(gs)@)),
    ensures
        in_order(keys_of(final(gs)@)),
        groups_view(final(gs)@) == group_add(groups_view(old(gs)@), key@, *q),
{
    let ghost e0 = gs@;
    let ghost ks = keys_of(e0);
    let r = slot(gs, key, Counter::new());
    let ghost e1 = gs@;
    let (k, v) = gs.remove(r);
    let mut v = v;
    v.add(q);
    gs.insert(r, (k, v));
    proof {
        let v0 = groups_view(e0);
        assert(v0.map_values(|e: (Seq<char>, Counter)| e.0) =~= ks);
        assert(keys_of(gs@) =~= keys_of(e1));
        if exists|j: int| 0 <= j < e0.len() && e0[j].0@ == key@ {
            assert(groups_view(gs@) =~= v0.update(r as int, (key@, counter_add(v0[r as int].1, *q))));
        } else {
            if (r as int) < e0.len() {
                assert(v0[r as int].0 == ks[r as int]);
                assert(!(e0[r as int].0@ == key@));
            }
            assert forall|m: int| 0 <= m < gs@.len() implies #[trigger] groups_view(gs@)[m]
                == v0.insert(r as int, (key@, counter_add(zero(), *q)))[m] by {
                if m < r {
                    assert(e1[m] == e0[m]);
                } else if m > r {
                    assert(e1[m] == e0[m - 1]);
                }
            }
            assert(groups_view(gs@) =~= v0.insert(r as int, (key@, counter_add(zero(), *q))));
        }
    }
}

/// What the quote records of a run add up to.
pub struct QuoteTally {
    pub total: u64,
    pub by_kind: Vec<(String, u64)>,
    pub by_status: Vec<(String, u64)>,
    pub by_page_type: Vec<(String, Counter)>,
    pub overall: Counter,
}

pub open spec fn quote_tally_ok(t: QuoteTally) -> bool {
    in_order(keys_of(t.by_kind@)) && in_order(keys_of(t.by_status@)) && in_order(
        keys_of(t.by_page_type@),
    )
}

impl QuoteTally {
    pub fn new() -> (t: QuoteTally)
        ensures
            quote_tally_ok(t),
            t.total == 0,
            t.by_kind@.len() == 0 && t.by_status@.len() == 0 && t.by_page_type@.len() == 0,
            t.overall == zero(),
    {
        QuoteTally {
            total: 0,
            by_kind: Vec::new(),
            by_status: Vec::new(),
            by_page_type: Vec::new(),
            overall: Counter::new(),
        }
    }

    /// Counts one record: its kind, its status, and what the rules filled in,
    /// for its page type and overall.
    pub fn add(&mut self, q: &Quote)
        requires
            quote_tally_ok(*old(self)),
        ensures
            quote_tally_ok(*final(self)),
            final(self).total == wadd(old(self).total, 1),
            counts_view(final(self).by_kind@) == count_one(counts_view(old(self).by_kind@), q.kind@),
            counts_view(final(self).by_status@) == count_one(
                counts_view(old(self).by_status@),
                q.status@,
            ),
            groups_view(final(self).by_page_type@) == group_add(
                groups_view(old(self).by_page_type@),
                q.page_type@,
                *q,
            ),
            final(self).overall == counter_add(old(self).overall, *q),
    {
        self.total = wadd_exec(self.total, 1);
        let kind = chars_of(q.kind.as_str());
        let ghost k0 = self.by_kind@;
        bump(&mut self.by_kind, &kind);
        proof {
            lemma_bump_is_count_one(k0, self.by_kind@, kind@);
        }
        let status = chars_of(q.status.as_str());
        let ghost s0 = self.by_status@;
        bump(&mut self.by_status, &status);
        proof {
            lemma_bump_is_count_one(s0, self.by_status@, status@);
        }
        add_to_group(&mut self.by_page_type, &chars_of(q.page_type.as_str()), q);
        self.overall.add(q);
    }
}

// --- the headings to look at first ------------------------------------------------

/// A heading with how many sections carry it.
#[derive(Debug, Clone)]
pub struct Count {
    pub heading: String,
    pub sections: u64,
}

/// More sections first; equal counts in name order.
pub open spec fn comes_before(a: (Seq<char>, u64), b: (Seq<char>, u64)) -> bool {
    a.1 > b.1 || (a.1 == b.1 && str_lt(a.0, b.0))
}

/// Where `x` goes in a list: before the first entry it comes before.
pub open spec fn place(xs: Seq<(Seq<char>, u64)>, x: (Seq<char>, u64), i: int) -> int
    decreases xs.len() - i,
{
    if i < 0 || i >= xs.len() {
        xs.len() as int
    } else if comes_before(x, xs[i]) {
        i
    } else {
        place(xs, x, i + 1)
    }
}

/// The entries in the order of `comes_before`, one inserted at a time.
pub open spec fn ranked(xs: Seq<(Seq<char>, u64)>) -> Seq<(Seq<char>, u64)>
    decreases xs.len(),
{
    if xs.len() == 0 {
        Seq::empty()
    } else {
        let r = ranked(xs.drop_last());
        r.insert(place(r, xs.last(), 0), xs.last())
    }
}

proof fn lemma_ranked_len(xs: Seq<(Seq<char>, u64)>)
    ensures
        ranked(xs).len() == xs.len(),
    decreases xs.len(),
{
    if xs.len() > 0 {
        lemma_ranked_len(xs.drop_last());
        lemma_place_bounds(ranked(xs.drop_last()), xs.last(), 0);
    }
}

proof fn lemma_place_bounds(xs: Seq<(Seq<char>, u64)>, x: (Seq<char>, u64), i: int)
    requires
        0 <= i,
    ensures
        0 <= place(xs, x, i) <= xs.len(),
    decreases xs.len() - i,
{
    if i < xs.len() && !comes_before(x, xs[i]) {
        lemma_place_bounds(xs, x, i + 1);
    }
}

/// No entry comes before one that stands ahead of it.
pub open spec fn is_ranked(xs: Seq<(Seq<char>, u64)>) -> bool {
    forall|i: int, j: int|
        0 <= i < j < xs.len() ==> !comes_before(#[trigger] xs[j], #[trigger] xs[i])
}

proof fn lemma_comes_before_transitive(a: (Seq<char>, u64), b: (Seq<char>, u64), c: (Seq<char>, u64))
    requires
        comes_before(a, b),
        comes_before(b, c),
    ensures
        comes_before(a, c),
{
    if a.1 == b.1 && b.1 == c.1 {
        lemma_str_lt_transitive(a.0, b.0, c.0);
    }
}

proof fn lemma_comes_before_asymmetric(a: (Seq<char>, u64), b: (Seq<char>, u64))
    requires
        comes_before(a, b),
    ensures
        !comes_before(b, a),
{
    if a.1 == b.1 && str_lt(b.0, a.0) {
        lemma_str_lt_transitive(a.0, b.0, a.0);
        lemma_str_lt_irreflexive(a.0);
    }
}

proof fn lemma_place_first(xs: Seq<(Seq<char>, u64)>, x: (Seq<char>, u64), i: int)
    requires
        0 <= i,
    ensures
        forall|k: int| i <= k < place(xs, x, i) ==> !comes_before(x, #[trigger] xs[k]),
        place(xs, x, i) < xs.len() ==> comes_before(x, xs[place(xs, x, i)]),
    decreases xs.len() - i,
{
    if i < xs.len() && !comes_before(x, xs[i]) {
        lemma_place_first(xs, x, i + 1);
    }
}

proof fn lemma_insert_keeps_rank(r: Seq<(Seq<char>, u64)>, x: (Seq<char>, u64))
    requires
        is_ranked(r),
    ensures
        is_ranked(r.insert(place(r, x, 0), x)),
{
    let p = place(r, x, 0);
    lemma_place_bounds(r, x, 0);
    lemma_place_first(r, x, 0);
    let s = r.insert(p, x);
    assert forall|i: int, j: int| 0 <= i < j < s.len() implies !comes_before(
        #[trigger] s[j],
        #[trigger] s[i],
    ) by {
        if j < p {
            assert(s[i] == r[i] && s[j] == r[j]);
        } else if j == p {
            assert(s[i] == r[i]);
        } else if i == p {
            assert(s[j] == r[j - 1]);
            if comes_before(r[j - 1], x) {
                if j - 1 == p {
                    lemma_comes_before_asymmetric(r[p], x);
                } else {
                    lemma_comes_before_transitive(r[j - 1], x, r[p]);
                }
            }
        } else if i < p {
            assert(s[i] == r[i] && s[j] == r[j - 1]);
        } else {
            assert(s[i] == r[i - 1] && s[j] == r[j - 1]);
        }
    }
}

/// The headings come most common first, equal counts in name order, and
/// ranking them neither adds nor drops one.
pub proof fn law_the_commonest_headings_come_first(xs: Seq<(Seq<char>, u64)>)
    ensures
        is_ranked(ranked(xs)),
        ranked(xs).to_multiset() == xs.to_multiset(),
    decreases xs.len(),
{
    if xs.len() > 0 {
        let r = ranked(xs.drop_last());
        law_the_commonest_headings_come_first(xs.drop_last());
        lemma_insert_keeps_rank(r, xs.last());
        lemma_place_bounds(r, xs.last(), 0);
        vstd::seq_lib::to_multiset_insert(r, place(r, xs.last(), 0), xs.last());
        vstd::seq_lib::to_multiset_build(xs.drop_last(), xs.last());
        assert(xs.drop_last().push(xs.last()) =~= xs);
    } else {
        assert(ranked(xs).to_multiset() =~= xs.to_multiset()) by {
            vstd::seq_lib::to_multiset_len(xs);
            vstd::seq_lib::to_multiset_len(ranked(xs));
            vstd::multiset::lemma_multiset_empty_len(xs.to_multiset());
            vstd::multiset::lemma_multiset_empty_len(ranked(xs).to_multiset());
        }
    }
}

fn comes_before_exec(a: &(Vec<char>, u64), b: &(Vec<char>, u64)) -> (r: bool)
    ensures
        r == comes_before((a.0@, a.1), (b.0@, b.1)),
{
    a.1 > b.1 || (a.1 == b.1 && str_lt_exec(&a.0, &b.0))
}

pub open spec fn pairs_view(v: Seq<(Vec<char>, u64)>) -> Seq<(Seq<char>, u64)> {
    v.map_values(|e: (Vec<char>, u64)| (e.0@, e.1))
}

/// The headings no rule could name, most common first, at most forty.
pub fn unnamed_headings(headings: &Vec<(String, u64)>) -> (r: Vec<Count>)
    ensures
        r@.map_values(|c: Count| (c.heading@, c.sections)) == ranked(counts_view(headings@)).take(
            if headings@.len() < 40 {
                headings@.len() as int
            } else {
                40
            },
        ),
        is_ranked(r@.map_values(|c: Count| (c.heading@, c.sections))),
{
    let ghost hv = counts_view(headings@);
    let mut sorted: Vec<(Vec<char>, u64)> = Vec::new();
    let mut i: usize = 0;
    assert(pairs_view(sorted@) =~= ranked(hv.take(0)));
    while i < headings.len()
        invariant
            i <= headings.len(),
            hv == counts_view(headings@),
            pairs_view(sorted@) == ranked(hv.take(i as int)),
        decreases headings.len() - i,
    {
        let x = (chars_of(headings[i].0.as_str()), headings[i].1);
        let ghost xv = (x.0@, x.1);
        assert(hv.take(i + 1).drop_last() =~= hv.take(i as int));
        assert(hv.take(i + 1).last() == xv);
        let mut p: usize = 0;
        while p < sorted.len() && !comes_before_exec(&x, &sorted[p])
            invariant
                p <= sorted.len(),
                xv == (x.0@, x.1),
                place(pairs_view(sorted@), xv, p as int) == place(pairs_view(sorted@), xv, 0),
            decreases sorted.len() - p,
        {
            p = p + 1;
        }
        let ghost before = sorted@;
        sorted.insert(p, x);
        assert(pairs_view(sorted@) =~= pairs_view(before).insert(p as int, xv));
        i = i + 1;
    }
    assert(hv.take(headings.len() as int) =~= hv);
    proof {
        lemma_ranked_len(hv);
    }
    let n: usize = if headings.len() < 40 { headings.len() } else { 40 };
    let mut r: Vec<Count> = Vec::new();
    let mut j: usize = 0;
    while j < n
        invariant
            j <= n,
            n <= sorted@.len(),
            pairs_view(sorted@) == ranked(hv),
            r@.map_values(|c: Count| (c.heading@, c.sections)) == ranked(hv).take(j as int),
        decreases n - j,
    {
        let ghost before = r@;
        r.push(Count { heading: string_of(&sorted[j].0), sections: sorted[j].1 });
        assert(r@.map_values(|c: Count| (c.heading@, c.sections)) =~= before.map_values(
            |c: Count| (c.heading@, c.sections),
        ).push(pairs_view(sorted@)[j as int]));
        assert(ranked(hv).take(j + 1) =~= ranked(hv).take(j as int).push(ranked(hv)[j as int]));
        j = j + 1;
    }
    proof {
        law_the_commonest_headings_come_first(hv);
        let t = ranked(hv).take(n as int);
        assert forall|a: int, b: int| 0 <= a < b < t.len() implies !comes_before(
            #[trigger] t[b],
            #[trigger] t[a],
        ) by {
            assert(t[a] == ranked(hv)[a] && t[b] == ranked(hv)[b]);
        }
    }
    r
}

} // verus!
