//! Reading and writing integers the way `str::parse`, `from_str_radix` and
//! `format!("{:04}")` do.

use vstd::prelude::*;

verus! {

/// The value of `c` as a digit in base 10 or 16, if it is one.
pub open spec fn digit_value(c: char, radix: nat) -> Option<nat> {
    if '0' <= c && c <= '9' {
        Some(((c as int) - ('0' as int)) as nat)
    } else if radix == 16 && 'a' <= c && c <= 'f' {
        Some(((c as int) - ('a' as int) + 10) as nat)
    } else if radix == 16 && 'A' <= c && c <= 'F' {
        Some(((c as int) - ('A' as int) + 10) as nat)
    } else {
        None
    }
}

pub open spec fn all_digits(s: Seq<char>, radix: nat) -> bool {
    forall|i: int| 0 <= i < s.len() ==> (#[trigger] digit_value(s[i], radix)) is Some
}

/// The number written by the digits `s`, most significant first.
pub open spec fn digits_value(s: Seq<char>, radix: nat) -> nat
    decreases s.len(),
{
    if s.len() == 0 {
        0
    } else {
        digits_value(s.drop_last(), radix) * radix + match digit_value(s.last(), radix) {
            Some(d) => d,
            None => 0,
        }
    }
}

/// The digits of an unsigned number once a leading `+` is removed.
pub open spec fn unsigned_body(s: Seq<char>) -> Seq<char> {
    if s.len() > 0 && s[0] == '+' {
        s.drop_first()
    } else {
        s
    }
}

/// `str::parse` (or `from_str_radix`) for an unsigned type whose largest
/// value is `max`: an optional `+`, then at least one digit, and no overflow.
pub open spec fn parse_unsigned(s: Seq<char>, radix: nat, max: nat) -> Option<nat> {
    let body = unsigned_body(s);
    if body.len() > 0 && all_digits(body, radix) && digits_value(body, radix) <= max {
        Some(digits_value(body, radix))
    } else {
        None
    }
}

/// `str::parse::<i32>`: an optional sign, then at least one digit, within
/// the range of `i32`.
pub open spec fn parse_i32_spec(s: Seq<char>) -> Option<int> {
    if s.len() > 0 && s[0] == '-' {
        let body = s.drop_first();
        if body.len() > 0 && all_digits(body, 10) && digits_value(body, 10) <= 0x8000_0000 {
            Some(-(digits_value(body, 10) as int))
        } else {
            None
        }
    } else {
        match parse_unsigned(s, 10, 0x7fff_ffff) {
            Some(v) => Some(v as int),
            None => None,
        }
    }
}

proof fn lemma_digits_monotone(s: Seq<char>, radix: nat, k: int)
    requires
        0 <= k <= s.len(),
        radix >= 1,
    ensures
        digits_value(s.take(k), radix) <= digits_value(s, radix),
    decreases s.len() - k,
{
    if k < s.len() {
        lemma_digits_monotone(s, radix, k + 1);
        assert(s.take(k + 1).drop_last() =~= s.take(k));
        let v = digits_value(s.take(k), radix);
        assert(v * radix >= v) by (nonlinear_arith)
            requires
                radix >= 1,
        ;
    } else {
        assert(s.take(k) =~= s);
    }
}

pub open spec fn pow10(n: nat) -> nat
    decreases n,
{
    if n == 0 {
        1
    } else {
        10 * pow10((n - 1) as nat)
    }
}

/// Decimal digits `s` write a number below `10^len`.
pub proof fn lemma_digits_bound(s: Seq<char>)
    requires
        all_digits(s, 10),
    ensures
        digits_value(s, 10) < pow10(s.len()),
    decreases s.len(),
{
    if s.len() > 0 {
        let t = s.drop_last();
        assert forall|i: int| 0 <= i < t.len() implies (#[trigger] digit_value(t[i], 10)) is Some by {
            assert(t[i] == s[i]);
        }
        lemma_digits_bound(t);
        assert(digit_value(s[s.len() - 1], 10) is Some);
    }
}

/// A number of at most four characters that parses as an `i32` lies within
/// `-9999..=9999`.
pub proof fn lemma_short_i32(s: Seq<char>)
    requires
        s.len() <= 4,
        parse_i32_spec(s) is Some,
    ensures
        -9999 <= parse_i32_spec(s)->0 <= 9999,
{
    if s.len() > 0 && s[0] == '-' {
        lemma_digits_bound(s.drop_first());
        reveal_with_fuel(pow10, 5);
    } else {
        lemma_digits_bound(unsigned_body(s));
        reveal_with_fuel(pow10, 5);
    }
}

fn digit_of(c: char, radix: u32) -> (r: Option<u64>)
    requires
        radix == 10 || radix == 16,
    ensures
        match r {
            Some(d) => digit_value(c, radix as nat) == Some(d as nat) && d < radix,
            None => digit_value(c, radix as nat) is None,
        },
{
    if '0' <= c && c <= '9' {
        Some((c as u32 - '0' as u32) as u64)
    } else if radix == 16 && 'a' <= c && c <= 'f' {
        Some((c as u32 - 'a' as u32 + 10) as u64)
    } else if radix == 16 && 'A' <= c && c <= 'F' {
        Some((c as u32 - 'A' as u32 + 10) as u64)
    } else {
        None
    }
}

/// The value of the digits `s[from..]`, when all are digits and the value is
/// at most `max`.
fn digits_capped(s: &Vec<char>, from: usize, radix: u32, max: u64) -> (r: Option<u64>)
    requires
        from <= s.len(),
        radix == 10 || radix == 16,
        max <= 0xffff_ffff,
    ensures
        ({
            let body = s@.skip(from as int);
            match r {
                Some(v) => body.len() > 0 && all_digits(body, radix as nat) && digits_value(
                    body,
                    radix as nat,
                ) == v && v <= max,
                None => !(body.len() > 0 && all_digits(body, radix as nat) && digits_value(
                    body,
                    radix as nat,
                ) <= max),
            }
        }),
{
    let ghost body = s@.skip(from as int);
    if from == s.len() {
        return None;
    }
    let mut v: u64 = 0;
    let mut i: usize = from;
    while i < s.len()
        invariant
            from <= i <= s.len(),
            body == s@.skip(from as int),
            radix == 10 || radix == 16,
            max <= 0xffff_ffff,
            v <= max,
            all_digits(body.take(i - from), radix as nat),
            digits_value(body.take(i - from), radix as nat) == v,
        decreases s.len() - i,
    {
        let ghost k = i - from;
        match digit_of(s[i], radix) {
            Some(d) => {
                assert(body.take(k + 1).drop_last() =~= body.take(k));
                assert(body.take(k + 1).last() == s@[i as int]);
                assert(v * (radix as u64) <= 0xffff_ffff * 16) by (nonlinear_arith)
                    requires
                        v <= 0xffff_ffff,
                        radix <= 16,
                ;
                let w = v * (radix as u64) + d;
                assert(digits_value(body.take(k + 1), radix as nat) == w);
                if w > max {
                    proof {
                        lemma_digits_monotone(body, radix as nat, k + 1);
                    }
                    return None;
                }
                v = w;
                assert forall|j: int| 0 <= j < k + 1 implies (#[trigger] digit_value(
                    body.take(k + 1)[j],
                    radix as nat,
                )) is Some by {
                    if j < k {
                        assert(body.take(k + 1)[j] == body.take(k)[j]);
                    }
                }
            },
            None => {
                assert(digit_value(body[k], radix as nat) is None);
                return None;
            },
        }
        i = i + 1;
    }
    assert(body.take(i - from) =~= body);
    Some(v)
}

fn parse_unsigned_exec(s: &Vec<char>, radix: u32, max: u64) -> (r: Option<u64>)
    requires
        radix == 10 || radix == 16,
        max <= 0xffff_ffff,
    ensures
        match r {
            Some(v) => parse_unsigned(s@, radix as nat, max as nat) == Some(v as nat),
            None => parse_unsigned(s@, radix as nat, max as nat) is None,
        },
{
    let from: usize = if s.len() > 0 && s[0] == '+' {
        1
    } else {
        0
    };
    assert(unsigned_body(s@) =~= s@.skip(from as int));
    digits_capped(s, from, radix, max)
}

/// `str::parse::<u16>`.
pub fn parse_u16(s: &Vec<char>) -> (r: Option<u16>)
    ensures
        match r {
            Some(v) => parse_unsigned(s@, 10, 0xffff) == Some(v as nat),
            None => parse_unsigned(s@, 10, 0xffff) is None,
        },
{
    match parse_unsigned_exec(s, 10, 0xffff) {
        Some(v) => Some(v as u16),
        None => None,
    }
}

/// `str::parse::<u8>`.
pub fn parse_u8(s: &Vec<char>) -> (r: Option<u8>)
    ensures
        match r {
            Some(v) => parse_unsigned(s@, 10, 0xff) == Some(v as nat),
            None => parse_unsigned(s@, 10, 0xff) is None,
        },
{
    match parse_unsigned_exec(s, 10, 0xff) {
        Some(v) => Some(v as u8),
        None => None,
    }
}

/// `str::parse::<u32>` (radix 10) or `u32::from_str_radix(s, 16)`.
pub fn parse_u32(s: &Vec<char>, radix: u32) -> (r: Option<u32>)
    requires
        radix == 10 || radix == 16,
    ensures
        match r {
            Some(v) => parse_unsigned(s@, radix as nat, 0xffff_ffff) == Some(v as nat),
            None => parse_unsigned(s@, radix as nat, 0xffff_ffff) is None,
        },
{
    match parse_unsigned_exec(s, radix, 0xffff_ffff) {
        Some(v) => Some(v as u32),
        None => None,
    }
}

/// `str::parse::<i32>`.
pub fn parse_i32(s: &Vec<char>) -> (r: Option<i32>)
    ensures
        match r {
            Some(v) => parse_i32_spec(s@) == Some(v as int),
            None => parse_i32_spec(s@) is None,
        },
{
    if s.len() > 0 && s[0] == '-' {
        assert(s@.drop_first() =~= s@.skip(1));
        match digits_capped(s, 1, 10, 0x8000_0000) {
            Some(v) => {
                let r: i64 = 0 - (v as i64);
                Some(r as i32)
            },
            None => None,
        }
    } else {
        match parse_unsigned_exec(s, 10, 0x7fff_ffff) {
            Some(v) => Some(v as i32),
            None => None,
        }
    }
}

// --- writing ----------------------------------------------------------------

pub open spec fn digit_char(d: nat) -> char {
    seq!['0', '1', '2', '3', '4', '5', '6', '7', '8', '9'][d as int]
}

/// The decimal digits of `n`, with no leading zero.
pub open spec fn decimal(n: nat) -> Seq<char>
    decreases n,
{
    if n < 10 {
        seq![digit_char(n)]
    } else {
        decimal(n / 10).push(digit_char(n % 10))
    }
}

/// `s` with zeros in front up to a length of `width`.
pub open spec fn zero_pad(s: Seq<char>, width: nat) -> Seq<char> {
    if s.len() >= width {
        s
    } else {
        Seq::new((width - s.len()) as nat, |i: int| '0') + s
    }
}

/// `format!("{n:04}")`: the sign counts toward the width.
pub open spec fn padded4(n: int) -> Seq<char> {
    if n < 0 {
        seq!['-'] + zero_pad(decimal((-n) as nat), 3)
    } else {
        zero_pad(decimal(n as nat), 4)
    }
}

/// `format!("{n:02}")` for an unsigned number.
pub open spec fn padded2(n: nat) -> Seq<char> {
    zero_pad(decimal(n), 2)
}

fn digit_char_exec(d: u128) -> (c: char)
    requires
        d < 10,
    ensures
        c == digit_char(d as nat),
{
    let digits = ['0', '1', '2', '3', '4', '5', '6', '7', '8', '9'];
    let c = digits[d as usize];
    assert(c == digit_char(d as nat)) by {
        assert(digits@ =~= seq!['0', '1', '2', '3', '4', '5', '6', '7', '8', '9']);
    }
    c
}

/// The decimal digits of `n`: `n.to_string()`.
pub fn decimal_exec(n: u128) -> (r: Vec<char>)
    ensures
        r@ == decimal(n as nat),
    decreases n,
{
    if n < 10 {
        let mut v: Vec<char> = Vec::new();
        v.push(digit_char_exec(n));
        assert(v@ =~= seq![digit_char(n as nat)]);
        v
    } else {
        let mut v = decimal_exec(n / 10);
        v.push(digit_char_exec(n % 10));
        v
    }
}

pub fn zero_pad_exec(s: Vec<char>, width: usize) -> (r: Vec<char>)
    ensures
        r@ == zero_pad(s@, width as nat),
{
    if s.len() >= width {
        return s;
    }
    let mut r: Vec<char> = Vec::new();
    let n = width - s.len();
    let mut k: usize = 0;
    while k < n
        invariant
            k <= n,
            r@ == Seq::new(k as nat, |i: int| '0'),
        decreases n - k,
    {
        r.push('0');
        k = k + 1;
        assert(r@ =~= Seq::new(k as nat, |i: int| '0'));
    }
    crate::text::append(&mut r, &s);
    r
}

/// `format!("{n:04}")`.
pub fn padded4_exec(n: i64) -> (r: Vec<char>)
    ensures
        r@ == padded4(n as int),
{
    if n < 0 {
        let wide: i128 = n as i128;
        let digits = decimal_exec((0 - wide) as u128);
        let padded = zero_pad_exec(digits, 3);
        let mut r: Vec<char> = Vec::new();
        r.push('-');
        crate::text::append(&mut r, &padded);
        assert(r@ =~= seq!['-'] + padded@);
        r
    } else {
        zero_pad_exec(decimal_exec(n as u128), 4)
    }
}

/// `format!("{n:02}")`.
pub fn padded2_exec(n: u64) -> (r: Vec<char>)
    ensures
        r@ == padded2(n as nat),
{
    zero_pad_exec(decimal_exec(n as u128), 2)
}

} // verus!
