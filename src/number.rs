//! Decimal integers and fixed-point decimals, read from and written as ASCII.

use vstd::prelude::*;
use crate::text::{push_bytes, same_text, utf8};

verus! {

/// The byte of the ASCII digit `0`.
pub const ZERO: u8 = 48;
/// The byte of `-`.
pub const MINUS: u8 = 45;
/// The byte of `+`.
pub const PLUS: u8 = 43;
/// The byte of `.`.
pub const POINT: u8 = 46;

pub open spec fn is_digit(b: u8) -> bool {
    ZERO <= b <= ZERO + 9
}

pub open spec fn all_digits(s: Seq<u8>) -> bool {
    forall|i: int| 0 <= i < s.len() ==> is_digit(#[trigger] s[i])
}

/// The value of a run of decimal digits, most significant first.
pub open spec fn digits_value(s: Seq<u8>) -> nat
    decreases s.len(),
{
    if s.len() == 0 {
        0
    } else {
        digits_value(s.drop_last()) * 10 + (s.last() - ZERO) as nat
    }
}

/// The integer that `s` writes: an optional `+` or `-`, then one or more
/// decimal digits, nothing else.
pub open spec fn parse_int(s: Seq<u8>) -> Option<int> {
    if s.len() > 0 && (s[0] == MINUS || s[0] == PLUS) {
        let d = s.drop_first();
        if d.len() > 0 && all_digits(d) {
            Some(if s[0] == MINUS { -digits_value(d) } else { digits_value(d) as int })
        } else {
            None
        }
    } else if s.len() > 0 && all_digits(s) {
        Some(digits_value(s) as int)
    } else {
        None
    }
}

/// Whether `s` writes an integer in `[lo, hi]`.
pub open spec fn int_in_range(s: Seq<u8>, lo: int, hi: int) -> bool {
    &&& parse_int(s) is Some
    &&& lo <= parse_int(s)->0 <= hi
}

/// The shortest decimal digits of `n`.
pub open spec fn nat_text(n: nat) -> Seq<u8>
    decreases n,
{
    if n < 10 {
        seq![(ZERO + n) as u8]
    } else {
        nat_text(n / 10) + seq![(ZERO + n % 10) as u8]
    }
}

/// How an integer is written: `-` before the digits of a negative one.
pub open spec fn int_text(n: int) -> Seq<u8> {
    if n < 0 {
        seq![MINUS] + nat_text((-n) as nat)
    } else {
        nat_text(n as nat)
    }
}

/// Digit values are capped here while reading, so that they never overflow.
const CAP: u128 = 0x1_0000_0000_0000_0000;

/// Reads the digits of `s` from `start` on, capped at `CAP`; `None` where a
/// byte is not a digit.
fn read_digits(s: &[u8], start: usize) -> (r: Option<u128>)
    requires
        start <= s@.len(),
    ensures
        r is Some <==> all_digits(s@.skip(start as int)),
        r is Some ==> r->0 == if digits_value(s@.skip(start as int)) < CAP as nat {
            digits_value(s@.skip(start as int))
        } else {
            CAP as nat
        },
{
    let ghost d = s@.skip(start as int);
    let mut acc: u128 = 0;
    let mut i: usize = start;
    while i < s.len()
        invariant
            start <= i <= s@.len(),
            d == s@.skip(start as int),
            all_digits(d.take(i - start)),
            acc as nat == if digits_value(d.take(i - start)) < CAP as nat {
                digits_value(d.take(i - start))
            } else {
                CAP as nat
            },
        decreases s@.len() - i,
    {
        let b = s[i];
        if b < ZERO || b > ZERO + 9 {
            assert(d[i - start] == b);
            return None;
        }
        let ghost prev = d.take(i - start);
        let ghost next = d.take(i - start + 1);
        assert(next.drop_last() =~= prev);
        assert(next.last() == b);
        let v = acc * 10 + (b - ZERO) as u128;
        acc = if v < CAP { v } else { CAP };
        proof {
            let pv = digits_value(prev);
            assert(digits_value(next) == pv * 10 + (b - ZERO) as nat);
            if pv >= CAP as nat {
                assert(pv * 10 >= CAP as nat) by (nonlinear_arith)
                    requires pv >= CAP as nat;
            }
        }
        i = i + 1;
        assert forall|j: int| 0 <= j < next.len() implies is_digit(#[trigger] next[j]) by {
            if j < prev.len() {
                assert(next[j] == prev[j]);
            }
        }
    }
    assert(d.take(i - start) =~= d);
    Some(acc)
}

/// Reads an integer in `[lo, hi]` as `str::parse` does for the signed integer
/// types: an optional sign, then decimal digits.
pub fn parse_in_range(s: &[u8], lo: i64, hi: i64) -> (r: Option<i64>)
    requires
        lo <= 0 <= hi,
    ensures
        r is Some <==> int_in_range(s@, lo as int, hi as int),
        r is Some ==> r->0 == parse_int(s@)->0,
{
    if s.len() == 0 {
        return None;
    }
    let negative = s[0] == MINUS;
    let signed = negative || s[0] == PLUS;
    let start: usize = if signed { 1 } else { 0 };
    if signed && s.len() == 1 {
        return None;
    }
    assert(s@.skip(1) =~= s@.drop_first());
    assert(s@.skip(0) =~= s@);
    match read_digits(s, start) {
        None => None,
        Some(m) => {
            if negative {
                if m > (-(lo as i128)) as u128 {
                    None
                } else {
                    Some((-(m as i128)) as i64)
                }
            } else {
                if m > hi as u128 {
                    None
                } else {
                    Some(m as i64)
                }
            }
        },
    }
}

/// Appends the decimal digits of `n`.
fn push_nat(out: &mut Vec<u8>, n: u64)
    ensures
        final(out)@ == old(out)@ + nat_text(n as nat),
    decreases n,
{
    if n >= 10 {
        push_nat(out, n / 10);
    }
    out.push(ZERO + (n % 10) as u8);
    assert(out@ =~= old(out)@ + nat_text(n as nat));
}

/// Appends `n` written in decimal.
pub fn push_int(out: &mut Vec<u8>, n: i64)
    ensures
        final(out)@ == old(out)@ + int_text(n as int),
{
    if n < 0 {
        out.push(MINUS);
        let m: u64 = (-(n as i128)) as u64;
        push_nat(out, m);
        assert(out@ =~= old(out)@ + int_text(n as int));
    } else {
        push_nat(out, n as u64);
    }
}

/// A decimal number kept digit for digit as it was written, so that it is
/// written back without rounding.
#[derive(Debug)]
pub struct Decimal {
    pub negative: bool,
    /// Digits before the point; `0` where none were written.
    pub whole: Vec<u8>,
    /// Digits after the point, possibly none.
    pub fraction: Vec<u8>,
}

pub struct DecimalView {
    pub negative: bool,
    pub whole: Seq<u8>,
    pub fraction: Seq<u8>,
}

impl View for Decimal {
    type V = DecimalView;

    open spec fn view(&self) -> DecimalView {
        DecimalView { negative: self.negative, whole: self.whole@, fraction: self.fraction@ }
    }
}

/// The number of leading decimal digits of `s`.
pub open spec fn digit_run(s: Seq<u8>) -> nat
    decreases s.len(),
{
    if s.len() > 0 && is_digit(s[0]) {
        1 + digit_run(s.drop_first())
    } else {
        0
    }
}

/// The sign of a number and the bytes after it.
pub open spec fn split_sign(s: Seq<u8>) -> (bool, Seq<u8>) {
    if s.len() > 0 && s[0] == MINUS {
        (true, s.drop_first())
    } else if s.len() > 0 && s[0] == PLUS {
        (false, s.drop_first())
    } else {
        (false, s)
    }
}

/// The decimal that `s` writes: an optional sign, digits, and optionally a
/// point followed by digits, with at least one digit in all.
pub open spec fn parse_decimal(s: Seq<u8>) -> Option<DecimalView> {
    let (negative, body) = split_sign(s);
    let w = body.take(digit_run(body) as int);
    let rest = body.skip(digit_run(body) as int);
    let f = if rest.len() > 0 { rest.drop_first() } else { rest };
    if (rest.len() == 0 || (rest[0] == POINT && all_digits(f))) && w.len() + f.len() > 0 {
        Some(
            DecimalView {
                negative,
                whole: if w.len() == 0 { seq![ZERO] } else { w },
                fraction: f,
            },
        )
    } else {
        None
    }
}

/// How a decimal is written: a `-` where it is negative, the whole digits,
/// and a point with the fraction digits where there are any.
pub open spec fn decimal_text(d: DecimalView) -> Seq<u8> {
    (if d.negative { seq![MINUS] } else { Seq::empty() }) + d.whole + (if d.fraction.len() > 0 {
        seq![POINT] + d.fraction
    } else {
        Seq::empty()
    })
}

proof fn lemma_digit_run(s: Seq<u8>, k: int)
    requires
        0 <= k <= s.len(),
        all_digits(s.take(k)),
        k == s.len() || !is_digit(s[k]),
    ensures
        digit_run(s) == k,
    decreases k,
{
    if k > 0 {
        assert(s.take(k)[0] == s[0]);
        let t = s.drop_first();
        assert forall|i: int| 0 <= i < k - 1 implies is_digit(#[trigger] t.take(k - 1)[i]) by {
            assert(t.take(k - 1)[i] == s.take(k)[i + 1]);
        }
        if k < s.len() {
            assert(t[k - 1] == s[k]);
        }
        lemma_digit_run(t, k - 1);
    }
}

impl Decimal {
    /// Zero, written `0`.
    pub fn zero() -> (r: Decimal)
        ensures
            r@ == (DecimalView { negative: false, whole: seq![ZERO], fraction: Seq::empty() }),
    {
        let mut whole: Vec<u8> = Vec::new();
        whole.push(ZERO);
        let r = Decimal { negative: false, whole, fraction: Vec::new() };
        assert(r@.whole =~= seq![ZERO]);
        assert(r@.fraction =~= Seq::<u8>::empty());
        r
    }

    /// Reads a decimal; `None` where `s` is not one.
    pub fn parse(s: &[u8]) -> (r: Option<Decimal>)
        ensures
            r is Some <==> parse_decimal(s@) is Some,
            r is Some ==> r->0@ == parse_decimal(s@)->0,
    {
        let negative = s.len() > 0 && s[0] == MINUS;
        let start: usize = if s.len() > 0 && (s[0] == MINUS || s[0] == PLUS) { 1 } else { 0 };
        let ghost body = split_sign(s@).1;
        assert(body =~= s@.skip(start as int));
        let mut whole: Vec<u8> = Vec::new();
        let mut i: usize = start;
        while i < s.len() && s[i] >= ZERO && s[i] <= ZERO + 9
            invariant
                start <= i <= s@.len(),
                body == s@.skip(start as int),
                whole@ == body.take(i - start),
                all_digits(whole@),
            decreases s@.len() - i,
        {
            whole.push(s[i]);
            i = i + 1;
            assert(whole@ =~= body.take(i - start));
        }
        proof {
            if i < s@.len() {
                assert(body[i - start] == s@[i as int]);
            }
            lemma_digit_run(body, i - start);
        }
        let ghost rest = body.skip(i - start);
        assert(rest =~= s@.skip(i as int));
        let mut fraction: Vec<u8> = Vec::new();
        if i < s.len() {
            if s[i] != POINT {
                return None;
            }
            i = i + 1;
            let ghost f = rest.drop_first();
            assert(f =~= s@.skip(i as int));
            let ghost k = i;
            assert(parse_decimal(s@) is Some ==> all_digits(f));
            while i < s.len()
                invariant
                    parse_decimal(s@) is Some ==> all_digits(f),
                    k <= i <= s@.len(),
                    f == s@.skip(k as int),
                    fraction@ == f.take(i - k),
                    all_digits(fraction@),
                decreases s@.len() - i,
            {
                if s[i] < ZERO || s[i] > ZERO + 9 {
                    assert(f[i - k] == s@[i as int]);
                    return None;
                }
                fraction.push(s[i]);
                i = i + 1;
                assert(fraction@ =~= f.take(i - k));
            }
            assert(fraction@ =~= f);
        } else {
            assert(fraction@ =~= rest);
        }
        if whole.len() == 0 && fraction.len() == 0 {
            return None;
        }
        if whole.len() == 0 {
            whole.push(ZERO);
            assert(whole@ =~= seq![ZERO]);
        }
        Some(Decimal { negative, whole, fraction })
    }

    /// Appends the decimal as `decimal_text` writes it.
    pub fn push_text(&self, out: &mut Vec<u8>)
        ensures
            final(out)@ == old(out)@ + decimal_text(self@),
    {
        if self.negative {
            out.push(MINUS);
        }
        push_bytes(out, self.whole.as_slice());
        if self.fraction.len() > 0 {
            out.push(POINT);
            push_bytes(out, self.fraction.as_slice());
        }
        assert(out@ =~= old(out)@ + decimal_text(self@));
    }
}


/// The `i64` that a text writes, if it writes one.
pub open spec fn read_i64(v: Seq<char>) -> Option<i64> {
    if int_in_range(utf8(v), i64::MIN as int, i64::MAX as int) {
        Some(parse_int(utf8(v))->0 as i64)
    } else {
        None
    }
}

/// The `i32` that a text writes, if it writes one.
pub open spec fn read_i32(v: Seq<char>) -> Option<i32> {
    if int_in_range(utf8(v), i32::MIN as int, i32::MAX as int) {
        Some(parse_int(utf8(v))->0 as i32)
    } else {
        None
    }
}

/// The `i16` that a text writes, if it writes one.
pub open spec fn read_i16(v: Seq<char>) -> Option<i16> {
    if int_in_range(utf8(v), i16::MIN as int, i16::MAX as int) {
        Some(parse_int(utf8(v))->0 as i16)
    } else {
        None
    }
}

/// The flag that a text writes: `true` or `false`.
pub open spec fn read_flag(v: Seq<char>) -> Option<bool> {
    if v == "true"@ {
        Some(true)
    } else if v == "false"@ {
        Some(false)
    } else {
        None
    }
}

pub fn parse_i64_text(s: &str) -> (r: Option<i64>)
    ensures
        r == read_i64(s@),
{
    parse_in_range(s.as_bytes(), i64::MIN, i64::MAX)
}

pub fn parse_i32_text(s: &str) -> (r: Option<i32>)
    ensures
        r == read_i32(s@),
{
    match parse_in_range(s.as_bytes(), i32::MIN as i64, i32::MAX as i64) {
        Some(n) => Some(n as i32),
        None => None,
    }
}

pub fn parse_i16_text(s: &str) -> (r: Option<i16>)
    ensures
        r == read_i16(s@),
{
    match parse_in_range(s.as_bytes(), i16::MIN as i64, i16::MAX as i64) {
        Some(n) => Some(n as i16),
        None => None,
    }
}

pub fn parse_flag_text(s: &str) -> (r: Option<bool>)
    ensures
        r == read_flag(s@),
{
    if same_text(s, "true") {
        Some(true)
    } else if same_text(s, "false") {
        Some(false)
    } else {
        None
    }
}

/// The decimal that a text writes, if it writes one.
pub open spec fn read_decimal(v: Seq<char>) -> Option<DecimalView> {
    parse_decimal(utf8(v))
}

impl Decimal {
    /// A decimal with the same digits.
    pub fn duplicate(&self) -> (r: Decimal)
        ensures
            r@ == self@,
    {
        let r = Decimal {
            negative: self.negative,
            whole: self.whole.clone(),
            fraction: self.fraction.clone(),
        };
        assert(r.whole@ =~= self.whole@);
        assert(r.fraction@ =~= self.fraction@);
        r
    }
}

} // verus!
