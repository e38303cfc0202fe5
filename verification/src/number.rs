//! Decimal integers in text: reading unsigned ones the way `str::parse` does,
//! and the one canonical spelling that tokens use.
use crate::handle_errors::IntErrorKind;
use vstd::prelude::*;
use vstd::utf8::encode_utf8;

verus! {

/// The byte `0`.
pub const DIGIT_ZERO: u8 = 0x30;

/// The byte `9`.
pub const DIGIT_NINE: u8 = 0x39;

/// The byte `+`.
pub const PLUS: u8 = 0x2b;

/// The byte `-`.
pub const MINUS: u8 = 0x2d;

/// Whether `b` is one of the bytes `0` to `9`.
pub open spec fn is_digit(b: u8) -> bool {
    DIGIT_ZERO <= b <= DIGIT_NINE
}

/// The number that the digit `b` stands for.
pub open spec fn digit_value(b: u8) -> nat {
    (b - DIGIT_ZERO) as nat
}

/// Whether every byte of `s` is a digit.
pub open spec fn all_digits(s: Seq<u8>) -> bool {
    forall|i: int| 0 <= i < s.len() ==> is_digit(#[trigger] s[i])
}

/// The number that a run of digits spells, most significant digit first.
pub open spec fn decimal_value(digits: Seq<u8>) -> nat
    decreases digits.len(),
{
    if digits.len() == 0 {
        0
    } else {
        10 * decimal_value(digits.drop_last()) + digit_value(digits.last())
    }
}

/// Reads `digits` from left to right and stops at the first byte that is no
/// digit (`InvalidDigit`) or that takes the number above `limit`
/// (`PosOverflow`). Where both hold of the same byte, it is no digit.
pub open spec fn read_digits(digits: Seq<u8>, limit: nat) -> Result<nat, IntErrorKind>
    decreases digits.len(),
{
    if digits.len() == 0 {
        Ok(0)
    } else {
        match read_digits(digits.drop_last(), limit) {
            Err(kind) => Err(kind),
            Ok(before) => if !is_digit(digits.last()) {
                Err(IntErrorKind::InvalidDigit)
            } else if 10 * before + digit_value(digits.last()) > limit {
                Err(IntErrorKind::PosOverflow)
            } else {
                Ok(10 * before + digit_value(digits.last()))
            },
        }
    }
}

/// A failure on a prefix is the failure of the whole.
pub proof fn lemma_read_digits_stops(digits: Seq<u8>, limit: nat, k: int)
    requires
        0 <= k <= digits.len(),
        read_digits(digits.take(k), limit) is Err,
    ensures
        read_digits(digits, limit) == read_digits(digits.take(k), limit),
    decreases digits.len() - k,
{
    if k == digits.len() {
        assert(digits.take(k) =~= digits);
    } else {
        assert(digits.take(k + 1).drop_last() =~= digits.take(k));
        lemma_read_digits_stops(digits, limit, k + 1);
    }
}

/// Reading succeeds exactly on runs of digits whose value is within the
/// limit, and then gives that value.
pub proof fn lemma_read_digits_ok(digits: Seq<u8>, limit: nat)
    ensures
        read_digits(digits, limit) is Ok <==> all_digits(digits) && decimal_value(digits) <= limit,
        read_digits(digits, limit) is Ok ==> read_digits(digits, limit) == Ok::<
            nat,
            IntErrorKind,
        >(decimal_value(digits)),
    decreases digits.len(),
{
    if digits.len() > 0 {
        let front = digits.drop_last();
        lemma_read_digits_ok(front, limit);
        if all_digits(digits) {
            assert forall|i: int| 0 <= i < front.len() implies is_digit(#[trigger] front[i]) by {
                assert(front[i] == digits[i]);
            }
        }
        if all_digits(front) && is_digit(digits.last()) {
            assert forall|i: int| 0 <= i < digits.len() implies is_digit(#[trigger] digits[i]) by {
                if i < front.len() {
                    assert(digits[i] == front[i]);
                }
            }
        }
    }
}

/// Reads the digits of `bytes` from `start` on, as `read_digits` says.
pub fn scan_digits(bytes: &[u8], start: usize, limit: u64) -> (r: Result<u64, IntErrorKind>)
    requires
        start <= bytes.len(),
    ensures
        match r {
            Ok(v) => read_digits(bytes@.skip(start as int), limit as nat) == Ok::<
                nat,
                IntErrorKind,
            >(v as nat),
            Err(kind) => read_digits(bytes@.skip(start as int), limit as nat) == Err::<
                nat,
                IntErrorKind,
            >(kind),
        },
{
    let ghost digits = bytes@.skip(start as int);
    let mut value: u64 = 0;
    let mut i: usize = start;
    proof {
        assert(digits.take(0) =~= Seq::<u8>::empty());
    }
    while i < bytes.len()
        invariant
            start <= i <= bytes.len(),
            digits == bytes@.skip(start as int),
            value <= limit,
            read_digits(digits.take(i - start), limit as nat) == Ok::<nat, IntErrorKind>(
                value as nat,
            ),
        decreases bytes.len() - i,
    {
        let b: u8 = bytes[i];
        proof {
            assert(digits.take(i - start + 1).drop_last() =~= digits.take(i - start));
            assert(digits.take(i - start + 1).last() == b);
        }
        if b < DIGIT_ZERO || b > DIGIT_NINE {
            proof {
                lemma_read_digits_stops(digits, limit as nat, i - start + 1);
            }
            return Err(IntErrorKind::InvalidDigit);
        }
        let d: u64 = (b - DIGIT_ZERO) as u64;
        if d > limit || value > (limit - d) / 10 {
            proof {
                lemma_read_digits_stops(digits, limit as nat, i - start + 1);
            }
            return Err(IntErrorKind::PosOverflow);
        }
        value = value * 10 + d;
        i = i + 1;
    }
    proof {
        assert(digits.take(i - start) =~= digits);
    }
    Ok(value)
}

/// What `str::parse` makes of `text` for an unsigned integer type whose
/// largest value is `max`: an optional `+`, then one digit or more, read by
/// `read_digits`.
pub open spec fn parse_decimal(text: Seq<u8>, max: nat) -> Result<nat, IntErrorKind> {
    if text.len() == 0 {
        Err(IntErrorKind::Empty)
    } else if text.len() == 1 && text[0] == PLUS {
        Err(IntErrorKind::InvalidDigit)
    } else if text[0] == PLUS {
        read_digits(text.skip(1), max)
    } else {
        read_digits(text, max)
    }
}

/// `parse_decimal` for `u32`.
pub open spec fn parse_u32_text(text: Seq<u8>) -> Result<u32, IntErrorKind> {
    match parse_decimal(text, u32::MAX as nat) {
        Ok(v) => Ok(v as u32),
        Err(kind) => Err(kind),
    }
}

/// `parse_decimal` for `u16`.
pub open spec fn parse_u16_text(text: Seq<u8>) -> Result<u16, IntErrorKind> {
    match parse_decimal(text, u16::MAX as nat) {
        Ok(v) => Ok(v as u16),
        Err(kind) => Err(kind),
    }
}

/// A text is read as the number `v` exactly when it is an optional `+`
/// followed by one digit or more, and `v`, the digits' value, is at most
/// `max`.
pub proof fn lemma_parse_decimal_ok(text: Seq<u8>, max: nat, v: nat)
    ensures
        parse_decimal(text, max) == Ok::<nat, IntErrorKind>(v) <==> {
            let digits = if text.len() > 0 && text[0] == PLUS {
                text.skip(1)
            } else {
                text
            };
            &&& digits.len() > 0
            &&& all_digits(digits)
            &&& decimal_value(digits) == v
            &&& v <= max
        },
{
    if text.len() > 0 {
        lemma_read_digits_ok(text.skip(1), max);
        lemma_read_digits_ok(text, max);
    }
}

/// Reads `bytes` as `str::parse` would for an unsigned integer type whose
/// largest value is `max`.
pub fn parse_unsigned(bytes: &[u8], max: u64) -> (r: Result<u64, IntErrorKind>)
    ensures
        match r {
            Ok(v) => parse_decimal(bytes@, max as nat) == Ok::<nat, IntErrorKind>(v as nat),
            Err(kind) => parse_decimal(bytes@, max as nat) == Err::<nat, IntErrorKind>(kind),
        },
{
    let n: usize = bytes.len();
    if n == 0 {
        return Err(IntErrorKind::Empty);
    }
    let signed: bool = bytes[0] == PLUS;
    if n == 1 && signed {
        return Err(IntErrorKind::InvalidDigit);
    }
    let start: usize = if signed {
        1
    } else {
        0
    };
    proof {
        assert(bytes@.skip(0) =~= bytes@);
    }
    scan_digits(bytes, start, max)
}

/// Reads `text` as `str::parse::<u32>` does.
pub fn parse_u32(text: &str) -> (r: Result<u32, IntErrorKind>)
    ensures
        r == parse_u32_text(encode_utf8(text@)),
{
    match parse_unsigned(text.as_bytes(), 0xffff_ffff) {
        Ok(v) => Ok(v as u32),
        Err(kind) => Err(kind),
    }
}

/// Reads `text` as `str::parse::<u16>` does.
pub fn parse_u16(text: &str) -> (r: Result<u16, IntErrorKind>)
    ensures
        r == parse_u16_text(encode_utf8(text@)),
{
    match parse_unsigned(text.as_bytes(), 0xffff) {
        Ok(v) => Ok(v as u16),
        Err(kind) => Err(kind),
    }
}

/// The digits of `n` in decimal, most significant first, with no leading
/// zero; the single digit `0` for zero.
pub open spec fn digits_of(n: nat) -> Seq<u8>
    decreases n,
{
    if n < 10 {
        seq![(DIGIT_ZERO + n) as u8]
    } else {
        digits_of(n / 10).push((DIGIT_ZERO + n % 10) as u8)
    }
}

/// The one spelling of `n` that a token may hold: `-` before a negative
/// number, then the digits of its distance from zero.
pub open spec fn decimal_text(n: int) -> Seq<u8> {
    if n < 0 {
        seq![MINUS] + digits_of((-n) as nat)
    } else {
        digits_of(n as nat)
    }
}

/// The digits of `n` are digits, spell `n`, and start with `0` only for zero.
pub proof fn lemma_digits_of(n: nat)
    ensures
        digits_of(n).len() >= 1,
        all_digits(digits_of(n)),
        decimal_value(digits_of(n)) == n,
        digits_of(n)[0] == DIGIT_ZERO ==> n == 0 && digits_of(n).len() == 1,
    decreases n,
{
    let d = digits_of(n);
    if n < 10 {
        assert(d.drop_last() =~= Seq::<u8>::empty());
        assert(decimal_value(d.drop_last()) == 0);
        assert(digit_value(d.last()) == n);
    } else {
        let front = digits_of(n / 10);
        lemma_digits_of(n / 10);
        assert(d.drop_last() =~= front);
        assert(d[0] == front[0]);
        assert(digit_value(d.last()) == n % 10);
        assert forall|i: int| 0 <= i < d.len() implies is_digit(#[trigger] d[i]) by {
            if i < front.len() {
                assert(d[i] == front[i]);
            }
        }
    }
}

/// A run of digits that does not start with `0` spells a number of at least
/// one.
pub proof fn lemma_leading_digit(d: Seq<u8>)
    requires
        d.len() >= 1,
        all_digits(d),
        d[0] != DIGIT_ZERO,
    ensures
        decimal_value(d) >= 1,
    decreases d.len(),
{
    if d.len() == 1 {
        assert(d.drop_last() =~= Seq::<u8>::empty());
    } else {
        let front = d.drop_last();
        assert forall|i: int| 0 <= i < front.len() implies is_digit(#[trigger] front[i]) by {
            assert(front[i] == d[i]);
        }
        lemma_leading_digit(front);
    }
}

/// A run of digits with no leading zero is the digits of the number it
/// spells.
pub proof fn lemma_digits_of_value(d: Seq<u8>)
    requires
        d.len() >= 1,
        all_digits(d),
        d.len() > 1 ==> d[0] != DIGIT_ZERO,
    ensures
        digits_of(decimal_value(d)) == d,
    decreases d.len(),
{
    let front = d.drop_last();
    if d.len() == 1 {
        assert(front =~= Seq::<u8>::empty());
        assert(decimal_value(front) == 0);
        assert(is_digit(d[0]));
        assert(digits_of(decimal_value(d)) =~= d);
    } else {
        assert(is_digit(d.last()));
        assert forall|i: int| 0 <= i < front.len() implies is_digit(#[trigger] front[i]) by {
            assert(front[i] == d[i]);
        }
        assert(front[0] == d[0]);
        lemma_leading_digit(front);
        lemma_digits_of_value(front);
        let v = decimal_value(d);
        assert(v / 10 == decimal_value(front));
        assert(v % 10 == digit_value(d.last()));
        assert(digits_of(v) =~= d);
    }
}

/// The shape of a number's spelling: a negative number is `-` and the digits
/// of its distance from zero; any other number is its digits alone.
pub proof fn lemma_decimal_text(n: int)
    ensures
        n < 0 ==> decimal_text(n).len() >= 2 && decimal_text(n)[0] == MINUS && decimal_text(
            n,
        ).skip(1) == digits_of((-n) as nat),
        n >= 0 ==> decimal_text(n).len() >= 1 && is_digit(decimal_text(n)[0]) && decimal_text(n)
            == digits_of(n as nat),
{
    if n < 0 {
        lemma_digits_of((-n) as nat);
        assert(decimal_text(n).skip(1) =~= digits_of((-n) as nat));
    } else {
        lemma_digits_of(n as nat);
    }
}

/// Two numbers with the same spelling are the same number.
pub proof fn lemma_decimal_text_injective(a: int, b: int)
    requires
        decimal_text(a) == decimal_text(b),
    ensures
        a == b,
{
    lemma_decimal_text(a);
    lemma_decimal_text(b);
    if a < 0 {
        lemma_digits_of((-a) as nat);
        lemma_digits_of((-b) as nat);
    } else {
        lemma_digits_of(a as nat);
        lemma_digits_of(b as nat);
    }
}

/// Appends the digits of `n` to `out`.
fn push_digits(out: &mut Vec<u8>, n: u64)
    ensures
        final(out)@ == old(out)@ + digits_of(n as nat),
    decreases n,
{
    if n >= 10 {
        push_digits(out, n / 10);
    }
    let digit: u8 = DIGIT_ZERO + (n % 10) as u8;
    out.push(digit);
    proof {
        assert(out@ =~= old(out)@ + digits_of(n as nat));
    }
}

/// Appends the canonical spelling of `n` to `out`.
pub fn push_decimal(out: &mut Vec<u8>, n: i64)
    ensures
        final(out)@ == old(out)@ + decimal_text(n as int),
{
    if n < 0 {
        out.push(MINUS);
        let distance: u64 = ((-(n + 1)) as u64) + 1;
        push_digits(out, distance);
        proof {
            assert(out@ =~= old(out)@ + decimal_text(n as int));
        }
    } else {
        push_digits(out, n as u64);
    }
}

/// Reads a number between `min` and `max` from its canonical spelling, and
/// nothing else: no `+`, no leading zero, no `-0`.
pub fn read_decimal(bytes: &[u8], min: i64, max: i64) -> (r: Option<i64>)
    requires
        min <= 0 <= max,
    ensures
        match r {
            Some(n) => min <= n <= max && bytes@ == decimal_text(n as int),
            None => forall|n: int| min <= n <= max ==> bytes@ != decimal_text(n),
        },
{
    let len: usize = bytes.len();
    proof {
        assert forall|n: int| bytes@ == decimal_text(n) implies {
            &&& len >= 1
            &&& bytes@[0] == MINUS ==> n < 0 && len >= 2 && bytes@[1] != DIGIT_ZERO
            &&& bytes@[0] == DIGIT_ZERO ==> len == 1
        } by {
            lemma_decimal_text(n);
            if n < 0 {
                lemma_digits_of((-n) as nat);
                assert(bytes@.skip(1)[0] == bytes@[1]);
            } else {
                lemma_digits_of(n as nat);
            }
        }
    }
    if len == 0 {
        return None;
    }
    let negative: bool = bytes[0] == MINUS;
    let start: usize = if negative {
        1
    } else {
        0
    };
    if start == len {
        return None;
    }
    if bytes[start] == DIGIT_ZERO && (negative || len > 1) {
        return None;
    }
    let limit: u64 = if !negative {
        max as u64
    } else if min < 0 {
        ((-(min + 1)) as u64) + 1
    } else {
        0
    };
    let ghost digits = bytes@.skip(start as int);
    proof {
        assert(bytes@.skip(0) =~= bytes@);
        lemma_read_digits_ok(digits, limit as nat);
    }
    match scan_digits(bytes, start, limit) {
        Ok(v) => {
            proof {
                assert(digits[0] == bytes@[start as int]);
                lemma_digits_of_value(digits);
                if negative {
                    lemma_leading_digit(digits);
                    assert(bytes@ =~= seq![MINUS] + digits);
                }
            }
            if negative {
                Some(-((v - 1) as i64) - 1)
            } else {
                Some(v as i64)
            }
        },
        Err(_) => {
            proof {
                assert forall|n: int| min <= n <= max implies bytes@ != decimal_text(n) by {
                    lemma_decimal_text(n);
                    if n < 0 {
                        lemma_digits_of((-n) as nat);
                    } else {
                        lemma_digits_of(n as nat);
                    }
                }
            }
            None
        },
    }
}

/// Every byte of a number's spelling is a digit or `-`.
pub proof fn lemma_decimal_text_bytes(n: int)
    ensures
        forall|i: int|
            0 <= i < decimal_text(n).len() ==> is_digit(#[trigger] decimal_text(n)[i])
                || decimal_text(n)[i] == MINUS,
{
    if n < 0 {
        lemma_digits_of((-n) as nat);
        let d = digits_of((-n) as nat);
        assert forall|i: int| 0 <= i < decimal_text(n).len() implies is_digit(
            #[trigger] decimal_text(n)[i],
        ) || decimal_text(n)[i] == MINUS by {
            if i > 0 {
                assert(decimal_text(n)[i] == d[i - 1]);
            }
        }
    } else {
        lemma_digits_of(n as nat);
    }
}

} // verus!
