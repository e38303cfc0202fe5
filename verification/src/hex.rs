//! Bytes written as lower-case hexadecimal text, two digits to a byte.
use vstd::prelude::*;

verus! {

/// The hexadecimal digit for a value below sixteen: `0` to `9`, then `a` to
/// `f`.
pub open spec fn hex_digit(v: u8) -> u8 {
    if v < 10 {
        (0x30 + v) as u8
    } else {
        (0x61 + (v - 10)) as u8
    }
}

/// The digit at place `i` of the text for `bytes`: the high half of a byte
/// comes first.
pub open spec fn hex_digit_at(bytes: Seq<u8>, i: int) -> u8 {
    if i % 2 == 0 {
        hex_digit(bytes[i / 2] / 16)
    } else {
        hex_digit(bytes[i / 2] % 16)
    }
}

/// The hexadecimal text for `bytes`.
pub open spec fn hex_text(bytes: Seq<u8>) -> Seq<u8> {
    Seq::new(2 * bytes.len(), |i: int| hex_digit_at(bytes, i))
}

/// Two values below sixteen with the same digit are the same.
proof fn lemma_hex_digit_injective(v: u8, w: u8)
    requires
        v < 16,
        w < 16,
        hex_digit(v) == hex_digit(w),
    ensures
        v == w,
{
}

/// Two byte strings with the same text are the same.
pub proof fn lemma_hex_text_injective(a: Seq<u8>, b: Seq<u8>)
    requires
        hex_text(a) == hex_text(b),
    ensures
        a == b,
{
    assert(hex_text(a).len() == 2 * a.len());
    assert(hex_text(b).len() == 2 * b.len());
    assert forall|k: int| 0 <= k < a.len() implies a[k] == b[k] by {
        assert(hex_text(a)[2 * k] == hex_digit_at(a, 2 * k));
        assert(hex_text(b)[2 * k] == hex_digit_at(b, 2 * k));
        assert(hex_text(a)[2 * k + 1] == hex_digit_at(a, 2 * k + 1));
        assert(hex_text(b)[2 * k + 1] == hex_digit_at(b, 2 * k + 1));
        lemma_hex_digit_injective(a[k] / 16, b[k] / 16);
        lemma_hex_digit_injective(a[k] % 16, b[k] % 16);
    }
    assert(a =~= b);
}

/// Returns the digit for a value below sixteen.
fn digit_for(v: u8) -> (c: u8)
    requires
        v < 16,
    ensures
        c == hex_digit(v),
{
    if v < 10 {
        0x30 + v
    } else {
        0x61 + (v - 10)
    }
}

/// Returns the value of a hexadecimal digit, or `None` for any other byte.
fn value_of(c: u8) -> (r: Option<u8>)
    ensures
        match r {
            Some(v) => v < 16 && hex_digit(v) == c,
            None => forall|v: u8| v < 16 ==> hex_digit(v) != c,
        },
{
    if 0x30 <= c && c <= 0x39 {
        Some(c - 0x30)
    } else if 0x61 <= c && c <= 0x66 {
        Some(c - 0x61 + 10)
    } else {
        None
    }
}

/// Appends the hexadecimal text for `bytes` to `out`.
pub fn push_hex(out: &mut Vec<u8>, bytes: &[u8])
    ensures
        final(out)@ == old(out)@ + hex_text(bytes@),
{
    let mut i: usize = 0;
    while i < bytes.len()
        invariant
            i <= bytes.len(),
            out@ == old(out)@ + hex_text(bytes@.take(i as int)),
        decreases bytes.len() - i,
    {
        let b: u8 = bytes[i];
        let ghost before = out@;
        out.push(digit_for(b / 16));
        out.push(digit_for(b % 16));
        proof {
            let done = bytes@.take(i as int);
            let more = bytes@.take(i + 1);
            assert(more[i as int] == b);
            assert forall|k: int| 0 <= k < 2 * i implies hex_digit_at(more, k) == hex_digit_at(
                done,
                k,
            ) by {
                assert(more[k / 2] == done[k / 2]);
            }
            assert(hex_digit_at(more, 2 * i) == hex_digit(b / 16));
            assert(hex_digit_at(more, 2 * i + 1) == hex_digit(b % 16));
            assert(out@ =~= old(out)@ + hex_text(more));
        }
        i = i + 1;
    }
    proof {
        assert(bytes@.take(i as int) =~= bytes@);
    }
}

/// Reads lower-case hexadecimal text back into bytes. Text of odd length, or
/// with a byte that is no lower-case hexadecimal digit, is the text of no
/// bytes.
pub fn read_hex(text: &[u8]) -> (r: Option<Vec<u8>>)
    ensures
        match r {
            Some(bytes) => text@ == hex_text(bytes@),
            None => forall|bytes: Seq<u8>| text@ != #[trigger] hex_text(bytes),
        },
{
    let n: usize = text.len();
    if n % 2 != 0 {
        return None;
    }
    let mut out: Vec<u8> = Vec::new();
    let mut i: usize = 0;
    while i < n
        invariant
            n == text.len(),
            n % 2 == 0,
            i % 2 == 0,
            i <= n,
            out@.len() == i / 2,
            hex_text(out@) == text@.take(i as int),
        decreases n - i,
    {
        let high = value_of(text[i]);
        let low = value_of(text[i + 1]);
        match (high, low) {
            (Some(h), Some(l)) => {
                let ghost before = out@;
                out.push(h * 16 + l);
                proof {
                    let b = out@[(i / 2) as int];
                    assert(b / 16 == h && b % 16 == l);
                    assert forall|k: int| 0 <= k < i implies hex_digit_at(out@, k)
                        == hex_digit_at(before, k) by {
                        assert(out@[k / 2] == before[k / 2]);
                    }
                    assert forall|k: int| 0 <= k < i implies hex_text(before)[k] == text@[k] by {
                        assert(text@.take(i as int)[k] == text@[k]);
                    }
                    assert(hex_digit_at(out@, i as int) == hex_digit(h));
                    assert(hex_digit_at(out@, i + 1) == hex_digit(l));
                    assert(hex_text(out@) =~= text@.take(i + 2));
                }
            },
            _ => {
                proof {
                    assert forall|bytes: Seq<u8>| text@ != #[trigger] hex_text(bytes) by {
                        if text@ == hex_text(bytes) {
                            assert(hex_text(bytes)[i as int] == hex_digit_at(bytes, i as int));
                            assert(hex_text(bytes)[i + 1] == hex_digit_at(bytes, i + 1));
                            let b = bytes[(i / 2) as int];
                            assert(b / 16 < 16 && b % 16 < 16);
                        }
                    }
                }
                return None;
            },
        }
        i = i + 2;
    }
    proof {
        assert(text@.take(i as int) =~= text@);
    }
    Some(out)
}

/// Whether `c` is a digit or one of the letters `a` to `f`.
pub open spec fn is_hex_digit(c: u8) -> bool {
    0x30 <= c <= 0x39 || 0x61 <= c <= 0x66
}

/// Every byte of hexadecimal text is a hexadecimal digit.
pub proof fn lemma_hex_text_bytes(bytes: Seq<u8>)
    ensures
        forall|i: int|
            0 <= i < hex_text(bytes).len() ==> is_hex_digit(#[trigger] hex_text(bytes)[i]),
{
    assert forall|i: int| 0 <= i < hex_text(bytes).len() implies is_hex_digit(
        #[trigger] hex_text(bytes)[i],
    ) by {
        let b = bytes[i / 2];
        assert(b / 16 < 16 && b % 16 < 16);
        assert(hex_text(bytes)[i] == hex_digit_at(bytes, i));
    }
}

} // verus!
