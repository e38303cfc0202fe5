//! Bytes and text: strings of ASCII bytes, the places of a byte or a word in a
//! text, and texts joined by a byte that stands between them.
use vstd::prelude::*;
use vstd::utf8::{encode_utf8, is_ascii_chars, is_ascii_chars_encode_utf8};

verus! {

/// `String::push` appends one character to the end of the string.
pub assume_specification[ String::push ](s: &mut String, c: char)
    ensures
        final(s)@ == old(s)@.push(c),
;

/// The characters of a text that may be absent.
pub open spec fn chars_of(text: Option<&str>) -> Option<Seq<char>> {
    match text {
        Some(text) => Some(text@),
        None => None,
    }
}

/// Whether every byte of `bytes` is an ASCII character.
pub open spec fn is_ascii_bytes(bytes: Seq<u8>) -> bool {
    forall|i: int| 0 <= i < bytes.len() ==> #[trigger] bytes[i] < 128
}

/// The characters that ASCII bytes stand for.
pub open spec fn ascii_chars(bytes: Seq<u8>) -> Seq<char> {
    Seq::new(bytes.len(), |i: int| bytes[i] as char)
}

/// ASCII text is encoded as its own bytes.
pub proof fn lemma_ascii_chars_bytes(bytes: Seq<u8>)
    requires
        is_ascii_bytes(bytes),
    ensures
        is_ascii_chars(ascii_chars(bytes)),
        encode_utf8(ascii_chars(bytes)) == bytes,
{
    let chars = ascii_chars(bytes);
    assert forall|i: int| 0 <= i < chars.len() implies '\0' <= #[trigger] chars[i] <= '\u{7f}' by {
        assert(bytes[i] < 128);
    }
    is_ascii_chars_encode_utf8(chars);
    assert forall|i: int| 0 <= i < bytes.len() implies encode_utf8(chars)[i] == bytes[i] by {
        assert(chars[i] as u8 == encode_utf8(chars)[i]);
        assert(bytes[i] < 128);
    }
    assert(encode_utf8(chars) =~= bytes);
}

/// Makes a string of ASCII bytes.
pub fn ascii_string(bytes: &[u8]) -> (s: String)
    requires
        is_ascii_bytes(bytes@),
    ensures
        s@ == ascii_chars(bytes@),
        encode_utf8(s@) == bytes@,
{
    let mut s = String::new();
    let mut i: usize = 0;
    while i < bytes.len()
        invariant
            i <= bytes.len(),
            s@ == ascii_chars(bytes@.take(i as int)),
        decreases bytes.len() - i,
    {
        s.push(bytes[i] as char);
        proof {
            assert(s@ =~= ascii_chars(bytes@.take(i + 1)));
        }
        i = i + 1;
    }
    proof {
        assert(bytes@.take(i as int) =~= bytes@);
        lemma_ascii_chars_bytes(bytes@);
    }
    s
}

/// Whether the byte `b` occurs nowhere in `s`.
pub open spec fn lacks(s: Seq<u8>, b: u8) -> bool {
    forall|i: int| 0 <= i < s.len() ==> #[trigger] s[i] != b
}

/// Two texts with the byte `b` between them.
pub open spec fn join(left: Seq<u8>, b: u8, right: Seq<u8>) -> Seq<u8> {
    left + seq![b] + right
}

/// Where the left part of a joined text does not hold the joining byte, the
/// first place of that byte ends the left part.
pub proof fn lemma_join_first(left: Seq<u8>, b: u8, right: Seq<u8>, at: int)
    requires
        lacks(left, b),
        0 <= at < join(left, b, right).len(),
        join(left, b, right)[at] == b,
        forall|i: int| 0 <= i < at ==> join(left, b, right)[i] != b,
    ensures
        at == left.len(),
        join(left, b, right).subrange(0, at) == left,
        join(left, b, right).subrange(at + 1, join(left, b, right).len() as int) == right,
{
    let whole = join(left, b, right);
    assert(whole[left.len() as int] == b);
    if at < left.len() {
        assert(whole[at] == left[at]);
    }
    assert(whole.subrange(0, at) =~= left);
    assert(whole.subrange(at + 1, whole.len() as int) =~= right);
}

/// Where the right part of a joined text does not hold the joining byte, the
/// last place of that byte starts the right part.
pub proof fn lemma_join_last(left: Seq<u8>, b: u8, right: Seq<u8>, at: int)
    requires
        lacks(right, b),
        0 <= at < join(left, b, right).len(),
        join(left, b, right)[at] == b,
        forall|i: int| at < i < join(left, b, right).len() ==> join(left, b, right)[i] != b,
    ensures
        at == left.len(),
        join(left, b, right).subrange(0, at) == left,
        join(left, b, right).subrange(at + 1, join(left, b, right).len() as int) == right,
{
    let whole = join(left, b, right);
    assert(whole[left.len() as int] == b);
    if at > left.len() {
        assert(whole[at] == right[at - left.len() - 1]);
    }
    assert(whole.subrange(0, at) =~= left);
    assert(whole.subrange(at + 1, whole.len() as int) =~= right);
}

/// Returns the first place at or after `from` where `bytes` holds `b`.
pub fn find_first(bytes: &[u8], from: usize, b: u8) -> (r: Option<usize>)
    requires
        from <= bytes.len(),
    ensures
        match r {
            Some(at) => from <= at < bytes.len() && bytes@[at as int] == b && forall|i: int|
                from <= i < at ==> bytes@[i] != b,
            None => forall|i: int| from <= i < bytes.len() ==> bytes@[i] != b,
        },
{
    let mut i: usize = from;
    while i < bytes.len()
        invariant
            from <= i <= bytes.len(),
            forall|k: int| from <= k < i ==> bytes@[k] != b,
        decreases bytes.len() - i,
    {
        if bytes[i] == b {
            return Some(i);
        }
        i = i + 1;
    }
    None
}

/// Returns the last place where `bytes` holds `b`.
pub fn find_last(bytes: &[u8], b: u8) -> (r: Option<usize>)
    ensures
        match r {
            Some(at) => at < bytes.len() && bytes@[at as int] == b && forall|i: int|
                at < i < bytes.len() ==> bytes@[i] != b,
            None => forall|i: int| 0 <= i < bytes.len() ==> bytes@[i] != b,
        },
{
    let mut i: usize = bytes.len();
    while i > 0
        invariant
            i <= bytes.len(),
            forall|k: int| i <= k < bytes.len() ==> bytes@[k] != b,
        decreases i,
    {
        i = i - 1;
        if bytes[i] == b {
            return Some(i);
        }
    }
    None
}

/// A joined text whose left part does not hold the joining byte splits in one
/// way only.
pub proof fn lemma_join_left_unique(l1: Seq<u8>, r1: Seq<u8>, l2: Seq<u8>, r2: Seq<u8>, b: u8)
    requires
        lacks(l1, b),
        lacks(l2, b),
        join(l1, b, r1) == join(l2, b, r2),
    ensures
        l1 == l2,
        r1 == r2,
{
    let whole = join(l1, b, r1);
    let at = l1.len() as int;
    assert(whole[at] == b);
    assert forall|i: int| 0 <= i < at implies whole[i] != b by {
        assert(whole[i] == l1[i]);
    }
    lemma_join_first(l1, b, r1, at);
    lemma_join_first(l2, b, r2, at);
}

/// A joined text whose right part does not hold the joining byte splits in
/// one way only.
pub proof fn lemma_join_right_unique(l1: Seq<u8>, r1: Seq<u8>, l2: Seq<u8>, r2: Seq<u8>, b: u8)
    requires
        lacks(r1, b),
        lacks(r2, b),
        join(l1, b, r1) == join(l2, b, r2),
    ensures
        l1 == l2,
        r1 == r2,
{
    let whole = join(l1, b, r1);
    let at = l1.len() as int;
    assert(whole[at] == b);
    assert forall|i: int| at < i < whole.len() implies whole[i] != b by {
        assert(whole[i] == r1[i - at - 1]);
    }
    lemma_join_last(l1, b, r1, at);
    lemma_join_last(l2, b, r2, at);
}

/// Joining is associative.
pub proof fn lemma_join_assoc(x: Seq<u8>, y: Seq<u8>, z: Seq<u8>, b: u8)
    ensures
        join(join(x, b, y), b, z) == join(x, b, join(y, b, z)),
{
    assert(join(join(x, b, y), b, z) =~= join(x, b, join(y, b, z)));
}

/// Whether `word` stands in `text` at place `at`.
pub open spec fn occurs_at(text: Seq<u8>, word: Seq<u8>, at: int) -> bool {
    0 <= at && at + word.len() <= text.len() && text.subrange(at, at + word.len()) == word
}

/// Whether `word` stands somewhere in `text`.
pub open spec fn occurs(text: Seq<u8>, word: Seq<u8>) -> bool {
    exists|at: int| occurs_at(text, word, at)
}

/// Returns whether `word` stands in `text` at place `at`.
fn stands_at(text: &[u8], word: &[u8], at: usize) -> (r: bool)
    requires
        at + word.len() <= text.len(),
    ensures
        r == occurs_at(text@, word@, at as int),
{
    let mut k: usize = 0;
    while k < word.len()
        invariant
            k <= word.len(),
            at + word.len() <= text.len(),
            forall|j: int| 0 <= j < k ==> text@[at + j] == word@[j],
        decreases word.len() - k,
    {
        if text[at + k] != word[k] {
            proof {
                assert(text@.subrange(at as int, at + word.len())[k as int] == text@[at + k]);
            }
            return false;
        }
        k = k + 1;
    }
    proof {
        assert(text@.subrange(at as int, at + word.len()) =~= word@);
    }
    true
}

/// Returns whether `word` stands somewhere in `text`. The empty word stands
/// in every text.
pub fn holds(text: &[u8], word: &[u8]) -> (r: bool)
    ensures
        r == occurs(text@, word@),
{
    if word.len() > text.len() {
        return false;
    }
    let last: usize = text.len() - word.len();
    let mut at: usize = 0;
    loop
        invariant
            last == text.len() - word.len(),
            at <= last,
            forall|i: int| 0 <= i < at ==> !occurs_at(text@, word@, i),
        decreases last - at,
    {
        if stands_at(text, word, at) {
            return true;
        }
        if at == last {
            return false;
        }
        at = at + 1;
    }
}

} // verus!
