//! Stateless signed tokens: the claims of a session in text, followed by a
//! keyed tag over that text.
//!
//! A token reads `account.not-before.expires.tag`: three numbers in their
//! canonical decimal spelling, then the HMAC-SHA256 tag of everything before
//! the last `.`, in lower-case hexadecimal. Every byte is a digit, a letter
//! from `a` to `f`, `-` or `.`, so a token can stand in a URL or a header as
//! it is.
use crate::handle_errors::Error;
use crate::hex::{
    hex_text, is_hex_digit, lemma_hex_text_bytes, lemma_hex_text_injective, push_hex, read_hex,
};
use crate::number::{
    decimal_text, is_digit, lemma_decimal_text_bytes, lemma_decimal_text_injective, push_decimal,
    read_decimal, MINUS,
};
use crate::text::{
    ascii_string, find_first, find_last, is_ascii_bytes, join, lacks, lemma_join_assoc,
    lemma_join_last, lemma_join_left_unique, lemma_join_right_unique,
};
use crate::types::account::{AccountId, Session};
use hmac::{Hmac, Mac};
use sha2::Sha256;
use vstd::prelude::*;
use vstd::slice::slice_subrange;
use vstd::utf8::encode_utf8;

verus! {

/// For how many seconds a token is valid from the moment it is issued.
pub const TOKEN_TTL: i64 = 3600;

/// The byte `.`, which stands between the parts of a token.
pub const SEPARATOR: u8 = 0x2e;

/// The HMAC-SHA256 tag of `message` under `key`.
pub uninterp spec fn hmac_sha256(key: Seq<u8>, message: Seq<u8>) -> Seq<u8>;

/// Computes the tag of `message` under `key` with `Hmac<Sha256>`:
/// `new_from_slice`, `update`, `finalize`. The tag depends on the key and the
/// message alone. `new_from_slice` accepts a key of any length, so its
/// failure never comes.
#[verifier::external_body]
fn mac_tag(key: &[u8], message: &[u8]) -> (tag: Vec<u8>)
    ensures
        tag@ == hmac_sha256(key@, message@),
{
    match Hmac::<Sha256>::new_from_slice(key) {
        Ok(mut mac) => {
            mac.update(message);
            mac.finalize().into_bytes().to_vec()
        },
        Err(_) => Vec::new(),
    }
}

/// Checks `tag` against the tag of `message` under `key` with
/// `Hmac<Sha256>`: `new_from_slice`, `update`, `verify_slice`. The check
/// passes exactly when `tag` is the whole tag; it takes the same time
/// wherever the two differ.
#[verifier::external_body]
fn mac_verifies(key: &[u8], message: &[u8], tag: &[u8]) -> (ok: bool)
    ensures
        ok == (tag@ == hmac_sha256(key@, message@)),
{
    match Hmac::<Sha256>::new_from_slice(key) {
        Ok(mut mac) => {
            mac.update(message);
            mac.verify_slice(tag).is_ok()
        },
        Err(_) => false,
    }
}

/// The claims of `session` in text: account, not-before and expiry, with `.`
/// between them.
pub open spec fn claims_text(session: Session) -> Seq<u8> {
    join(
        decimal_text(session.account_id.0 as int),
        SEPARATOR,
        join(decimal_text(session.nbf as int), SEPARATOR, decimal_text(session.exp as int)),
    )
}

/// Claims and a tag put together: the claims, `.`, and the tag in
/// hexadecimal.
pub open spec fn sealed_text(claims: Seq<u8>, tag: Seq<u8>) -> Seq<u8> {
    join(claims, SEPARATOR, hex_text(tag))
}

/// The token for `session` under `key`: its claims, sealed with the tag of
/// the claims under `key`.
pub open spec fn token_text(key: Seq<u8>, session: Session) -> Seq<u8> {
    sealed_text(claims_text(session), hmac_sha256(key, claims_text(session)))
}

/// The session whose claims `claims` spells; `None` where it spells the
/// claims of no session.
pub open spec fn claims_session(claims: Seq<u8>) -> Option<Session> {
    if exists|session: Session| claims == claims_text(session) {
        Some(choose|session: Session| claims == claims_text(session))
    } else {
        None
    }
}

/// The session that `token` was made for under `key`; `None` where it is the
/// token of no session.
pub open spec fn token_session(key: Seq<u8>, token: Seq<u8>) -> Option<Session> {
    if exists|session: Session| token == token_text(key, session) {
        Some(choose|session: Session| token == token_text(key, session))
    } else {
        None
    }
}

/// The claims of a token issued for `account_id` at the moment `now`.
pub open spec fn issued_session(account_id: AccountId, now: i64) -> Session {
    Session { exp: (now + TOKEN_TTL) as i64, account_id, nbf: now }
}

/// What is made of claims once their tag has been checked. Claims under a
/// wrong tag are refused unread. Claims under the right tag give the account
/// of the session they spell, if they spell one and it covers `now`.
pub open spec fn acceptance(claims: Seq<u8>, authentic: bool, now: i64) -> Result<
    AccountId,
    Error,
> {
    if !authentic {
        Err(Error::Unauthorized)
    } else {
        match claims_session(claims) {
            Some(session) => if session.covers(now) {
                Ok(session.account_id)
            } else {
                Err(Error::Unauthorized)
            },
            None => Err(Error::Unauthorized),
        }
    }
}

/// What validating `token` at the moment `now` gives: the account of the
/// session it was made for, if the session covers `now`. Every other case is
/// `Unauthorized`, with nothing to tell them apart.
pub open spec fn validation(key: Seq<u8>, token: Seq<u8>, now: i64) -> Result<AccountId, Error> {
    match token_session(key, token) {
        Some(session) => if session.covers(now) {
            Ok(session.account_id)
        } else {
            Err(Error::Unauthorized)
        },
        None => Err(Error::Unauthorized),
    }
}

/// A number's spelling holds no `.`.
proof fn lemma_decimal_text_plain(n: int)
    ensures
        lacks(decimal_text(n), SEPARATOR),
{
    lemma_decimal_text_bytes(n);
    assert forall|i: int| 0 <= i < decimal_text(n).len() implies #[trigger] decimal_text(n)[i]
        != SEPARATOR by {
        assert(is_digit(decimal_text(n)[i]) || decimal_text(n)[i] == MINUS);
    }
}

/// Hexadecimal text holds no `.`.
proof fn lemma_hex_text_plain(bytes: Seq<u8>)
    ensures
        lacks(hex_text(bytes), SEPARATOR),
{
    lemma_hex_text_bytes(bytes);
    assert forall|i: int| 0 <= i < hex_text(bytes).len() implies #[trigger] hex_text(bytes)[i]
        != SEPARATOR by {
        assert(is_hex_digit(hex_text(bytes)[i]));
    }
}

/// Two sessions with the same claims text are the same session.
pub proof fn lemma_claims_text_injective(a: Session, b: Session)
    requires
        claims_text(a) == claims_text(b),
    ensures
        a == b,
{
    lemma_decimal_text_plain(a.account_id.0 as int);
    lemma_decimal_text_plain(b.account_id.0 as int);
    lemma_decimal_text_plain(a.nbf as int);
    lemma_decimal_text_plain(b.nbf as int);
    lemma_join_left_unique(
        decimal_text(a.account_id.0 as int),
        join(decimal_text(a.nbf as int), SEPARATOR, decimal_text(a.exp as int)),
        decimal_text(b.account_id.0 as int),
        join(decimal_text(b.nbf as int), SEPARATOR, decimal_text(b.exp as int)),
        SEPARATOR,
    );
    lemma_join_left_unique(
        decimal_text(a.nbf as int),
        decimal_text(a.exp as int),
        decimal_text(b.nbf as int),
        decimal_text(b.exp as int),
        SEPARATOR,
    );
    lemma_decimal_text_injective(a.account_id.0 as int, b.account_id.0 as int);
    lemma_decimal_text_injective(a.nbf as int, b.nbf as int);
    lemma_decimal_text_injective(a.exp as int, b.exp as int);
}

/// The claims text of a session is read back as that session.
pub proof fn lemma_claims_session(session: Session)
    ensures
        claims_session(claims_text(session)) == Some(session),
{
    let claims = claims_text(session);
    let found = choose|other: Session| claims == claims_text(other);
    lemma_claims_text_injective(session, found);
}

/// A sealed text comes apart in one way only.
pub proof fn lemma_sealed_text_injective(c1: Seq<u8>, t1: Seq<u8>, c2: Seq<u8>, t2: Seq<u8>)
    requires
        sealed_text(c1, t1) == sealed_text(c2, t2),
    ensures
        c1 == c2,
        t1 == t2,
{
    lemma_hex_text_plain(t1);
    lemma_hex_text_plain(t2);
    lemma_join_right_unique(c1, hex_text(t1), c2, hex_text(t2), SEPARATOR);
    lemma_hex_text_injective(t1, t2);
}

/// Under one key, two sessions with the same token are the same session.
pub proof fn lemma_token_text_injective(key: Seq<u8>, a: Session, b: Session)
    requires
        token_text(key, a) == token_text(key, b),
    ensures
        a == b,
{
    lemma_sealed_text_injective(
        claims_text(a),
        hmac_sha256(key, claims_text(a)),
        claims_text(b),
        hmac_sha256(key, claims_text(b)),
    );
    lemma_claims_text_injective(a, b);
}

/// The token made for a session is read back as that session.
pub proof fn lemma_token_session(key: Seq<u8>, session: Session)
    ensures
        token_session(key, token_text(key, session)) == Some(session),
{
    let token = token_text(key, session);
    let found = choose|other: Session| token == token_text(key, other);
    lemma_token_text_injective(key, session, found);
}

/// Validating a sealed text comes to checking its tag and then accepting its
/// claims.
pub proof fn lemma_validation_of_sealed(key: Seq<u8>, claims: Seq<u8>, tag: Seq<u8>, now: i64)
    ensures
        validation(key, sealed_text(claims, tag), now) == acceptance(
            claims,
            tag == hmac_sha256(key, claims),
            now,
        ),
{
    let token = sealed_text(claims, tag);
    assert forall|session: Session| token == #[trigger] token_text(key, session) implies claims
        == claims_text(session) && tag == hmac_sha256(key, claims) by {
        lemma_sealed_text_injective(
            claims,
            tag,
            claims_text(session),
            hmac_sha256(key, claims_text(session)),
        );
    }
    if tag == hmac_sha256(key, claims) {
        match claims_session(claims) {
            Some(session) => {
                lemma_token_session(key, session);
            },
            None => {},
        }
    }
}

/// Whether `text` holds the three numbers of `session` where its claims text
/// holds them: the account up to the first `.`, not-before up to the second,
/// and the expiry after it.
spec fn holds_claims(text: Seq<u8>, session: Session) -> bool {
    let first = decimal_text(session.account_id.0 as int).len() as int;
    let second = first + 1 + decimal_text(session.nbf as int).len();
    &&& second < text.len()
    &&& text[first] == SEPARATOR
    &&& text[second] == SEPARATOR
    &&& forall|i: int| 0 <= i < first ==> text[i] != SEPARATOR
    &&& forall|i: int| first < i < second ==> text[i] != SEPARATOR
    &&& text.subrange(0, first) == decimal_text(session.account_id.0 as int)
    &&& text.subrange(first + 1, second) == decimal_text(session.nbf as int)
    &&& text.subrange(second + 1, text.len() as int) == decimal_text(session.exp as int)
}

/// The claims text of a session holds its three numbers in their places.
proof fn lemma_claims_fields(session: Session)
    ensures
        holds_claims(claims_text(session), session),
{
    let text = claims_text(session);
    let id = decimal_text(session.account_id.0 as int);
    let nbf = decimal_text(session.nbf as int);
    let exp = decimal_text(session.exp as int);
    let first = id.len() as int;
    let second = first + 1 + nbf.len();
    lemma_decimal_text_plain(session.account_id.0 as int);
    lemma_decimal_text_plain(session.nbf as int);
    assert forall|i: int| 0 <= i < first implies text[i] != SEPARATOR by {
        assert(text[i] == id[i]);
    }
    assert forall|i: int| first < i < second implies text[i] != SEPARATOR by {
        assert(text[i] == nbf[i - first - 1]);
    }
    assert(text.subrange(0, first) =~= id);
    assert(text.subrange(first + 1, second) =~= nbf);
    assert(text.subrange(second + 1, text.len() as int) =~= exp);
}

/// Writes the claims of `session` as text.
pub fn write_claims(session: Session) -> (claims: Vec<u8>)
    ensures
        claims@ == claims_text(session),
{
    let mut claims: Vec<u8> = Vec::new();
    push_decimal(&mut claims, session.account_id.0 as i64);
    claims.push(SEPARATOR);
    push_decimal(&mut claims, session.nbf);
    claims.push(SEPARATOR);
    push_decimal(&mut claims, session.exp);
    proof {
        assert(claims@ =~= claims_text(session));
    }
    claims
}

/// Reads the claims of a session from their text: three numbers in their
/// canonical spelling, an account key and two moments, with `.` between them
/// and nothing else.
pub fn read_claims(claims: &[u8]) -> (r: Option<Session>)
    ensures
        r == claims_session(claims@),
{
    proof {
        assert forall|session: Session| claims@ == #[trigger] claims_text(session) implies
            holds_claims(claims@, session) by {
            lemma_claims_fields(session);
        }
    }
    let first: usize = match find_first(claims, 0, SEPARATOR) {
        Some(at) => at,
        None => {
            return None;
        },
    };
    let second: usize = match find_first(claims, first + 1, SEPARATOR) {
        Some(at) => at,
        None => {
            return None;
        },
    };
    let id_text = slice_subrange(claims, 0, first);
    let nbf_text = slice_subrange(claims, first + 1, second);
    let exp_text = slice_subrange(claims, second + 1, claims.len());
    let id: i64 = match read_decimal(id_text, -0x8000_0000, 0x7fff_ffff) {
        Some(n) => n,
        None => {
            return None;
        },
    };
    let nbf: i64 = match read_decimal(nbf_text, i64::MIN, i64::MAX) {
        Some(n) => n,
        None => {
            return None;
        },
    };
    let exp: i64 = match read_decimal(exp_text, i64::MIN, i64::MAX) {
        Some(n) => n,
        None => {
            return None;
        },
    };
    let session = Session { exp, account_id: AccountId(id as i32), nbf };
    proof {
        assert(claims@ =~= claims_text(session));
        lemma_claims_session(session);
    }
    Some(session)
}

/// Puts claims and their tag together.
pub fn seal(claims: Vec<u8>, tag: &[u8]) -> (sealed: Vec<u8>)
    ensures
        sealed@ == sealed_text(claims@, tag@),
{
    let mut sealed = claims;
    sealed.push(SEPARATOR);
    push_hex(&mut sealed, tag);
    proof {
        assert(sealed@ =~= sealed_text(claims@, tag@));
    }
    sealed
}

/// Takes a sealed text apart into claims and tag: the claims are what stands
/// before the last `.`, the tag is what stands after it, read as
/// hexadecimal. `None` where `sealed` holds no `.` or what follows the last
/// is no lower-case hexadecimal text.
pub fn unseal(sealed: &[u8]) -> (r: Option<(&[u8], Vec<u8>)>)
    ensures
        match r {
            Some((claims, tag)) => sealed@ == sealed_text(claims@, tag@),
            None => forall|claims: Seq<u8>, tag: Seq<u8>|
                sealed@ != #[trigger] sealed_text(claims, tag),
        },
{
    proof {
        assert forall|claims: Seq<u8>, tag: Seq<u8>|
            sealed@ == #[trigger] sealed_text(claims, tag) implies {
            let at = claims.len() as int;
            &&& at < sealed@.len()
            &&& sealed@[at] == SEPARATOR
            &&& forall|i: int| at < i < sealed@.len() ==> sealed@[i] != SEPARATOR
            &&& sealed@.subrange(at + 1, sealed@.len() as int) == hex_text(tag)
        } by {
            let at = claims.len() as int;
            lemma_hex_text_plain(tag);
            assert(sealed@[at] == SEPARATOR);
            assert forall|i: int| at < i < sealed@.len() implies sealed@[i] != SEPARATOR by {
                assert(sealed@[i] == hex_text(tag)[i - at - 1]);
            }
            lemma_join_last(claims, SEPARATOR, hex_text(tag), at);
        }
    }
    let at: usize = match find_last(sealed, SEPARATOR) {
        Some(at) => at,
        None => {
            return None;
        },
    };
    let claims = slice_subrange(sealed, 0, at);
    let tag_text = slice_subrange(sealed, at + 1, sealed.len());
    match read_hex(tag_text) {
        Some(tag) => {
            proof {
                assert(sealed@ =~= sealed_text(claims@, tag@));
            }
            Some((claims, tag))
        },
        None => None,
    }
}

/// Decides on claims once their tag has been checked: `authentic` says
/// whether the tag was right. Claims under a wrong tag are not read.
pub fn accept(claims: &[u8], authentic: bool, now: i64) -> (r: Result<AccountId, Error>)
    ensures
        r == acceptance(claims@, authentic, now),
{
    if !authentic {
        return Err(Error::Unauthorized);
    }
    match read_claims(claims) {
        Some(session) => {
            if session.is_valid_at(now) {
                Ok(session.account_id)
            } else {
                Err(Error::Unauthorized)
            }
        },
        None => Err(Error::Unauthorized),
    }
}

/// Issues and validates the tokens of one signing key.
pub struct TokenCodec {
    key: Vec<u8>,
}

impl TokenCodec {
    /// The signing key.
    pub closed spec fn secret(&self) -> Seq<u8> {
        self.key@
    }

    /// Makes the codec of the signing key `key`. The key is read once, when
    /// the process starts, and never changes.
    pub fn new(key: Vec<u8>) -> (codec: Self)
        ensures
            codec.secret() == key@,
    {
        TokenCodec { key }
    }

    /// Issues the token of `account_id` at the moment `now`: valid from `now`
    /// on and for `TOKEN_TTL` seconds.
    pub fn issue(&self, account_id: AccountId, now: i64) -> (token: String)
        requires
            now + TOKEN_TTL <= i64::MAX,
        ensures
            encode_utf8(token@) == token_text(self.secret(), issued_session(account_id, now)),
    {
        let session = Session { exp: now + TOKEN_TTL, account_id, nbf: now };
        let claims = write_claims(session);
        let tag = mac_tag(self.key.as_slice(), claims.as_slice());
        let sealed = seal(claims, tag.as_slice());
        proof {
            lemma_token_text_alphabet(self.secret(), session);
        }
        ascii_string(sealed.as_slice())
    }

    /// Validates `token` at the moment `now` and returns the account it
    /// speaks for. A token that is malformed, that carries a wrong tag, or
    /// whose time has not come or has passed, is `Unauthorized`. The tag is
    /// checked before the claims are read.
    pub fn validate(&self, token: &str, now: i64) -> (r: Result<AccountId, Error>)
        ensures
            r == validation(self.secret(), encode_utf8(token@), now),
    {
        match unseal(token.as_bytes()) {
            Some((claims, tag)) => {
                let authentic = mac_verifies(self.key.as_slice(), claims, tag.as_slice());
                proof {
                    lemma_validation_of_sealed(self.secret(), claims@, tag@, now);
                }
                accept(claims, authentic, now)
            },
            None => Err(Error::Unauthorized),
        }
    }
}

/// Whether `b` may stand in a token: a digit, a letter from `a` to `f`, `-`
/// or `.`. Each of these can stand in a URL or a header as it is.
pub open spec fn is_token_byte(b: u8) -> bool {
    is_digit(b) || is_hex_digit(b) || b == MINUS || b == SEPARATOR
}

/// Every byte of a token is a digit, a letter from `a` to `f`, `-` or `.`.
pub proof fn lemma_token_text_alphabet(key: Seq<u8>, session: Session)
    ensures
        forall|i: int|
            0 <= i < token_text(key, session).len() ==> is_token_byte(
                #[trigger] token_text(key, session)[i],
            ),
        is_ascii_bytes(token_text(key, session)),
{
    let id = decimal_text(session.account_id.0 as int);
    let nbf = decimal_text(session.nbf as int);
    let exp = decimal_text(session.exp as int);
    let tag = hex_text(hmac_sha256(key, claims_text(session)));
    lemma_decimal_text_bytes(session.account_id.0 as int);
    lemma_decimal_text_bytes(session.nbf as int);
    lemma_decimal_text_bytes(session.exp as int);
    lemma_hex_text_bytes(hmac_sha256(key, claims_text(session)));
    let token = token_text(key, session);
    let a = id.len() as int;
    let b = a + 1 + nbf.len();
    let c = b + 1 + exp.len();
    assert forall|i: int| 0 <= i < token.len() implies is_token_byte(#[trigger] token[i]) by {
        if i < a {
            assert(token[i] == id[i]);
        } else if i == a {
        } else if i < b {
            assert(token[i] == nbf[i - a - 1]);
        } else if i == b {
        } else if i < c {
            assert(token[i] == exp[i - b - 1]);
        } else if i == c {
        } else {
            assert(token[i] == tag[i - c - 1]);
        }
    }
    assert forall|i: int| 0 <= i < token.len() implies #[trigger] token[i] < 128 by {
        assert(is_token_byte(token[i]));
    }
}

/// Validation fails in one way only: whatever is wrong with a token, the
/// failure is `Unauthorized`.
pub proof fn lemma_validation_fails_alike(key: Seq<u8>, token: Seq<u8>, now: i64)
    ensures
        validation(key, token, now) is Err ==> validation(key, token, now) == Err::<
            AccountId,
            Error,
        >(Error::Unauthorized),
{
}

/// A token is valid from the moment it is issued and for `TOKEN_TTL`
/// seconds: validating it at a moment `at` gives its account where
/// `now <= at < now + TOKEN_TTL`, and `Unauthorized` at any other moment.
pub proof fn lemma_issued_token_window(key: Seq<u8>, account_id: AccountId, now: i64, at: i64)
    requires
        now + TOKEN_TTL <= i64::MAX,
    ensures
        validation(key, token_text(key, issued_session(account_id, now)), at) == if now <= at < now
            + TOKEN_TTL {
            Ok::<AccountId, Error>(account_id)
        } else {
            Err::<AccountId, Error>(Error::Unauthorized)
        },
{
    lemma_token_session(key, issued_session(account_id, now));
}

/// No text that opens with a session's claims and `.` is a token unless what
/// follows is the tag of those claims: a token with any byte of its tag
/// changed is refused at every moment.
pub proof fn lemma_wrong_tag_refused(key: Seq<u8>, session: Session, tail: Seq<u8>, now: i64)
    requires
        tail != hex_text(hmac_sha256(key, claims_text(session))),
    ensures
        token_session(key, join(claims_text(session), SEPARATOR, tail)) is None,
        validation(key, join(claims_text(session), SEPARATOR, tail), now) == Err::<
            AccountId,
            Error,
        >(Error::Unauthorized),
{
    let forged = join(claims_text(session), SEPARATOR, tail);
    assert forall|other: Session| forged != #[trigger] token_text(key, other) by {
        if forged == token_text(key, other) {
            let tag = hex_text(hmac_sha256(key, claims_text(other)));
            let id1 = decimal_text(session.account_id.0 as int);
            let nbf1 = decimal_text(session.nbf as int);
            let exp1 = decimal_text(session.exp as int);
            let id2 = decimal_text(other.account_id.0 as int);
            let nbf2 = decimal_text(other.nbf as int);
            let exp2 = decimal_text(other.exp as int);
            lemma_decimal_text_plain(session.account_id.0 as int);
            lemma_decimal_text_plain(session.nbf as int);
            lemma_decimal_text_plain(session.exp as int);
            lemma_decimal_text_plain(other.account_id.0 as int);
            lemma_decimal_text_plain(other.nbf as int);
            lemma_decimal_text_plain(other.exp as int);
            lemma_join_assoc(id1, join(nbf1, SEPARATOR, exp1), tail, SEPARATOR);
            lemma_join_assoc(nbf1, exp1, tail, SEPARATOR);
            lemma_join_assoc(id2, join(nbf2, SEPARATOR, exp2), tag, SEPARATOR);
            lemma_join_assoc(nbf2, exp2, tag, SEPARATOR);
            lemma_join_left_unique(
                id1,
                join(nbf1, SEPARATOR, join(exp1, SEPARATOR, tail)),
                id2,
                join(nbf2, SEPARATOR, join(exp2, SEPARATOR, tag)),
                SEPARATOR,
            );
            lemma_join_left_unique(
                nbf1,
                join(exp1, SEPARATOR, tail),
                nbf2,
                join(exp2, SEPARATOR, tag),
                SEPARATOR,
            );
            lemma_join_left_unique(exp1, tail, exp2, tag, SEPARATOR);
        }
    }
}

} // verus!
