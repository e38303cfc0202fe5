//! Passwords and the guard in front of protected routes.
use crate::handle_errors::{Error, Reply};
use crate::kdf::{
    argon2_encoded, argon2_verification, fresh_salt, hash_encoded, verify_encoded,
    MAX_PASSWORD_LENGTH, SALT_LENGTH,
};
use crate::text::chars_of;
use crate::token::{issued_session, token_text, validation, TokenCodec, TOKEN_TTL};
use crate::types::account::{Account, AccountId, AuthAccount, NewAccount};
use vstd::prelude::*;
use vstd::string::StringExecFns;
use vstd::utf8::encode_utf8;

verus! {

/// Whether `encoded` is a hash of `password` under some salt of
/// `SALT_LENGTH` bytes.
pub open spec fn is_hash_of(encoded: Seq<char>, password: Seq<u8>) -> bool {
    exists|salt: Seq<u8>| salt.len() == SALT_LENGTH && encoded == argon2_encoded(password, salt)
}

/// What checking `password` against the stored hash `encoded` gives. A hash
/// that cannot be read is a failure of its own, never a wrong password.
pub open spec fn password_check(encoded: Seq<char>, password: Seq<u8>) -> Result<bool, Error> {
    match argon2_verification(encoded, password) {
        Some(matches) => Ok(matches),
        None => Err(Error::HashingError),
    }
}

/// What a call into the hashing library comes to: what it gave, or
/// `HashingError` where it gave nothing.
pub fn hashing_result<T>(outcome: Option<T>) -> (r: Result<T, Error>)
    ensures
        r == match outcome {
            Some(value) => Ok::<T, Error>(value),
            None => Err::<T, Error>(Error::HashingError),
        },
{
    match outcome {
        Some(value) => Ok(value),
        None => Err(Error::HashingError),
    }
}

/// Hashes `password` under a fresh random salt. The hash verifies against
/// `password`, and checking any other password against it gives a verdict,
/// never a failure.
pub fn hash_password(password: &[u8]) -> (r: Result<String, Error>)
    ensures
        r is Ok <==> password@.len() <= MAX_PASSWORD_LENGTH,
        r matches Ok(encoded) ==> {
            &&& is_hash_of(encoded@, password@)
            &&& password_check(encoded@, password@) == Ok::<bool, Error>(true)
            &&& forall|other: Seq<u8>|
                other.len() <= MAX_PASSWORD_LENGTH ==> #[trigger] password_check(
                    encoded@,
                    other,
                ) is Ok
        },
        r matches Err(e) ==> e == Error::HashingError,
{
    let salt = fresh_salt();
    let r = hashing_result(hash_encoded(password, salt.as_slice()));
    proof {
        if r is Ok {
            let encoded = r->Ok_0@;
            assert forall|other: Seq<u8>| other.len() <= MAX_PASSWORD_LENGTH implies
                #[trigger] password_check(encoded, other) is Ok by {
                assert(argon2_verification(encoded, other) is Some);
            }
        }
    }
    r
}

/// Checks `password` against the stored hash `hash`.
pub fn verify_password(hash: &str, password: &[u8]) -> (r: Result<bool, Error>)
    ensures
        r == password_check(hash@, password@),
{
    hashing_result(verify_encoded(hash, password))
}

/// What the guard makes of the `Authorization` header of a request at the
/// moment `now`. The header's value is the token.
pub open spec fn authorized(key: Seq<u8>, authorization: Option<Seq<char>>, now: i64) -> Result<
    AccountId,
    Error,
> {
    match authorization {
        Some(token) => validation(key, encode_utf8(token), now),
        None => Err(Error::Unauthorized),
    }
}

/// Guards a protected route: returns the account that the request speaks
/// for. A request without the header is refused at once; any other is
/// refused unless its token is valid at `now`.
pub fn auth(codec: &TokenCodec, authorization: Option<&str>, now: i64) -> (r: Result<
    AccountId,
    Error,
>)
    ensures
        r == authorized(codec.secret(), chars_of(authorization), now),
        authorization is None ==> r == Err::<AccountId, Error>(Error::Unauthorized),
{
    match authorization {
        Some(token) => codec.validate(token, now),
        None => Err(Error::Unauthorized),
    }
}

/// What has just happened to a registration.
pub enum RegisterEvent {
    /// The account to register has arrived, its password in plain text.
    Received(NewAccount),
    /// The store has taken the account, or failed.
    Stored(Result<bool, Error>),
}

/// What is to be done next with a registration.
pub enum RegisterAction {
    /// Hand this account to the store, which gives it its key.
    AddAccount(NewAccount),
    /// Send this reply; the request is done.
    Reply(Reply),
    /// Reject the request with this failure; the request is done.
    Reject(Error),
}

/// Decides what becomes of an account to register once its password has
/// been hashed: it goes to the store with its e-mail address as it came and
/// with the hash in place of the password; where hashing failed, the request
/// is rejected with that failure and nothing is stored.
pub fn registration(account: NewAccount, hashed: Result<String, Error>) -> (action: RegisterAction)
    ensures
        match hashed {
            Ok(hash) => action matches RegisterAction::AddAccount(stored) && stored.email@
                == account.email@ && stored.password@ == hash@,
            Err(error) => action matches RegisterAction::Reject(same) && same == error,
        },
{
    match hashed {
        Ok(hash) => RegisterAction::AddAccount(NewAccount { email: account.email, password: hash }),
        Err(error) => RegisterAction::Reject(error),
    }
}

/// Decides the next step of a registration.
///
/// An account that arrives is handed to the store with its e-mail address
/// as it came and with a hash in place of its password; the password itself
/// goes nowhere. Where the password cannot be hashed, nothing is stored. A
/// stored account is replied to with 200 and `Account Added`; a failure of
/// the store rejects the request unchanged.
pub fn register(event: RegisterEvent) -> (action: RegisterAction)
    ensures
        match event {
            RegisterEvent::Received(account) => match action {
                RegisterAction::AddAccount(stored) => {
                    &&& encode_utf8(account.password@).len() <= MAX_PASSWORD_LENGTH
                    &&& stored.email@ == account.email@
                    &&& is_hash_of(stored.password@, encode_utf8(account.password@))
                    &&& password_check(stored.password@, encode_utf8(account.password@)) == Ok::<
                        bool,
                        Error,
                    >(true)
                },
                RegisterAction::Reject(error) => error == Error::HashingError && encode_utf8(
                    account.password@,
                ).len() > MAX_PASSWORD_LENGTH,
                RegisterAction::Reply(_) => false,
            },
            RegisterEvent::Stored(Ok(_)) => action matches RegisterAction::Reply(reply)
                && reply.status == 200 && reply.body@ == "Account Added"@,
            RegisterEvent::Stored(Err(error)) => action matches RegisterAction::Reject(same)
                && same == error,
        },
{
    match event {
        RegisterEvent::Received(account) => {
            let hashed = hash_password(account.password.as_str().as_bytes());
            registration(account, hashed)
        },
        RegisterEvent::Stored(Ok(_)) => RegisterAction::Reply(
            Reply { status: 200, body: String::from_str("Account Added") },
        ),
        RegisterEvent::Stored(Err(error)) => RegisterAction::Reject(error),
    }
}

/// What the verdict on a password comes to at login: a password that
/// matches lets the login pass, one that does not is `Unauthorized`, and a
/// failure to reach a verdict stays what it is.
pub fn password_verdict(verdict: Result<bool, Error>) -> (r: Result<(), Error>)
    ensures
        r == match verdict {
            Ok(true) => Ok::<(), Error>(()),
            Ok(false) => Err::<(), Error>(Error::Unauthorized),
            Err(error) => Err::<(), Error>(error),
        },
{
    match verdict {
        Ok(true) => Ok(()),
        Ok(false) => Err(Error::Unauthorized),
        Err(error) => Err(error),
    }
}

/// What logging in gives, once the store has been asked for the account of
/// the e-mail address: the failure of the store; or a failure of its own
/// where the stored hash cannot be read; or `Unauthorized` where the password
/// does not match; or else the token of the account, issued at `now`.
pub open spec fn login_outcome(
    key: Seq<u8>,
    found: Result<(AccountId, Seq<char>), Error>,
    password: Seq<u8>,
    now: i64,
) -> Result<Seq<u8>, Error> {
    match found {
        Err(error) => Err(error),
        Ok((id, hash)) => match password_check(hash, password) {
            Err(error) => Err(error),
            Ok(false) => Err(Error::Unauthorized),
            Ok(true) => Ok(token_text(key, issued_session(id, now))),
        },
    }
}

/// What the store found for an e-mail address, as plain values: the key of
/// the account and its stored hash, or the failure of the store.
pub open spec fn found_account(found: Result<Account, Error>) -> Result<
    (AccountId, Seq<char>),
    Error,
> {
    match found {
        Ok(account) => Ok((account.id, account.password@)),
        Err(error) => Err(error),
    }
}

/// Finishes a login: `found` is what the store returned for the e-mail
/// address of `credentials`.
pub fn login(
    codec: &TokenCodec,
    found: Result<Account, Error>,
    credentials: &AuthAccount,
    now: i64,
) -> (r: Result<String, Error>)
    requires
        now + TOKEN_TTL <= i64::MAX,
    ensures
        match r {
            Ok(token) => login_outcome(
                codec.secret(),
                found_account(found),
                encode_utf8(credentials.password@),
                now,
            ) == Ok::<Seq<u8>, Error>(encode_utf8(token@)),
            Err(error) => login_outcome(
                codec.secret(),
                found_account(found),
                encode_utf8(credentials.password@),
                now,
            ) == Err::<Seq<u8>, Error>(error),
        },
{
    let account = match found {
        Ok(account) => account,
        Err(error) => {
            return Err(error);
        },
    };
    let verdict = verify_password(
        account.password.as_str(),
        credentials.password.as_str().as_bytes(),
    );
    match password_verdict(verdict) {
        Ok(_) => Ok(codec.issue(account.id, now)),
        Err(error) => Err(error),
    }
}

} // verus!
