//! Password hashing with Argon2, as the `argon2` crate does it, and the salt
//! it needs.
use rand::Rng;
use vstd::prelude::*;

verus! {

/// How many random bytes salt a password.
pub const SALT_LENGTH: usize = 32;

/// The longest password, in bytes, that can be hashed.
pub const MAX_PASSWORD_LENGTH: usize = 0xffff_ffff;

/// The encoded Argon2 hash of `password` under `salt` with the default cost
/// parameters: a text that holds the parameters, the salt and the digest.
pub uninterp spec fn argon2_encoded(password: Seq<u8>, salt: Seq<u8>) -> Seq<char>;

/// What checking `password` against the encoded hash `encoded` gives:
/// whether it matches, or `None` where the check cannot be made.
pub uninterp spec fn argon2_verification(encoded: Seq<char>, password: Seq<u8>) -> Option<bool>;

/// Draws a salt from `rand::thread_rng` with `Rng::gen`. Nothing is known of
/// its bytes.
#[verifier::external_body]
pub(crate) fn fresh_salt() -> (salt: Vec<u8>)
    ensures
        salt@.len() == SALT_LENGTH,
{
    rand::thread_rng().gen::<[u8; 32]>().to_vec()
}

/// Calls `argon2::hash_encoded` with `argon2::Config::default()`. With that
/// configuration the call fails only on a password or salt whose length is out
/// of range. The text it returns depends on password and salt alone;
/// `argon2::verify_encoded` reads it back, accepts the password that was
/// hashed, and gives a verdict on any other password of a length in range.
#[verifier::external_body]
pub(crate) fn hash_encoded(password: &[u8], salt: &[u8]) -> (r: Option<String>)
    ensures
        r is Some <==> (password@.len() <= MAX_PASSWORD_LENGTH && 8 <= salt@.len() <= 0xffff_ffff),
        r is Some ==> r->0@ == argon2_encoded(password@, salt@),
        r is Some ==> argon2_verification(r->0@, password@) == Some(true),
        r is Some ==> forall|other: Seq<u8>|
            other.len() <= MAX_PASSWORD_LENGTH ==> #[trigger] argon2_verification(
                r->0@,
                other,
            ) is Some,
{
    argon2::hash_encoded(password, salt, &argon2::Config::default()).ok()
}

/// Calls `argon2::verify_encoded`, which reads parameters, salt and digest
/// from `encoded`, hashes `password` again and compares the digests in
/// constant time. It fails where `encoded` cannot be read or asks for
/// parameters out of range.
#[verifier::external_body]
pub(crate) fn verify_encoded(encoded: &str, password: &[u8]) -> (r: Option<bool>)
    ensures
        r == argon2_verification(encoded@, password@),
{
    argon2::verify_encoded(encoded, password).ok()
}

} // verus!
