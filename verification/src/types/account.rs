//! Accounts, the credentials they log in with, and the claims of a token.
use vstd::prelude::*;

verus! {

/// The key of an account, given out by the store.
#[derive(Debug, Clone, Copy, PartialEq, Eq, Hash, Structural)]
pub struct AccountId(pub i32);

/// The claims of a token: who it speaks for, and from when until when.
/// Times are seconds since the Unix epoch.
#[derive(Debug, Clone, Copy, PartialEq, Eq, Structural)]
pub struct Session {
    /// The first moment at which the token is no longer valid.
    pub exp: i64,
    /// The account that the token speaks for.
    pub account_id: AccountId,
    /// The first moment at which the token is valid.
    pub nbf: i64,
}

impl Session {
    /// Whether the claims hold at the moment `now`: from `nbf` on, and before
    /// `exp`.
    pub open spec fn covers(self, now: i64) -> bool {
        self.nbf <= now < self.exp
    }

    /// Returns whether the claims hold at the moment `now`.
    pub fn is_valid_at(&self, now: i64) -> (valid: bool)
        ensures
            valid == self.covers(now),
    {
        self.nbf <= now && now < self.exp
    }
}

/// An account as the store keeps it. `password` holds the encoded hash, never
/// the password itself.
#[derive(Debug, Clone)]
pub struct Account {
    pub id: AccountId,
    pub email: String,
    pub password: String,
}

/// What a client sends to log in. The password is plain text and is never
/// stored.
#[derive(Debug, Clone)]
pub struct AuthAccount {
    pub email: String,
    pub password: String,
}

/// What a client sends to register. The password is plain text and is hashed
/// before anything is stored.
#[derive(Debug, Clone)]
pub struct NewAccount {
    pub email: String,
    pub password: String,
}

} // verus!
