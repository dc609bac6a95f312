//! What the token endpoint grants, and the credentials that are made of it.

use vstd::prelude::*;

use crate::constants::DEFAULT_LIFETIME_SECS;
use crate::token_store::{AuthView, StoredAuth, clone_text, text_view};

verus! {

/// A decoded answer of the token endpoint.
#[derive(Debug, PartialEq, Eq)]
pub struct TokenResponse {
    pub access_token: String,
    pub refresh_token: String,
    /// How long the access token lives, in seconds, where the endpoint says so.
    pub expires_in: Option<u64>,
    /// The account that the tokens' claims name, if they name one.
    pub account_id: Option<String>,
    /// Why the answer cannot be used, if validation found a reason.
    pub defect: Option<String>,
}

/// The mathematical content of a [`TokenResponse`].
pub struct TokenView {
    pub access_token: Seq<char>,
    pub refresh_token: Seq<char>,
    pub expires_in: Option<u64>,
    pub account_id: Option<Seq<char>>,
    pub defect: Option<Seq<char>>,
}

impl View for TokenResponse {
    type V = TokenView;

    open spec fn view(&self) -> TokenView {
        TokenView {
            access_token: self.access_token@,
            refresh_token: self.refresh_token@,
            expires_in: self.expires_in,
            account_id: text_view(self.account_id),
            defect: text_view(self.defect),
        }
    }
}

/// When a token granted at `now` expires, in milliseconds.
pub open spec fn expiry_of(expires_in: Option<u64>, now: nat) -> nat {
    let seconds: nat = match expires_in {
        Some(s) => s as nat,
        None => DEFAULT_LIFETIME_SECS as nat,
    };
    now + seconds * 1000
}

/// The expiry can be represented.
pub open spec fn expiry_fits(expires_in: Option<u64>, now: nat) -> bool {
    expiry_of(expires_in, now) <= u64::MAX
}

/// Computes [`expiry_of`]; `None` when it cannot be represented.
pub fn expires_at(expires_in: Option<u64>, now: u64) -> (r: Option<u64>)
    ensures
        match r {
            Some(at) => at == expiry_of(expires_in, now as nat),
            None => !expiry_fits(expires_in, now as nat),
        },
        match (r, expires_in) {
            (Some(at), Some(seconds)) => at == now + seconds * 1000,
            (Some(at), None) => at == now + 3_600_000,
            (None, Some(seconds)) => now + seconds * 1000 > u64::MAX,
            (None, None) => now + 3_600_000 > u64::MAX,
        },
{
    let seconds: u64 = match expires_in {
        Some(s) => s,
        None => DEFAULT_LIFETIME_SECS,
    };
    match seconds.checked_mul(1000) {
        Some(lifetime) => now.checked_add(lifetime),
        None => None,
    }
}

/// The credentials that `tokens`, granted at `now`, amount to. The account is the one
/// that the tokens name, or else `fallback`.
pub open spec fn granted_auth(
    tokens: TokenView,
    fallback: Option<Seq<char>>,
    now: nat,
) -> AuthView {
    AuthView {
        access: tokens.access_token,
        refresh: tokens.refresh_token,
        expires: expiry_of(tokens.expires_in, now),
        account_id: if tokens.account_id is Some {
            tokens.account_id
        } else {
            fallback
        },
    }
}

/// Computes [`granted_auth`].
pub fn auth_from_tokens(tokens: &TokenResponse, fallback: &Option<String>, now: u64) -> (auth:
    StoredAuth)
    requires
        expiry_fits(tokens@.expires_in, now as nat),
    ensures
        auth@ == granted_auth(tokens@, text_view(*fallback), now as nat),
        auth.access@ == tokens.access_token@,
        auth.refresh@ == tokens.refresh_token@,
        auth.expires == now + (if tokens.expires_in is Some {
            tokens.expires_in->0 as int
        } else {
            3600
        }) * 1000,
        auth@.account_id == text_view(
            if tokens.account_id is Some {
                tokens.account_id
            } else {
                *fallback
            },
        ),
{
    let seconds: u64 = match tokens.expires_in {
        Some(s) => s,
        None => DEFAULT_LIFETIME_SECS,
    };
    StoredAuth {
        access: tokens.access_token.clone(),
        refresh: tokens.refresh_token.clone(),
        expires: now + seconds * 1000,
        account_id: match &tokens.account_id {
            Some(id) => Some(id.clone()),
            None => clone_text(fallback),
        },
    }
}

} // verus!
