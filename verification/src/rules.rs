//! The rules by which a token is served, reused or refreshed, as functions of plain values.

use vstd::prelude::*;

use crate::constants::REFRESH_MARGIN_MS;
use crate::token_store::{AuthView, StoredAuth};

verus! {

/// The two token strings differ in at least one place. Expiry and account play no part.
pub open spec fn identity_changed(latest: AuthView, snapshot: AuthView) -> bool {
    latest.access != snapshot.access || latest.refresh != snapshot.refresh
}

/// The token outlives `now` by more than the refresh margin.
pub open spec fn is_fresh(auth: AuthView, now: nat) -> bool {
    auth.expires > now + REFRESH_MARGIN_MS
}

/// The token has not expired at `now`.
pub open spec fn is_live(auth: AuthView, now: nat) -> bool {
    auth.expires > now
}

/// Whether `latest` holds other tokens than `snapshot`.
pub fn token_identity_changed(latest: &StoredAuth, snapshot: &StoredAuth) -> (changed: bool)
    ensures
        changed == identity_changed(latest@, snapshot@),
        changed == (latest.access@ != snapshot.access@ || latest.refresh@ != snapshot.refresh@),
{
    latest.access != snapshot.access || latest.refresh != snapshot.refresh
}

/// Whether `auth` can be served at `now` without a refresh.
pub fn fresh_at(auth: &StoredAuth, now: u64) -> (fresh: bool)
    ensures
        fresh == is_fresh(auth@, now as nat),
        fresh == (auth.expires > now + 300_000),
{
    match now.checked_add(REFRESH_MARGIN_MS) {
        Some(limit) => auth.expires > limit,
        None => false,
    }
}

/// What a refresh does once it has looked at the store again.
pub enum Recheck {
    /// Somebody else has rotated the tokens: serve theirs.
    Reuse(StoredAuth),
    /// Refresh these credentials.
    Refresh(StoredAuth),
}

/// The mathematical content of a [`Recheck`].
pub enum RecheckView {
    Reuse(AuthView),
    Refresh(AuthView),
}

impl View for Recheck {
    type V = RecheckView;

    open spec fn view(&self) -> RecheckView {
        match self {
            Recheck::Reuse(auth) => RecheckView::Reuse(auth@),
            Recheck::Refresh(auth) => RecheckView::Refresh(auth@),
        }
    }
}

/// An optional credential set in terms of its view.
pub open spec fn auth_view(auth: Option<StoredAuth>) -> Option<AuthView> {
    match auth {
        Some(a) => Some(a@),
        None => None,
    }
}

/// What to do about `snapshot` when the store holds `latest`.
///
/// Stored tokens are reused only when they differ from the snapshot and are fresh:
/// freshness alone says nothing about a token that the server has just rejected. In
/// every other case the stored credentials are refreshed, or the snapshot when the
/// store is empty.
pub open spec fn recheck_of(
    latest: Option<AuthView>,
    snapshot: AuthView,
    now: nat,
) -> RecheckView {
    match latest {
        Some(auth) => if identity_changed(auth, snapshot) && is_fresh(auth, now) {
            RecheckView::Reuse(auth)
        } else {
            RecheckView::Refresh(auth)
        },
        None => RecheckView::Refresh(snapshot),
    }
}

/// Computes [`recheck_of`].
pub fn recheck(latest: Option<StoredAuth>, snapshot: &StoredAuth, now: u64) -> (r: Recheck)
    ensures
        r@ == recheck_of(auth_view(latest), snapshot@, now as nat),
        r is Reuse <==> (latest matches Some(auth) && (auth.access@ != snapshot.access@
            || auth.refresh@ != snapshot.refresh@) && auth.expires > now + 300_000),
        match (r, latest) {
            (Recheck::Reuse(auth), Some(stored)) => auth@ == stored@,
            (Recheck::Refresh(auth), Some(stored)) => auth@ == stored@,
            (Recheck::Refresh(auth), None) => auth@ == snapshot@,
            _ => false,
        },
{
    match latest {
        Some(auth) => {
            if token_identity_changed(&auth, snapshot) && fresh_at(&auth, now) {
                Recheck::Reuse(auth)
            } else {
                Recheck::Refresh(auth)
            }
        },
        None => Recheck::Refresh(snapshot.clone()),
    }
}

/// The credentials that survive a refused refresh of `current`, when the store then
/// holds `latest`: those that somebody else rotated in the meantime, if they are live.
pub open spec fn survivor_of(
    latest: Option<AuthView>,
    current: AuthView,
    now: nat,
) -> Option<AuthView> {
    match latest {
        Some(auth) => if identity_changed(auth, current) && is_live(auth, now) {
            Some(auth)
        } else {
            None
        },
        None => None,
    }
}

/// Computes [`survivor_of`].
pub fn survivor(latest: Option<StoredAuth>, current: &StoredAuth, now: u64) -> (r: Option<
    StoredAuth,
>)
    ensures
        auth_view(r) == survivor_of(auth_view(latest), current@, now as nat),
        r is Some <==> (latest matches Some(auth) && (auth.access@ != current.access@
            || auth.refresh@ != current.refresh@) && auth.expires > now),
        r is Some ==> auth_view(r) == auth_view(latest),
{
    match latest {
        Some(auth) => {
            if token_identity_changed(&auth, current) && auth.expires > now {
                Some(auth)
            } else {
                None
            }
        },
        None => None,
    }
}

/// What an HTTP status means for a refresh.
#[derive(Clone, Copy, Debug, PartialEq, Eq, Structural)]
pub enum StatusClass {
    /// The refresh token was refused.
    Unauthorized,
    /// New tokens follow in the body.
    Success,
    /// Anything else.
    Failed,
}

/// 401 and 403 refuse the token, 200 to 299 grant a new one.
pub open spec fn status_class_of(status: u16) -> StatusClass {
    if status == 401 || status == 403 {
        StatusClass::Unauthorized
    } else if 200 <= status < 300 {
        StatusClass::Success
    } else {
        StatusClass::Failed
    }
}

/// Computes [`status_class_of`].
pub fn classify_status(status: u16) -> (class: StatusClass)
    ensures
        class == status_class_of(status),
        class == StatusClass::Unauthorized <==> status == 401 || status == 403,
        class == StatusClass::Success <==> 200 <= status <= 299,
{
    if status == 401 || status == 403 {
        StatusClass::Unauthorized
    } else if status >= 200 && status < 300 {
        StatusClass::Success
    } else {
        StatusClass::Failed
    }
}

} // verus!
