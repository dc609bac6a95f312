//! What each operation promises, said in terms of token strings, timestamps and statuses.
//!
//! The laws here do not lean on the named rules of the other modules: a token counts as
//! fresh when its expiry lies more than 300,000 milliseconds ahead, as live when its expiry
//! lies ahead at all, and as another token when one of its two strings differs.

use std::time::SystemTime;

use vstd::prelude::*;

use crate::clock::{epoch_millis_of, nanos_since_epoch, reading_of};
use crate::error::{AuthError, ErrorView, decimal, digit};
use crate::manager::{
    AuthStep, StatusStep, TokenRequest, body_view, outcome, read_from, written_to,
};
use crate::model::{
    Flight, LoadView, ManagerView, RequestView, StatusView, StepView, WriteView, adopt_step,
    get_step, refresh_request, refresh_step, status_step, tokens_step,
};
use crate::rules::{
    RecheckView, StatusClass, auth_view, identity_changed, is_fresh, is_live, recheck_of,
    status_class_of, survivor_of,
};
use crate::storage::{
    AuthStorage, InMemoryAuthStore, StoreError, StoreEvent, held, lemma_held_push, load_view,
    write_view,
};
use crate::token_store::{AuthView, StoredAuth, text_view};
use crate::tokens::{TokenResponse, TokenView, expiry_of, granted_auth};
use crate::trace::{Operation, after, lands_at, lemma_flight_lasts, sends, state_at, told};

verus! {

/// A token is fresh while it outlives the moment by more than five minutes, and live while
/// it outlives it at all. So a fresh token is live, and both only ever end: what is fresh
/// or live now was so earlier, and a later expiry is never worse.
pub proof fn law_tokens_age(auth: AuthView, later: AuthView, now: nat, earlier: nat)
    requires
        earlier <= now,
        auth.expires <= later.expires,
    ensures
        is_fresh(auth, now) <==> auth.expires > now + 300_000,
        is_live(auth, now) <==> auth.expires > now,
        is_fresh(auth, now) ==> is_live(auth, now),
        is_fresh(auth, now) ==> is_fresh(auth, earlier) && is_fresh(later, now),
        is_live(auth, now) ==> is_live(auth, earlier) && is_live(later, now),
        auth.expires <= now ==> !is_fresh(auth, now) && !is_live(auth, now),
{
}

/// Two credential sets are the same tokens exactly when both strings agree. This is an
/// equivalence: it is reflexive, symmetric and transitive.
pub proof fn law_identity_is_the_two_strings(a: AuthView, b: AuthView, c: AuthView)
    ensures
        identity_changed(a, b) <==> a.access != b.access || a.refresh != b.refresh,
        !identity_changed(a, a),
        identity_changed(a, b) == identity_changed(b, a),
        !identity_changed(a, b) && !identity_changed(b, c) ==> !identity_changed(a, c),
{
}

/// Asked for a token while `auth` is at hand, be it cached or found in the store and then
/// cached (`mid` is the state with it cached), the manager serves `auth` exactly while it
/// outlives the moment by more than five minutes. Otherwise it does what a refresh of
/// `auth` does: it waits for the flight under way, refuses after a broken one, and takes
/// off when there is none.
pub proof fn law_get_serves_or_refreshes_what_is_at_hand(
    pre: ManagerView,
    mid: ManagerView,
    auth: AuthView,
    found: LoadView,
    now: nat,
    loaded: LoadView,
    later: nat,
)
    requires
        ({
            ||| pre.cached == Some(auth) && mid == pre
            ||| {
                &&& pre.cached is None
                &&& found == LoadView::Ok(Some(auth))
                &&& mid == (ManagerView {
                    cached: Some(auth),
                    flight: pre.flight,
                    endpoint: pre.endpoint,
                    initial: pre.initial,
                    history: pre.history.push(StoreEvent::Loaded(found)),
                })
            }
        }),
    ensures
        ({
            let (post, r) = get_step(pre, found, now, loaded, later);
            &&& auth.expires > now + 300_000 <==> r == Ok::<_, ErrorView>(StepView::Ready(auth))
            &&& auth.expires > now + 300_000 ==> post == mid
            &&& auth.expires <= now + 300_000 ==> {
                &&& !(r matches Ok(StepView::Ready(_)))
                &&& (post, r) == refresh_step(mid, auth, loaded, later)
                &&& pre.flight == Flight::InFlight ==> post == mid && r == Ok::<_, ErrorView>(
                    StepView::Wait(auth),
                )
                &&& pre.flight == Flight::Poisoned ==> post == mid && r == Err::<StepView, _>(
                    ErrorView::FlightPoisoned,
                )
            }
            &&& r == Err::<StepView, _>(ErrorView::FlightPoisoned) ==> pre.flight
                == Flight::Poisoned
        }),
{
}

/// Asked for a token with nothing cached and nothing to be found, the manager says so, or
/// says why the store could not be read; it has read the store once and done nothing else.
pub proof fn law_get_without_credentials(
    pre: ManagerView,
    found: LoadView,
    now: nat,
    loaded: LoadView,
    later: nat,
)
    requires
        pre.cached is None,
        !(found matches Ok(Some(_))),
    ensures
        get_step(pre, found, now, loaded, later) == (
            ManagerView {
                cached: None,
                flight: pre.flight,
                endpoint: pre.endpoint,
                initial: pre.initial,
                history: pre.history.push(StoreEvent::Loaded(found)),
            },
            match found {
                Ok(_) => Err::<StepView, _>(ErrorView::NotAuthenticated),
                Err(e) => Err(ErrorView::Store(e)),
            },
        ),
{
}

/// Whatever a request for a token or a refresh serves at once outlives a clock reading made
/// during the call by more than five minutes. A refresh moreover serves only other tokens
/// than those it was asked to replace, and only ones that the store returned.
pub proof fn law_nothing_stale_is_served(
    pre: ManagerView,
    snapshot: AuthView,
    found: LoadView,
    now: nat,
    loaded: LoadView,
    later: nat,
)
    ensures
        get_step(pre, found, now, loaded, later).1 matches Ok(step) ==> match step {
            StepView::Ready(auth) => {
                &&& auth.expires > now + 300_000
                &&& pre.cached == Some(auth) || (pre.cached is None && found == LoadView::Ok(
                    Some(auth),
                ))
            },
            StepView::Reuse(auth) => auth.expires > later + 300_000 && loaded == LoadView::Ok(
                Some(auth),
            ),
            _ => true,
        },
        refresh_step(pre, snapshot, loaded, later).1 matches Ok(step) ==> match step {
            StepView::Ready(_) => false,
            StepView::Reuse(auth) => {
                &&& auth.expires > later + 300_000
                &&& auth.access != snapshot.access || auth.refresh != snapshot.refresh
                &&& loaded == LoadView::Ok(Some(auth))
            },
            _ => true,
        },
{
}

/// Nobody fails for a flight that is under way: a refresh waits for it and comes back with
/// the same snapshot, having read and changed nothing. Only after a broken flight is it
/// refused.
pub proof fn law_refresh_waits_or_is_refused(
    pre: ManagerView,
    snapshot: AuthView,
    loaded: LoadView,
    now: nat,
)
    ensures
        ({
            let (post, r) = refresh_step(pre, snapshot, loaded, now);
            &&& (r matches Ok(StepView::Wait(_))) <==> pre.flight == Flight::InFlight
            &&& r == Err::<StepView, _>(ErrorView::FlightPoisoned) <==> pre.flight
                == Flight::Poisoned
            &&& pre.flight != Flight::Idle ==> post == pre
            &&& r matches Ok(StepView::Wait(s)) ==> s == snapshot
        }),
{
}

/// A refresh that takes off and cannot read the store says why, and has done nothing else.
pub proof fn law_refresh_of_an_unreadable_store(
    pre: ManagerView,
    snapshot: AuthView,
    e: Seq<char>,
    now: nat,
)
    requires
        pre.flight == Flight::Idle,
    ensures
        refresh_step(pre, snapshot, LoadView::Err(e), now) == (
            ManagerView {
                cached: pre.cached,
                flight: Flight::Idle,
                endpoint: pre.endpoint,
                initial: pre.initial,
                history: pre.history.push(StoreEvent::Loaded(LoadView::Err(e))),
            },
            Err::<StepView, _>(ErrorView::Store(e)),
        ),
{
}

/// A refresh that takes off and reads the store concerns `current`, what the store returned
/// or else the snapshot, and comes to one of three things. Stored tokens that differ from
/// the snapshot in a string and outlive the moment by more than five minutes are cached and
/// reused. Otherwise, whether the tokens are the same, stale or both, a refresh token that
/// is there is posted, in the form that the endpoint expects, and the flight is on; and only
/// where there is none does the refresh fail. The cache is touched by a reuse alone.
pub proof fn law_refresh_reuses_sends_or_lacks_a_token(
    pre: ManagerView,
    snapshot: AuthView,
    latest: Option<AuthView>,
    now: nat,
)
    requires
        pre.flight == Flight::Idle,
    ensures
        ({
            let (post, r) = refresh_step(pre, snapshot, LoadView::Ok(latest), now);
            let current = if latest is Some {
                latest->0
            } else {
                snapshot
            };
            let reusable = latest is Some && (current.access != snapshot.access || current.refresh
                != snapshot.refresh) && current.expires > now + 300_000;
            &&& post.endpoint == pre.endpoint && post.initial == pre.initial
            &&& post.history == pre.history.push(StoreEvent::Loaded(LoadView::Ok(latest)))
            &&& reusable <==> r == Ok::<_, ErrorView>(StepView::Reuse(current))
            &&& reusable ==> post.cached == Some(current) && post.flight == Flight::Idle
            &&& !reusable ==> post.cached == pre.cached
            &&& !reusable && current.refresh.len() > 0 <==> post.flight == Flight::InFlight
            &&& !reusable && current.refresh.len() > 0 ==> r == Ok::<_, ErrorView>(
                StepView::Send {
                    current,
                    request: RequestView {
                        endpoint: pre.endpoint,
                        form: seq![
                            ("client_id"@, "app_EMoamEEZ73f0CkXaXp7hrann"@),
                            ("grant_type"@, "refresh_token"@),
                            ("refresh_token"@, current.refresh),
                        ],
                    },
                },
            )
            &&& !reusable && current.refresh.len() == 0 <==> r == Err::<StepView, _>(
                ErrorView::NoRefreshToken,
            )
            &&& !reusable && current.refresh.len() == 0 ==> post.flight == Flight::Idle
        }),
{
}

/// What becomes of a refresh does not depend on how long the snapshot would still be valid
/// or on whose account it is: the outcome and the state are the same for any two snapshots
/// with the same strings, as long as the store returns something.
pub proof fn law_refresh_ignores_the_snapshots_expiry(
    pre: ManagerView,
    one: AuthView,
    other: AuthView,
    latest: AuthView,
    now: nat,
)
    requires
        pre.flight == Flight::Idle,
        one.access == other.access,
        one.refresh == other.refresh,
    ensures
        refresh_step(pre, one, LoadView::Ok(Some(latest)), now) == refresh_step(
            pre,
            other,
            LoadView::Ok(Some(latest)),
            now,
        ),
{
}

/// After 401 or 403, stored tokens that differ from the refreshed ones in a string and
/// expire after the moment are served and cached, and the store is only read.
pub proof fn law_refusal_serves_every_live_winner(
    pre: ManagerView,
    current: AuthView,
    status: u16,
    latest: AuthView,
    now: nat,
    cleared: WriteView,
)
    requires
        status == 401 || status == 403,
        latest.access != current.access || latest.refresh != current.refresh,
        latest.expires > now,
    ensures
        status_step(pre, current, status, LoadView::Ok(Some(latest)), now, cleared) == (
            ManagerView {
                cached: Some(latest),
                flight: if pre.flight == Flight::InFlight {
                    Flight::Idle
                } else {
                    pre.flight
                },
                endpoint: pre.endpoint,
                initial: pre.initial,
                history: pre.history.push(StoreEvent::Loaded(LoadView::Ok(Some(latest)))),
            },
            Ok::<_, ErrorView>(StatusView::Ready(latest)),
        ),
{
}

/// After 401 or 403, when the store cannot be read, is empty, still holds the refused tokens
/// or holds expired ones, the cache is emptied and the store cleared, whether or not the
/// store obeys. The flight stays on until the refusal has been read.
pub proof fn law_refusal_without_a_live_winner_forgets(
    pre: ManagerView,
    current: AuthView,
    status: u16,
    loaded: LoadView,
    now: nat,
    cleared: WriteView,
)
    requires
        status == 401 || status == 403,
        loaded matches Ok(Some(latest)) ==> latest.expires <= now || (latest.access
            == current.access && latest.refresh == current.refresh),
    ensures
        status_step(pre, current, status, loaded, now, cleared) == (
            ManagerView {
                cached: None,
                flight: pre.flight,
                endpoint: pre.endpoint,
                initial: pre.initial,
                history: pre.history.push(StoreEvent::Loaded(loaded)).push(
                    StoreEvent::Cleared(cleared),
                ),
            },
            Ok::<_, ErrorView>(StatusView::ReadDenial(status)),
        ),
{
}

/// Every other status changes neither cache nor store. From 200 to 299 the tokens are to be
/// read and the flight stays on; anything else ends it and is reported with its number.
pub proof fn law_other_statuses(
    pre: ManagerView,
    current: AuthView,
    status: u16,
    loaded: LoadView,
    now: nat,
    cleared: WriteView,
)
    requires
        status != 401,
        status != 403,
    ensures
        ({
            let (post, r) = status_step(pre, current, status, loaded, now, cleared);
            &&& post.cached == pre.cached && post.history == pre.history
            &&& post.endpoint == pre.endpoint && post.initial == pre.initial
            &&& 200 <= status <= 299 ==> post.flight == pre.flight && r == Ok::<_, ErrorView>(
                StatusView::ReadTokens(current),
            )
            &&& !(200 <= status <= 299) ==> {
                &&& r == Err::<StatusView, _>(ErrorView::RefreshFailed(status))
                &&& pre.flight == Flight::InFlight ==> post.flight == Flight::Idle
                &&& pre.flight != Flight::InFlight ==> post.flight == pre.flight
            }
        }),
{
}

/// Tokens that a login or a refresh is granted become the credentials: both strings are
/// taken over, the expiry lies the granted seconds ahead (an hour where none are named), and
/// the account is the one that the tokens name or else the fallback. They are saved, and
/// once the store has taken them they are what the cache holds, whatever it held before.
/// When the store fails, they are neither cached nor returned.
pub proof fn law_granted_tokens_are_taken_over(
    pre: ManagerView,
    tokens: TokenView,
    fallback: Option<Seq<char>>,
    now: nat,
    saved: WriteView,
)
    requires
        tokens.defect is None,
        now + (if tokens.expires_in is Some {
            tokens.expires_in->0 as int
        } else {
            3600
        }) * 1000 <= 18_446_744_073_709_551_615,
    ensures
        ({
            let (post, r) = adopt_step(pre, tokens, fallback, now, saved);
            let next = AuthView {
                access: tokens.access_token,
                refresh: tokens.refresh_token,
                expires: (now + (if tokens.expires_in is Some {
                    tokens.expires_in->0 as int
                } else {
                    3600
                }) * 1000) as nat,
                account_id: if tokens.account_id is Some {
                    tokens.account_id
                } else {
                    fallback
                },
            };
            &&& post.flight == pre.flight && post.endpoint == pre.endpoint
            &&& post.initial == pre.initial
            &&& post.history == pre.history.push(StoreEvent::Saved(next, saved))
            &&& saved is Ok ==> r == Ok::<_, ErrorView>(next) && post.cached == Some(next)
            &&& saved matches Err(e) ==> r == Err::<AuthView, _>(ErrorView::Store(e))
                && post.cached == pre.cached
        }),
{
}

/// Tokens with a defect, or with a lifetime that no timestamp can hold, are reported and
/// change nothing. A defect is reported first.
pub proof fn law_unusable_tokens_change_nothing(
    pre: ManagerView,
    tokens: TokenView,
    fallback: Option<Seq<char>>,
    now: nat,
    saved: WriteView,
)
    requires
        tokens.defect is Some || now + (if tokens.expires_in is Some {
            tokens.expires_in->0 as int
        } else {
            3600
        }) * 1000 > 18_446_744_073_709_551_615,
    ensures
        adopt_step(pre, tokens, fallback, now, saved) == (
            pre,
            match tokens.defect {
                Some(defect) => Err::<AuthView, _>(ErrorView::InvalidTokens(defect)),
                None => Err(ErrorView::ExpiryOutOfRange),
            },
        ),
{
}

/// The end of a flight by its tokens is what a login with them would be, with the account
/// of the refreshed credentials to fall back on, and ends the flight; a body that cannot be
/// decoded ends it too, and is reported.
pub proof fn law_refresh_adopts_like_a_login(
    pre: ManagerView,
    current: AuthView,
    tokens: TokenView,
    e: Seq<char>,
    now: nat,
    saved: WriteView,
)
    ensures
        ({
            let (post, r) = tokens_step(pre, current, Ok(tokens), now, saved);
            let (login, s) = adopt_step(pre, tokens, current.account_id, now, saved);
            let (failed, f) = tokens_step(pre, current, Err(e), now, saved);
            &&& r == s
            &&& post.cached == login.cached && post.history == login.history
            &&& post.endpoint == pre.endpoint && post.initial == pre.initial
            &&& f == Err::<AuthView, _>(ErrorView::MalformedResponse(e))
            &&& failed.cached == pre.cached && failed.history == pre.history
            &&& failed.endpoint == pre.endpoint && failed.initial == pre.initial
            &&& post.flight == failed.flight
            &&& pre.flight == Flight::InFlight ==> post.flight == Flight::Idle
            &&& pre.flight != Flight::InFlight ==> post.flight == pre.flight
        }),
{
}

/// After a login or a granted refresh, a token is asked for: as long as the new one outlives
/// the moment by more than five minutes it is served, whatever was cached before and
/// without touching the store.
pub proof fn law_new_tokens_replace_the_cached_ones(
    pre: ManagerView,
    current: AuthView,
    tokens: TokenView,
    granted: nat,
    saved: WriteView,
    found: LoadView,
    now: nat,
    loaded: LoadView,
    later: nat,
)
    ensures
        adopt_step(pre, tokens, None, granted, saved) matches (post, Ok(next)) ==> {
            &&& post.cached == Some(next)
            &&& next.access == tokens.access_token && next.refresh == tokens.refresh_token
            &&& next.expires > now + 300_000 ==> get_step(post, found, now, loaded, later) == (
                post,
                Ok::<_, ErrorView>(StepView::Ready(next)),
            )
        },
        tokens_step(pre, current, Ok(tokens), granted, saved) matches (post, Ok(next)) ==> {
            &&& post.cached == Some(next)
            &&& next.access == tokens.access_token && next.refresh == tokens.refresh_token
            &&& next.expires > now + 300_000 ==> get_step(post, found, now, loaded, later) == (
                post,
                Ok::<_, ErrorView>(StepView::Ready(next)),
            )
        },
{
}

/// A winner's tokens serve those who come after: once a refresh has reused them, or a
/// refusal has spared them, they are what the next caller is given while they last.
pub proof fn law_reused_tokens_serve_the_next_caller(
    pre: ManagerView,
    snapshot: AuthView,
    status: u16,
    seen: LoadView,
    when: nat,
    cleared: WriteView,
    found: LoadView,
    now: nat,
    loaded: LoadView,
    later: nat,
)
    ensures
        refresh_step(pre, snapshot, seen, when) matches (post, Ok(StepView::Reuse(auth)))
            ==> auth.expires > now + 300_000 ==> get_step(post, found, now, loaded, later) == (
            post,
            Ok::<_, ErrorView>(StepView::Ready(auth)),
        ),
        status_step(pre, snapshot, status, seen, when, cleared) matches (
            post,
            Ok(StatusView::Ready(auth)),
        ) ==> auth.expires > now + 300_000 ==> get_step(post, found, now, loaded, later) == (
            post,
            Ok::<_, ErrorView>(StepView::Ready(auth)),
        ),
{
}

/// A cached token put in place by hand is served while it outlives the moment by more than
/// five minutes; with the cache emptied, the store decides.
pub proof fn law_cache_by_hand(
    pre: ManagerView,
    auth: AuthView,
    found: LoadView,
    now: nat,
    loaded: LoadView,
    later: nat,
)
    requires
        auth.expires > now + 300_000,
    ensures
        get_step(after(pre, Operation::SetCached(auth)), found, now, loaded, later).1 == Ok::<
            _,
            ErrorView,
        >(StepView::Ready(auth)),
        get_step(
            after(pre, Operation::ResetCache),
            LoadView::Ok(Some(auth)),
            now,
            loaded,
            later,
        ).1 == Ok::<_, ErrorView>(StepView::Ready(auth)),
        get_step(after(pre, Operation::ResetCache), LoadView::Ok(None), now, loaded, later).1
            == Err::<StepView, _>(ErrorView::NotAuthenticated),
        after(pre, Operation::SetCached(auth)).history == pre.history,
        after(pre, Operation::SetCached(auth)).flight == pre.flight,
        after(pre, Operation::ResetCache).history == pre.history,
        after(pre, Operation::ResetCache).flight == pre.flight,
{
}

/// The reports that end a flight without anything to show for it, and the break of one,
/// touch the flight alone.
pub proof fn law_ends_of_a_flight(pre: ManagerView)
    ensures
        ({
            let ended = ManagerView {
                cached: pre.cached,
                flight: if pre.flight == Flight::InFlight {
                    Flight::Idle
                } else {
                    pre.flight
                },
                endpoint: pre.endpoint,
                initial: pre.initial,
                history: pre.history,
            };
            let broken = ManagerView {
                cached: pre.cached,
                flight: if pre.flight == Flight::InFlight {
                    Flight::Poisoned
                } else {
                    pre.flight
                },
                endpoint: pre.endpoint,
                initial: pre.initial,
                history: pre.history,
            };
            &&& pre.landed() == ended
            &&& after(pre, Operation::Failure) == ended
            &&& after(pre, Operation::Denial) == ended
            &&& after(pre, Operation::Poison) == broken
        }),
{
}

/// While a request flies and its end has not been reported, nobody who asks for a token has
/// another one sent. A caller whose token at hand is stale is told to wait with it, unless
/// the flight has broken off in between, and only then is anybody told that it has.
pub proof fn law_callers_during_a_flight(start: ManagerView, ops: Seq<Operation>, i: nat, j: nat)
    requires
        i < j < ops.len(),
        sends(state_at(start, ops, i), ops[i as int]),
        forall|k: int| i < k < j ==> !#[trigger] lands_at(start, ops, k),
    ensures
        ({
            let st = state_at(start, ops, j);
            &&& st.flight == Flight::InFlight || st.flight == Flight::Poisoned
            &&& !sends(st, ops[j as int])
            &&& told(st, ops[j as int]) matches Some(r) ==> {
                &&& !(r matches Ok(StepView::Reuse(_)))
                &&& r == Err::<StepView, _>(ErrorView::FlightPoisoned) ==> st.flight
                    == Flight::Poisoned
            }
            &&& ops[j as int] matches Operation::Refresh { snapshot, .. } ==> st.flight
                == Flight::InFlight ==> told(st, ops[j as int]) == Some(
                Ok::<_, ErrorView>(StepView::Wait(snapshot)),
            )
            &&& ops[j as int] matches Operation::Get { found, now, .. } ==> st.flight
                == Flight::InFlight ==> {
                &&& st.cached matches Some(auth) ==> auth.expires <= now + 300_000 ==> told(
                    st,
                    ops[j as int],
                ) == Some(Ok::<_, ErrorView>(StepView::Wait(auth)))
                &&& st.cached is None ==> (found matches Ok(Some(auth)) ==> auth.expires <= now
                    + 300_000 ==> told(st, ops[j as int]) == Some(
                    Ok::<_, ErrorView>(StepView::Wait(auth)),
                ))
            }
        }),
{
    assert(state_at(start, ops, i + 1) == after(state_at(start, ops, i), ops[i as int]));
    lemma_flight_lasts(start, ops, i + 1, j);
}

/// A caller whose token is stale during a flight is told to wait. If the flight is granted,
/// and the caller comes back to a store that returns the new tokens, it is given these, as
/// long as they differ from its own and outlive the moment by more than five minutes.
pub proof fn law_waiting_callers_get_the_winners_tokens(
    pre: ManagerView,
    stale: AuthView,
    current: AuthView,
    tokens: TokenView,
    found: LoadView,
    asked: nat,
    loaded: LoadView,
    later: nat,
    granted: nat,
    saved: WriteView,
    now: nat,
)
    requires
        pre.flight == Flight::InFlight,
        pre.cached == Some(stale),
        stale.expires <= asked + 300_000,
    ensures
        get_step(pre, found, asked, loaded, later) == (
            pre,
            Ok::<_, ErrorView>(StepView::Wait(stale)),
        ),
        tokens_step(pre, current, Ok(tokens), granted, saved) matches (post, Ok(next)) ==> ((
        next.access != stale.access || next.refresh != stale.refresh) && next.expires > now
            + 300_000 ==> refresh_step(post, stale, LoadView::Ok(Some(next)), now).1 == Ok::<
            _,
            ErrorView,
        >(StepView::Reuse(next))),
{
}

/// How long a login or a granted refresh serves follows from the granted seconds alone: the
/// new token is handed out for as long as more than five minutes of them are left, and after
/// that no more.
pub proof fn law_granted_lifetime_is_served(
    pre: ManagerView,
    tokens: TokenView,
    fallback: Option<Seq<char>>,
    granted: nat,
    saved: WriteView,
    elapsed: nat,
    found: LoadView,
    loaded: LoadView,
    later: nat,
)
    ensures
        adopt_step(pre, tokens, fallback, granted, saved) matches (post, Ok(next)) ==> {
            let left = (if tokens.expires_in is Some {
                tokens.expires_in->0 as int
            } else {
                3600
            }) * 1000 - elapsed;
            left > 300_000 <==> (get_step(post, found, granted + elapsed, loaded, later).1 matches
                Ok(StepView::Ready(_)))
        },
{
}

/// Stored tokens are reused in place of the snapshot exactly when one of the two strings
/// differs and they outlive the moment by more than five minutes. Otherwise they are what is
/// refreshed, and an empty store leaves the snapshot to refresh.
pub proof fn law_recheck(latest: AuthView, snapshot: AuthView, now: nat)
    ensures
        recheck_of(None, snapshot, now) == RecheckView::Refresh(snapshot),
        recheck_of(Some(latest), snapshot, now) == RecheckView::Reuse(latest) <==> {
            &&& latest.access != snapshot.access || latest.refresh != snapshot.refresh
            &&& latest.expires > now + 300_000
        },
        recheck_of(Some(latest), snapshot, now) == RecheckView::Refresh(latest) <==> {
            ||| latest.access == snapshot.access && latest.refresh == snapshot.refresh
            ||| latest.expires <= now + 300_000
        },
{
}

/// Stored tokens survive a refusal exactly when one of the two strings differs from the
/// refused ones and they expire after the moment, however soon or late.
pub proof fn law_survivor(latest: AuthView, current: AuthView, now: nat)
    ensures
        survivor_of(None, current, now) is None,
        survivor_of(Some(latest), current, now) == Some(latest) <==> {
            &&& latest.access != current.access || latest.refresh != current.refresh
            &&& latest.expires > now
        },
        survivor_of(Some(latest), current, now) is None <==> {
            ||| latest.access == current.access && latest.refresh == current.refresh
            ||| latest.expires <= now
        },
{
}

/// 401 and 403 refuse, 200 to 299 grant, and no other status does either.
pub proof fn law_status_classes(status: u16)
    ensures
        status_class_of(status) == StatusClass::Unauthorized <==> status == 401 || status == 403,
        status_class_of(status) == StatusClass::Success <==> 200 <= status <= 299,
{
}

/// A lifetime counts in seconds and an expiry in milliseconds: a second more lasts a thousand
/// milliseconds longer, a moment later ends a moment later, no lifetime ends at once, and
/// an unnamed one lasts an hour.
pub proof fn law_expiry(seconds: u64, now: nat, wait: nat)
    ensures
        expiry_of(Some(seconds), now) == now + seconds * 1000,
        expiry_of(Some(seconds), now + wait) == expiry_of(Some(seconds), now) + wait,
        seconds < 18_446_744_073_709_551_615 ==> expiry_of(Some((seconds + 1) as u64), now)
            == expiry_of(Some(seconds), now) + 1000,
        expiry_of(None, now) == expiry_of(Some(3600u64), now),
        expiry_of(None, now) == now + 3_600_000,
{
}

/// The credentials made of granted tokens carry over both strings and, where they are
/// given, the account of the tokens rather than the fallback.
pub proof fn law_granted_credentials(
    tokens: TokenView,
    fallback: Option<Seq<char>>,
    now: nat,
)
    ensures
        granted_auth(tokens, fallback, now).access == tokens.access_token,
        granted_auth(tokens, fallback, now).refresh == tokens.refresh_token,
        granted_auth(tokens, fallback, now).expires == now + (if tokens.expires_in is Some {
            tokens.expires_in->0 as int
        } else {
            3600
        }) * 1000,
        tokens.account_id is Some ==> granted_auth(tokens, fallback, now).account_id
            == tokens.account_id,
        tokens.account_id is None ==> granted_auth(tokens, fallback, now).account_id == fallback,
{
}

/// A request goes to the given endpoint and carries three fields, the last of them the
/// refresh token: different refresh tokens make different requests.
pub proof fn law_request(endpoint: Seq<char>, refresh: Seq<char>, other: Seq<char>)
    ensures
        refresh_request(endpoint, refresh).endpoint == endpoint,
        refresh_request(endpoint, refresh).form.len() == 3,
        refresh_request(endpoint, refresh).form[0] == ("client_id"@, "app_EMoamEEZ73f0CkXaXp7hrann"@),
        refresh_request(endpoint, refresh).form[1] == ("grant_type"@, "refresh_token"@),
        refresh_request(endpoint, refresh).form[2] == ("refresh_token"@, refresh),
        refresh != other ==> refresh_request(endpoint, refresh) != refresh_request(endpoint, other),
{
    assert(refresh_request(endpoint, refresh).form[2] == ("refresh_token"@, refresh));
    assert(refresh_request(endpoint, other).form[2] == ("refresh_token"@, other));
}

/// The number that a digit string stands for.
pub open spec fn number(digits: Seq<char>) -> int
    decreases digits.len(),
{
    if digits.len() == 0 {
        0
    } else {
        number(digits.drop_last()) * 10 + (digits.last() as int - 48)
    }
}

/// The decimal notation of a number reads as that number, is made of the digits 0 to 9, and
/// begins with a zero only where it is zero.
pub proof fn law_decimal_notation(n: nat)
    ensures
        number(decimal(n)) == n,
        decimal(n).len() > 0,
        forall|i: int| 0 <= i < decimal(n).len() ==> '0' <= #[trigger] decimal(n)[i] <= '9',
        n > 0 ==> decimal(n)[0] != '0',
        n == 0 ==> decimal(n).len() == 1,
    decreases n,
{
    if n < 10 {
        let s = seq![digit(n)];
        assert(decimal(n) =~= s);
        assert(s.drop_last() =~= Seq::<char>::empty());
        assert(number(s.drop_last()) == 0);
        assert(s.last() == digit(n));
    } else {
        law_decimal_notation(n / 10);
        let s = decimal(n / 10).push(digit(n % 10));
        assert(decimal(n) =~= s);
        assert(s.drop_last() =~= decimal(n / 10));
        assert(s.last() == digit(n % 10));
        assert forall|i: int| 0 <= i < s.len() implies '0' <= #[trigger] s[i] <= '9' by {
            if i < s.len() - 1 {
                assert(s[i] == decimal(n / 10)[i]);
            }
        }
        assert(s[0] == decimal(n / 10)[0]);
    }
}

/// What the user is told.
pub proof fn law_messages(program: Seq<char>, text: Seq<char>, status: u16)
    ensures
        ErrorView::NotAuthenticated.message(program) == "Not authenticated. Run: "@ + program
            + " codex auth login"@,
        ErrorView::NoRefreshToken.message(program) == "No refresh token stored; re-authenticate"@,
        ErrorView::FlightPoisoned.message(program) == "poisoned lock: another task failed inside"@,
        ErrorView::Network(text).message(program) == "refresh network error: "@ + text,
        ErrorView::Unauthorized(Some(text)).message(program) == text,
        ErrorView::Unauthorized(None).message(program) == "Token refresh unauthorized"@,
        ErrorView::RefreshFailed(status).message(program).take(22) == "Token refresh failed: "@,
        number(ErrorView::RefreshFailed(status).message(program).skip(22)) == status,
        ErrorView::MalformedResponse(text).message(program)
            == "failed to parse token response: "@ + text,
        ErrorView::InvalidTokens(text).message(program) == text,
        ErrorView::ExpiryOutOfRange.message(program) == "token lifetime out of range"@,
        ErrorView::Store(text).message(program) == text,
{
    reveal_strlit("Token refresh failed: ");
    law_decimal_notation(status as nat);
    let message = ErrorView::RefreshFailed(status).message(program);
    assert(message.take(22) =~= "Token refresh failed: "@);
    assert(message.skip(22) =~= decimal(status as nat));
}

/// The clock is read in whole milliseconds, rounded down, and as zero before the epoch. So
/// a reading lies within a millisecond of the time shown, and later times never read
/// earlier, as long as 64 bits can hold them.
pub proof fn law_clock_readings(t: SystemTime, u: SystemTime, elapsed: u128)
    ensures
        nanos_since_epoch(t) < 0 ==> reading_of(t) == 0,
        0 <= nanos_since_epoch(t) < 18_446_744_073_709_551_616 * 1_000_000 ==> reading_of(t)
            * 1_000_000 <= nanos_since_epoch(t) < (reading_of(t) + 1) * 1_000_000,
        nanos_since_epoch(t) <= nanos_since_epoch(u) < 18_446_744_073_709_551_616 * 1_000_000
            ==> reading_of(t) <= reading_of(u),
        reading_of(t) <= 18_446_744_073_709_551_615,
        elapsed <= 18_446_744_073_709_551_615 ==> epoch_millis_of(Some(elapsed)) == elapsed,
        epoch_millis_of(Some(elapsed)) == elapsed % 18_446_744_073_709_551_616,
        epoch_millis_of(None) == 0,
{
}

/// The views leave nothing out: what a contract says of a view, it says of the value.
pub proof fn law_views(
    auth: StoredAuth,
    tokens: TokenResponse,
    request: TokenRequest,
    error: AuthError,
    i: int,
)
    ensures
        auth@.access == auth.access@,
        auth@.refresh == auth.refresh@,
        auth@.expires == auth.expires,
        auth.account_id matches Some(id) ==> auth@.account_id == Some(id@),
        auth.account_id is None ==> auth@.account_id is None,
        tokens@.access_token == tokens.access_token@,
        tokens@.refresh_token == tokens.refresh_token@,
        tokens@.expires_in == tokens.expires_in,
        tokens.account_id matches Some(id) ==> tokens@.account_id == Some(id@),
        tokens.account_id is None ==> tokens@.account_id is None,
        tokens.defect matches Some(defect) ==> tokens@.defect == Some(defect@),
        tokens.defect is None ==> tokens@.defect is None,
        request@.endpoint == request.endpoint@,
        request@.form.len() == request.form@.len(),
        0 <= i < request.form@.len() ==> request@.form[i] == (
            request.form@[i].0@,
            request.form@[i].1@,
        ),
        match error {
            AuthError::NotAuthenticated => error@ == ErrorView::NotAuthenticated,
            AuthError::NoRefreshToken => error@ == ErrorView::NoRefreshToken,
            AuthError::FlightPoisoned => error@ == ErrorView::FlightPoisoned,
            AuthError::Network(e) => error@ == ErrorView::Network(e@),
            AuthError::Unauthorized(Some(e)) => error@ == ErrorView::Unauthorized(Some(e@)),
            AuthError::Unauthorized(None) => error@ == ErrorView::Unauthorized(None),
            AuthError::RefreshFailed(status) => error@ == ErrorView::RefreshFailed(status),
            AuthError::MalformedResponse(e) => error@ == ErrorView::MalformedResponse(e@),
            AuthError::InvalidTokens(e) => error@ == ErrorView::InvalidTokens(e@),
            AuthError::ExpiryOutOfRange => error@ == ErrorView::ExpiryOutOfRange,
            AuthError::Store(e) => error@ == ErrorView::Store(e@),
        },
{
}

/// The outcomes of the manager are told apart by their views, and credentials are handed out
/// by exactly the two steps that hold them.
pub proof fn law_outcomes(
    auth: StoredAuth,
    error: AuthError,
    step: Result<AuthStep, AuthError>,
    status: Result<StatusStep, AuthError>,
)
    ensures
        outcome(Ok::<StoredAuth, _>(auth)) == Ok::<_, ErrorView>(auth@),
        outcome(Err::<StoredAuth, _>(error)) == Err::<AuthView, _>(error@),
        match step {
            Ok(AuthStep::Ready(a)) => outcome(step) == Ok::<_, ErrorView>(StepView::Ready(a@))
                && step->Ok_0@.served() == Some(a@),
            Ok(AuthStep::Reuse(a)) => outcome(step) == Ok::<_, ErrorView>(StepView::Reuse(a@))
                && step->Ok_0@.served() == Some(a@),
            Ok(AuthStep::Wait(a)) => outcome(step) == Ok::<_, ErrorView>(StepView::Wait(a@))
                && step->Ok_0@.served() is None,
            Ok(AuthStep::Send(p)) => outcome(step) == Ok::<_, ErrorView>(
                StepView::Send { current: p.current(), request: p.wanted() },
            ) && step->Ok_0@.served() is None,
            Err(e) => outcome(step) == Err::<StepView, _>(e@),
        },
        match status {
            Ok(StatusStep::Ready(a)) => outcome(status) == Ok::<_, ErrorView>(
                StatusView::Ready(a@),
            ),
            Ok(StatusStep::ReadDenial(p)) => outcome(status) == Ok::<_, ErrorView>(
                StatusView::ReadDenial(p.status()),
            ),
            Ok(StatusStep::ReadTokens(p)) => outcome(status) == Ok::<_, ErrorView>(
                StatusView::ReadTokens(p.current()),
            ),
            Err(e) => outcome(status) == Err::<StatusView, _>(e@),
        },
{
}

/// What came from outside is neither dropped nor changed on its way into a contract, and a
/// faithful store is one that returns what it holds and takes what it is given.
pub proof fn law_what_comes_from_outside(
    auth: StoredAuth,
    e: StoreError,
    tokens: TokenResponse,
    cause: String,
    pre: ManagerView,
    loaded: LoadView,
    written: WriteView,
)
    ensures
        load_view(Ok(Some(auth))) == LoadView::Ok(Some(auth@)),
        load_view::<StoredAuth>(Ok(None)) == LoadView::Ok(None),
        load_view::<StoredAuth>(Err(e)) == LoadView::Err(e.message@),
        write_view(Ok(())) is Ok,
        write_view(Err(e)) == WriteView::Err(e.message@),
        body_view(Ok(tokens)) == Ok::<_, Seq<char>>(tokens@),
        body_view(Err(cause)) == Err::<TokenView, _>(cause@),
        auth_view(Some(auth)) == Some(auth@),
        auth_view(None) is None,
        text_view(Some(cause)) == Some(cause@),
        text_view(None) is None,
        read_from(true, pre, loaded) <==> loaded == LoadView::Ok(held(pre.initial, pre.history)),
        written_to(true, written) <==> written is Ok,
{
}

/// What a record says that a store holds: at first what it held before, then what was last
/// saved, and nothing once it has been cleared. Reads and failed writes leave it alone.
pub proof fn law_store_records(
    initial: Option<AuthView>,
    history: Seq<StoreEvent<AuthView>>,
    auth: AuthView,
    loaded: LoadView,
    e: Seq<char>,
)
    ensures
        held(initial, Seq::<StoreEvent<AuthView>>::empty()) == initial,
        held(initial, history.push(StoreEvent::Saved(auth, WriteView::Ok(())))) == Some(auth),
        held(initial, history.push(StoreEvent::Cleared(WriteView::Ok(())))) is None,
        held(initial, history.push(StoreEvent::Loaded(loaded))) == held(initial, history),
        held(initial, history.push(StoreEvent::Saved(auth, WriteView::Err(e)))) == held(
            initial,
            history,
        ),
        held(initial, history.push(StoreEvent::Cleared(WriteView::Err(e)))) == held(
            initial,
            history,
        ),
{
    lemma_held_push(initial, history, StoreEvent::Saved(auth, WriteView::Ok(())));
    lemma_held_push(initial, history, StoreEvent::Cleared(WriteView::Ok(())));
    lemma_held_push(initial, history, StoreEvent::Loaded(loaded));
    lemma_held_push(initial, history, StoreEvent::Saved(auth, WriteView::Err(e)));
    lemma_held_push(initial, history, StoreEvent::Cleared(WriteView::Err(e)));
}

/// A store in memory is faithful, and what it holds is what it keeps.
pub proof fn law_memory_store_is_faithful(store: InMemoryAuthStore<StoredAuth>)
    ensures
        store.faithful(),
        store.contents() == store.kept(),
{
}

} // verus!
