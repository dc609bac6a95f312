//! What holds of the manager as a whole.

use vstd::prelude::*;

use crate::error::ErrorView;
use crate::model::{
    Flight, LoadView, ManagerView, StatusView, StepView, WriteView, adopt_step, get_step,
    refresh_request, refresh_step, status_step, tokens_step,
};
use crate::rules::{StatusClass, identity_changed, is_fresh, is_live, status_class_of};
use crate::storage::{StoreEvent, held, sole_writer};
use crate::token_store::AuthView;
use crate::tokens::{TokenView, expiry_fits, granted_auth};

verus! {

/// Two credential sets are told apart by their token strings alone: whatever the expiry
/// and the account become, the answer stays the same.
pub proof fn law_identity_ignores_expiry_and_account(
    latest: AuthView,
    snapshot: AuthView,
    expires: nat,
    account_id: Option<Seq<char>>,
)
    ensures
        identity_changed(AuthView { expires, account_id, ..latest }, snapshot) == identity_changed(
            latest,
            snapshot,
        ),
        identity_changed(latest, AuthView { expires, account_id, ..snapshot }) == identity_changed(
            latest,
            snapshot,
        ),
        !identity_changed(AuthView { expires, account_id, ..snapshot }, snapshot),
{
}

/// A fresh cached token is served without touching the store, whether or not a refresh
/// is under way.
pub proof fn law_fresh_cache_is_served(
    pre: ManagerView,
    auth: AuthView,
    found: LoadView,
    now: nat,
    loaded: LoadView,
    later: nat,
)
    requires
        pre.cached == Some(auth),
        is_fresh(auth, now),
    ensures
        get_step(pre, found, now, loaded, later) == (pre, Ok::<_, ErrorView>(StepView::Ready(auth))),
{
}

/// What is served when a token is asked for is fresh by one of the clock readings made,
/// and is what the cache holds afterwards.
pub proof fn law_served_tokens_are_fresh_and_cached(
    pre: ManagerView,
    found: LoadView,
    now: nat,
    loaded: LoadView,
    later: nat,
)
    ensures
        get_step(pre, found, now, loaded, later) matches (post, Ok(step)) ==> (step.served() matches
            Some(auth) ==> {
            &&& is_fresh(auth, now) || is_fresh(auth, later)
            &&& post.cached == Some(auth)
        }),
{
}

/// The user is told to log in exactly when nothing is cached and the store is empty.
pub proof fn law_login_is_asked_for_without_credentials(
    pre: ManagerView,
    found: LoadView,
    now: nat,
    loaded: LoadView,
    later: nat,
)
    ensures
        get_step(pre, found, now, loaded, later).1 == Err::<StepView, _>(
            ErrorView::NotAuthenticated,
        ) <==> pre.cached is None && found == Ok::<Option<AuthView>, Seq<char>>(None),
{
}

/// A refresh of credentials that the store still holds, or of any when the store is
/// empty, never ends in serving a token at once, however late the token expires: it
/// posts the refresh token, and fails only where there is none.
pub proof fn law_refresh_never_trusts_expiry_alone(
    pre: ManagerView,
    snapshot: AuthView,
    latest: Option<AuthView>,
    now: nat,
)
    requires
        pre.flight == Flight::Idle,
        latest matches Some(auth) ==> !identity_changed(auth, snapshot),
    ensures
        snapshot.refresh.len() == 0 ==> refresh_step(pre, snapshot, Ok(latest), now).1 == Err::<
            StepView,
            _,
        >(ErrorView::NoRefreshToken),
        snapshot.refresh.len() > 0 ==> refresh_step(pre, snapshot, Ok(latest), now).1 == Ok::<
            _,
            ErrorView,
        >(
            StepView::Send {
                current: match latest {
                    Some(auth) => auth,
                    None => snapshot,
                },
                request: refresh_request(pre.endpoint, snapshot.refresh),
            },
        ),
{
}

/// Fresh tokens that replaced the snapshot in the store are served by a refresh after a
/// single read: no request is made and nothing is written.
pub proof fn law_rotated_tokens_are_reused(
    pre: ManagerView,
    snapshot: AuthView,
    latest: AuthView,
    now: nat,
)
    requires
        pre.flight == Flight::Idle,
        identity_changed(latest, snapshot),
        is_fresh(latest, now),
    ensures
        refresh_step(pre, snapshot, Ok(Some(latest)), now) == (
            pre.with_event(StoreEvent::Loaded(Ok(Some(latest)))).with_cached(Some(latest)),
            Ok::<_, ErrorView>(StepView::Reuse(latest)),
        ),
{
}

/// A caller whose cached token has gone stale is given the fresh tokens that replaced it
/// in the store, after a single read and without a request.
pub proof fn law_stale_cache_yields_to_rotated_tokens(
    pre: ManagerView,
    stale: AuthView,
    latest: AuthView,
    found: LoadView,
    now: nat,
    later: nat,
)
    requires
        pre.flight == Flight::Idle,
        pre.cached == Some(stale),
        !is_fresh(stale, now),
        identity_changed(latest, stale),
        is_fresh(latest, later),
    ensures
        get_step(pre, found, now, Ok(Some(latest)), later) == (
            pre.with_event(StoreEvent::Loaded(Ok(Some(latest)))).with_cached(Some(latest)),
            Ok::<_, ErrorView>(StepView::Reuse(latest)),
        ),
{
}

/// A request posts the refresh token that the store holds, or the snapshot's when the
/// store is empty; it is never an empty one.
pub proof fn law_request_posts_the_latest_refresh_token(
    pre: ManagerView,
    snapshot: AuthView,
    loaded: LoadView,
    now: nat,
)
    ensures
        refresh_step(pre, snapshot, loaded, now).1 matches Ok(StepView::Send { current, request })
            ==> {
            &&& loaded matches Ok(latest)
            &&& current == (match latest {
                Some(auth) => auth,
                None => snapshot,
            })
            &&& request == refresh_request(pre.endpoint, current.refresh)
            &&& current.refresh.len() > 0
        },
{
}

/// While a refresh is under way, another one waits and leaves everything as it is; once a
/// flight has broken off, none begins.
pub proof fn law_no_refresh_beside_another(
    pre: ManagerView,
    snapshot: AuthView,
    loaded: LoadView,
    now: nat,
)
    ensures
        pre.flight == Flight::InFlight ==> refresh_step(pre, snapshot, loaded, now) == (
            pre,
            Ok::<_, ErrorView>(StepView::Wait(snapshot)),
        ),
        pre.flight == Flight::Poisoned ==> refresh_step(pre, snapshot, loaded, now) == (
            pre,
            Err::<StepView, _>(ErrorView::FlightPoisoned),
        ),
{
}

/// A refused refresh never destroys live tokens that somebody else has rotated in: they
/// are served, and the only thing done to the store is reading it.
pub proof fn law_refusal_spares_rotated_tokens(
    pre: ManagerView,
    current: AuthView,
    status: u16,
    latest: AuthView,
    now: nat,
    cleared: WriteView,
)
    requires
        status == 401 || status == 403,
        identity_changed(latest, current),
        is_live(latest, now),
    ensures
        status_step(pre, current, status, Ok(Some(latest)), now, cleared) == (
            pre.with_event(StoreEvent::Loaded(Ok(Some(latest)))).with_cached(
                Some(latest),
            ).landed(),
            Ok::<_, ErrorView>(StatusView::Ready(latest)),
        ),
{
}

/// Every flight ends once its outcome is reported: at the failure to send, at the status
/// unless a body is still to be read, and otherwise at the body.
pub proof fn law_reports_end_the_flight(
    pre: ManagerView,
    current: AuthView,
    status: u16,
    body: Result<TokenView, Seq<char>>,
    loaded: LoadView,
    now: nat,
    cleared: WriteView,
    saved: WriteView,
)
    requires
        pre.flight == Flight::InFlight,
    ensures
        pre.landed().flight == Flight::Idle,
        match status_step(pre, current, status, loaded, now, cleared) {
            (post, Ok(StatusView::ReadDenial(_))) => post.flight == Flight::InFlight,
            (post, Ok(StatusView::ReadTokens(_))) => post.flight == Flight::InFlight,
            (post, _) => post.flight == Flight::Idle,
        },
        tokens_step(pre, current, body, now, saved).0.flight == Flight::Idle,
{
}

/// A refresh that comes to nothing leaves the cache as it was and writes nothing to the
/// store, whether it fails before the request (the store cannot be read, there is no
/// refresh token), gets no answer, is answered with a status that neither grants nor
/// refuses, or is granted a body that cannot be decoded or used.
pub proof fn law_failed_refresh_changes_nothing(
    pre: ManagerView,
    snapshot: AuthView,
    current: AuthView,
    status: u16,
    body: Result<TokenView, Seq<char>>,
    loaded: LoadView,
    now: nat,
    cleared: WriteView,
    saved: WriteView,
)
    ensures
        refresh_step(pre, snapshot, loaded, now) matches (post, Err(_)) ==> post == pre || post
            == pre.with_event(StoreEvent::Loaded(loaded)),
        pre.landed().cached == pre.cached && pre.landed().history == pre.history,
        status_class_of(status) == StatusClass::Failed ==> status_step(
            pre,
            current,
            status,
            loaded,
            now,
            cleared,
        ) == (pre.landed(), Err::<StatusView, _>(ErrorView::RefreshFailed(status))),
        (body matches Ok(tokens) ==> tokens.defect is Some || !expiry_fits(tokens.expires_in, now))
            ==> {
            &&& tokens_step(pre, current, body, now, saved).0 == pre.landed()
            &&& tokens_step(pre, current, body, now, saved).1 is Err
        },
{
}

/// A granted refresh saves the new tokens first and caches them only once they are
/// saved; the account carries over where the new tokens name none.
pub proof fn law_granted_tokens_are_saved_then_cached(
    pre: ManagerView,
    current: AuthView,
    body: Result<TokenView, Seq<char>>,
    now: nat,
    saved: WriteView,
)
    ensures
        tokens_step(pre, current, body, now, saved) matches (post, Ok(next)) ==> {
            &&& body matches Ok(tokens)
            &&& next == granted_auth(tokens, current.account_id, now)
            &&& saved is Ok
            &&& post == pre.with_event(StoreEvent::Saved(next, saved)).with_cached(
                Some(next),
            ).landed()
        },
        tokens_step(pre, current, body, now, saved) matches (post, Err(_)) ==> post.cached
            == pre.cached,
{
}

/// Since `before`, the store, which then held `content`, has been read without failure and
/// written by nobody but the manager: each read gave back what the last write left.
pub open spec fn undisturbed(
    before: ManagerView,
    after: ManagerView,
    content: Option<AuthView>,
) -> bool {
    sole_writer(content, after.history.skip(before.history.len() as int))
}

/// A prefix of a sole writer's history is one.
pub(crate) proof fn lemma_prefix_sole_writer(
    initial: Option<AuthView>,
    history: Seq<StoreEvent<AuthView>>,
    prefix: Seq<StoreEvent<AuthView>>,
)
    requires
        sole_writer(initial, history),
        prefix.len() <= history.len(),
        prefix =~= history.take(prefix.len() as int),
    ensures
        sole_writer(initial, prefix),
    decreases history.len(),
{
    if prefix.len() == history.len() {
        assert(prefix =~= history);
    } else {
        assert(prefix =~= history.drop_last().take(prefix.len() as int));
        lemma_prefix_sole_writer(initial, history.drop_last(), prefix);
    }
}

/// A sole writer's record can be split anywhere: the rest is a sole writer's record over
/// what the store held at the split, and ends with the store holding the same.
proof fn lemma_split_sole_writer(
    initial: Option<AuthView>,
    history: Seq<StoreEvent<AuthView>>,
    k: int,
)
    requires
        0 <= k <= history.len(),
        sole_writer(initial, history),
    ensures
        sole_writer(held(initial, history.take(k)), history.skip(k)),
        held(held(initial, history.take(k)), history.skip(k)) == held(initial, history),
    decreases history.len(),
{
    if k == history.len() {
        assert(history.take(k) =~= history);
    } else {
        let rest = history.skip(k);
        lemma_split_sole_writer(initial, history.drop_last(), k);
        assert(history.drop_last().take(k) =~= history.take(k));
        assert(history.drop_last().skip(k) =~= rest.drop_last());
        assert(rest.last() == history.last());
    }
}

/// Over a faithful store, which keeps a sole writer's record, everything between two states
/// of a manager is undisturbed.
pub proof fn law_faithful_stores_are_undisturbed(before: ManagerView, after: ManagerView)
    requires
        sole_writer(after.initial, after.history),
        before.initial == after.initial,
        before.history.len() <= after.history.len(),
        before.history =~= after.history.take(before.history.len() as int),
    ensures
        undisturbed(before, after, before.contents()),
{
    lemma_split_sole_writer(after.initial, after.history, before.history.len() as int);
}

/// `auth` is what the cache holds and, by what was asked of the store since `before`, what
/// the store holds.
pub open spec fn agreed(
    before: ManagerView,
    after: ManagerView,
    content: Option<AuthView>,
    auth: AuthView,
) -> bool {
    &&& after.cached == Some(auth)
    &&& held(content, after.history.skip(before.history.len() as int)) == Some(auth)
}

/// Whenever a refresh succeeds, the result, the cache and an undisturbed store agree, and
/// the result has not expired at the clock reading made: by reuse, by reuse after a
/// refusal, and by a rotation (whose tokens may have been granted no time at all).
pub proof fn law_successful_refresh_agrees_with_cache_and_store(
    pre: ManagerView,
    snapshot: AuthView,
    current: AuthView,
    status: u16,
    body: Result<TokenView, Seq<char>>,
    content: Option<AuthView>,
    loaded: LoadView,
    now: nat,
    cleared: WriteView,
    saved: WriteView,
)
    ensures
        refresh_step(pre, snapshot, loaded, now) matches (post, Ok(step)) ==> (step.served() matches
            Some(auth) ==> {
            &&& undisturbed(pre, post, content) ==> agreed(pre, post, content, auth)
            &&& is_fresh(auth, now)
        }),
        status_step(pre, current, status, loaded, now, cleared) matches (
            post,
            Ok(StatusView::Ready(auth)),
        ) ==> {
            &&& undisturbed(pre, post, content) ==> agreed(pre, post, content, auth)
            &&& is_live(auth, now)
        },
        tokens_step(pre, current, body, now, saved) matches (post, Ok(auth)) ==> {
            &&& agreed(pre, post, content, auth)
            &&& auth.expires >= now
        },
{
    let k = pre.history.len() as int;
    let none = Seq::<StoreEvent<AuthView>>::empty();
    let read = none.push(StoreEvent::Loaded(loaded));
    assert(read.drop_last() =~= none);
    assert(pre.history.push(StoreEvent::Loaded(loaded)).skip(k) =~= read);
    if let (post, Ok(auth)) = tokens_step(pre, current, body, now, saved) {
        assert(post.history.skip(k).last() == StoreEvent::Saved(auth, saved));
    }
}

/// Without a cache, the first read of an undisturbed store gives back what it holds.
proof fn lemma_lookup_finds_content(
    before: ManagerView,
    pre: ManagerView,
    content: Option<AuthView>,
    found: LoadView,
    now: nat,
    loaded: LoadView,
    later: nat,
)
    requires
        pre.cached is None,
        before.history.len() <= pre.history.len(),
        undisturbed(before, get_step(pre, found, now, loaded, later).0, content),
    ensures
        found == Ok::<Option<AuthView>, Seq<char>>(
            held(content, pre.history.skip(before.history.len() as int)),
        ),
{
    let post = get_step(pre, found, now, loaded, later).0;
    let k = before.history.len() as int;
    let read = pre.history.skip(k).push(StoreEvent::Loaded(found));
    assert(read.drop_last() =~= pre.history.skip(k));
    lemma_prefix_sole_writer(content, post.history.skip(k), read);
}

/// What a login or a refresh has saved is what is served later, from the store alone,
/// for as long as it is fresh and the store is undisturbed.
pub proof fn law_saved_tokens_are_served(
    pre: ManagerView,
    tokens: TokenView,
    fallback: Option<Seq<char>>,
    granted: nat,
    content: Option<AuthView>,
    found: LoadView,
    now: nat,
    loaded: LoadView,
    later: nat,
)
    requires
        tokens.defect is None,
        expiry_fits(tokens.expires_in, granted),
        is_fresh(granted_auth(tokens, fallback, granted), now),
        ({
            let reset = adopt_step(pre, tokens, fallback, granted, Ok(())).0.with_cached(None);
            undisturbed(pre, get_step(reset, found, now, loaded, later).0, content)
        }),
    ensures
        ({
            let reset = adopt_step(pre, tokens, fallback, granted, Ok(())).0.with_cached(None);
            get_step(reset, found, now, loaded, later).1 == Ok::<_, ErrorView>(
                StepView::Ready(granted_auth(tokens, fallback, granted)),
            )
        }),
{
    let reset = adopt_step(pre, tokens, fallback, granted, Ok(())).0.with_cached(None);
    let next = granted_auth(tokens, fallback, granted);
    lemma_lookup_finds_content(pre, reset, content, found, now, loaded, later);
    assert(reset.history.skip(pre.history.len() as int).last() == StoreEvent::Saved(
        next,
        Ok::<(), Seq<char>>(()),
    ));
}

/// After a refusal that cleared the store, the user has to log in again, unless somebody
/// else has written to the store since.
pub proof fn law_refused_user_logs_in_again(
    pre: ManagerView,
    current: AuthView,
    status: u16,
    seen: LoadView,
    when: nat,
    content: Option<AuthView>,
    found: LoadView,
    now: nat,
    loaded: LoadView,
    later: nat,
)
    requires
        status_step(pre, current, status, seen, when, Ok(())).1 matches Ok(
            StatusView::ReadDenial(_),
        ),
        ({
            let refused = status_step(pre, current, status, seen, when, Ok(())).0.landed();
            undisturbed(
                pre.with_event(StoreEvent::Loaded(seen)),
                get_step(refused, found, now, loaded, later).0,
                content,
            )
        }),
    ensures
        ({
            let refused = status_step(pre, current, status, seen, when, Ok(())).0.landed();
            get_step(refused, found, now, loaded, later).1 == Err::<StepView, _>(
                ErrorView::NotAuthenticated,
            )
        }),
{
    let refused = status_step(pre, current, status, seen, when, Ok(())).0.landed();
    let read = pre.with_event(StoreEvent::Loaded(seen));
    lemma_lookup_finds_content(read, refused, content, found, now, loaded, later);
    assert(refused.history.skip(read.history.len() as int).last() == StoreEvent::<
        AuthView,
    >::Cleared(Ok(())));
}

} // verus!
