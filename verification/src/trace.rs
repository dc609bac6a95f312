//! Runs of a manager: any number of callers, interleaved in any order.

use vstd::prelude::*;

use crate::error::ErrorView;
use crate::laws::{lemma_prefix_sole_writer, undisturbed};
use crate::model::{
    Flight, LoadView, ManagerView, StepView, WriteView, adopt_step, get_step, refresh_step,
    status_step, tokens_step,
};
use crate::rules::{identity_changed, is_fresh, is_live};
use crate::storage::{StoreEvent, held};
use crate::token_store::AuthView;
use crate::tokens::{TokenView, expiry_fits, granted_auth};

verus! {

/// One call of the manager by one of its callers, with what reached it from outside.
pub enum Operation {
    Get { found: LoadView, now: nat, loaded: LoadView, later: nat },
    Refresh { snapshot: AuthView, loaded: LoadView, now: nat },
    Failure,
    Status { current: AuthView, status: u16, loaded: LoadView, now: nat, cleared: WriteView },
    Denial,
    Tokens { current: AuthView, body: Result<TokenView, Seq<char>>, now: nat, saved: WriteView },
    Persist { tokens: TokenView, now: nat, saved: WriteView },
    Poison,
    SetCached(AuthView),
    ResetCache,
    /// A caller uses the manager's store directly, for these operations.
    Store(Seq<StoreEvent<AuthView>>),
}

/// What a call that asks for credentials is told; other calls are told nothing here.
pub open spec fn told(pre: ManagerView, op: Operation) -> Option<Result<StepView, ErrorView>> {
    match op {
        Operation::Get { found, now, loaded, later } => Some(
            get_step(pre, found, now, loaded, later).1,
        ),
        Operation::Refresh { snapshot, loaded, now } => Some(
            refresh_step(pre, snapshot, loaded, now).1,
        ),
        _ => None,
    }
}

/// The state after a call.
pub open spec fn after(pre: ManagerView, op: Operation) -> ManagerView {
    match op {
        Operation::Get { found, now, loaded, later } => get_step(pre, found, now, loaded, later).0,
        Operation::Refresh { snapshot, loaded, now } => refresh_step(pre, snapshot, loaded, now).0,
        Operation::Failure => pre.landed(),
        Operation::Status { current, status, loaded, now, cleared } => status_step(
            pre,
            current,
            status,
            loaded,
            now,
            cleared,
        ).0,
        Operation::Denial => pre.landed(),
        Operation::Tokens { current, body, now, saved } => tokens_step(
            pre,
            current,
            body,
            now,
            saved,
        ).0,
        Operation::Persist { tokens, now, saved } => adopt_step(pre, tokens, None, now, saved).0,
        Operation::Poison => if pre.flight == Flight::InFlight {
            pre.with_flight(Flight::Poisoned)
        } else {
            pre
        },
        Operation::SetCached(auth) => pre.with_cached(Some(auth)),
        Operation::ResetCache => pre.with_cached(None),
        Operation::Store(events) => ManagerView { history: pre.history + events, ..pre },
    }
}

/// The state after the first `n` calls.
pub open spec fn state_at(start: ManagerView, ops: Seq<Operation>, n: nat) -> ManagerView
    decreases n,
{
    if n == 0 {
        start
    } else {
        after(state_at(start, ops, (n - 1) as nat), ops[n - 1])
    }
}

/// The call has its caller send a token request.
pub open spec fn sends(pre: ManagerView, op: Operation) -> bool {
    told(pre, op) matches Some(Ok(StepView::Send { .. }))
}

/// The call reports the end of the flight that is under way.
pub open spec fn lands(pre: ManagerView, op: Operation) -> bool {
    &&& op is Failure || op is Status || op is Denial || op is Tokens
    &&& pre.flight == Flight::InFlight
    &&& after(pre, op).flight == Flight::Idle
}

/// The `k`-th call of the run lands a flight.
pub open spec fn lands_at(start: ManagerView, ops: Seq<Operation>, k: int) -> bool {
    lands(state_at(start, ops, k as nat), ops[k])
}

/// A flight that no call has landed is not over.
pub(crate) proof fn lemma_flight_lasts(start: ManagerView, ops: Seq<Operation>, i: nat, j: nat)
    requires
        i <= j <= ops.len(),
        state_at(start, ops, i).flight != Flight::Idle,
        forall|k: int| i <= k < j ==> !#[trigger] lands_at(start, ops, k),
    ensures
        state_at(start, ops, j).flight != Flight::Idle,
    decreases j - i,
{
    if i < j {
        let k = (j - 1) as nat;
        lemma_flight_lasts(start, ops, i, k);
        assert(!lands_at(start, ops, k as int));
    }
}

/// Whatever the callers do and in whatever order, two token requests never fly at the
/// same time: between any two of them the first one's end is reported.
pub proof fn law_single_flight(start: ManagerView, ops: Seq<Operation>, i: nat, j: nat)
    requires
        i < j < ops.len(),
        sends(state_at(start, ops, i), ops[i as int]),
        sends(state_at(start, ops, j), ops[j as int]),
    ensures
        exists|k: int| i < k < j && #[trigger] lands_at(start, ops, k),
{
    if forall|k: int| i < k < j ==> !#[trigger] lands_at(start, ops, k) {
        assert(state_at(start, ops, i + 1) == after(state_at(start, ops, i), ops[i as int]));
        lemma_flight_lasts(start, ops, i + 1, j);
    }
}

/// A refresh never looks at the store beside another: until the end of the first one's
/// request is reported, a second refresh reads nothing and changes nothing, and is told to
/// wait, or that the flight has broken off.
pub proof fn law_refreshes_are_serialized(start: ManagerView, ops: Seq<Operation>, i: nat, j: nat)
    requires
        i < j < ops.len(),
        sends(state_at(start, ops, i), ops[i as int]),
        ops[j as int] is Refresh,
        forall|k: int| i < k < j ==> !#[trigger] lands_at(start, ops, k),
    ensures
        state_at(start, ops, j + 1) == state_at(start, ops, j),
        told(state_at(start, ops, j), ops[j as int]) matches Some(r) && (r matches Ok(
            StepView::Wait(_),
        ) || r == Err::<StepView, _>(ErrorView::FlightPoisoned)),
{
    assert(state_at(start, ops, i + 1) == after(state_at(start, ops, i), ops[i as int]));
    lemma_flight_lasts(start, ops, i + 1, j);
    assert(state_at(start, ops, j + 1) == after(state_at(start, ops, j), ops[j as int]));
}

/// Whatever a caller does with the store of a manager directly is a [`Operation::Store`], as
/// long as it is the same store: its record has grown, and nothing else has changed.
pub proof fn law_direct_use_of_the_store(pre: ManagerView, history: Seq<StoreEvent<AuthView>>)
    requires
        pre.history.len() <= history.len(),
        pre.history =~= history.take(pre.history.len() as int),
    ensures
        after(pre, Operation::Store(history.skip(pre.history.len() as int))) == (ManagerView {
            history,
            ..pre
        }),
{
    assert(pre.history + history.skip(pre.history.len() as int) =~= history);
}

/// The call puts an event into the store's record for which `kind` holds.
pub open spec fn records(
    pre: ManagerView,
    op: Operation,
    kind: spec_fn(StoreEvent<AuthView>) -> bool,
) -> bool {
    exists|k: int|
        pre.history.len() <= k < after(pre, op).history.len() && kind(
            #[trigger] after(pre, op).history[k],
        )
}

/// The manager clears the store in one case only: a refresh is refused, and the store is
/// not found to hold live tokens that somebody else has rotated in. The cache is then
/// empty as well.
pub proof fn law_only_a_refusal_clears_the_store(pre: ManagerView, op: Operation)
    requires
        !(op is Store),
    ensures
        records(pre, op, |e: StoreEvent<AuthView>| e is Cleared) <==> {
            &&& op matches Operation::Status { current, status, loaded, now, .. }
            &&& status == 401 || status == 403
            &&& !(loaded matches Ok(Some(latest)) && identity_changed(latest, current) && is_live(
                latest,
                now,
            ))
        },
        records(pre, op, |e: StoreEvent<AuthView>| e is Cleared) ==> after(pre, op).cached is None,
{
    let cleared = |e: StoreEvent<AuthView>| e is Cleared;
    let post = after(pre, op);
    if op is Status && post.history.len() == pre.history.len() + 2 {
        assert(cleared(post.history[pre.history.len() as int + 1]));
    }
}

/// The manager writes to the store only what the endpoint has granted: tokens that pass
/// validation, with the expiry and the account that they amount to.
pub proof fn law_only_granted_tokens_are_saved(pre: ManagerView, op: Operation, auth: AuthView)
    requires
        !(op is Store),
        records(pre, op, |e: StoreEvent<AuthView>| e matches StoreEvent::Saved(a, _) && a == auth),
    ensures
        match op {
            Operation::Tokens { current, body: Ok(tokens), now, .. } => {
                &&& tokens.defect is None
                &&& auth == granted_auth(tokens, current.account_id, now)
            },
            Operation::Persist { tokens, now, .. } => {
                &&& tokens.defect is None
                &&& auth == granted_auth(tokens, None, now)
            },
            _ => false,
        },
{
}

/// The record of what was asked of the store only ever grows.
proof fn lemma_history_grows(start: ManagerView, ops: Seq<Operation>, i: nat, j: nat)
    requires
        i <= j <= ops.len(),
    ensures
        state_at(start, ops, i).history.len() <= state_at(start, ops, j).history.len(),
        state_at(start, ops, i).history =~= state_at(start, ops, j).history.take(
            state_at(start, ops, i).history.len() as int,
        ),
    decreases j - i,
{
    if i < j {
        lemma_history_grows(start, ops, i, (j - 1) as nat);
    }
}

/// A call that `next`, fresh tokens that replaced the caller's, can answer: a refresh of
/// other tokens, or a plain request for credentials. The cache may be emptied in between.
pub open spec fn answered_by(next: AuthView, op: Operation) -> bool {
    match op {
        Operation::Get { now, .. } => is_fresh(next, now),
        Operation::Refresh { snapshot, now, .. } => identity_changed(next, snapshot) && is_fresh(
            next,
            now,
        ),
        Operation::ResetCache => true,
        _ => false,
    }
}

/// No refresh is under way, the cache is empty or holds `next`, and since `before` the
/// store has come to hold `next`.
spec fn settled(
    before: ManagerView,
    content: Option<AuthView>,
    st: ManagerView,
    next: AuthView,
) -> bool {
    &&& st.flight == Flight::Idle
    &&& st.cached == None::<AuthView> || st.cached == Some(next)
    &&& before.history.len() <= st.history.len()
    &&& held(content, st.history.skip(before.history.len() as int)) == Some(next)
}

/// A settled manager answers with `next` and stays settled.
proof fn lemma_settled_step(
    before: ManagerView,
    content: Option<AuthView>,
    st: ManagerView,
    op: Operation,
    next: AuthView,
)
    requires
        settled(before, content, st, next),
        answered_by(next, op),
        undisturbed(before, after(st, op), content),
    ensures
        settled(before, content, after(st, op), next),
        told(st, op) matches Some(r) ==> (r matches Ok(step) && step.served() == Some(next)),
        !records(st, op, |e: StoreEvent<AuthView>| !(e is Loaded)),
{
    let k = before.history.len() as int;
    let seen = st.history.skip(k);
    let post = after(st, op).history.skip(k);
    match op {
        Operation::Get { found, now, loaded, later } => {
            if st.cached is None {
                let read = seen.push(StoreEvent::Loaded(found));
                assert(read.drop_last() =~= seen);
                assert(read =~= post.take(read.len() as int));
                lemma_prefix_sole_writer(content, post, read);
                assert(post =~= read);
            }
        },
        Operation::Refresh { snapshot, loaded, now } => {
            let read = seen.push(StoreEvent::Loaded(loaded));
            assert(read.drop_last() =~= seen);
            assert(post =~= read);
        },
        _ => {},
    }
}

/// A settled manager stays settled through calls that `next` answers.
proof fn lemma_stays_settled(
    before: ManagerView,
    content: Option<AuthView>,
    start: ManagerView,
    ops: Seq<Operation>,
    next: AuthView,
    n: nat,
)
    requires
        settled(before, content, start, next),
        n <= ops.len(),
        forall|i: int| 0 <= i < ops.len() ==> answered_by(next, #[trigger] ops[i]),
        undisturbed(before, state_at(start, ops, n), content),
    ensures
        settled(before, content, state_at(start, ops, n), next),
    decreases n,
{
    if n > 0 {
        let m = (n - 1) as nat;
        lemma_earlier_undisturbed(before, content, start, ops, m, n);
        lemma_stays_settled(before, content, start, ops, next, m);
        lemma_settled_step(before, content, state_at(start, ops, m), ops[m as int], next);
    }
}

/// What is undisturbed late in a run was undisturbed earlier.
proof fn lemma_earlier_undisturbed(
    before: ManagerView,
    content: Option<AuthView>,
    start: ManagerView,
    ops: Seq<Operation>,
    i: nat,
    j: nat,
)
    requires
        i <= j <= ops.len(),
        before.history.len() <= start.history.len(),
        undisturbed(before, state_at(start, ops, j), content),
    ensures
        undisturbed(before, state_at(start, ops, i), content),
{
    lemma_history_grows(start, ops, 0, i);
    lemma_history_grows(start, ops, i, j);
    let k = before.history.len() as int;
    lemma_prefix_sole_writer(
        content,
        state_at(start, ops, j).history.skip(k),
        state_at(start, ops, i).history.skip(k),
    );
}

/// One granted refresh serves everybody: while its tokens are fresh and the store is
/// undisturbed, every caller that comes with other tokens, or with none, is given the
/// new ones. Nobody sends another request, nothing is saved or cleared, and the store goes
/// on holding the new tokens.
pub proof fn law_one_rotation_serves_all(
    pre: ManagerView,
    current: AuthView,
    tokens: TokenView,
    granted: nat,
    content: Option<AuthView>,
    ops: Seq<Operation>,
    i: nat,
)
    requires
        pre.flight == Flight::InFlight,
        tokens.defect is None,
        expiry_fits(tokens.expires_in, granted),
        ({
            let next = granted_auth(tokens, current.account_id, granted);
            forall|k: int| 0 <= k < ops.len() ==> answered_by(next, #[trigger] ops[k])
        }),
        ({
            let start = tokens_step(pre, current, Ok(tokens), granted, Ok(())).0;
            undisturbed(pre, state_at(start, ops, ops.len()), content)
        }),
        i < ops.len(),
    ensures
        ({
            let next = granted_auth(tokens, current.account_id, granted);
            let start = tokens_step(pre, current, Ok(tokens), granted, Ok(())).0;
            let st = state_at(start, ops, i);
            &&& told(st, ops[i as int]) matches Some(r) ==> (r matches Ok(step) && step.served()
                == Some(next))
            &&& !sends(st, ops[i as int])
            &&& !records(st, ops[i as int], |e: StoreEvent<AuthView>| !(e is Loaded))
            &&& held(
                content,
                state_at(start, ops, i + 1).history.skip(pre.history.len() as int),
            ) == Some(next)
        }),
{
    let next = granted_auth(tokens, current.account_id, granted);
    let start = tokens_step(pre, current, Ok(tokens), granted, Ok(())).0;
    assert(start.history.skip(pre.history.len() as int).last() == StoreEvent::Saved(
        next,
        Ok::<(), Seq<char>>(()),
    ));
    assert(settled(pre, content, start, next));
    lemma_earlier_undisturbed(pre, content, start, ops, i, ops.len());
    lemma_earlier_undisturbed(pre, content, start, ops, i + 1, ops.len());
    lemma_stays_settled(pre, content, start, ops, next, i);
    let st = state_at(start, ops, i);
    assert(state_at(start, ops, i + 1) == after(st, ops[i as int]));
    lemma_settled_step(pre, content, st, ops[i as int], next);
}

} // verus!
