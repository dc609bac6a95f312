//! The token manager.

use std::time::SystemTime;

use vstd::prelude::*;
use vstd::string::StringExecFns;

use crate::clock::{epoch_millis, reading_of, since_epoch, system_time, whole_millis};
use crate::constants::{CLIENT_ID, ISSUER, TOKEN_PATH};
use crate::error::{AuthError, ErrorView};
use crate::model::{
    Flight, LoadView, ManagerView, RequestView, StatusView, StepView, WriteView, adopt_step,
    get_step, lookup_step, recheck_step, refresh_request, refresh_step, status_step, tokens_step,
};
use crate::rules::{Recheck, StatusClass, auth_view, classify_status, fresh_at, recheck, survivor};
use crate::storage::{AuthStorage, load_view, write_view};
use crate::token_store::{AuthView, CodexTokenStore, StoredAuth, text_view};
use crate::tokens::{TokenResponse, TokenView, auth_from_tokens, expires_at};
use crate::trace::{Operation, after, told};

verus! {

/// A form to be posted to the token endpoint.
#[derive(Debug, PartialEq, Eq)]
pub struct TokenRequest {
    pub endpoint: String,
    pub form: Vec<(String, String)>,
}

impl View for TokenRequest {
    type V = RequestView;

    open spec fn view(&self) -> RequestView {
        RequestView {
            endpoint: self.endpoint@,
            form: self.form@.map_values(|field: (String, String)| (field.0@, field.1@)),
        }
    }
}

/// A refresh whose request is to be sent.
#[derive(Debug)]
pub struct PendingRefresh {
    current: StoredAuth,
    request: TokenRequest,
}

impl PendingRefresh {
    /// The credentials that are being refreshed.
    pub closed spec fn current(&self) -> AuthView {
        self.current@
    }

    /// The request that refreshes them.
    pub closed spec fn wanted(&self) -> RequestView {
        self.request@
    }

    /// The request to send.
    pub fn request(&self) -> (request: &TokenRequest)
        ensures
            request@ == self.wanted(),
    {
        &self.request
    }
}

/// A refresh that was granted and whose tokens are to be read.
#[derive(Debug)]
pub struct PendingTokens {
    current: StoredAuth,
}

impl PendingTokens {
    /// The credentials that are being refreshed.
    pub closed spec fn current(&self) -> AuthView {
        self.current@
    }
}

/// A refresh that was refused and whose text is to be read.
#[derive(Debug)]
pub struct PendingDenial {
    status: u16,
}

impl PendingDenial {
    /// The status of the refusal.
    pub closed spec fn status(&self) -> u16 {
        self.status
    }
}

/// What to do next about a token that was asked for.
#[derive(Debug)]
pub enum AuthStep {
    /// Use these credentials, which were at hand.
    Ready(StoredAuth),
    /// Use these credentials, which somebody else has rotated in.
    Reuse(StoredAuth),
    /// Another refresh is under way: wait until it has ended, and then call
    /// [`CodexAuthManager::force_refresh`] with this snapshot.
    Wait(StoredAuth),
    /// Send the request and report what comes of it.
    Send(PendingRefresh),
}

impl View for AuthStep {
    type V = StepView;

    open spec fn view(&self) -> StepView {
        match self {
            AuthStep::Ready(auth) => StepView::Ready(auth@),
            AuthStep::Reuse(auth) => StepView::Reuse(auth@),
            AuthStep::Wait(snapshot) => StepView::Wait(snapshot@),
            AuthStep::Send(pending) => StepView::Send {
                current: pending.current(),
                request: pending.wanted(),
            },
        }
    }
}

impl AuthStep {
    /// The credentials, if they are there already.
    pub fn ready(self) -> (auth: Option<StoredAuth>)
        ensures
            auth_view(auth) == self@.served(),
    {
        match self {
            AuthStep::Ready(auth) => Some(auth),
            AuthStep::Reuse(auth) => Some(auth),
            _ => None,
        }
    }
}

/// What to do next about a refresh whose status is known.
#[derive(Debug)]
pub enum StatusStep {
    /// Use these credentials.
    Ready(StoredAuth),
    /// Read the text of the refusal and pass it to [`CodexAuthManager::receive_denial`].
    ReadDenial(PendingDenial),
    /// Read the tokens and pass them to [`CodexAuthManager::receive_tokens`].
    ReadTokens(PendingTokens),
}

impl View for StatusStep {
    type V = StatusView;

    open spec fn view(&self) -> StatusView {
        match self {
            StatusStep::Ready(auth) => StatusView::Ready(auth@),
            StatusStep::ReadDenial(pending) => StatusView::ReadDenial(pending.status()),
            StatusStep::ReadTokens(pending) => StatusView::ReadTokens(pending.current()),
        }
    }
}

/// A result of the manager in terms of views.
pub open spec fn outcome<T: View>(r: Result<T, AuthError>) -> Result<T::V, ErrorView> {
    match r {
        Ok(value) => Ok(value@),
        Err(e) => Err(e@),
    }
}

/// A decoded body, or why it could not be decoded, in terms of views.
pub open spec fn body_view(body: Result<TokenResponse, String>) -> Result<TokenView, Seq<char>> {
    match body {
        Ok(tokens) => Ok(tokens@),
        Err(e) => Err(e@),
    }
}

/// What a store returned to a load, or would have: a faithful one returns what it holds.
pub open spec fn read_from(faithful: bool, pre: ManagerView, loaded: LoadView) -> bool {
    faithful ==> loaded == LoadView::Ok(pre.contents())
}

/// What a store returned to a write, or would have: a faithful one does as it is told.
pub open spec fn written_to(faithful: bool, written: WriteView) -> bool {
    faithful ==> written is Ok
}

/// Serves Codex credentials from a cache, from a store, or by way of a refresh.
///
/// The refresh token is single-use: it is replaced by every refresh. Two refreshes
/// with the same token would have the second one refused, so the manager lets one
/// refresh fly at a time and has the others wait for its outcome.
pub struct CodexAuthManager<S: AuthStorage<StoredAuth>> {
    pub store: CodexTokenStore<S>,
    cached: Option<StoredAuth>,
    refresh_flight: Flight,
    token_endpoint: String,
}

impl<S: AuthStorage<StoredAuth>> View for CodexAuthManager<S> {
    type V = ManagerView;

    open spec fn view(&self) -> ManagerView {
        ManagerView {
            cached: self.cached(),
            flight: self.flight(),
            endpoint: self.endpoint(),
            initial: self.token_store().initial(),
            history: self.token_store().history(),
        }
    }
}

fn token_request(endpoint: &String, refresh: &String) -> (request: TokenRequest)
    ensures
        request@ == refresh_request(endpoint@, refresh@),
{
    let mut form: Vec<(String, String)> = Vec::new();
    form.push(("client_id".to_owned(), CLIENT_ID.to_owned()));
    form.push(("grant_type".to_owned(), "refresh_token".to_owned()));
    form.push(("refresh_token".to_owned(), refresh.clone()));
    let request = TokenRequest { endpoint: endpoint.clone(), form };
    assert(request@ =~= refresh_request(endpoint@, refresh@));
    request
}

impl<S: AuthStorage<StoredAuth>> CodexAuthManager<S> {
    /// The store underneath.
    pub closed spec fn token_store(&self) -> CodexTokenStore<S> {
        self.store
    }

    /// Whether the store is faithful: it gives back what was saved, and nobody else writes.
    pub open spec fn faithful(&self) -> bool {
        self.token_store().faithful()
    }

    /// The cached credentials.
    pub closed spec fn cached(&self) -> Option<AuthView> {
        auth_view(self.cached)
    }

    /// Whether a refresh is under way.
    pub closed spec fn flight(&self) -> Flight {
        self.refresh_flight
    }

    /// Where token requests go.
    pub closed spec fn endpoint(&self) -> Seq<char> {
        self.token_endpoint@
    }

    /// A manager over `store` that refreshes at the issuer's token endpoint.
    pub fn new(store: CodexTokenStore<S>) -> (manager: Self)
        ensures
            manager@ == (ManagerView {
                cached: None,
                flight: Flight::Idle,
                endpoint: ISSUER@ + TOKEN_PATH@,
                initial: store.initial(),
                history: store.history(),
            }),
            manager@.endpoint == "https://auth.openai.com/oauth/token"@,
            manager.token_store() == store,
    {
        let mut endpoint = ISSUER.to_owned();
        endpoint.append(TOKEN_PATH);
        proof {
            reveal_strlit("https://auth.openai.com");
            reveal_strlit("/oauth/token");
            reveal_strlit("https://auth.openai.com/oauth/token");
            assert(endpoint@ =~= "https://auth.openai.com/oauth/token"@);
        }
        Self::with_token_endpoint(store, endpoint)
    }

    /// A manager over `store` that refreshes at `token_endpoint`.
    pub fn with_token_endpoint(store: CodexTokenStore<S>, token_endpoint: String) -> (manager: Self)
        ensures
            manager@ == (ManagerView {
                cached: None,
                flight: Flight::Idle,
                endpoint: token_endpoint@,
                initial: store.initial(),
                history: store.history(),
            }),
            manager.token_store() == store,
    {
        CodexAuthManager { store, cached: None, refresh_flight: Flight::Idle, token_endpoint }
    }

    /// Milliseconds since the Unix epoch, by the clock as it stands during the call.
    fn now_ms() -> (now: u64)
        ensures
            exists|t: SystemTime| now == #[trigger] reading_of(t),
    {
        let t = system_time();
        let elapsed: Option<u128> = match since_epoch(t) {
            Ok(d) => Some(whole_millis(&d)),
            Err(_) => None,
        };
        let now = epoch_millis(elapsed);
        assert(now == reading_of(t));
        now
    }

    /// The credentials at hand: the cached ones, or else the stored ones.
    fn lookup(&mut self) -> (r: Result<StoredAuth, AuthError>)
        ensures
            exists|found: LoadView|
                {
                    &&& #[trigger] lookup_step(old(self)@, found) == (final(self)@, outcome(r))
                    &&& read_from(old(self).faithful(), old(self)@, found)
                },
            r matches Ok(auth) ==> final(self)@.cached == Some(auth@),
            final(self)@.flight == old(self)@.flight,
            final(self)@.contents() == old(self)@.contents(),
            old(self).faithful() ==> final(self).faithful(),
    {
        let ghost pre = self@;
        if let Some(auth) = &self.cached {
            let auth = auth.clone();
            assert(lookup_step(pre, Ok(pre.contents())) == (
                self@,
                Ok::<AuthView, ErrorView>(auth@),
            ));
            return Ok(auth);
        }
        let loaded = self.store.load_auth();
        let ghost found = load_view(loaded);
        let r = match loaded {
            Ok(Some(auth)) => {
                self.cached = Some(auth.clone());
                Ok(auth)
            },
            Ok(None) => Err(AuthError::NotAuthenticated),
            Err(e) => Err(AuthError::Store(e.message)),
        };
        assert(lookup_step(pre, found) == (self@, outcome(r)));
        r
    }

    /// Goes on with a flight for `snapshot`, the store having returned `latest` and the
    /// clock `now`. The flight ends here unless a request is to be sent.
    fn begin_flight(
        &mut self,
        snapshot: &StoredAuth,
        latest: Option<StoredAuth>,
        now: u64,
    ) -> (r: Result<AuthStep, AuthError>)
        requires
            old(self)@.flight == Flight::InFlight,
        ensures
            recheck_step(old(self)@.landed(), snapshot@, auth_view(latest), now as nat) == (
                final(self)@,
                outcome(r),
            ),
            final(self).token_store() == old(self).token_store(),
    {
        match recheck(latest, snapshot, now) {
            Recheck::Reuse(auth) => {
                self.cached = Some(auth.clone());
                self.land();
                Ok(AuthStep::Reuse(auth))
            },
            Recheck::Refresh(current) => {
                if current.refresh.as_str().is_empty() {
                    self.land();
                    return Err(AuthError::NoRefreshToken);
                }
                let request = token_request(&self.token_endpoint, &current.refresh);
                Ok(AuthStep::Send(PendingRefresh { current, request }))
            },
        }
    }

    /// Asks for a refresh of `snapshot`.
    fn refresh_now(&mut self, snapshot: &StoredAuth) -> (r: Result<AuthStep, AuthError>)
        ensures
            exists|loaded: LoadView, t: SystemTime|
                {
                    &&& #[trigger] refresh_step(old(self)@, snapshot@, loaded, reading_of(t)) == (
                        final(self)@,
                        outcome(r),
                    )
                    &&& read_from(old(self).faithful(), old(self)@, loaded)
                },
            final(self)@.contents() == old(self)@.contents(),
            old(self).faithful() ==> final(self).faithful(),
    {
        let ghost pre = self@;
        let ghost unread: LoadView = Ok(pre.contents());
        let ghost t0: SystemTime = arbitrary();
        match self.refresh_flight {
            Flight::Idle => {},
            Flight::InFlight => {
                let r = Ok(AuthStep::Wait(snapshot.clone()));
                assert(refresh_step(pre, snapshot@, unread, reading_of(t0)) == (self@, outcome(r)));
                return r;
            },
            Flight::Poisoned => {
                let r = Err(AuthError::FlightPoisoned);
                assert(refresh_step(pre, snapshot@, unread, reading_of(t0)) == (self@, outcome(r)));
                return r;
            },
        }
        // The flight is on from here, so that a storage that panics breaks it off.
        self.refresh_flight = Flight::InFlight;
        let loaded = self.store.load_auth();
        let ghost seen = load_view(loaded);
        match loaded {
            Ok(latest) => {
                let now = Self::now_ms();
                let ghost t = choose|t: SystemTime| now == #[trigger] reading_of(t);
                let r = self.begin_flight(snapshot, latest, now);
                assert(refresh_step(pre, snapshot@, seen, reading_of(t)) == (self@, outcome(r)));
                r
            },
            Err(e) => {
                self.land();
                let r = Err(AuthError::Store(e.message));
                assert(refresh_step(pre, snapshot@, seen, reading_of(t0)) == (self@, outcome(r)));
                r
            },
        }
    }

    /// Asks for credentials: those at hand if they are fresh, or else a refresh of them.
    pub fn get_auth(&mut self) -> (r: Result<AuthStep, AuthError>)
        ensures
            exists|found: LoadView, t: SystemTime, loaded: LoadView, later: SystemTime|
                {
                    &&& #[trigger] get_step(
                        old(self)@,
                        found,
                        reading_of(t),
                        loaded,
                        reading_of(later),
                    ) == (final(self)@, outcome(r))
                    &&& read_from(old(self).faithful(), old(self)@, found)
                    &&& read_from(old(self).faithful(), old(self)@, loaded)
                },
            final(self)@.contents() == old(self)@.contents(),
            old(self).faithful() ==> final(self).faithful(),
            exists|op: Operation|
                {
                    &&& op is Get
                    &&& #[trigger] after(old(self)@, op) == final(self)@
                    &&& told(old(self)@, op) == Some(outcome(r))
                },
            match r {
                Ok(AuthStep::Ready(auth)) => {
                    &&& final(self)@.cached == Some(auth@)
                    &&& final(self)@.flight == old(self)@.flight
                    &&& exists|t: SystemTime| auth.expires > #[trigger] reading_of(t) + 300_000
                },
                Ok(AuthStep::Reuse(auth)) => {
                    &&& old(self)@.flight == Flight::Idle
                    &&& final(self)@.cached == Some(auth@)
                    &&& final(self)@.flight == Flight::Idle
                    &&& exists|t: SystemTime| auth.expires > #[trigger] reading_of(t) + 300_000
                },
                Ok(AuthStep::Wait(auth)) => {
                    &&& old(self)@.flight == Flight::InFlight
                    &&& final(self)@.cached == Some(auth@)
                    &&& final(self)@.flight == Flight::InFlight
                    &&& exists|t: SystemTime| auth.expires <= #[trigger] reading_of(t) + 300_000
                },
                Ok(AuthStep::Send(pending)) => {
                    &&& old(self)@.flight == Flight::Idle
                    &&& final(self)@.flight == Flight::InFlight
                    &&& pending.current().refresh.len() > 0
                },
                Err(e) => {
                    &&& final(self)@.flight == old(self)@.flight
                    &&& e is FlightPoisoned ==> old(self)@.flight == Flight::Poisoned
                    &&& e is NoRefreshToken ==> old(self)@.flight == Flight::Idle
                    &&& e is NotAuthenticated ==> old(self)@.cached is None
                },
            },
    {
        let ghost pre = self@;
        let ghost unread: LoadView = Ok(pre.contents());
        let ghost t0: SystemTime = arbitrary();
        let at_hand = self.lookup();
        let ghost found = choose|found: LoadView|
            {
                &&& #[trigger] lookup_step(pre, found) == (self@, outcome(at_hand))
                &&& read_from(old(self).faithful(), pre, found)
            };
        let ghost mid = self@;
        match at_hand {
            Ok(auth) => {
                let now = Self::now_ms();
                let ghost t = choose|t: SystemTime| now == #[trigger] reading_of(t);
                if fresh_at(&auth, now) {
                    let r = Ok(AuthStep::Ready(auth));
                    assert(get_step(pre, found, reading_of(t), unread, reading_of(t0)) == (
                        self@,
                        outcome(r),
                    ));
                    assert(after(
                        pre,
                        Operation::Get {
                            found,
                            now: reading_of(t),
                            loaded: unread,
                            later: reading_of(t0),
                        },
                    ) == self@);
                    r
                } else {
                    let ghost faithful = self.faithful();
                    let r = self.refresh_now(&auth);
                    proof {
                        let (loaded, later) = choose|loaded: LoadView, later: SystemTime|
                            {
                                &&& #[trigger] refresh_step(mid, auth@, loaded, reading_of(later))
                                    == (self@, outcome(r))
                                &&& read_from(faithful, mid, loaded)
                            };
                        assert(get_step(pre, found, reading_of(t), loaded, reading_of(later)) == (
                            self@,
                            outcome(r),
                        ));
                        assert(after(
                            pre,
                            Operation::Get {
                                found,
                                now: reading_of(t),
                                loaded,
                                later: reading_of(later),
                            },
                        ) == self@);
                    }
                    r
                }
            },
            Err(e) => {
                let r = Err(e);
                assert(get_step(pre, found, reading_of(t0), unread, reading_of(t0)) == (
                    self@,
                    outcome(r),
                ));
                assert(after(
                    pre,
                    Operation::Get {
                        found,
                        now: reading_of(t0),
                        loaded: unread,
                        later: reading_of(t0),
                    },
                ) == self@);
                r
            },
        }
    }

    /// Asks for a refresh of credentials that the server has rejected, however long they
    /// would still be valid.
    pub fn force_refresh(&mut self, rejected: &StoredAuth) -> (r: Result<AuthStep, AuthError>)
        ensures
            exists|loaded: LoadView, t: SystemTime|
                {
                    &&& #[trigger] refresh_step(old(self)@, rejected@, loaded, reading_of(t)) == (
                        final(self)@,
                        outcome(r),
                    )
                    &&& read_from(old(self).faithful(), old(self)@, loaded)
                },
            final(self)@.contents() == old(self)@.contents(),
            old(self).faithful() ==> final(self).faithful(),
            exists|op: Operation|
                {
                    &&& op is Refresh && op->snapshot == rejected@
                    &&& #[trigger] after(old(self)@, op) == final(self)@
                    &&& told(old(self)@, op) == Some(outcome(r))
                },
            match r {
                Ok(AuthStep::Ready(_)) => false,
                Ok(AuthStep::Reuse(auth)) => {
                    &&& old(self)@.flight == Flight::Idle
                    &&& auth.access@ != rejected.access@ || auth.refresh@ != rejected.refresh@
                    &&& final(self)@.cached == Some(auth@)
                    &&& final(self)@.flight == Flight::Idle
                    &&& exists|t: SystemTime| auth.expires > #[trigger] reading_of(t) + 300_000
                },
                Ok(AuthStep::Wait(snapshot)) => {
                    &&& old(self)@.flight == Flight::InFlight
                    &&& snapshot@ == rejected@
                    &&& final(self)@ == old(self)@
                },
                Ok(AuthStep::Send(pending)) => {
                    &&& old(self)@.flight == Flight::Idle
                    &&& pending.current().refresh.len() > 0
                    &&& final(self)@.flight == Flight::InFlight
                    &&& final(self)@.cached == old(self)@.cached
                },
                Err(e) => {
                    &&& e is FlightPoisoned <==> old(self)@.flight == Flight::Poisoned
                    &&& e is NoRefreshToken || e is Store ==> old(self)@.flight == Flight::Idle
                    &&& final(self)@.flight == old(self)@.flight
                    &&& final(self)@.cached == old(self)@.cached
                },
            },
    {
        let ghost pre = self@;
        let r = self.refresh_now(rejected);
        proof {
            let (loaded, t) = choose|loaded: LoadView, t: SystemTime|
                {
                    &&& #[trigger] refresh_step(pre, rejected@, loaded, reading_of(t)) == (
                        self@,
                        outcome(r),
                    )
                    &&& read_from(old(self).faithful(), pre, loaded)
                };
            assert(after(
                pre,
                Operation::Refresh { snapshot: rejected@, loaded, now: reading_of(t) },
            ) == self@);
        }
        r
    }

    /// Ends the flight under way.
    fn land(&mut self)
        ensures
            final(self)@ == old(self)@.landed(),
            final(self).token_store() == old(self).token_store(),
    {
        match self.refresh_flight {
            Flight::InFlight => {
                self.refresh_flight = Flight::Idle;
            },
            _ => {},
        }
    }

    /// The request got no answer, for the given reason.
    pub fn receive_failure(&mut self, _pending: PendingRefresh, cause: String) -> (e: AuthError)
        ensures
            final(self)@ == old(self)@.landed(),
            final(self)@ == after(old(self)@, Operation::Failure),
            final(self).token_store() == old(self).token_store(),
            e@ == ErrorView::Network(cause@),
    {
        self.land();
        AuthError::Network(cause)
    }

    /// The request was answered with `status`.
    pub fn receive_status(&mut self, pending: PendingRefresh, status: u16) -> (r: Result<
        StatusStep,
        AuthError,
    >)
        ensures
            exists|loaded: LoadView, t: SystemTime, cleared: WriteView|
                {
                    &&& #[trigger] status_step(
                        old(self)@,
                        pending.current(),
                        status,
                        loaded,
                        reading_of(t),
                        cleared,
                    ) == (final(self)@, outcome(r))
                    &&& read_from(old(self).faithful(), old(self)@, loaded)
                    &&& written_to(old(self).faithful(), cleared)
                },
            old(self).faithful() ==> {
                &&& final(self).faithful()
                &&& final(self)@.contents() == (match r {
                    Ok(StatusStep::ReadDenial(_)) => None,
                    _ => old(self)@.contents(),
                })
            },
            exists|op: Operation|
                {
                    &&& op is Status && op->Status_current == pending.current() && op->status
                        == status
                    &&& #[trigger] after(old(self)@, op) == final(self)@
                },
            match r {
                Ok(StatusStep::Ready(auth)) => {
                    &&& status == 401 || status == 403
                    &&& auth@.access != pending.current().access || auth@.refresh
                        != pending.current().refresh
                    &&& exists|t: SystemTime| auth.expires > #[trigger] reading_of(t)
                    &&& final(self)@.cached == Some(auth@)
                    &&& final(self)@.flight != Flight::InFlight
                },
                Ok(StatusStep::ReadDenial(denial)) => {
                    &&& status == 401 || status == 403
                    &&& denial.status() == status
                    &&& final(self)@.cached is None
                    &&& final(self)@.flight == old(self)@.flight
                },
                Ok(StatusStep::ReadTokens(granted)) => {
                    &&& 200 <= status <= 299
                    &&& granted.current() == pending.current()
                    &&& final(self)@ == old(self)@
                },
                Err(e) => {
                    &&& !(200 <= status <= 299) && status != 401 && status != 403
                    &&& e@ == ErrorView::RefreshFailed(status)
                    &&& final(self)@.cached == old(self)@.cached
                    &&& final(self)@.history == old(self)@.history
                    &&& final(self)@.flight != Flight::InFlight
                },
            },
    {
        let ghost pre = self@;
        let ghost unread: LoadView = Ok(pre.contents());
        let ghost t0: SystemTime = arbitrary();
        let current = pending.current;
        let ghost auth = current@;
        let r = match classify_status(status) {
            StatusClass::Unauthorized => self.refused(current, status),
            StatusClass::Success => {
                let r = Ok(StatusStep::ReadTokens(PendingTokens { current }));
                assert(status_step(pre, auth, status, unread, reading_of(t0), Ok(())) == (
                    self@,
                    outcome(r),
                ));
                r
            },
            StatusClass::Failed => {
                self.land();
                let r = Err(AuthError::RefreshFailed(status));
                assert(status_step(pre, auth, status, unread, reading_of(t0), Ok(())) == (
                    self@,
                    outcome(r),
                ));
                r
            },
        };
        proof {
            let (loaded, t, cleared) = choose|loaded: LoadView, t: SystemTime, cleared: WriteView|
                {
                    &&& #[trigger] status_step(pre, auth, status, loaded, reading_of(t), cleared)
                        == (self@, outcome(r))
                    &&& read_from(old(self).faithful(), pre, loaded)
                    &&& written_to(old(self).faithful(), cleared)
                };
            assert(after(
                pre,
                Operation::Status { current: auth, status, loaded, now: reading_of(t), cleared },
            ) == self@);
        }
        r
    }

    /// The refresh token of `current` was refused.
    ///
    /// Another process may have rotated the tokens since they were read. Its tokens are
    /// good, so they are served and left alone; only otherwise is the store cleared.
    fn refused(&mut self, current: StoredAuth, status: u16) -> (r: Result<StatusStep, AuthError>)
        requires
            status == 401 || status == 403,
        ensures
            exists|loaded: LoadView, t: SystemTime, cleared: WriteView|
                {
                    &&& #[trigger] status_step(
                        old(self)@,
                        current@,
                        status,
                        loaded,
                        reading_of(t),
                        cleared,
                    ) == (final(self)@, outcome(r))
                    &&& read_from(old(self).faithful(), old(self)@, loaded)
                    &&& written_to(old(self).faithful(), cleared)
                },
            old(self).faithful() ==> {
                &&& final(self).faithful()
                &&& final(self)@.contents() == (match r {
                    Ok(StatusStep::ReadDenial(_)) => None,
                    _ => old(self)@.contents(),
                })
            },
    {
        let ghost pre = self@;
        let loaded = self.store.load_auth();
        let ghost seen = load_view(loaded);
        let latest = match loaded {
            Ok(latest) => latest,
            Err(_) => None,
        };
        let now = Self::now_ms();
        let ghost t = choose|t: SystemTime| now == #[trigger] reading_of(t);
        match survivor(latest, &current, now) {
            Some(auth) => {
                self.cached = Some(auth.clone());
                self.land();
                let r = Ok(StatusStep::Ready(auth));
                assert(status_step(pre, current@, status, seen, reading_of(t), Ok(())) == (
                    self@,
                    outcome(r),
                ));
                r
            },
            None => {
                self.cached = None;
                let cleared = self.store.clear_auth();
                let r = Ok(StatusStep::ReadDenial(PendingDenial { status }));
                assert(status_step(
                    pre,
                    current@,
                    status,
                    seen,
                    reading_of(t),
                    write_view(cleared),
                ) == (self@, outcome(r)));
                r
            },
        }
    }

    /// The refusal has been read; `text` is its body, where it could be read.
    pub fn receive_denial(&mut self, _pending: PendingDenial, text: Option<String>) -> (e: AuthError)
        ensures
            final(self)@ == old(self)@.landed(),
            final(self)@ == after(old(self)@, Operation::Denial),
            final(self).token_store() == old(self).token_store(),
            e@ == ErrorView::Unauthorized(text_view(text)),
    {
        self.land();
        AuthError::Unauthorized(text)
    }

    /// Makes granted tokens the credentials. The account is the one that the tokens name,
    /// or else `fallback`.
    fn adopt(&mut self, tokens: &TokenResponse, fallback: &Option<String>) -> (r: Result<
        StoredAuth,
        AuthError,
    >)
        ensures
            exists|t: SystemTime, saved: WriteView|
                {
                    &&& #[trigger] adopt_step(
                        old(self)@,
                        tokens@,
                        text_view(*fallback),
                        reading_of(t),
                        saved,
                    ) == (final(self)@, outcome(r))
                    &&& written_to(old(self).faithful(), saved)
                },
            final(self)@.contents() == (match r {
                Ok(auth) => Some(auth@),
                Err(_) => old(self)@.contents(),
            }),
            match r {
                Ok(auth) => {
                    &&& final(self)@.cached == Some(auth@)
                    &&& auth.access@ == tokens.access_token@
                    &&& auth.refresh@ == tokens.refresh_token@
                    &&& tokens.defect is None
                },
                Err(_) => final(self)@.cached == old(self)@.cached,
            },
            final(self)@.flight == old(self)@.flight,
            old(self).faithful() ==> final(self).faithful(),
    {
        let ghost pre = self@;
        let ghost other = text_view(*fallback);
        let ghost t0: SystemTime = arbitrary();
        if let Some(defect) = &tokens.defect {
            let r = Err(AuthError::InvalidTokens(defect.clone()));
            assert(adopt_step(pre, tokens@, other, reading_of(t0), Ok(())) == (self@, outcome(r)));
            return r;
        }
        let now = Self::now_ms();
        let ghost t = choose|t: SystemTime| now == #[trigger] reading_of(t);
        if expires_at(tokens.expires_in, now).is_none() {
            let r = Err(AuthError::ExpiryOutOfRange);
            assert(adopt_step(pre, tokens@, other, reading_of(t), Ok(())) == (self@, outcome(r)));
            return r;
        }
        let next = auth_from_tokens(tokens, fallback, now);
        let saved = self.store.save_auth(next.clone());
        let ghost written = write_view(saved);
        let r = match saved {
            Ok(_) => {
                self.cached = Some(next.clone());
                Ok(next)
            },
            Err(e) => Err(AuthError::Store(e.message)),
        };
        assert(adopt_step(pre, tokens@, other, reading_of(t), written) == (self@, outcome(r)));
        r
    }

    /// The granted tokens have been read, or could not be decoded for the given reason.
    pub fn receive_tokens(
        &mut self,
        pending: PendingTokens,
        body: Result<TokenResponse, String>,
    ) -> (r: Result<StoredAuth, AuthError>)
        ensures
            exists|t: SystemTime, saved: WriteView|
                {
                    &&& #[trigger] tokens_step(
                        old(self)@,
                        pending.current(),
                        body_view(body),
                        reading_of(t),
                        saved,
                    ) == (final(self)@, outcome(r))
                    &&& written_to(old(self).faithful(), saved)
                },
            final(self)@.contents() == (match r {
                Ok(auth) => Some(auth@),
                Err(_) => old(self)@.contents(),
            }),
            old(self).faithful() ==> final(self).faithful(),
            exists|op: Operation|
                {
                    &&& op is Tokens && op->Tokens_current == pending.current() && op->body
                        == body_view(body)
                    &&& #[trigger] after(old(self)@, op) == final(self)@
                },
            match (r, body) {
                (Ok(auth), Ok(tokens)) => {
                    &&& final(self)@.cached == Some(auth@)
                    &&& auth.access@ == tokens.access_token@
                    &&& auth.refresh@ == tokens.refresh_token@
                    &&& auth@.account_id == (if tokens.account_id is Some {
                        text_view(tokens.account_id)
                    } else {
                        pending.current().account_id
                    })
                },
                (Ok(_), Err(_)) => false,
                (Err(_), _) => final(self)@.cached == old(self)@.cached,
            },
            final(self)@.flight == (if old(self)@.flight == Flight::InFlight {
                Flight::Idle
            } else {
                old(self)@.flight
            }),
    {
        let ghost pre = self@;
        let ghost auth = pending.current();
        let ghost content = body_view(body);
        match body {
            Ok(tokens) => {
                let r = self.adopt(&tokens, &pending.current.account_id);
                let ghost mid = self@;
                self.land();
                proof {
                    let (t, saved) = choose|t: SystemTime, saved: WriteView|
                        {
                            &&& #[trigger] adopt_step(
                                pre,
                                tokens@,
                                auth.account_id,
                                reading_of(t),
                                saved,
                            ) == (mid, outcome(r))
                            &&& written_to(old(self).faithful(), saved)
                        };
                    assert(tokens_step(pre, auth, content, reading_of(t), saved) == (
                        self@,
                        outcome(r),
                    ));
                    assert(after(
                        pre,
                        Operation::Tokens { current: auth, body: content, now: reading_of(t), saved },
                    ) == self@);
                }
                r
            },
            Err(e) => {
                self.land();
                let ghost t0: SystemTime = arbitrary();
                let ghost saved: WriteView = Ok(());
                let r = Err(AuthError::MalformedResponse(e));
                assert(tokens_step(pre, auth, content, reading_of(t0), saved) == (
                    self@,
                    outcome(r),
                ));
                assert(after(
                    pre,
                    Operation::Tokens { current: auth, body: content, now: reading_of(t0), saved },
                ) == self@);
                r
            },
        }
    }

    /// Adopts the tokens of a login.
    pub fn persist_initial_tokens(&mut self, tokens: &TokenResponse) -> (r: Result<
        StoredAuth,
        AuthError,
    >)
        ensures
            exists|t: SystemTime, saved: WriteView|
                {
                    &&& #[trigger] adopt_step(old(self)@, tokens@, None, reading_of(t), saved) == (
                        final(self)@,
                        outcome(r),
                    )
                    &&& written_to(old(self).faithful(), saved)
                },
            final(self)@.contents() == (match r {
                Ok(auth) => Some(auth@),
                Err(_) => old(self)@.contents(),
            }),
            old(self).faithful() ==> final(self).faithful(),
            exists|op: Operation|
                {
                    &&& op is Persist && op->tokens == tokens@
                    &&& #[trigger] after(old(self)@, op) == final(self)@
                },
            match r {
                Ok(auth) => {
                    &&& final(self)@.cached == Some(auth@)
                    &&& auth.access@ == tokens.access_token@
                    &&& auth.refresh@ == tokens.refresh_token@
                    &&& tokens.defect is None
                },
                Err(_) => final(self)@.cached == old(self)@.cached,
            },
            final(self)@.flight == old(self)@.flight,
    {
        let ghost pre = self@;
        let r = self.adopt(tokens, &None);
        proof {
            let (t, saved) = choose|t: SystemTime, saved: WriteView|
                {
                    &&& #[trigger] adopt_step(pre, tokens@, None, reading_of(t), saved) == (
                        self@,
                        outcome(r),
                    )
                    &&& written_to(old(self).faithful(), saved)
                };
            assert(after(
                pre,
                Operation::Persist { tokens: tokens@, now: reading_of(t), saved },
            ) == self@);
        }
        r
    }

    /// The flight under way has broken off in a panic: no refresh begins after it.
    pub fn poison_flight(&mut self)
        ensures
            final(self)@ == (if old(self)@.flight == Flight::InFlight {
                old(self)@.with_flight(Flight::Poisoned)
            } else {
                old(self)@
            }),
            final(self)@ == after(old(self)@, Operation::Poison),
            final(self).token_store() == old(self).token_store(),
    {
        match self.refresh_flight {
            Flight::InFlight => {
                self.refresh_flight = Flight::Poisoned;
            },
            _ => {},
        }
    }

    /// Whether a refresh is under way.
    pub fn in_flight(&self) -> (b: bool)
        ensures
            b == (self@.flight == Flight::InFlight),
    {
        match self.refresh_flight {
            Flight::InFlight => true,
            _ => false,
        }
    }

    /// The store underneath, for direct use.
    pub fn store_mut(&mut self) -> (store: &mut CodexTokenStore<S>)
        ensures
            *store == old(self).token_store(),
            final(self).token_store() == *final(store),
            final(self)@ == (ManagerView {
                initial: final(store).initial(),
                history: final(store).history(),
                ..old(self)@
            }),
    {
        &mut self.store
    }

    /// Puts `auth` into the cache.
    pub fn set_cached(&mut self, auth: StoredAuth)
        ensures
            final(self)@ == old(self)@.with_cached(Some(auth@)),
            final(self)@ == after(old(self)@, Operation::SetCached(auth@)),
            final(self).token_store() == old(self).token_store(),
    {
        self.cached = Some(auth);
    }

    /// Empties the cache.
    pub fn reset_cache(&mut self)
        ensures
            final(self)@ == old(self)@.with_cached(None),
            final(self)@ == after(old(self)@, Operation::ResetCache),
            final(self).token_store() == old(self).token_store(),
    {
        self.cached = None;
    }
}

} // verus!
