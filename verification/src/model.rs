//! The manager as a state machine over mathematical values.
//!
//! Each function takes the state before an operation and everything that reached the
//! operation from outside (what the store returned, what the clock showed), and gives
//! the state after it together with the outcome.

use vstd::prelude::*;

use crate::constants::CLIENT_ID;
use crate::error::ErrorView;
use crate::rules::{
    RecheckView, StatusClass, is_fresh, recheck_of, status_class_of, survivor_of,
};
use crate::storage::{StoreEvent, held};
use crate::token_store::AuthView;
use crate::tokens::{TokenView, expiry_fits, granted_auth};

verus! {

/// Whether a refresh is under way.
#[derive(Clone, Copy, Debug, PartialEq, Eq, Structural)]
pub enum Flight {
    Idle,
    InFlight,
    /// A flight broke off in a panic.
    Poisoned,
}

/// The state of a manager.
#[verifier::ext_equal]
pub struct ManagerView {
    pub cached: Option<AuthView>,
    pub flight: Flight,
    pub endpoint: Seq<char>,
    /// What the store held when its record began, if it is a faithful one.
    pub initial: Option<AuthView>,
    /// The record of what was asked of the store.
    pub history: Seq<StoreEvent<AuthView>>,
}

/// A request to the token endpoint: where it goes and the form that it carries.
#[verifier::ext_equal]
pub struct RequestView {
    pub endpoint: Seq<char>,
    pub form: Seq<(Seq<char>, Seq<char>)>,
}

/// What the caller of the manager does next.
pub enum StepView {
    /// Use these credentials, which were at hand.
    Ready(AuthView),
    /// Use these credentials, which somebody else has rotated in.
    Reuse(AuthView),
    /// Wait for the flight that is under way, and come back with this snapshot.
    Wait(AuthView),
    /// Send the request, which refreshes `current`.
    Send { current: AuthView, request: RequestView },
}

impl StepView {
    /// The credentials to use, if they are there already.
    pub open spec fn served(self) -> Option<AuthView> {
        match self {
            StepView::Ready(auth) => Some(auth),
            StepView::Reuse(auth) => Some(auth),
            _ => None,
        }
    }
}

/// What the caller does once the endpoint's status is known.
pub enum StatusView {
    /// Use these credentials.
    Ready(AuthView),
    /// Read the text of the refusal that came with this status.
    ReadDenial(u16),
    /// Read the tokens that replace these credentials.
    ReadTokens(AuthView),
}

/// What a store returned to a load.
pub type LoadView = Result<Option<AuthView>, Seq<char>>;

/// What a store returned to a save or a clear.
pub type WriteView = Result<(), Seq<char>>;

impl ManagerView {
    /// What the store holds by its record.
    pub open spec fn contents(self) -> Option<AuthView> {
        held(self.initial, self.history)
    }

    pub open spec fn with_cached(self, cached: Option<AuthView>) -> ManagerView {
        ManagerView { cached, ..self }
    }

    pub open spec fn with_flight(self, flight: Flight) -> ManagerView {
        ManagerView { flight, ..self }
    }

    pub open spec fn with_event(self, event: StoreEvent<AuthView>) -> ManagerView {
        ManagerView { history: self.history.push(event), ..self }
    }

    /// The flight under way, if there is one, has ended.
    pub open spec fn landed(self) -> ManagerView {
        if self.flight == Flight::InFlight {
            self.with_flight(Flight::Idle)
        } else {
            self
        }
    }
}

/// The request that exchanges `refresh` for new tokens.
pub open spec fn refresh_request(endpoint: Seq<char>, refresh: Seq<char>) -> RequestView {
    RequestView {
        endpoint,
        form: seq![
            ("client_id"@, CLIENT_ID@),
            ("grant_type"@, "refresh_token"@),
            ("refresh_token"@, refresh),
        ],
    }
}

/// The beginning of a flight that has read `latest` from the store.
pub open spec fn recheck_step(
    pre: ManagerView,
    snapshot: AuthView,
    latest: Option<AuthView>,
    now: nat,
) -> (ManagerView, Result<StepView, ErrorView>) {
    match recheck_of(latest, snapshot, now) {
        RecheckView::Reuse(auth) => (
            pre.with_cached(Some(auth)),
            Ok(StepView::Reuse(auth)),
        ),
        RecheckView::Refresh(current) => if current.refresh.len() == 0 {
            (pre, Err(ErrorView::NoRefreshToken))
        } else {
            (
                pre.with_flight(Flight::InFlight),
                Ok(
                    StepView::Send {
                        current,
                        request: refresh_request(pre.endpoint, current.refresh),
                    },
                ),
            )
        },
    }
}

/// A refresh of `snapshot` is asked for. Nothing happens while another flight is under
/// way; otherwise the store is read once, and `loaded` is what it returned.
pub open spec fn refresh_step(
    pre: ManagerView,
    snapshot: AuthView,
    loaded: LoadView,
    now: nat,
) -> (ManagerView, Result<StepView, ErrorView>) {
    match pre.flight {
        Flight::InFlight => (pre, Ok(StepView::Wait(snapshot))),
        Flight::Poisoned => (pre, Err(ErrorView::FlightPoisoned)),
        Flight::Idle => {
            let mid = pre.with_event(StoreEvent::Loaded(loaded));
            match loaded {
                Ok(latest) => recheck_step(mid, snapshot, latest, now),
                Err(e) => (mid, Err(ErrorView::Store(e))),
            }
        },
    }
}

/// The credentials at hand: the cached ones, or else those that the store returns,
/// which are then cached.
pub open spec fn lookup_step(pre: ManagerView, loaded: LoadView) -> (
    ManagerView,
    Result<AuthView, ErrorView>,
) {
    match pre.cached {
        Some(auth) => (pre, Ok(auth)),
        None => {
            let mid = pre.with_event(StoreEvent::Loaded(loaded));
            match loaded {
                Ok(Some(auth)) => (mid.with_cached(Some(auth)), Ok(auth)),
                Ok(None) => (mid, Err(ErrorView::NotAuthenticated)),
                Err(e) => (mid, Err(ErrorView::Store(e))),
            }
        },
    }
}

/// A token is asked for: the credentials at hand if they are fresh at `now`, or else a
/// refresh of them. `found` is what the store returns to the lookup, `loaded` and
/// `later` what it returns and what the clock shows once the refresh begins.
pub open spec fn get_step(
    pre: ManagerView,
    found: LoadView,
    now: nat,
    loaded: LoadView,
    later: nat,
) -> (ManagerView, Result<StepView, ErrorView>) {
    let (mid, at_hand) = lookup_step(pre, found);
    match at_hand {
        Ok(auth) => if is_fresh(auth, now) {
            (mid, Ok(StepView::Ready(auth)))
        } else {
            refresh_step(mid, auth, loaded, later)
        },
        Err(e) => (mid, Err(e)),
    }
}

/// The refresh token of `current` was refused with `status`. The store is read once more: tokens that
/// somebody else has rotated in are served, and otherwise the cache is emptied and the
/// store cleared, whether or not the store obeys.
pub open spec fn denial_step(
    pre: ManagerView,
    current: AuthView,
    status: u16,
    loaded: LoadView,
    now: nat,
    cleared: WriteView,
) -> (ManagerView, Result<StatusView, ErrorView>) {
    let mid = pre.with_event(StoreEvent::Loaded(loaded));
    let latest = match loaded {
        Ok(latest) => latest,
        Err(_) => None,
    };
    match survivor_of(latest, current, now) {
        Some(auth) => (mid.with_cached(Some(auth)).landed(), Ok(StatusView::Ready(auth))),
        None => (
            mid.with_cached(None).with_event(StoreEvent::Cleared(cleared)),
            Ok(StatusView::ReadDenial(status)),
        ),
    }
}

/// The endpoint has answered the refresh of `current` with `status`.
pub open spec fn status_step(
    pre: ManagerView,
    current: AuthView,
    status: u16,
    loaded: LoadView,
    now: nat,
    cleared: WriteView,
) -> (ManagerView, Result<StatusView, ErrorView>) {
    match status_class_of(status) {
        StatusClass::Unauthorized => denial_step(pre, current, status, loaded, now, cleared),
        StatusClass::Success => (pre, Ok(StatusView::ReadTokens(current))),
        StatusClass::Failed => (pre.landed(), Err(ErrorView::RefreshFailed(status))),
    }
}

/// Granted tokens become the credentials: they are saved, and cached once the store has
/// taken them.
pub open spec fn adopt_step(
    pre: ManagerView,
    tokens: TokenView,
    fallback: Option<Seq<char>>,
    now: nat,
    saved: WriteView,
) -> (ManagerView, Result<AuthView, ErrorView>) {
    match tokens.defect {
        Some(defect) => (pre, Err(ErrorView::InvalidTokens(defect))),
        None => if !expiry_fits(tokens.expires_in, now) {
            (pre, Err(ErrorView::ExpiryOutOfRange))
        } else {
            let next = granted_auth(tokens, fallback, now);
            let mid = pre.with_event(StoreEvent::Saved(next, saved));
            match saved {
                Ok(_) => (mid.with_cached(Some(next)), Ok(next)),
                Err(e) => (mid, Err(ErrorView::Store(e))),
            }
        },
    }
}

/// The body of a granting answer to the refresh of `current` has been decoded, or has not.
pub open spec fn tokens_step(
    pre: ManagerView,
    current: AuthView,
    body: Result<TokenView, Seq<char>>,
    now: nat,
    saved: WriteView,
) -> (ManagerView, Result<AuthView, ErrorView>) {
    match body {
        Ok(tokens) => {
            let (mid, r) = adopt_step(pre, tokens, current.account_id, now, saved);
            (mid.landed(), r)
        },
        Err(e) => (pre.landed(), Err(ErrorView::MalformedResponse(e))),
    }
}

} // verus!
