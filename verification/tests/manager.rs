use std::time::{SystemTime, UNIX_EPOCH};

use codex_auth::constants::{CLIENT_ID, ISSUER, REFRESH_MARGIN_MS};
use codex_auth::error::AuthError;
use codex_auth::manager::{AuthStep, CodexAuthManager, PendingRefresh, PendingTokens, StatusStep};
use codex_auth::rules::token_identity_changed;
use codex_auth::storage::{AuthStorage, InMemoryAuthStore, StoreError};
use codex_auth::token_store::{CodexTokenStore, StoredAuth};
use codex_auth::tokens::TokenResponse;

type MemoryManager = CodexAuthManager<InMemoryAuthStore<StoredAuth>>;

const FAR: u64 = 9_999_999_999_999;

fn test_store() -> CodexTokenStore<InMemoryAuthStore<StoredAuth>> {
    CodexTokenStore::new(InMemoryAuthStore::new())
}

fn auth(access: &str, refresh: &str, expires: u64) -> StoredAuth {
    StoredAuth {
        access: access.into(),
        refresh: refresh.into(),
        expires,
        account_id: None,
    }
}

fn tokens(access: &str, refresh: &str, expires_in: Option<u64>) -> TokenResponse {
    TokenResponse {
        access_token: access.into(),
        refresh_token: refresh.into(),
        expires_in,
        account_id: None,
        defect: None,
    }
}

fn clock() -> u64 {
    SystemTime::now().duration_since(UNIX_EPOCH).unwrap().as_millis() as u64
}

fn pending(step: Result<AuthStep, AuthError>) -> PendingRefresh {
    match step {
        Ok(AuthStep::Send(pending)) => pending,
        other => panic!("expected a request, got {:?}", other),
    }
}

fn granted(manager: &mut MemoryManager, pending: PendingRefresh) -> PendingTokens {
    match manager.receive_status(pending, 200) {
        Ok(StatusStep::ReadTokens(pending)) => pending,
        other => panic!("expected tokens to read, got {:?}", other),
    }
}

#[test]
fn get_auth_returns_stored() {
    let mut store = test_store();
    let auth = StoredAuth {
        access: "test_access".into(),
        refresh: "test_refresh".into(),
        expires: 9999999999999,
        account_id: Some("acct_1".into()),
    };
    store.save_auth(auth.clone()).unwrap();
    let mut manager = CodexAuthManager::new(store);
    let result = manager.get_auth().unwrap().ready().unwrap();
    assert_eq!(result.access, "test_access");
    assert_eq!(result.account_id.as_deref(), Some("acct_1"));
}

#[test]
fn get_auth_fails_when_no_auth() {
    let store = test_store();
    let mut manager = CodexAuthManager::new(store);
    assert!(manager.get_auth().is_err());
    assert!(
        manager
            .get_auth()
            .unwrap_err()
            .message("my-proxy")
            .contains("Not authenticated")
    );
}

#[test]
fn refresh_recheck_returns_concurrently_rotated_tokens_without_network() {
    // The cache holds an expired token; the store already holds a fresh one. The
    // re-check must return the store's tokens and never ask for a request.
    let mut store = test_store();
    let fresh = StoredAuth {
        access: "rotated_access".into(),
        refresh: "rotated_refresh".into(),
        expires: 9_999_999_999_999,
        account_id: Some("acct_1".into()),
    };
    store.save_auth(fresh.clone()).unwrap();
    let mut manager = CodexAuthManager::new(store);
    manager.set_cached(StoredAuth {
        access: "stale_access".into(),
        refresh: "stale_refresh".into(),
        expires: 0,
        account_id: Some("acct_1".into()),
    });
    let result = manager.get_auth().unwrap().ready().unwrap();
    assert_eq!(result.access, "rotated_access");
    assert_eq!(result.refresh, "rotated_refresh");
}

#[test]
fn forced_refresh_reuses_token_rotated_since_rejected_snapshot() {
    let mut store = test_store();
    let rotated = StoredAuth {
        access: "rotated_access".into(),
        refresh: "rotated_refresh".into(),
        expires: 9_999_999_999_999,
        account_id: Some("acct_1".into()),
    };
    store.save_auth(rotated.clone()).unwrap();
    let mut manager = CodexAuthManager::new(store);
    let rejected = StoredAuth {
        access: "rejected_access".into(),
        refresh: "rejected_refresh".into(),
        expires: 9_999_999_999_999,
        account_id: Some("acct_1".into()),
    };

    let result = manager.force_refresh(&rejected).unwrap().ready().unwrap();
    assert_eq!(result, rotated);
}

#[test]
fn token_identity_ignores_expiry_and_account_metadata() {
    let first = StoredAuth {
        access: "access".into(),
        refresh: "refresh".into(),
        expires: 1,
        account_id: None,
    };
    let metadata_only = StoredAuth {
        expires: 9_999_999_999_999,
        account_id: Some("acct_1".into()),
        ..first.clone()
    };
    assert!(!token_identity_changed(&metadata_only, &first));
}

#[test]
fn callers_in_turn_reuse_rotated_persisted_tokens() {
    let mut store = test_store();
    store.save_auth(auth("rotated_access", "rotated_refresh", FAR)).unwrap();
    let mut manager = CodexAuthManager::new(store);
    for _ in 0..8 {
        manager.set_cached(auth("stale", "stale", 0));
        let served = manager.get_auth().unwrap().ready().unwrap();
        assert_eq!(served.access, "rotated_access");
    }
}

#[test]
fn interleaved_forced_refreshes_make_one_request() {
    let mut store = test_store();
    let rejected = StoredAuth {
        access: "rejected_access".into(),
        refresh: "initial_refresh".into(),
        expires: FAR,
        account_id: Some("acct_1".into()),
    };
    store.save_auth(rejected.clone()).unwrap();
    let mut manager =
        CodexAuthManager::with_token_endpoint(store, "http://127.0.0.1/oauth/token".to_string());
    manager.set_cached(rejected.clone());

    let winner = pending(manager.force_refresh(&rejected));
    assert!(manager.in_flight());
    let mut waiting = Vec::new();
    for _ in 0..7 {
        match manager.force_refresh(&rejected).unwrap() {
            AuthStep::Wait(snapshot) => waiting.push(snapshot),
            other => panic!("expected to wait, got {:?}", other),
        }
    }

    let body = granted(&mut manager, winner);
    assert!(manager.in_flight());
    let next = manager
        .receive_tokens(body, Ok(tokens("rotated_access", "rotated_refresh", Some(3600))))
        .unwrap();
    assert!(!manager.in_flight());
    assert_eq!(next.account_id.as_deref(), Some("acct_1"));

    for snapshot in waiting {
        let served = manager.force_refresh(&snapshot).unwrap().ready().unwrap();
        assert_eq!(served, next);
    }
    let persisted = manager.store.load_auth().unwrap().unwrap();
    assert_eq!(persisted.access, "rotated_access");
    assert_eq!(persisted.refresh, "rotated_refresh");
}

#[test]
fn forced_refresh_does_not_stop_at_a_late_expiry() {
    let mut store = test_store();
    let rejected = auth("access", "refresh", FAR);
    store.save_auth(rejected.clone()).unwrap();
    let mut manager = CodexAuthManager::new(store);
    let pending = pending(manager.force_refresh(&rejected));
    assert_eq!(pending.request().endpoint, format!("{}/oauth/token", ISSUER));
    assert_eq!(
        pending.request().form,
        vec![
            ("client_id".to_string(), CLIENT_ID.to_string()),
            ("grant_type".to_string(), "refresh_token".to_string()),
            ("refresh_token".to_string(), "refresh".to_string()),
        ]
    );
}

#[test]
fn request_posts_the_stored_refresh_token() {
    let mut store = test_store();
    store.save_auth(auth("stored", "stored_refresh", 0)).unwrap();
    let mut manager = CodexAuthManager::new(store);
    let pending = pending(manager.force_refresh(&auth("old", "old_refresh", 0)));
    assert_eq!(pending.request().form[2].1, "stored_refresh");
}

#[test]
fn empty_store_refreshes_the_snapshot() {
    let mut manager = CodexAuthManager::new(test_store());
    let pending = pending(manager.force_refresh(&auth("old", "old_refresh", FAR)));
    assert_eq!(pending.request().form[2].1, "old_refresh");
}

#[test]
fn missing_refresh_token_is_reported() {
    let mut manager = CodexAuthManager::new(test_store());
    let e = manager.force_refresh(&auth("old", "", 0)).unwrap_err();
    assert_eq!(e, AuthError::NoRefreshToken);
    assert_eq!(e.message("my-proxy"), "No refresh token stored; re-authenticate");
    assert!(!manager.in_flight());
}

#[test]
fn token_inside_the_margin_is_refreshed() {
    let mut manager = CodexAuthManager::new(test_store());
    manager.set_cached(auth("a", "r", clock() + REFRESH_MARGIN_MS / 2));
    pending(manager.get_auth());
}

#[test]
fn token_outside_the_margin_is_served() {
    let mut manager = CodexAuthManager::new(test_store());
    let cached = auth("a", "r", clock() + REFRESH_MARGIN_MS + 60_000);
    manager.set_cached(cached.clone());
    assert_eq!(manager.get_auth().unwrap().ready(), Some(cached));
}

#[test]
fn fresh_cache_is_served_during_a_flight() {
    let mut manager = CodexAuthManager::new(test_store());
    let other = pending(manager.force_refresh(&auth("old", "old_refresh", 0)));
    manager.set_cached(auth("a", "r", FAR));
    assert_eq!(manager.get_auth().unwrap().ready(), Some(auth("a", "r", FAR)));
    assert!(manager.in_flight());
    manager.receive_failure(other, "gone".to_string());
    assert!(!manager.in_flight());
}

#[test]
fn unanswered_request_is_reported_and_changes_nothing() {
    let mut store = test_store();
    store.save_auth(auth("a", "r", 0)).unwrap();
    let mut manager = CodexAuthManager::new(store);
    let sent = pending(manager.get_auth());
    let e = manager.receive_failure(sent, "timed out".to_string());
    assert_eq!(e, AuthError::Network("timed out".to_string()));
    assert_eq!(e.message("my-proxy"), "refresh network error: timed out");
    assert_eq!(manager.store.load_auth().unwrap(), Some(auth("a", "r", 0)));
    pending(manager.get_auth());
}

#[test]
fn server_error_is_reported_and_changes_nothing() {
    let mut store = test_store();
    store.save_auth(auth("a", "r", 0)).unwrap();
    let mut manager = CodexAuthManager::new(store);
    let sent = pending(manager.get_auth());
    let e = manager.receive_status(sent, 503).unwrap_err();
    assert_eq!(e, AuthError::RefreshFailed(503));
    assert_eq!(e.message("my-proxy"), "Token refresh failed: 503");
    assert!(!manager.in_flight());
    assert_eq!(manager.store.load_auth().unwrap(), Some(auth("a", "r", 0)));
}

#[test]
fn refusal_serves_live_tokens_of_another_writer() {
    let mut store = test_store();
    store.save_auth(auth("a", "r", 0)).unwrap();
    let mut manager = CodexAuthManager::new(store);
    let sent = pending(manager.get_auth());
    // Inside the refresh margin, but not expired: good enough after a refusal.
    let winner = auth("b", "s", clock() + REFRESH_MARGIN_MS / 2);
    manager.store.save_auth(winner.clone()).unwrap();
    match manager.receive_status(sent, 401) {
        Ok(StatusStep::Ready(served)) => assert_eq!(served, winner),
        other => panic!("expected the winner, got {:?}", other),
    }
    assert!(!manager.in_flight());
    assert_eq!(manager.store.load_auth().unwrap(), Some(winner));
}

#[test]
fn refusal_without_another_writer_clears_everything() {
    for status in [401, 403] {
        let mut store = test_store();
        store.save_auth(auth("a", "r", 0)).unwrap();
        let mut manager = CodexAuthManager::new(store);
        let sent = pending(manager.get_auth());
        let denial = match manager.receive_status(sent, status) {
            Ok(StatusStep::ReadDenial(denial)) => denial,
            other => panic!("expected a denial, got {:?}", other),
        };
        assert!(manager.in_flight());
        assert_eq!(manager.store.load_auth().unwrap(), None);
        let e = manager.receive_denial(denial, Some("revoked".to_string()));
        assert_eq!(e.message("my-proxy"), "revoked");
        assert!(!manager.in_flight());
        assert_eq!(manager.get_auth().unwrap_err(), AuthError::NotAuthenticated);
    }
}

#[test]
fn refusal_clears_expired_tokens_of_another_writer() {
    let mut store = test_store();
    store.save_auth(auth("a", "r", 0)).unwrap();
    let mut manager = CodexAuthManager::new(store);
    let sent = pending(manager.get_auth());
    manager.store.save_auth(auth("b", "s", 1)).unwrap();
    match manager.receive_status(sent, 403) {
        Ok(StatusStep::ReadDenial(denial)) => {
            let e = manager.receive_denial(denial, None);
            assert_eq!(e.message("my-proxy"), "Token refresh unauthorized");
        }
        other => panic!("expected a denial, got {:?}", other),
    }
    assert_eq!(manager.store.load_auth().unwrap(), None);
}

#[test]
fn undecodable_body_is_reported() {
    let mut manager = CodexAuthManager::new(test_store());
    let sent = pending(manager.force_refresh(&auth("a", "r", 0)));
    let body = granted(&mut manager, sent);
    let e = manager.receive_tokens(body, Err("not json".to_string())).unwrap_err();
    assert_eq!(e, AuthError::MalformedResponse("not json".to_string()));
    assert_eq!(e.message("my-proxy"), "failed to parse token response: not json");
    assert!(!manager.in_flight());
    assert_eq!(manager.store.load_auth().unwrap(), None);
}

#[test]
fn invalid_tokens_are_reported() {
    let mut manager = CodexAuthManager::new(test_store());
    let mut bad = tokens("b", "s", None);
    bad.defect = Some("missing refresh token".to_string());
    let e = manager.persist_initial_tokens(&bad).unwrap_err();
    assert_eq!(e, AuthError::InvalidTokens("missing refresh token".to_string()));
    assert_eq!(e.message("my-proxy"), "missing refresh token");
    assert_eq!(manager.store.load_auth().unwrap(), None);
}

#[test]
fn endless_lifetime_is_reported() {
    let mut manager = CodexAuthManager::new(test_store());
    let e = manager
        .persist_initial_tokens(&tokens("b", "s", Some(u64::MAX)))
        .unwrap_err();
    assert_eq!(e, AuthError::ExpiryOutOfRange);
    assert_eq!(e.message("my-proxy"), "token lifetime out of range");
    assert_eq!(manager.store.load_auth().unwrap(), None);
}

#[test]
fn login_tokens_are_saved_and_served() {
    let mut manager = CodexAuthManager::new(test_store());
    let before = clock();
    let mut login = tokens("b", "s", Some(7200));
    login.account_id = Some("acct_2".to_string());
    let saved = manager.persist_initial_tokens(&login).unwrap();
    let after = clock();
    assert_eq!(saved.access, "b");
    assert_eq!(saved.refresh, "s");
    assert_eq!(saved.account_id.as_deref(), Some("acct_2"));
    assert!(before + 7_200_000 <= saved.expires && saved.expires <= after + 7_200_000);
    assert_eq!(manager.get_auth().unwrap().ready(), Some(saved.clone()));
    manager.reset_cache();
    assert_eq!(manager.get_auth().unwrap().ready(), Some(saved));
}

#[test]
fn named_account_replaces_the_old_one() {
    let mut manager = CodexAuthManager::new(test_store());
    let mut old = auth("a", "r", 0);
    old.account_id = Some("acct_1".to_string());
    let sent = pending(manager.force_refresh(&old));
    let body = granted(&mut manager, sent);
    let mut fresh = tokens("b", "s", None);
    fresh.account_id = Some("acct_2".to_string());
    let next = manager.receive_tokens(body, Ok(fresh)).unwrap();
    assert_eq!(next.account_id.as_deref(), Some("acct_2"));
}

#[test]
fn broken_flight_refuses_later_refreshes() {
    let mut manager = CodexAuthManager::new(test_store());
    manager.poison_flight();
    pending(manager.force_refresh(&auth("a", "r", 0)));
    manager.poison_flight();
    let e = manager.force_refresh(&auth("a", "r", 0)).unwrap_err();
    assert_eq!(e, AuthError::FlightPoisoned);
    assert_eq!(e.message("my-proxy"), "poisoned lock: another task failed inside");
    manager.set_cached(auth("a", "r", FAR));
    assert!(manager.get_auth().unwrap().ready().is_some());
}

/// A store whose operations fail on demand.
struct FailingStore {
    content: Option<StoredAuth>,
    fail_load: bool,
    fail_write: bool,
}

fn refused<T>() -> Result<T, StoreError> {
    Err(StoreError { message: "keychain locked".to_string() })
}

impl AuthStorage<StoredAuth> for FailingStore {
    fn load(&mut self) -> Result<Option<StoredAuth>, StoreError> {
        if self.fail_load { refused() } else { Ok(self.content.clone()) }
    }

    fn save(&mut self, value: StoredAuth) -> Result<(), StoreError> {
        if self.fail_write {
            return refused();
        }
        self.content = Some(value);
        Ok(())
    }

    fn clear(&mut self) -> Result<(), StoreError> {
        if self.fail_write {
            return refused();
        }
        self.content = None;
        Ok(())
    }
}

fn failing(fail_load: bool, fail_write: bool) -> CodexAuthManager<FailingStore> {
    CodexAuthManager::new(CodexTokenStore::new(FailingStore {
        content: None,
        fail_load,
        fail_write,
    }))
}

#[test]
fn unreadable_store_is_reported() {
    let mut manager = failing(true, false);
    let e = manager.get_auth().unwrap_err();
    assert_eq!(e, AuthError::Store("keychain locked".to_string()));
    assert_eq!(e.message("my-proxy"), "keychain locked");
    let e = manager.force_refresh(&auth("a", "r", 0)).unwrap_err();
    assert_eq!(e, AuthError::Store("keychain locked".to_string()));
    assert!(!manager.in_flight());
}

#[test]
fn unsaved_tokens_are_not_cached() {
    let mut manager = failing(false, true);
    let e = manager.persist_initial_tokens(&tokens("b", "s", None)).unwrap_err();
    assert_eq!(e, AuthError::Store("keychain locked".to_string()));
    assert_eq!(manager.get_auth().unwrap_err(), AuthError::NotAuthenticated);
}

#[test]
fn refusal_outlives_a_store_that_cannot_be_cleared() {
    let mut manager = failing(false, true);
    manager.set_cached(auth("a", "r", 0));
    let sent = pending(manager.get_auth());
    match manager.receive_status(sent, 401) {
        Ok(StatusStep::ReadDenial(denial)) => {
            let e = manager.receive_denial(denial, Some("revoked".to_string()));
            assert_eq!(e, AuthError::Unauthorized(Some("revoked".to_string())));
        }
        other => panic!("expected a denial, got {:?}", other),
    }
    assert_eq!(manager.get_auth().unwrap_err(), AuthError::NotAuthenticated);
}

#[test]
fn tokens_at_hand_and_rotated_tokens_are_told_apart() {
    let mut store = test_store();
    store.save_auth(auth("b", "s", FAR)).unwrap();
    let mut manager = CodexAuthManager::new(store);
    assert!(matches!(manager.get_auth(), Ok(AuthStep::Ready(x)) if x == auth("b", "s", FAR)));
    manager.set_cached(auth("a", "r", 0));
    assert!(matches!(manager.get_auth(), Ok(AuthStep::Reuse(x)) if x == auth("b", "s", FAR)));
    assert!(!manager.in_flight());
}

#[test]
fn store_is_reached_through_the_manager() {
    let mut manager = CodexAuthManager::new(test_store());
    manager.store_mut().save_auth(auth("a", "r", FAR)).unwrap();
    assert_eq!(manager.get_auth().unwrap().ready(), Some(auth("a", "r", FAR)));
    assert_eq!(manager.store_mut().load_auth().unwrap(), Some(auth("a", "r", FAR)));
}

#[test]
fn successful_refreshes_agree_with_cache_and_store() {
    // Reuse.
    let mut store = test_store();
    store.save_auth(auth("b", "s", FAR)).unwrap();
    let mut manager = CodexAuthManager::new(store);
    let reused = manager.force_refresh(&auth("a", "r", 0)).unwrap().ready().unwrap();
    assert_eq!(manager.store.load_auth().unwrap(), Some(reused.clone()));
    assert_eq!(manager.get_auth().unwrap().ready(), Some(reused.clone()));

    // Rotation.
    let sent = pending(manager.force_refresh(&reused));
    let body = granted(&mut manager, sent);
    let next = manager.receive_tokens(body, Ok(tokens("c", "t", Some(7200)))).unwrap();
    assert_eq!(manager.store.load_auth().unwrap(), Some(next.clone()));
    assert_eq!(manager.get_auth().unwrap().ready(), Some(next.clone()));

    // Reuse after a refusal.
    let sent = pending(manager.force_refresh(&next));
    manager.store.save_auth(auth("d", "u", FAR)).unwrap();
    match manager.receive_status(sent, 403) {
        Ok(StatusStep::Ready(winner)) => {
            assert_eq!(manager.store.load_auth().unwrap(), Some(winner.clone()));
            assert_eq!(manager.get_auth().unwrap().ready(), Some(winner));
        }
        other => panic!("expected the winner, got {:?}", other),
    }
}

#[test]
fn refreshes_that_fail_early_leave_the_cache() {
    let mut manager = CodexAuthManager::new(test_store());
    manager.set_cached(auth("a", "", FAR));
    assert_eq!(
        manager.force_refresh(&auth("a", "", FAR)).unwrap_err(),
        AuthError::NoRefreshToken
    );
    assert_eq!(manager.get_auth().unwrap().ready(), Some(auth("a", "", FAR)));
    assert!(!manager.in_flight());
}
