use codex_auth::clock::epoch_millis;
use codex_auth::constants::{DEFAULT_LIFETIME_SECS, REFRESH_MARGIN_MS};
use codex_auth::error::AuthError;
use codex_auth::rules::{
    Recheck, StatusClass, classify_status, fresh_at, recheck, survivor, token_identity_changed,
};
use codex_auth::storage::{AuthStorage, InMemoryAuthStore};
use codex_auth::token_store::StoredAuth;
use codex_auth::tokens::{TokenResponse, auth_from_tokens, expires_at};

fn auth(access: &str, refresh: &str, expires: u64) -> StoredAuth {
    StoredAuth {
        access: access.into(),
        refresh: refresh.into(),
        expires,
        account_id: Some("acct".into()),
    }
}

#[test]
fn identity_is_either_token() {
    let old = auth("a", "r", 1);
    assert!(token_identity_changed(&auth("b", "r", 1), &old));
    assert!(token_identity_changed(&auth("a", "s", 1), &old));
    assert!(!token_identity_changed(&auth("a", "r", 2), &old));
}

#[test]
fn freshness_needs_more_than_the_margin() {
    let now = 1_000_000;
    assert!(!fresh_at(&auth("a", "r", now + REFRESH_MARGIN_MS), now));
    assert!(fresh_at(&auth("a", "r", now + REFRESH_MARGIN_MS + 1), now));
    assert!(!fresh_at(&auth("a", "r", u64::MAX), u64::MAX));
}

#[test]
fn recheck_reuses_only_changed_and_fresh_tokens() {
    let snapshot = auth("a", "r", u64::MAX);
    let stale = auth("b", "s", 1_000);
    let fresh = auth("b", "s", 1_000 + REFRESH_MARGIN_MS + 1);
    assert!(matches!(recheck(Some(fresh.clone()), &snapshot, 1_000), Recheck::Reuse(x) if x == fresh));
    assert!(matches!(recheck(Some(stale.clone()), &snapshot, 1_000), Recheck::Refresh(x) if x == stale));
    assert!(matches!(recheck(Some(snapshot.clone()), &snapshot, 0), Recheck::Refresh(x) if x == snapshot));
    assert!(matches!(recheck(None, &snapshot, 0), Recheck::Refresh(x) if x == snapshot));
}

#[test]
fn survivor_is_changed_and_live() {
    let current = auth("a", "r", 5_000);
    let live = auth("b", "s", 1_001);
    let expired = auth("b", "s", 1_000);
    assert_eq!(survivor(Some(live.clone()), &current, 1_000), Some(live));
    assert_eq!(survivor(Some(expired), &current, 1_000), None);
    assert_eq!(survivor(Some(current.clone()), &current, 1_000), None);
    assert_eq!(survivor(None, &current, 1_000), None);
}

#[test]
fn statuses_fall_into_three_classes() {
    for status in [401, 403] {
        assert_eq!(classify_status(status), StatusClass::Unauthorized);
    }
    for status in [200, 204, 299] {
        assert_eq!(classify_status(status), StatusClass::Success);
    }
    for status in [0, 199, 300, 400, 402, 404, 500, 65535] {
        assert_eq!(classify_status(status), StatusClass::Failed);
    }
}

#[test]
fn expiry_is_counted_in_milliseconds() {
    assert_eq!(expires_at(Some(60), 1_000), Some(61_000));
    assert_eq!(DEFAULT_LIFETIME_SECS, 3600);
    assert_eq!(expires_at(None, 5), Some(3_600_005));
    assert_eq!(expires_at(Some(0), u64::MAX), Some(u64::MAX));
    assert_eq!(expires_at(Some(1), u64::MAX), None);
    assert_eq!(expires_at(Some(u64::MAX), 0), None);
}

#[test]
fn granted_tokens_become_credentials() {
    let mut tokens = TokenResponse {
        access_token: "b".into(),
        refresh_token: "s".into(),
        expires_in: Some(10),
        account_id: None,
        defect: None,
    };
    let made = auth_from_tokens(&tokens, &Some("old".to_string()), 7);
    assert_eq!(
        made,
        StoredAuth {
            access: "b".into(),
            refresh: "s".into(),
            expires: 10_007,
            account_id: Some("old".into()),
        }
    );
    tokens.account_id = Some("new".to_string());
    let made = auth_from_tokens(&tokens, &Some("old".to_string()), 7);
    assert_eq!(made.account_id.as_deref(), Some("new"));
    assert_eq!(auth_from_tokens(&tokens, &None, 7).expires, 10_007);
}

#[test]
fn clock_readings_keep_their_low_bits() {
    assert_eq!(epoch_millis(None), 0);
    assert_eq!(epoch_millis(Some(1_700_000_000_000)), 1_700_000_000_000);
    assert_eq!(epoch_millis(Some((1u128 << 64) + 5)), 5);
}

#[test]
fn statuses_are_told_in_decimal() {
    for (status, text) in [(0, "0"), (7, "7"), (10, "10"), (500, "500"), (65535, "65535")] {
        let message = AuthError::RefreshFailed(status).message("my-proxy");
        assert_eq!(message, format!("Token refresh failed: {}", text));
    }
    assert_eq!(
        AuthError::NotAuthenticated.message("my-proxy"),
        "Not authenticated. Run: my-proxy codex auth login"
    );
}

#[test]
fn memory_store_gives_back_what_was_saved() {
    let mut store: InMemoryAuthStore<StoredAuth> = InMemoryAuthStore::new();
    assert_eq!(store.load(), Ok(None));
    assert_eq!(store.save(auth("a", "r", 1)), Ok(()));
    assert_eq!(store.load(), Ok(Some(auth("a", "r", 1))));
    assert_eq!(store.load(), Ok(Some(auth("a", "r", 1))));
    assert_eq!(store.save(auth("b", "s", 2)), Ok(()));
    assert_eq!(store.load(), Ok(Some(auth("b", "s", 2))));
    assert_eq!(store.clear(), Ok(()));
    assert_eq!(store.load(), Ok(None));
}
