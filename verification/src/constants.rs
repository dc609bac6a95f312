//! Fixed parameters of the Codex OAuth client.

use vstd::prelude::*;

verus! {

/// The OAuth client identifier sent with every token request.
pub const CLIENT_ID: &'static str = "app_EMoamEEZ73f0CkXaXp7hrann";

/// The authority that issues and rotates the tokens.
pub const ISSUER: &'static str = "https://auth.openai.com";

/// The path of the token endpoint below the issuer.
pub const TOKEN_PATH: &'static str = "/oauth/token";

/// How long before its expiry a token is already treated as stale, in milliseconds.
pub const REFRESH_MARGIN_MS: u64 = 300_000;

/// The lifetime of a token whose response does not state one, in seconds.
pub const DEFAULT_LIFETIME_SECS: u64 = 3600;

} // verus!
