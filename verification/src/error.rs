//! What can go wrong, and how it is said.

use vstd::prelude::*;
use vstd::string::StringExecFns;

verus! {

/// Why no token could be served.
#[derive(Debug, PartialEq, Eq)]
pub enum AuthError {
    /// Nothing is cached and nothing is stored.
    NotAuthenticated,
    /// The credentials hold no refresh token.
    NoRefreshToken,
    /// A refresh flight broke off and left its lock unusable.
    FlightPoisoned,
    /// The token request got no answer.
    Network(String),
    /// The refresh token was refused; the answer's text, if it could be read.
    Unauthorized(Option<String>),
    /// The endpoint answered with a status that grants nothing.
    RefreshFailed(u16),
    /// The granted tokens could not be decoded.
    MalformedResponse(String),
    /// The granted tokens did not pass validation.
    InvalidTokens(String),
    /// The granted lifetime ends beyond what a timestamp can hold.
    ExpiryOutOfRange,
    /// The store failed.
    Store(String),
}

/// The mathematical content of an [`AuthError`].
pub enum ErrorView {
    NotAuthenticated,
    NoRefreshToken,
    FlightPoisoned,
    Network(Seq<char>),
    Unauthorized(Option<Seq<char>>),
    RefreshFailed(u16),
    MalformedResponse(Seq<char>),
    InvalidTokens(Seq<char>),
    ExpiryOutOfRange,
    Store(Seq<char>),
}

impl View for AuthError {
    type V = ErrorView;

    open spec fn view(&self) -> ErrorView {
        match self {
            AuthError::NotAuthenticated => ErrorView::NotAuthenticated,
            AuthError::NoRefreshToken => ErrorView::NoRefreshToken,
            AuthError::FlightPoisoned => ErrorView::FlightPoisoned,
            AuthError::Network(e) => ErrorView::Network(e@),
            AuthError::Unauthorized(text) => ErrorView::Unauthorized(
                match text {
                    Some(t) => Some(t@),
                    None => None,
                },
            ),
            AuthError::RefreshFailed(status) => ErrorView::RefreshFailed(*status),
            AuthError::MalformedResponse(e) => ErrorView::MalformedResponse(e@),
            AuthError::InvalidTokens(e) => ErrorView::InvalidTokens(e@),
            AuthError::ExpiryOutOfRange => ErrorView::ExpiryOutOfRange,
            AuthError::Store(e) => ErrorView::Store(e@),
        }
    }
}

/// The decimal digit for `d`.
pub open spec fn digit(d: nat) -> char {
    (('0' as int) + d) as char
}

/// The decimal notation of `n`, without leading zeros.
pub open spec fn decimal(n: nat) -> Seq<char>
    decreases n,
{
    if n < 10 {
        seq![digit(n)]
    } else {
        decimal(n / 10).push(digit(n % 10))
    }
}

fn digit_text(d: u16) -> (s: &'static str)
    requires
        d < 10,
    ensures
        s@ == seq![digit(d as nat)],
{
    proof {
        reveal_strlit("0");
        reveal_strlit("1");
        reveal_strlit("2");
        reveal_strlit("3");
        reveal_strlit("4");
        reveal_strlit("5");
        reveal_strlit("6");
        reveal_strlit("7");
        reveal_strlit("8");
        reveal_strlit("9");
    }
    let s = match d {
        0 => "0",
        1 => "1",
        2 => "2",
        3 => "3",
        4 => "4",
        5 => "5",
        6 => "6",
        7 => "7",
        8 => "8",
        _ => "9",
    };
    assert(s@ =~= seq![digit(d as nat)]);
    s
}

fn decimal_text(n: u16) -> (s: String)
    ensures
        s@ == decimal(n as nat),
    decreases n,
{
    if n < 10 {
        digit_text(n).to_owned()
    } else {
        let mut s = decimal_text(n / 10);
        s.append(digit_text(n % 10));
        assert(s@ =~= decimal((n / 10) as nat).push(digit((n % 10) as nat)));
        s
    }
}

fn joined(prefix: &str, rest: &str) -> (s: String)
    ensures
        s@ == prefix@ + rest@,
{
    let mut s = prefix.to_owned();
    s.append(rest);
    s
}

impl ErrorView {
    /// What is told to the user of `program`.
    pub open spec fn message(self, program: Seq<char>) -> Seq<char> {
        match self {
            ErrorView::NotAuthenticated => "Not authenticated. Run: "@ + program
                + " codex auth login"@,
            ErrorView::NoRefreshToken => "No refresh token stored; re-authenticate"@,
            ErrorView::FlightPoisoned => "poisoned lock: another task failed inside"@,
            ErrorView::Network(e) => "refresh network error: "@ + e,
            ErrorView::Unauthorized(Some(text)) => text,
            ErrorView::Unauthorized(None) => "Token refresh unauthorized"@,
            ErrorView::RefreshFailed(status) => "Token refresh failed: "@ + decimal(status as nat),
            ErrorView::MalformedResponse(e) => "failed to parse token response: "@ + e,
            ErrorView::InvalidTokens(e) => e,
            ErrorView::ExpiryOutOfRange => "token lifetime out of range"@,
            ErrorView::Store(e) => e,
        }
    }
}

impl AuthError {
    /// What is told to the user. `program` is the name under which the user runs the
    /// program, so that the advice can be typed as it stands.
    pub fn message(&self, program: &str) -> (s: String)
        ensures
            s@ == self@.message(program@),
    {
        match self {
            AuthError::NotAuthenticated => joined(
                joined("Not authenticated. Run: ", program).as_str(),
                " codex auth login",
            ),
            AuthError::NoRefreshToken => "No refresh token stored; re-authenticate".to_owned(),
            AuthError::FlightPoisoned => "poisoned lock: another task failed inside".to_owned(),
            AuthError::Network(e) => joined("refresh network error: ", e.as_str()),
            AuthError::Unauthorized(Some(text)) => text.clone(),
            AuthError::Unauthorized(None) => "Token refresh unauthorized".to_owned(),
            AuthError::RefreshFailed(status) => joined(
                "Token refresh failed: ",
                decimal_text(*status).as_str(),
            ),
            AuthError::MalformedResponse(e) => joined(
                "failed to parse token response: ",
                e.as_str(),
            ),
            AuthError::InvalidTokens(e) => e.clone(),
            AuthError::ExpiryOutOfRange => "token lifetime out of range".to_owned(),
            AuthError::Store(e) => e.clone(),
        }
    }
}

} // verus!
