//! The client's session tokens and the decisions of its authenticating
//! channel: which bearer a request carries, when a refused request is retried
//! after refreshing the tokens, and what a failed refresh leaves behind.

use vstd::prelude::*;

verus! {

/// The tokens of the signed-in session.
#[derive(Debug)]
pub struct TokenStore {
    pub access_token: Option<String>,
    pub refresh_token: Option<String>,
}

/// What to do with a response.
#[derive(Debug)]
pub enum Retry {
    /// Hand the response to the caller.
    Done,
    /// Ask for new tokens with this refresh token, then send the request
    /// again.
    Refresh(String),
}

/// The header value a request carries with access token `t`.
pub open spec fn bearer_text(t: Seq<char>) -> Seq<char> {
    "Bearer "@ + t
}

/// The authorization a request carries (spec of `TokenStore::bearer`).
pub open spec fn bearer_spec(access: Option<String>) -> Option<Seq<char>> {
    match access {
        Some(t) => Some(bearer_text(t@)),
        None => None,
    }
}

/// The refresh token a response leads to refresh with, if any (spec of
/// `TokenStore::after_response`).
pub open spec fn retry_spec(refresh: Option<String>, unauthorized: bool) -> Option<String> {
    if unauthorized { refresh } else { None }
}

impl TokenStore {
    pub fn new() -> (s: TokenStore)
        ensures
            s.access_token.is_none() && s.refresh_token.is_none(),
    {
        TokenStore { access_token: None, refresh_token: None }
    }

    /// The authorization header value: the access token as a bearer, if one
    /// is held.
    pub fn bearer(&self) -> (r: Option<String>)
        ensures
            match r {
                Some(h) => bearer_spec(self.access_token) == Some(h@),
                None => bearer_spec(self.access_token).is_none(),
            },
    {
        match &self.access_token {
            Some(t) => Some(String::from_str("Bearer ").concat(t.as_str())),
            None => None,
        }
    }

    /// A (replayable) request came back. Only a refusal as unauthorized is
    /// retried, and only when a refresh token is held.
    pub fn after_response(&self, unauthorized: bool) -> (r: Retry)
        ensures
            match r {
                Retry::Refresh(t) => retry_spec(self.refresh_token, unauthorized) == Some(t),
                Retry::Done => retry_spec(self.refresh_token, unauthorized).is_none(),
            },
    {
        if !unauthorized {
            return Retry::Done;
        }
        match &self.refresh_token {
            Some(t) => Retry::Refresh(t.clone()),
            None => Retry::Done,
        }
    }

    /// New tokens arrived (a refresh, or a sign-in): both are kept.
    pub fn refreshed(&mut self, access: String, refresh: String)
        ensures
            final(self).access_token == Some(access),
            final(self).refresh_token == Some(refresh),
    {
        self.access_token = Some(access);
        self.refresh_token = Some(refresh);
    }

    /// The server refused the refresh: the session is over, both tokens are
    /// dropped (and the app clears the stored copy).
    pub fn refresh_failed(&mut self)
        ensures
            final(self).access_token.is_none(),
            final(self).refresh_token.is_none(),
    {
        self.access_token = None;
        self.refresh_token = None;
    }

    /// Whether a full session is held.
    pub fn has_tokens(&self) -> (r: bool)
        ensures
            r == (self.access_token is Some && self.refresh_token is Some),
    {
        self.access_token.is_some() && self.refresh_token.is_some()
    }
}

/// After a refused refresh no request carries a token and no refresh is
/// tried again: every later refusal is handed to the caller. After a
/// successful one, the request is sent again with the new access token, and
/// the next refusal refreshes with the new refresh token.
pub proof fn lemma_refresh_outcomes(access: String, refresh: String, unauthorized: bool)
    ensures
        bearer_spec(None).is_none(),
        retry_spec(None, unauthorized).is_none(),
        bearer_spec(Some(access)) == Some(bearer_text(access@)),
        retry_spec(Some(refresh), true) == Some(refresh),
{
}

} // verus!
