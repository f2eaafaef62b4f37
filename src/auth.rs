//! The authenticated request executor: a request goes out with the current
//! access token; an authorization failure leads to one token refresh, the new
//! credentials are persisted, and the request is sent once more.
//!
//! The executor is a state machine. The caller performs each action (sending,
//! refreshing, persisting) and reports what happened as an event.

use vstd::prelude::*;
use crate::error::SyndicationError;

verus! {

/// The HTTP status of an authorization failure.
pub const UNAUTHORIZED: u16 = 401;

/// An access token and the refresh token that renews it.
#[derive(Debug, Clone)]
pub struct TokenCredentials {
    pub access_token: String,
    pub refresh_token: String,
}

/// The content of a pair of credentials.
pub struct CredentialsView {
    pub access_token: Seq<char>,
    pub refresh_token: Seq<char>,
}

impl View for TokenCredentials {
    type V = CredentialsView;

    open spec fn view(&self) -> CredentialsView {
        CredentialsView { access_token: self.access_token@, refresh_token: self.refresh_token@ }
    }
}

impl TokenCredentials {
    /// A copy of these credentials.
    pub fn duplicate(&self) -> (r: TokenCredentials)
        ensures
            r@ == self@,
    {
        TokenCredentials { access_token: self.access_token.clone(), refresh_token: self.refresh_token.clone() }
    }
}

/// What the token endpoint granted: a new access token, and a new refresh
/// token where it gave one.
#[derive(Debug)]
pub struct TokenGrant {
    pub access_token: String,
    pub refresh_token: Option<String>,
}

/// The credentials after a grant: its access token, and its refresh token or,
/// where it gave none, the one used for the refresh.
pub open spec fn refreshed(old: CredentialsView, access: Seq<char>, refresh: Option<Seq<char>>) -> CredentialsView {
    CredentialsView {
        access_token: access,
        refresh_token: match refresh {
            Some(t) => t,
            None => old.refresh_token,
        },
    }
}

/// The value of the authorization header for an access token.
pub open spec fn bearer(token: Seq<char>) -> Seq<char> {
    "Bearer "@ + token
}

/// The value of the authorization header for an access token.
pub fn bearer_header(token: &str) -> (r: String)
    ensures
        r@ == bearer(token@),
{
    let mut r = String::from_str("Bearer ");
    r.append(token);
    r
}

/// Where an exchange stands.
#[derive(Debug, Clone, Copy, PartialEq, Eq, Structural)]
pub enum AuthPhase {
    /// The request was sent with the current access token.
    FirstAttempt,
    /// The refresh token is being exchanged.
    Refreshing,
    /// The new credentials are being persisted.
    Persisting,
    /// The request was sent again with the new access token.
    Retried,
    /// The exchange is over.
    Finished,
}

/// What happened to the last action.
#[derive(Debug)]
pub enum AuthEvent {
    /// The request got a response with this status.
    Responded(u16),
    /// The token endpoint granted new credentials.
    Granted(TokenGrant),
    /// The token endpoint refused, or could not be reached; why.
    RefreshFailed(String),
    /// The new credentials were stored.
    Persisted,
    /// The new credentials could not be stored; why.
    PersistFailed(String),
}

/// What the caller does next.
#[derive(Debug)]
pub enum AuthAction {
    /// Send a fresh copy of the request with this authorization header value.
    Send(String),
    /// Exchange this refresh token at the token endpoint.
    Refresh(String),
    /// Store these credentials.
    Persist(TokenCredentials),
    /// Hand the last response to the caller, whatever its status.
    Deliver,
    /// The exchange failed.
    Fail(SyndicationError),
}

/// One authenticated request, from the first send to the response handed back.
pub struct AuthedExchange {
    credentials: TokenCredentials,
    fresh: Option<TokenCredentials>,
    phase: AuthPhase,
}

impl AuthedExchange {
    /// The current credentials.
    pub closed spec fn spec_credentials(&self) -> CredentialsView {
        self.credentials@
    }

    /// The credentials granted and not yet persisted.
    pub closed spec fn spec_fresh(&self) -> Option<CredentialsView> {
        match self.fresh {
            Some(c) => Some(c@),
            None => None,
        }
    }

    /// Where the exchange stands.
    pub closed spec fn spec_phase(&self) -> AuthPhase {
        self.phase
    }

    /// Starts an exchange: the request is sent with the current access token.
    pub fn start(credentials: TokenCredentials) -> (r: (AuthedExchange, AuthAction))
        ensures
            r.0.spec_credentials() == credentials@,
            r.0.spec_fresh() is None,
            r.0.spec_phase() == AuthPhase::FirstAttempt,
            r.1 matches AuthAction::Send(h) && h@ == bearer(credentials@.access_token),
    {
        let header = bearer_header(credentials.access_token.as_str());
        (AuthedExchange { credentials, fresh: None, phase: AuthPhase::FirstAttempt }, AuthAction::Send(header))
    }

    /// The current credentials: after a refresh, the persisted new ones.
    pub fn credentials(&self) -> (r: &TokenCredentials)
        ensures
            r@ == self.spec_credentials(),
    {
        &self.credentials
    }

    /// The phase of the exchange.
    pub fn phase(&self) -> (r: AuthPhase)
        ensures
            r == self.spec_phase(),
    {
        self.phase
    }

    /// Takes in what happened to the last action and says what to do next.
    /// A first response that is not an authorization failure is delivered as
    /// it is; an authorization failure starts one refresh; granted credentials
    /// are persisted before they are used; once persisted, the request is sent
    /// again, and that second response is delivered whatever its status. A
    /// refused refresh, or credentials that could not be persisted, fail the
    /// exchange; so does an event that does not fit the phase.
    pub fn on_event(&mut self, event: AuthEvent) -> (r: AuthAction)
        ensures
            match (old(self).spec_phase(), event) {
                (AuthPhase::FirstAttempt, AuthEvent::Responded(status)) => if status == UNAUTHORIZED {
                    &&& r matches AuthAction::Refresh(t) && t@ == old(self).spec_credentials().refresh_token
                    &&& final(self).spec_phase() == AuthPhase::Refreshing
                    &&& final(self).spec_credentials() == old(self).spec_credentials()
                } else {
                    &&& r is Deliver
                    &&& final(self).spec_phase() == AuthPhase::Finished
                    &&& final(self).spec_credentials() == old(self).spec_credentials()
                },
                (AuthPhase::Refreshing, AuthEvent::Granted(g)) => {
                    let c = refreshed(
                        old(self).spec_credentials(),
                        g.access_token@,
                        match g.refresh_token {
                            Some(t) => Some(t@),
                            None => None,
                        },
                    );
                    &&& r matches AuthAction::Persist(p) && p@ == c
                    &&& final(self).spec_fresh() == Some(c)
                    &&& final(self).spec_phase() == AuthPhase::Persisting
                    &&& final(self).spec_credentials() == old(self).spec_credentials()
                },
                (AuthPhase::Refreshing, AuthEvent::RefreshFailed(why)) => {
                    &&& r matches AuthAction::Fail(SyndicationError::AuthRefreshFailed(m)) && m@ == why@
                    &&& final(self).spec_phase() == AuthPhase::Finished
                    &&& final(self).spec_credentials() == old(self).spec_credentials()
                },
                (AuthPhase::Persisting, AuthEvent::Persisted) => match old(self).spec_fresh() {
                    Some(c) => {
                        &&& r matches AuthAction::Send(h) && h@ == bearer(c.access_token)
                        &&& final(self).spec_credentials() == c
                        &&& final(self).spec_phase() == AuthPhase::Retried
                    },
                    None => {
                        &&& r is Fail
                        &&& final(self).spec_phase() == AuthPhase::Finished
                        &&& final(self).spec_credentials() == old(self).spec_credentials()
                    },
                },
                (AuthPhase::Persisting, AuthEvent::PersistFailed(why)) => {
                    &&& r matches AuthAction::Fail(SyndicationError::AuthRefreshFailed(m)) && m@ == why@
                    &&& final(self).spec_phase() == AuthPhase::Finished
                    &&& final(self).spec_credentials() == old(self).spec_credentials()
                },
                (AuthPhase::Retried, AuthEvent::Responded(_)) => {
                    &&& r is Deliver
                    &&& final(self).spec_phase() == AuthPhase::Finished
                    &&& final(self).spec_credentials() == old(self).spec_credentials()
                },
                _ => {
                    &&& r is Fail
                    &&& final(self).spec_phase() == AuthPhase::Finished
                    &&& final(self).spec_credentials() == old(self).spec_credentials()
                },
            },
    {
        match (self.phase, event) {
            (AuthPhase::FirstAttempt, AuthEvent::Responded(status)) => {
                if status == UNAUTHORIZED {
                    self.phase = AuthPhase::Refreshing;
                    AuthAction::Refresh(self.credentials.refresh_token.clone())
                } else {
                    self.phase = AuthPhase::Finished;
                    AuthAction::Deliver
                }
            },
            (AuthPhase::Refreshing, AuthEvent::Granted(g)) => {
                let refresh_token = match g.refresh_token {
                    Some(t) => t,
                    None => self.credentials.refresh_token.clone(),
                };
                let c = TokenCredentials { access_token: g.access_token, refresh_token };
                let p = c.duplicate();
                self.fresh = Some(c);
                self.phase = AuthPhase::Persisting;
                AuthAction::Persist(p)
            },
            (AuthPhase::Refreshing, AuthEvent::RefreshFailed(why)) => {
                self.phase = AuthPhase::Finished;
                AuthAction::Fail(SyndicationError::AuthRefreshFailed(why))
            },
            (AuthPhase::Persisting, AuthEvent::Persisted) => {
                match self.fresh.take() {
                    Some(c) => {
                        let header = bearer_header(c.access_token.as_str());
                        self.credentials = c;
                        self.phase = AuthPhase::Retried;
                        AuthAction::Send(header)
                    },
                    None => {
                        self.phase = AuthPhase::Finished;
                        AuthAction::Fail(SyndicationError::AuthRefreshFailed(String::from_str("no credentials to persist")))
                    },
                }
            },
            (AuthPhase::Persisting, AuthEvent::PersistFailed(why)) => {
                self.phase = AuthPhase::Finished;
                AuthAction::Fail(SyndicationError::AuthRefreshFailed(why))
            },
            (AuthPhase::Retried, AuthEvent::Responded(_)) => {
                self.phase = AuthPhase::Finished;
                AuthAction::Deliver
            },
            _ => {
                self.phase = AuthPhase::Finished;
                AuthAction::Fail(SyndicationError::PlatformRejected(String::from_str("unexpected event in an authenticated request")))
            },
        }
    }
}

} // verus!
