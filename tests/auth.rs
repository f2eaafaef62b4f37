use iwt::auth::{AuthAction, AuthEvent, AuthPhase, AuthedExchange, TokenCredentials, TokenGrant};
use iwt::error::SyndicationError;

fn creds() -> TokenCredentials {
    TokenCredentials { access_token: String::from("initial-access-token"), refresh_token: String::from("initial-refresh-token") }
}

#[test]
fn response_that_is_not_401_is_delivered_without_refresh() {
    let (mut ex, first) = AuthedExchange::start(creds());
    assert!(matches!(first, AuthAction::Send(ref h) if h == "Bearer initial-access-token"));
    assert!(matches!(ex.on_event(AuthEvent::Responded(200)), AuthAction::Deliver));
    assert_eq!(ex.phase(), AuthPhase::Finished);
    assert_eq!(ex.credentials().access_token, "initial-access-token");
}

#[test]
fn unauthorized_response_refreshes_persists_and_resends_once() {
    let (mut ex, _) = AuthedExchange::start(creds());
    assert!(matches!(ex.on_event(AuthEvent::Responded(401)), AuthAction::Refresh(ref t) if t == "initial-refresh-token"));
    let grant = TokenGrant { access_token: String::from("new-access-token"), refresh_token: Some(String::from("new-refresh-token")) };
    match ex.on_event(AuthEvent::Granted(grant)) {
        AuthAction::Persist(c) => {
            assert_eq!(c.access_token, "new-access-token");
            assert_eq!(c.refresh_token, "new-refresh-token");
        },
        other => panic!("expected persist, got {other:?}"),
    }
    assert_eq!(ex.credentials().access_token, "initial-access-token");
    assert!(matches!(ex.on_event(AuthEvent::Persisted), AuthAction::Send(ref h) if h == "Bearer new-access-token"));
    assert_eq!(ex.credentials().refresh_token, "new-refresh-token");
    assert!(matches!(ex.on_event(AuthEvent::Responded(401)), AuthAction::Deliver));
}

#[test]
fn grant_without_refresh_token_keeps_the_old_one() {
    let (mut ex, _) = AuthedExchange::start(creds());
    ex.on_event(AuthEvent::Responded(401));
    let grant = TokenGrant { access_token: String::from("a2"), refresh_token: None };
    match ex.on_event(AuthEvent::Granted(grant)) {
        AuthAction::Persist(c) => assert_eq!(c.refresh_token, "initial-refresh-token"),
        other => panic!("expected persist, got {other:?}"),
    }
}

#[test]
fn refresh_failure_is_terminal() {
    let (mut ex, _) = AuthedExchange::start(creds());
    ex.on_event(AuthEvent::Responded(401));
    let r = ex.on_event(AuthEvent::RefreshFailed(String::from("invalid_grant")));
    assert!(matches!(r, AuthAction::Fail(SyndicationError::AuthRefreshFailed(ref m)) if m == "invalid_grant"));
    assert_eq!(ex.phase(), AuthPhase::Finished);
}

#[test]
fn persist_failure_is_terminal_and_keeps_old_credentials() {
    let (mut ex, _) = AuthedExchange::start(creds());
    ex.on_event(AuthEvent::Responded(401));
    ex.on_event(AuthEvent::Granted(TokenGrant { access_token: String::from("a2"), refresh_token: None }));
    let r = ex.on_event(AuthEvent::PersistFailed(String::from("disk full")));
    assert!(matches!(r, AuthAction::Fail(SyndicationError::AuthRefreshFailed(_))));
    assert_eq!(ex.credentials().access_token, "initial-access-token");
}
