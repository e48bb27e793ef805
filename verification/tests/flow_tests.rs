use std::cell::RefCell;

use oauth2_flow::config::OAuthConfig;
use oauth2_flow::engine::Adapter;
use oauth2_flow::engine::Callback;
use oauth2_flow::engine::HandleOutcome;
use oauth2_flow::engine::OAuth2;
use oauth2_flow::engine::Rejection;
use oauth2_flow::state::StateSlot;
use oauth2_flow::token::TokenRequest;
use oauth2_flow::token::TokenResponse;

fn test_config() -> OAuthConfig {
    OAuthConfig::new(
        "client".to_string(),
        "secret".to_string(),
        "https://provider/auth".to_string(),
        "https://provider/token".to_string(),
        "https://app/callback".to_string(),
    )
}

/// An adapter that issues a fixed state value and answers every exchange
/// with a fixed token, recording each grant it is handed.
struct FixedAdapter {
    state: String,
    scope: Option<String>,
    exchanges: RefCell<Vec<TokenRequest>>,
}

impl FixedAdapter {
    fn new(state: &str, scope: Option<&str>) -> FixedAdapter {
        FixedAdapter {
            state: state.to_string(),
            scope: scope.map(|s| s.to_string()),
            exchanges: RefCell::new(Vec::new()),
        }
    }
}

impl Adapter for FixedAdapter {
    type Error = String;

    fn authorization_uri(
        &self,
        config: &OAuthConfig,
        scopes: &[String],
    ) -> Result<(String, String), String> {
        let mut uri = config.auth_uri.clone();
        uri.push_str("?scope=");
        uri.push_str(&scopes.join("%20"));
        uri.push_str("&state=");
        uri.push_str(&self.state);
        Ok((uri, self.state.clone()))
    }

    fn exchange_code(
        &self,
        _config: &OAuthConfig,
        token: TokenRequest,
    ) -> Result<TokenResponse, String> {
        self.exchanges.borrow_mut().push(token);
        Ok(TokenResponse {
            access_token: "tok".to_string(),
            token_type: "bearer".to_string(),
            expires_in: None,
            refresh_token: None,
            scope: self.scope.clone(),
            extras: Vec::new(),
        })
    }
}

/// An adapter whose exchange must observably never run.
struct NoExchangeAdapter;

impl Adapter for NoExchangeAdapter {
    type Error = String;

    fn authorization_uri(
        &self,
        _config: &OAuthConfig,
        _scopes: &[String],
    ) -> Result<(String, String), String> {
        Ok(("https://provider/auth".to_string(), "st".to_string()))
    }

    fn exchange_code(
        &self,
        _config: &OAuthConfig,
        _token: TokenRequest,
    ) -> Result<TokenResponse, String> {
        panic!("exchange_code must not be invoked");
    }
}

/// An adapter that fails both operations.
struct FailingAdapter;

impl Adapter for FailingAdapter {
    type Error = String;

    fn authorization_uri(
        &self,
        _config: &OAuthConfig,
        _scopes: &[String],
    ) -> Result<(String, String), String> {
        Err("no uri".to_string())
    }

    fn exchange_code(
        &self,
        _config: &OAuthConfig,
        _token: TokenRequest,
    ) -> Result<TokenResponse, String> {
        Err("exchange down".to_string())
    }
}

/// A hook that hands the finalized token back as the response.
struct PassthroughCallback;

impl Callback for PassthroughCallback {
    type Request = ();
    type Responder = TokenResponse;

    fn callback(&self, _request: &(), token: TokenResponse) -> TokenResponse {
        token
    }
}

#[test]
fn login_stores_the_issued_state() {
    let engine = OAuth2::new(
        FixedAdapter::new("abc123", None),
        PassthroughCallback,
        test_config(),
        vec!["read".to_string(), "write".to_string()],
    );
    let mut slot = StateSlot::empty();
    let (redirect, _) = engine.login(&mut slot);
    let redirect = redirect.unwrap();
    assert_eq!(redirect.uri, "https://provider/auth?scope=read%20write&state=abc123");
    assert_eq!(slot.peek(), Some(&"abc123".to_string()));
}

#[test]
fn get_redirect_uses_the_given_scopes() {
    let engine = OAuth2::new(
        FixedAdapter::new("abc123", None),
        PassthroughCallback,
        test_config(),
        Vec::new(),
    );
    let mut slot = StateSlot::empty();
    let scopes = vec!["activity:read".to_string()];
    let (redirect, _) = engine.get_redirect(&mut slot, &scopes);
    assert_eq!(
        redirect.unwrap().uri,
        "https://provider/auth?scope=activity:read&state=abc123"
    );
    assert_eq!(slot.peek(), Some(&"abc123".to_string()));
}

#[test]
fn login_redirect_failure_propagates_and_leaves_no_state() {
    let engine = OAuth2::new(FailingAdapter, PassthroughCallback, test_config(), Vec::new());
    let mut slot = StateSlot::empty();
    let (redirect, _) = engine.login(&mut slot);
    assert_eq!(redirect.unwrap_err(), "no uri");
    assert_eq!(slot.peek(), None);
}

#[test]
fn matching_callback_dispatches_exactly_once() {
    let engine = OAuth2::new(
        FixedAdapter::new("abc123", None),
        PassthroughCallback,
        test_config(),
        Vec::new(),
    );
    let mut slot = StateSlot::holding("abc123".to_string());
    let (outcome, _) = engine.handle(&(), &mut slot, b"code=XYZ&state=abc123&scope=read");
    let token = match outcome {
        HandleOutcome::Dispatched(t) => t,
        HandleOutcome::Rejected(_) => panic!("expected a dispatch"),
    };
    // The adapter saw exactly one exchange, with the query's code.
    let sent = engine.adapter().exchanges.borrow();
    assert_eq!(sent.len(), 1);
    assert_eq!(sent[0], TokenRequest::AuthorizationCode("XYZ".to_string()));
    drop(sent);
    // The response scope was absent, so the query's scope was adopted.
    assert_eq!(token.scope, Some("read".to_string()));
    assert_eq!(token.access_token, "tok");
    // The state was consumed by the validation.
    assert_eq!(slot.peek(), None);
}

#[test]
fn response_scope_wins_over_query_scope() {
    let engine = OAuth2::new(
        FixedAdapter::new("abc123", Some("activity:read")),
        PassthroughCallback,
        test_config(),
        Vec::new(),
    );
    let mut slot = StateSlot::holding("abc123".to_string());
    let (outcome, _) = engine.handle(&(), &mut slot, b"code=XYZ&state=abc123&scope=read");
    match outcome {
        HandleOutcome::Dispatched(t) => assert_eq!(t.scope, Some("activity:read".to_string())),
        HandleOutcome::Rejected(_) => panic!("expected a dispatch"),
    }
}

#[test]
fn wrong_state_rejects_before_any_exchange() {
    let engine = OAuth2::new(NoExchangeAdapter, PassthroughCallback, test_config(), Vec::new());
    let mut slot = StateSlot::holding("abc123".to_string());
    let (outcome, _) = engine.handle(&(), &mut slot, b"code=XYZ&state=wrong");
    assert!(matches!(outcome, HandleOutcome::Rejected(Rejection::StateMismatch)));
    // The attempt still consumed the stored state.
    assert_eq!(slot.peek(), None);
}

#[test]
fn missing_stored_state_rejects() {
    let engine = OAuth2::new(NoExchangeAdapter, PassthroughCallback, test_config(), Vec::new());
    let mut slot = StateSlot::empty();
    let (outcome, _) = engine.handle(&(), &mut slot, b"code=XYZ&state=abc123");
    assert!(matches!(outcome, HandleOutcome::Rejected(Rejection::StateMismatch)));
}

#[test]
fn replayed_callback_fails_the_second_time() {
    let engine = OAuth2::new(
        FixedAdapter::new("abc123", None),
        PassthroughCallback,
        test_config(),
        Vec::new(),
    );
    let mut slot = StateSlot::holding("abc123".to_string());
    let query: &[u8] = b"code=XYZ&state=abc123";
    let (first, _) = engine.handle(&(), &mut slot, query);
    assert!(matches!(first, HandleOutcome::Dispatched(_)));
    let (second, _) = engine.handle(&(), &mut slot, query);
    assert!(matches!(second, HandleOutcome::Rejected(Rejection::StateMismatch)));
}

#[test]
fn malformed_query_rejects_without_touching_state() {
    let engine = OAuth2::new(NoExchangeAdapter, PassthroughCallback, test_config(), Vec::new());
    let mut slot = StateSlot::holding("abc123".to_string());
    let (outcome, _) = engine.handle(&(), &mut slot, b"state=abc123");
    assert!(matches!(outcome, HandleOutcome::Rejected(Rejection::MalformedRequest)));
    // A malformed request does not consume the stored state.
    assert_eq!(slot.peek(), Some(&"abc123".to_string()));
}

#[test]
fn exchange_failure_rejects_after_consuming_state() {
    let engine = OAuth2::new(FailingAdapter, PassthroughCallback, test_config(), Vec::new());
    let mut slot = StateSlot::holding("abc123".to_string());
    let (outcome, _) = engine.handle(&(), &mut slot, b"code=XYZ&state=abc123");
    match outcome {
        HandleOutcome::Rejected(Rejection::ExchangeFailure(e)) => {
            assert_eq!(e, "exchange down");
        },
        _ => panic!("expected an exchange failure"),
    }
    assert_eq!(slot.peek(), None);
}

#[test]
fn refresh_wraps_the_token_and_passes_through() {
    let engine = OAuth2::new(
        FixedAdapter::new("unused", None),
        PassthroughCallback,
        test_config(),
        Vec::new(),
    );
    let (result, _) = engine.refresh("refresh-me");
    let token = result.unwrap();
    assert_eq!(token.access_token, "tok");
    let sent = engine.adapter().exchanges.borrow();
    assert_eq!(*sent, vec![TokenRequest::RefreshToken("refresh-me".to_string())]);
}

#[test]
fn refresh_failure_propagates() {
    let engine = OAuth2::new(FailingAdapter, PassthroughCallback, test_config(), Vec::new());
    let (result, _) = engine.refresh("refresh-me");
    assert_eq!(result.unwrap_err(), "exchange down");
}

#[test]
fn consumed_state_never_matches_again() {
    let mut slot = StateSlot::holding("abc123".to_string());
    assert!(slot.consume_and_check(&"abc123".to_string()));
    // The very same value fails the second time: the slot is spent.
    assert!(!slot.consume_and_check(&"abc123".to_string()));
}

#[test]
fn failed_validation_also_consumes_the_state() {
    let mut slot = StateSlot::holding("abc123".to_string());
    assert!(!slot.consume_and_check(&"wrong".to_string()));
    // Even the correct value fails now: the failed attempt spent the slot.
    assert!(!slot.consume_and_check(&"abc123".to_string()));
    assert_eq!(slot.peek(), None);
}

#[test]
fn storing_replaces_an_outstanding_state() {
    let mut slot = StateSlot::empty();
    slot.store("first".to_string());
    slot.store("second".to_string());
    assert!(!slot.consume_and_check(&"first".to_string()));
}
