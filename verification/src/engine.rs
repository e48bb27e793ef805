use vstd::prelude::*;

use crate::config::OAuthConfig;
use crate::query::parse_callback_query;
use crate::query::parse_query_spec;
use crate::state::state_accepts;
use crate::state::StateSlot;
use crate::token::opt_text;
use crate::token::spec_with_scope_fallback;
use crate::token::TokenRequest;
use crate::token::TokenResponse;

verus! {

/// A provider-specific strategy for the Authorization Code Grant
/// (RFC 6749 §4.1): it builds the authorization redirect and performs the
/// token exchange. One implementation per OAuth provider; the engine never
/// looks inside provider-specific detail.
///
/// Nothing is assumed of an implementation: the engine's own guarantees
/// hold whatever an adapter returns.
pub trait Adapter {
    /// The error an implementation reports when URI generation or a token
    /// exchange fails.
    type Error;

    /// Generate an authorization URI and a fresh, unpredictable `state`
    /// value (RFC 6749 §4.1.1), returning the `state` separately so the
    /// caller can persist it. Must not perform network calls.
    fn authorization_uri(&self, config: &OAuthConfig, scopes: &[String]) -> Result<
        (String, String),
        Self::Error,
    >;

    /// Exchange a grant for a token against the provider's token endpoint
    /// (RFC 6749 §4.1.3 / §6). Transport failures, non-success answers and
    /// malformed bodies must all surface as `Error` values.
    fn exchange_code(&self, config: &OAuthConfig, token: TokenRequest) -> Result<
        TokenResponse,
        Self::Error,
    >;
}

/// The application hook that consumes a successful exchange: session
/// creation, persistence and response construction live behind it. It is
/// invoked exactly once per successful exchange and never on a failed one.
pub trait Callback {
    /// The host's request context, handed through to the hook untouched.
    type Request;

    /// The response value the hook produces for the user agent.
    type Responder;

    /// Consume the finalized token for one callback request.
    fn callback(&self, request: &Self::Request, token: TokenResponse) -> Self::Responder;
}

/// Why callback handling was rejected. Every rejection surfaces to the
/// user agent as a client error; the distinctions exist for the host's
/// logs (a state mismatch may indicate a forged or replayed callback).
pub enum Rejection<E> {
    /// The callback query was unparseable or missed `code` or `state`.
    MalformedRequest,
    /// No `state` was outstanding, or the presented one did not match.
    StateMismatch,
    /// The adapter failed the exchange; the error is for the server-side
    /// log and must not reach the user agent.
    ExchangeFailure(E),
}

/// The terminal result of callback handling: either the application
/// hook's response, or a rejection.
pub enum HandleOutcome<R, E> {
    /// The exchange succeeded and the hook produced this response.
    Dispatched(R),
    /// Handling stopped short of the hook.
    Rejected(Rejection<E>),
}

/// One observable step of the callback state machine, recorded in the
/// ghost trace that `handle` returns: what was handed to the adapter's
/// exchange, and what was dispatched to the application hook.
pub enum FlowEvent {
    /// The adapter's exchange was invoked with this grant.
    Exchange(TokenRequest),
    /// The adapter's exchange succeeded with this raw response.
    Exchanged(TokenResponse),
    /// The application hook was invoked with this finalized token.
    Dispatch(TokenResponse),
}

/// An authentication redirect, ready for the host to send: the provider's
/// authorization URI with all parameters embedded.
#[derive(PartialEq, Debug)]
pub struct LoginRedirect {
    /// The fully qualified redirect target.
    pub uri: String,
}

/// What one redirect operation asked of the adapter and what came back:
/// the configuration and scope list handed to `authorization_uri`, and the
/// issued URI/state pair when the adapter succeeded. Returned as the ghost
/// half of `get_redirect` and `login`, so their contracts name the exact
/// request made.
pub ghost struct AuthRequest {
    /// The configuration handed to the adapter.
    pub config: OAuthConfig,
    /// The scope list handed to the adapter, unchanged and in order.
    pub scopes: Seq<String>,
    /// The URI/state pair the adapter issued, if it succeeded.
    pub issued: Option<(String, String)>,
}

/// The flow engine: one adapter, one application hook, a resolved
/// configuration and the default login scopes, immutable after
/// construction and shareable across concurrent requests.
pub struct OAuth2<A, C> {
    adapter: A,
    callback: C,
    config: OAuthConfig,
    login_scopes: Vec<String>,
}

impl<A: Adapter, C: Callback> OAuth2<A, C> {
    /// The scope list that `login` passes to the adapter.
    pub closed spec fn spec_login_scopes(&self) -> Seq<String> {
        self.login_scopes@
    }

    /// The adapter this engine drives.
    pub closed spec fn spec_adapter(&self) -> A {
        self.adapter
    }

    /// The application hook this engine dispatches to.
    pub closed spec fn spec_callback(&self) -> C {
        self.callback
    }

    /// The configuration this engine hands to every adapter call.
    pub closed spec fn spec_config(&self) -> OAuthConfig {
        self.config
    }

    /// Borrow the engine's adapter.
    pub fn adapter(&self) -> (r: &A)
        ensures
            *r == self.spec_adapter(),
    {
        &self.adapter
    }

    /// Compose an engine from exactly its parts.
    pub fn new(adapter: A, callback: C, config: OAuthConfig, login_scopes: Vec<String>) -> (r:
        OAuth2<A, C>)
        ensures
            r.spec_adapter() == adapter,
            r.spec_callback() == callback,
            r.spec_config() == config,
            r.spec_login_scopes() == login_scopes@,
    {
        OAuth2 { adapter, callback, config, login_scopes }
    }

    /// Prepare an authentication redirect: ask the adapter for the
    /// authorization URI and its `state` value, persist the `state` in the
    /// session's slot, and return the redirect.
    ///
    /// The ghost result records the request made of the adapter — this
    /// engine's configuration and exactly the given scopes, unchanged and
    /// in order — and, on success, the issued URI/state pair: the redirect
    /// is to the issued URI and the slot holds exactly the issued `state`.
    /// On adapter failure the error propagates unchanged and the slot is
    /// untouched.
    pub fn get_redirect(&self, slot: &mut StateSlot, scopes: &[String]) -> (r: (
        Result<LoginRedirect, A::Error>,
        Ghost<AuthRequest>,
    ))
        ensures
            r.1@.config == self.spec_config(),
            r.1@.scopes == scopes@,
            r.0 is Ok <==> r.1@.issued is Some,
            r.1@.issued matches Some(issued) ==> r.0 matches Ok(red) && red.uri == issued.0
                && final(slot)@ == Some(issued.1@),
            r.0 is Err ==> final(slot)@ == old(slot)@,
    {
        let ghost asked_config = self.config;
        let ghost asked_scopes = scopes@;
        match self.adapter.authorization_uri(&self.config, scopes) {
            Ok((uri, state)) => {
                let ghost req = AuthRequest {
                    config: asked_config,
                    scopes: asked_scopes,
                    issued: Some((uri, state)),
                };
                slot.store(state);
                (Ok(LoginRedirect { uri }), Ghost(req))
            },
            Err(e) => {
                let ghost req = AuthRequest {
                    config: asked_config,
                    scopes: asked_scopes,
                    issued: None,
                };
                (Err(e), Ghost(req))
            },
        }
    }

    /// Run the login-redirect operation with the engine's configured
    /// default scopes: the ghost result records that the adapter was asked
    /// with exactly `spec_login_scopes()`.
    pub fn login(&self, slot: &mut StateSlot) -> (r: (
        Result<LoginRedirect, A::Error>,
        Ghost<AuthRequest>,
    ))
        ensures
            r.1@.config == self.spec_config(),
            r.1@.scopes == self.spec_login_scopes(),
            r.0 is Ok <==> r.1@.issued is Some,
            r.1@.issued matches Some(issued) ==> r.0 matches Ok(red) && red.uri == issued.0
                && final(slot)@ == Some(issued.1@),
            r.0 is Err ==> final(slot)@ == old(slot)@,
    {
        self.get_redirect(slot, self.login_scopes.as_slice())
    }

    /// Request a fresh access token for a refresh token previously issued
    /// by the provider.
    ///
    /// A refresh is a pure passthrough to the adapter's exchange: its
    /// signature gives it no access to any state slot, so it can neither
    /// require, read nor invalidate a stored `state` token. The ghost
    /// result names the exact grant handed to the adapter.
    pub fn refresh(&self, refresh_token: &str) -> (r: (
        Result<TokenResponse, A::Error>,
        Ghost<TokenRequest>,
    ))
        ensures
            r.1@ matches TokenRequest::RefreshToken(t) && t@ == refresh_token@,
    {
        let req = TokenRequest::RefreshToken(refresh_token.to_owned());
        let ghost sent = req;
        (self.adapter.exchange_code(&self.config, req), Ghost(sent))
    }

    /// Handle the provider's redirect callback: parse the query, validate
    /// and consume the stored `state`, exchange the code, apply the scope
    /// fallback, and dispatch the finalized token to the application hook.
    ///
    /// The ghost trace records the observable steps in order. The
    /// postconditions pin the whole state machine down:
    /// - an unparseable query (or one missing `code` or `state`) is
    ///   rejected as malformed, with nothing invoked and the slot untouched;
    /// - otherwise the slot is consumed by the validation attempt itself,
    ///   matched or not, so the same callback can never succeed twice;
    /// - a mismatch is rejected with nothing invoked;
    /// - on a match, the adapter is invoked exactly once with the query's
    ///   code, and the hook is invoked exactly once — with the finalized
    ///   token — precisely when the exchange succeeded.
    pub fn handle(&self, request: &C::Request, slot: &mut StateSlot, query: &[u8]) -> (r: (
        HandleOutcome<C::Responder, A::Error>,
        Ghost<Seq<FlowEvent>>,
    ))
        ensures
            r.1@.len() <= 3,
            parse_query_spec(query@) is None ==> {
                &&& r.0 matches HandleOutcome::Rejected(Rejection::MalformedRequest)
                &&& r.1@ == Seq::<FlowEvent>::empty()
                &&& final(slot)@ == old(slot)@
            },
            parse_query_spec(query@) matches Some(pq) ==> {
                &&& final(slot)@ is None
                &&& (!state_accepts(old(slot)@, pq.state) ==> (r.0 matches HandleOutcome::Rejected(
                    Rejection::StateMismatch,
                )) && r.1@ == Seq::<FlowEvent>::empty())
                &&& (state_accepts(old(slot)@, pq.state) ==> {
                    &&& r.1@.len() >= 1
                    &&& (r.1@[0] matches FlowEvent::Exchange(TokenRequest::AuthorizationCode(c))
                        && c@ == pq.code)
                    &&& (r.0 matches HandleOutcome::Rejected(rej) ==> (rej
                        matches Rejection::ExchangeFailure(_)) && r.1@.len() == 1)
                    &&& (r.0 matches HandleOutcome::Dispatched(_) <==> r.1@.len() == 3)
                    &&& (r.1@.len() == 3 ==> (r.1@[1] matches FlowEvent::Exchanged(raw) && r.1@[2]
                        matches FlowEvent::Dispatch(t) && t == spec_with_scope_fallback(
                        raw,
                        t.scope,
                    ) && (raw.scope is Some ==> t.scope == raw.scope) && (raw.scope is None
                        ==> opt_text(t.scope) == pq.scope)))
                })
            },
    {
        let parsed = match parse_callback_query(query) {
            Some(p) => p,
            None => {
                return (
                    HandleOutcome::Rejected(Rejection::MalformedRequest),
                    Ghost(Seq::empty()),
                );
            },
        };
        let matched = slot.consume_and_check(&parsed.state);
        if !matched {
            return (HandleOutcome::Rejected(Rejection::StateMismatch), Ghost(Seq::empty()));
        }
        let req = TokenRequest::AuthorizationCode(parsed.code);
        let ghost trace = seq![FlowEvent::Exchange(req)];
        let raw = match self.adapter.exchange_code(&self.config, req) {
            Ok(t) => t,
            Err(e) => {
                return (HandleOutcome::Rejected(Rejection::ExchangeFailure(e)), Ghost(trace));
            },
        };
        let ghost trace = trace.push(FlowEvent::Exchanged(raw));
        let token = raw.with_scope_fallback(parsed.scope);
        let ghost trace = trace.push(FlowEvent::Dispatch(token));
        let responder = self.callback.callback(request, token);
        (HandleOutcome::Dispatched(responder), Ghost(trace))
    }
}

} // verus!
