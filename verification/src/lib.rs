//! A verified protocol engine for the OAuth 2.0 Authorization Code Grant
//! (RFC 6749 §4.1).
//!
//! The crate drives the client side of the grant: it prepares the
//! authorization redirect together with a single-use anti-forgery `state`
//! value, validates the provider's callback, performs the code-for-token
//! exchange through a pluggable [`engine::Adapter`], applies the documented
//! provider-quirk scope fallback, and hands the finished
//! [`token::TokenResponse`] to a pluggable [`engine::Callback`].
//!
//! Everything that touches the network or the host web framework (routing,
//! cookie transport, the HTTP client, configuration loading) is a
//! collaborator outside this crate; the engine works on plain values and is
//! verified end to end.

pub mod config;
pub mod engine;
pub mod json;
pub mod query;
pub mod state;
pub mod token;
