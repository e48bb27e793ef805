use vstd::prelude::*;

verus! {

/// Resolved client configuration for one OAuth provider: the registered
/// client credentials and the provider's endpoints. Loading these values
/// from the host application's configuration is a collaborator concern;
/// the engine only ever reads them, so the struct is plain immutable data.
pub struct OAuthConfig {
    /// The client identifier issued to the application by the provider.
    pub client_id: String,
    /// The client secret issued to the application by the provider.
    pub client_secret: String,
    /// The provider's authorization endpoint.
    pub auth_uri: String,
    /// The provider's token endpoint.
    pub token_uri: String,
    /// The redirect URI registered with the provider.
    pub redirect_uri: String,
}

impl OAuthConfig {
    /// Assemble a configuration from already-resolved values.
    pub fn new(
        client_id: String,
        client_secret: String,
        auth_uri: String,
        token_uri: String,
        redirect_uri: String,
    ) -> (r: OAuthConfig)
        ensures
            r.client_id == client_id,
            r.client_secret == client_secret,
            r.auth_uri == auth_uri,
            r.token_uri == token_uri,
            r.redirect_uri == redirect_uri,
    {
        OAuthConfig { client_id, client_secret, auth_uri, token_uri, redirect_uri }
    }
}

} // verus!
