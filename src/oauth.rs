//! The OAuth2 messages exchanged with a provider's token endpoint.

use vstd::prelude::*;

verus! {

/// The query of a provider's redirect back to this service.
pub struct OAuthGrant {
    pub code: String,
}

/// An authorization-code exchange.
pub struct OAuthTokenRequest {
    pub code: String,
    pub grant_type: String,
    pub redirect_uri: String,
}

/// What a provider's token endpoint answers.
pub struct OAuthTokenResponse {
    pub access_token: String,
    pub token_type: String,
    pub expires_in: u64,
    pub refresh_token: String,
}

/// A revocation of a token at a provider.
pub struct OAuthTokenRevokeRequest {
    pub token: String,
    pub token_type_hint: String,
}

/// What this service is registered as at a provider.
pub struct ClientConfig {
    pub client_id: String,
    pub client_secret: String,
    pub redirect_uri: String,
}

/// Why a call to a provider gave nothing usable.
#[derive(Debug, Clone, Copy, PartialEq, Eq, Structural)]
pub enum UpstreamError {
    /// The provider answered with a status other than success.
    Rejected,
    /// The provider could not be reached, or its answer could not be read.
    Unavailable,
}

impl OAuthTokenRequest {
    /// The exchange of `code` for tokens, with the redirect URI registered at
    /// the provider.
    pub fn authorization_code(code: &str, redirect_uri: &str) -> (r: OAuthTokenRequest)
        ensures
            r.code@ == code@,
            r.grant_type@ == "authorization_code"@,
            r.redirect_uri@ == redirect_uri@,
    {
        OAuthTokenRequest {
            code: code.to_owned(),
            grant_type: "authorization_code".to_owned(),
            redirect_uri: redirect_uri.to_owned(),
        }
    }
}

impl OAuthTokenRevokeRequest {
    /// The revocation of an access token.
    pub fn access_token(token: &str) -> (r: OAuthTokenRevokeRequest)
        ensures
            r.token@ == token@,
            r.token_type_hint@ == "access_token"@,
    {
        OAuthTokenRevokeRequest { token: token.to_owned(), token_type_hint: "access_token".to_owned() }
    }
}

} // verus!
