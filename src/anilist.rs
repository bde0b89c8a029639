//! What is sent to and read from the media provider.

use vstd::prelude::*;
use crate::oauth::OAuthTokenRequest;

verus! {

/// The media provider's code exchange: the client credentials go in the body.
pub struct AnilistOAuthTokenRequest {
    pub oauth: OAuthTokenRequest,
    pub client_id: String,
    pub client_secret: String,
}

/// The viewer's numeric id.
pub struct AnilistViewerInternal {
    pub id: u32,
}

/// The `Viewer` field of the identity query's answer.
pub struct AnilistViewer {
    pub viewer: AnilistViewerInternal,
}

/// The `data` envelope of a GraphQL answer.
pub struct AnilistBaseGraphQLResponse<T> {
    pub data: T,
}

impl AnilistOAuthTokenRequest {
    /// The exchange of `code`, carrying the client id and secret.
    pub fn new(code: &str, redirect_uri: &str, client_id: &str, client_secret: &str) -> (r:
        AnilistOAuthTokenRequest)
        ensures
            r.oauth.code@ == code@,
            r.oauth.grant_type@ == "authorization_code"@,
            r.oauth.redirect_uri@ == redirect_uri@,
            r.client_id@ == client_id@,
            r.client_secret@ == client_secret@,
    {
        AnilistOAuthTokenRequest {
            oauth: OAuthTokenRequest::authorization_code(code, redirect_uri),
            client_id: client_id.to_owned(),
            client_secret: client_secret.to_owned(),
        }
    }
}

} // verus!
