//! What the chat provider answers.

use vstd::prelude::*;
use crate::oauth::OAuthTokenResponse;

verus! {

/// The chat provider's answer to a code exchange.
pub struct DiscordOAuthTokenResponse {
    pub oauth_response: OAuthTokenResponse,
    pub scope: String,
}

/// The signed-in chat account.
pub struct DiscordIdentity {
    pub id: String,
    pub avatar: String,
    pub global_name: String,
}

} // verus!
