//! The decisions of the four HTTP endpoints. Each handler is a sequence of
//! steps: a step takes what the previous outside call returned and says what
//! to do next, up to the response. The calls themselves are made by the
//! caller.

use vstd::prelude::*;
use crate::anilist::AnilistOAuthTokenRequest;
use crate::discord::{DiscordIdentity, DiscordOAuthTokenResponse};
use crate::error::{DiscordError, STATUS_OK, STATUS_TEMPORARY_REDIRECT, STATUS_UNAUTHORIZED,
    STATUS_INTERNAL_SERVER_ERROR};
use crate::oauth::{ClientConfig, OAuthGrant, OAuthTokenRequest, OAuthTokenResponse,
    OAuthTokenRevokeRequest, UpstreamError};
use crate::store::StoreError;
use crate::token::{create_token, decode_token, issued_token, session_claims, session_valid,
    verify_token};
use crate::user::{MediaAccount, Model};

verus! {

/// Where a redirect goes, on the front end's origin.
#[derive(Debug, Clone, Copy, PartialEq, Eq, Structural)]
pub enum Location {
    /// The application's root.
    AppRoot,
    /// The panel that a signed-in user sees.
    Panel,
}

/// What the response does to the `identity` cookie.
pub enum SetCookie {
    /// Sets it to a session token: http-only, secure, same-site lax, path
    /// `/`, on the serving domain.
    Session(String),
    /// Clears it: empty, and expired.
    Clear,
}

/// An HTTP response.
pub struct Response {
    pub status: u16,
    pub location: Option<Location>,
    pub cookie: Option<SetCookie>,
}

pub open spec fn is_success(status: u16) -> bool {
    200 <= status < 300
}

/// A redirect to `location` that clears the session cookie.
pub open spec fn is_clearing_redirect(r: Response, location: Location) -> bool {
    &&& r.status == STATUS_TEMPORARY_REDIRECT
    &&& r.location == Some(location)
    &&& r.cookie matches Some(SetCookie::Clear)
}

/// A response with a status and nothing else.
pub open spec fn is_bare(r: Response, status: u16) -> bool {
    &&& r.status == status
    &&& r.location is None
    &&& r.cookie is None
}

fn bare(status: u16) -> (r: Response)
    ensures
        is_bare(r, status),
{
    Response { status, location: None, cookie: None }
}

fn clearing_redirect(location: Location) -> (r: Response)
    ensures
        is_clearing_redirect(r, location),
{
    Response { status: STATUS_TEMPORARY_REDIRECT, location: Some(location), cookie: Some(SetCookie::Clear) }
}

/// The value of the `identity` cookie, the empty string when there is none.
pub open spec fn cookie_value(cookie: Option<&str>) -> Seq<char> {
    match cookie {
        Some(c) => c@,
        None => Seq::empty(),
    }
}

/// `GET /verify`: 200 when the `identity` cookie holds a valid session at
/// `now`, 401 otherwise. Without the cookie the answer is 401; with a token
/// just issued it is 200.
pub fn discord_verify(cookie: Option<&str>, now: u64, secret: &[u8]) -> (r: Response)
    ensures
        is_bare(r, if session_valid(cookie_value(cookie), secret@, now as nat) {
            STATUS_OK
        } else {
            STATUS_UNAUTHORIZED
        }),
        cookie is None ==> r.status == STATUS_UNAUTHORIZED,
        forall|id: Seq<char>, username: Seq<char>, iat: nat, ttl: nat|
            iat + ttl <= u64::MAX && now <= iat + ttl && cookie_value(cookie) == #[trigger] issued_token(
                id,
                username,
                iat,
                ttl,
                secret@,
            ) ==> r.status == STATUS_OK,
{
    proof {
        reveal_strlit("");
    }
    assert(""@ =~= Seq::<char>::empty());
    let verified = match cookie {
        Some(c) => verify_token(c, now, secret),
        None => verify_token("", now, secret),
    };
    if verified {
        bare(STATUS_OK)
    } else {
        bare(DiscordError::Unauthorized.status_code())
    }
}

/// A step of `GET /logout`.
pub enum LogoutStep {
    /// Revoke the token at the chat provider, then call `discord_logout_revoked`.
    Revoke(OAuthTokenRevokeRequest),
    Respond(Response),
}

/// `GET /logout`: with an `identity` cookie, revoke it at the provider
/// first; without one, redirect to the root at once, clearing the cookie.
pub fn discord_logout(cookie: Option<&str>) -> (r: LogoutStep)
    ensures
        match cookie {
            Some(c) => r matches LogoutStep::Revoke(q) && q.token@ == c@ && q.token_type_hint@ == "access_token"@,
            None => r matches LogoutStep::Respond(resp) && is_clearing_redirect(resp, Location::AppRoot),
        },
{
    match cookie {
        Some(c) => LogoutStep::Revoke(OAuthTokenRevokeRequest::access_token(c)),
        None => LogoutStep::Respond(clearing_redirect(Location::AppRoot)),
    }
}

/// The end of `GET /logout`: whatever the revocation gave, a redirect to the
/// root that clears the cookie.
pub fn discord_logout_revoked(outcome: Result<(), UpstreamError>) -> (r: Response)
    ensures
        is_clearing_redirect(r, Location::AppRoot),
{
    clearing_redirect(Location::AppRoot)
}

/// A step of `GET /redirect/discord`.
pub enum DiscordStep {
    /// Exchange the code, then call `discord_exchanged`.
    ExchangeCode(OAuthTokenRequest),
    /// Fetch the signed-in identity with this access token, then call
    /// `discord_identified`.
    FetchIdentity(String),
    /// Store the user, then call `discord_stored` with the session token.
    StoreUser { user: Model, session: String },
    Respond(Response),
}

/// `GET /redirect/discord`: exchange the code that the provider sent back.
pub fn discord_oauth(grant: &OAuthGrant, client: &ClientConfig) -> (r: DiscordStep)
    ensures
        r matches DiscordStep::ExchangeCode(q) && q.code@ == grant.code@ && q.grant_type@
            == "authorization_code"@ && q.redirect_uri@ == client.redirect_uri@,
{
    DiscordStep::ExchangeCode(
        OAuthTokenRequest::authorization_code(grant.code.as_str(), client.redirect_uri.as_str()),
    )
}

/// After the exchange: fetch the identity with the access token. A code that
/// the provider rejected is answered 401, any other failure 500, and nothing
/// is stored.
pub fn discord_exchanged(outcome: &Result<DiscordOAuthTokenResponse, UpstreamError>) -> (r: DiscordStep)
    ensures
        match outcome {
            Ok(t) => r matches DiscordStep::FetchIdentity(a) && a@ == t.oauth_response.access_token@,
            Err(UpstreamError::Rejected) => r matches DiscordStep::Respond(resp) && is_bare(resp, STATUS_UNAUTHORIZED),
            Err(UpstreamError::Unavailable) => r matches DiscordStep::Respond(resp) && is_bare(resp, STATUS_INTERNAL_SERVER_ERROR),
        },
        outcome is Err ==> (r matches DiscordStep::Respond(resp) && !is_success(resp.status)),
{
    match outcome {
        Ok(t) => DiscordStep::FetchIdentity(t.oauth_response.access_token.clone()),
        Err(UpstreamError::Rejected) => DiscordStep::Respond(bare(STATUS_UNAUTHORIZED)),
        Err(UpstreamError::Unavailable) => DiscordStep::Respond(bare(DiscordError::InternalError.status_code())),
    }
}

/// After the identity is known: issue a session token for it at `now`,
/// valid as long as the provider's access token, and store the user with
/// that access token. A failed fetch, or an expiry past the range of a
/// `u64`, is answered 500.
pub fn discord_identified(
    tokens: &DiscordOAuthTokenResponse,
    outcome: Result<DiscordIdentity, UpstreamError>,
    now: u64,
    secret: &[u8],
) -> (r: DiscordStep)
    ensures
        match outcome {
            Ok(identity) => if now + tokens.oauth_response.expires_in <= u64::MAX {
                r matches DiscordStep::StoreUser { user, session } && user.id@ == identity.id@
                    && user.discord_token@ == tokens.oauth_response.access_token@ && user.anilist_id is None
                    && session@ == issued_token(identity.id@, identity.global_name@, now as nat,
                    tokens.oauth_response.expires_in as nat, secret@)
            } else {
                r matches DiscordStep::Respond(resp) && is_bare(resp, STATUS_INTERNAL_SERVER_ERROR)
            },
            Err(_) => r matches DiscordStep::Respond(resp) && is_bare(resp, STATUS_INTERNAL_SERVER_ERROR),
        },
{
    match outcome {
        Ok(identity) => match create_token(&identity, tokens.oauth_response.expires_in, now, secret) {
            Ok(session) => DiscordStep::StoreUser {
                user: Model {
                    id: identity.id,
                    discord_token: tokens.oauth_response.access_token.clone(),
                    anilist_id: None,
                },
                session,
            },
            Err(_) => DiscordStep::Respond(bare(STATUS_INTERNAL_SERVER_ERROR)),
        },
        Err(_) => DiscordStep::Respond(bare(STATUS_INTERNAL_SERVER_ERROR)),
    }
}

/// After the user is stored: redirect to the root, setting the session
/// cookie. A failed write is answered 500.
pub fn discord_stored(session: String, outcome: Result<(), StoreError>) -> (r: Response)
    ensures
        match outcome {
            Ok(_) => r.status == STATUS_TEMPORARY_REDIRECT && r.location == Some(Location::AppRoot)
                && (r.cookie matches Some(SetCookie::Session(s)) && s@ == session@),
            Err(_) => is_bare(r, STATUS_INTERNAL_SERVER_ERROR),
        },
{
    match outcome {
        Ok(_) => Response {
            status: STATUS_TEMPORARY_REDIRECT,
            location: Some(Location::AppRoot),
            cookie: Some(SetCookie::Session(session)),
        },
        Err(_) => bare(STATUS_INTERNAL_SERVER_ERROR),
    }
}

/// A step of `GET /redirect/anilist`.
pub enum AnilistStep {
    /// Exchange the code, then call `anilist_exchanged`.
    ExchangeCode { request: AnilistOAuthTokenRequest, user_id: String },
    /// Fetch the viewer's id with this access token, then call
    /// `anilist_identified`.
    FetchViewer(String),
    /// Store the media account, then call `anilist_media_stored`.
    StoreMedia(MediaAccount),
    /// Link the user to the media account, then call `anilist_linked`.
    Link { user_id: String, media_id: u32 },
    Respond(Response),
}

/// `GET /redirect/anilist`: only with a valid session at `now`; without one,
/// redirect to the root, clearing the cookie. With one, exchange the code,
/// and keep the session's user id for the link.
pub fn anilist_redirect(
    cookie: Option<&str>,
    grant: &OAuthGrant,
    client: &ClientConfig,
    now: u64,
    secret: &[u8],
) -> (r: AnilistStep)
    ensures
        !session_valid(cookie_value(cookie), secret@, now as nat) ==> (r matches AnilistStep::Respond(
            resp,
        ) && is_clearing_redirect(resp, Location::AppRoot)),
        session_valid(cookie_value(cookie), secret@, now as nat) ==> (r matches AnilistStep::ExchangeCode {
            request,
            user_id,
        } && user_id@ == session_claims(cookie_value(cookie), secret@).unwrap().0 && request.oauth.code@
            == grant.code@ && request.oauth.grant_type@ == "authorization_code"@
            && request.oauth.redirect_uri@ == client.redirect_uri@ && request.client_id@
            == client.client_id@ && request.client_secret@ == client.client_secret@),
{
    proof {
        reveal_strlit("");
    }
    assert(""@ =~= Seq::<char>::empty());
    let value = match cookie {
        Some(c) => c,
        None => "",
    };
    match decode_token(value, secret) {
        Ok(claims) => {
            if now <= claims.exp {
                AnilistStep::ExchangeCode {
                    request: AnilistOAuthTokenRequest::new(
                        grant.code.as_str(),
                        client.redirect_uri.as_str(),
                        client.client_id.as_str(),
                        client.client_secret.as_str(),
                    ),
                    user_id: claims.id,
                }
            } else {
                AnilistStep::Respond(clearing_redirect(Location::AppRoot))
            }
        },
        Err(_) => AnilistStep::Respond(clearing_redirect(Location::AppRoot)),
    }
}

/// After the exchange: fetch the viewer with the access token. Any failure
/// is answered 401.
pub fn anilist_exchanged(outcome: &Result<OAuthTokenResponse, UpstreamError>) -> (r: AnilistStep)
    ensures
        match outcome {
            Ok(t) => r matches AnilistStep::FetchViewer(a) && a@ == t.access_token@,
            Err(_) => r matches AnilistStep::Respond(resp) && is_bare(resp, STATUS_UNAUTHORIZED),
        },
{
    match outcome {
        Ok(t) => AnilistStep::FetchViewer(t.access_token.clone()),
        Err(_) => AnilistStep::Respond(bare(STATUS_UNAUTHORIZED)),
    }
}

/// After the viewer is known: store the media account with its tokens,
/// expiring `expires_in` seconds after `now`. A failed fetch, or an expiry
/// past the range of a `u64`, is answered 500.
pub fn anilist_identified(tokens: &OAuthTokenResponse, outcome: Result<u32, UpstreamError>, now: u64) -> (r:
    AnilistStep)
    ensures
        match outcome {
            Ok(id) => if now + tokens.expires_in <= u64::MAX {
                r matches AnilistStep::StoreMedia(a) && a.id == id && a.access_token@ == tokens.access_token@
                    && a.refresh_token@ == tokens.refresh_token@ && a.expiry == now + tokens.expires_in
            } else {
                r matches AnilistStep::Respond(resp) && is_bare(resp, STATUS_INTERNAL_SERVER_ERROR)
            },
            Err(_) => r matches AnilistStep::Respond(resp) && is_bare(resp, STATUS_INTERNAL_SERVER_ERROR),
        },
{
    match outcome {
        Ok(id) => match now.checked_add(tokens.expires_in) {
            Some(expiry) => AnilistStep::StoreMedia(
                MediaAccount {
                    id,
                    access_token: tokens.access_token.clone(),
                    refresh_token: tokens.refresh_token.clone(),
                    expiry,
                },
            ),
            None => AnilistStep::Respond(bare(STATUS_INTERNAL_SERVER_ERROR)),
        },
        Err(_) => AnilistStep::Respond(bare(STATUS_INTERNAL_SERVER_ERROR)),
    }
}

/// After the media account is stored: link it to the session's user. A
/// failed write is answered 500.
pub fn anilist_media_stored(user_id: String, media_id: u32, outcome: Result<(), StoreError>) -> (r: AnilistStep)
    ensures
        match outcome {
            Ok(_) => r matches AnilistStep::Link { user_id: u, media_id: m } && u@ == user_id@ && m == media_id,
            Err(_) => r matches AnilistStep::Respond(resp) && is_bare(resp, STATUS_INTERNAL_SERVER_ERROR),
        },
{
    match outcome {
        Ok(_) => AnilistStep::Link { user_id, media_id },
        Err(_) => AnilistStep::Respond(bare(STATUS_INTERNAL_SERVER_ERROR)),
    }
}

/// The end of `GET /redirect/anilist`: a redirect to the panel once linked;
/// a failed link is answered 500.
pub fn anilist_linked(outcome: Result<(), StoreError>) -> (r: Response)
    ensures
        match outcome {
            Ok(_) => r.status == STATUS_TEMPORARY_REDIRECT && r.location == Some(Location::Panel) && r.cookie is None,
            Err(_) => is_bare(r, STATUS_INTERNAL_SERVER_ERROR),
        },
{
    match outcome {
        Ok(_) => Response { status: STATUS_TEMPORARY_REDIRECT, location: Some(Location::Panel), cookie: None },
        Err(_) => bare(STATUS_INTERNAL_SERVER_ERROR),
    }
}

} // verus!
