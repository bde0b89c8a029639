use makishima::discord::{DiscordIdentity, DiscordOAuthTokenResponse};
use makishima::error::DiscordError;
use makishima::graphql::{GraphQLRequest, GET_IDENTITY_QUERY};
use makishima::oauth::{ClientConfig, OAuthGrant, OAuthTokenResponse, UpstreamError};
use makishima::routes::{
    anilist_exchanged, anilist_identified, anilist_linked, anilist_media_stored, anilist_redirect,
    discord_exchanged, discord_identified, discord_logout, discord_logout_revoked, discord_oauth,
    discord_stored, discord_verify, AnilistStep, DiscordStep, Location, LogoutStep, Response, SetCookie,
};
use makishima::store::StoreError;
use makishima::token::{create_token, decode_token};

const SECRET: &[u8] = b"routes-secret";

fn client() -> ClientConfig {
    ClientConfig {
        client_id: "cid".to_string(),
        client_secret: "csecret".to_string(),
        redirect_uri: "http://localhost:3000/redirect".to_string(),
    }
}

fn tokens(expires_in: u64) -> OAuthTokenResponse {
    OAuthTokenResponse {
        access_token: "access".to_string(),
        token_type: "Bearer".to_string(),
        expires_in,
        refresh_token: "refresh".to_string(),
    }
}

fn session(now: u64) -> String {
    let identity = DiscordIdentity { id: "42".to_string(), avatar: String::new(), global_name: "Ann".to_string() };
    create_token(&identity, 600, now, SECRET).unwrap()
}

fn is_clearing_redirect(r: &Response, location: Location) -> bool {
    r.status == 307 && r.location == Some(location) && matches!(r.cookie, Some(SetCookie::Clear))
}

#[test]
fn verify_without_cookie_is_unauthorized() {
    assert_eq!(discord_verify(None, 0, SECRET).status, 401);
}

#[test]
fn verify_with_fresh_token_is_ok() {
    let token = session(1000);
    let r = discord_verify(Some(&token), 1000, SECRET);
    assert_eq!(r.status, 200);
    assert!(r.location.is_none() && r.cookie.is_none());
    assert_eq!(discord_verify(Some(&token), 1601, SECRET).status, 401);
    assert_eq!(discord_verify(Some("junk"), 1000, SECRET).status, 401);
}

#[test]
fn rejected_code_answers_non_success_and_stores_nothing() {
    match discord_exchanged(&Err(UpstreamError::Rejected)) {
        DiscordStep::Respond(r) => assert_eq!(r.status, 401),
        _ => panic!("expected a response"),
    }
    match discord_exchanged(&Err(UpstreamError::Unavailable)) {
        DiscordStep::Respond(r) => assert_eq!(r.status, 500),
        _ => panic!("expected a response"),
    }
}

#[test]
fn discord_flow_sets_session_cookie() {
    let grant = OAuthGrant { code: "the-code".to_string() };
    match discord_oauth(&grant, &client()) {
        DiscordStep::ExchangeCode(q) => {
            assert_eq!(q.code, "the-code");
            assert_eq!(q.grant_type, "authorization_code");
            assert_eq!(q.redirect_uri, "http://localhost:3000/redirect");
        }
        _ => panic!("expected an exchange"),
    }
    let answer = DiscordOAuthTokenResponse { oauth_response: tokens(604800), scope: "identify".to_string() };
    let outcome = Ok(answer);
    match discord_exchanged(&outcome) {
        DiscordStep::FetchIdentity(a) => assert_eq!(a, "access"),
        _ => panic!("expected a fetch"),
    }
    let answer = outcome.unwrap();
    let identity = DiscordIdentity { id: "42".to_string(), avatar: String::new(), global_name: "Ann".to_string() };
    let (user, session) = match discord_identified(&answer, Ok(identity), 1000, SECRET) {
        DiscordStep::StoreUser { user, session } => (user, session),
        _ => panic!("expected a store"),
    };
    assert_eq!(user.id, "42");
    assert_eq!(user.discord_token, "access");
    assert_eq!(user.anilist_id, None);
    let claims = decode_token(&session, SECRET).unwrap();
    assert_eq!((claims.id.as_str(), claims.username.as_str(), claims.iat, claims.exp), ("42", "Ann", 1000, 605800));
    let r = discord_stored(session.clone(), Ok(()));
    assert_eq!(r.status, 307);
    assert_eq!(r.location, Some(Location::AppRoot));
    assert!(matches!(r.cookie, Some(SetCookie::Session(ref s)) if *s == session));
    assert_eq!(discord_stored(session, Err(StoreError::Constraint)).status, 500);
}

#[test]
fn failed_identity_fetch_is_internal_error() {
    let answer = DiscordOAuthTokenResponse { oauth_response: tokens(60), scope: String::new() };
    match discord_identified(&answer, Err(UpstreamError::Unavailable), 0, SECRET) {
        DiscordStep::Respond(r) => assert_eq!(r.status, 500),
        _ => panic!("expected a response"),
    }
    let identity = DiscordIdentity { id: "1".to_string(), avatar: String::new(), global_name: "a".to_string() };
    match discord_identified(&answer, Ok(identity), u64::MAX, SECRET) {
        DiscordStep::Respond(r) => assert_eq!(r.status, 500),
        _ => panic!("expected a response"),
    }
}

#[test]
fn logout_always_clears_cookie() {
    assert!(matches!(discord_logout(None), LogoutStep::Respond(ref r) if is_clearing_redirect(r, Location::AppRoot)));
    match discord_logout(Some("tok")) {
        LogoutStep::Revoke(q) => {
            assert_eq!(q.token, "tok");
            assert_eq!(q.token_type_hint, "access_token");
        }
        _ => panic!("expected a revocation"),
    }
    assert!(is_clearing_redirect(&discord_logout_revoked(Ok(())), Location::AppRoot));
    assert!(is_clearing_redirect(&discord_logout_revoked(Err(UpstreamError::Rejected)), Location::AppRoot));
    assert!(is_clearing_redirect(&discord_logout_revoked(Err(UpstreamError::Unavailable)), Location::AppRoot));
}

#[test]
fn anilist_without_session_clears_cookie() {
    let grant = OAuthGrant { code: "c".to_string() };
    assert!(matches!(anilist_redirect(None, &grant, &client(), 0, SECRET), AnilistStep::Respond(ref r) if is_clearing_redirect(r, Location::AppRoot)));
    let expired = session(0);
    assert!(matches!(anilist_redirect(Some(&expired), &grant, &client(), 601, SECRET), AnilistStep::Respond(ref r) if is_clearing_redirect(r, Location::AppRoot)));
}

#[test]
fn anilist_flow_links_account() {
    let grant = OAuthGrant { code: "c".to_string() };
    let cookie = session(100);
    match anilist_redirect(Some(&cookie), &grant, &client(), 200, SECRET) {
        AnilistStep::ExchangeCode { request, user_id } => {
            assert_eq!(user_id, "42");
            assert_eq!(request.oauth.code, "c");
            assert_eq!(request.oauth.grant_type, "authorization_code");
            assert_eq!(request.client_id, "cid");
            assert_eq!(request.client_secret, "csecret");
        }
        _ => panic!("expected an exchange"),
    }
    assert!(matches!(anilist_exchanged(&Err(UpstreamError::Unavailable)), AnilistStep::Respond(ref r) if r.status == 401));
    assert!(matches!(anilist_exchanged(&Ok(tokens(10))), AnilistStep::FetchViewer(ref a) if a == "access"));
    match anilist_identified(&tokens(31536000), Ok(5143), 1_700_000_000) {
        AnilistStep::StoreMedia(a) => {
            assert_eq!(a.id, 5143);
            assert_eq!(a.access_token, "access");
            assert_eq!(a.refresh_token, "refresh");
            assert_eq!(a.expiry, 1_731_536_000);
        }
        _ => panic!("expected a store"),
    }
    assert!(matches!(anilist_identified(&tokens(2), Ok(1), u64::MAX - 1), AnilistStep::Respond(ref r) if r.status == 500));
    assert!(matches!(anilist_identified(&tokens(2), Err(UpstreamError::Rejected), 0), AnilistStep::Respond(ref r) if r.status == 500));
    assert!(matches!(anilist_media_stored("42".to_string(), 5143, Ok(())), AnilistStep::Link { ref user_id, media_id: 5143 } if user_id == "42"));
    assert!(matches!(anilist_media_stored("42".to_string(), 5143, Err(StoreError::Unavailable)), AnilistStep::Respond(ref r) if r.status == 500));
    let done = anilist_linked(Ok(()));
    assert_eq!((done.status, done.location), (307, Some(Location::Panel)));
    assert_eq!(anilist_linked(Err(StoreError::NotFound)).status, 500);
}

#[test]
fn error_status_codes() {
    assert_eq!(DiscordError::InternalError.status_code(), 500);
    assert_eq!(DiscordError::Unauthorized.status_code(), 401);
    assert_eq!(DiscordError::InternalError.message(), "internal server error");
}

#[test]
fn viewer_identity_query() {
    let q = GraphQLRequest::viewer_identity();
    assert_eq!(q.query, GET_IDENTITY_QUERY);
    assert!(q.query.contains("Viewer"));
    assert!(q.operation_name.is_empty());
    assert!(q.variables.is_none());
}
