use makishima::claims::{parse_claims, write_claims};
use makishima::discord::DiscordIdentity;
use makishima::token::{create_token, decode_token, verify_token, TokenError};

const SECRET: &[u8] = b"session-signing-secret";

fn identity(id: &str, name: &str) -> DiscordIdentity {
    DiscordIdentity { id: id.to_string(), avatar: "abc".to_string(), global_name: name.to_string() }
}

fn chars(s: &str) -> Vec<char> {
    s.chars().collect()
}

#[test]
fn issued_token_verifies_until_expiry() {
    let token = create_token(&identity("80351110224678912", "Nelly"), 3600, 1_700_000_000, SECRET).unwrap();
    assert!(verify_token(&token, 1_700_000_000, SECRET));
    assert!(verify_token(&token, 1_700_003_600, SECRET));
    assert!(!verify_token(&token, 1_700_003_601, SECRET));
}

#[test]
fn token_is_compact_and_not_the_claims() {
    let token = create_token(&identity("7", "n"), 10, 100, SECRET).unwrap();
    assert_eq!(token.matches('.').count(), 2);
    assert!(!token.contains("username"));
}

#[test]
fn decode_recovers_claims() {
    let token = create_token(&identity("80351110224678912", "Nelly \"N\" \\ \u{1}"), 60, 42, SECRET).unwrap();
    let claims = decode_token(&token, SECRET).unwrap();
    assert_eq!(claims.id, "80351110224678912");
    assert_eq!(claims.username, "Nelly \"N\" \\ \u{1}");
    assert_eq!(claims.iat, 42);
    assert_eq!(claims.exp, 102);
}

#[test]
fn decode_ignores_expiry() {
    let token = create_token(&identity("1", "a"), 0, 5, SECRET).unwrap();
    assert!(decode_token(&token, SECRET).is_ok());
    assert!(!verify_token(&token, 6, SECRET));
}

#[test]
fn empty_token_never_verifies() {
    assert!(!verify_token("", 0, SECRET));
    assert_eq!(decode_token("", SECRET).err(), Some(TokenError::Decode));
}

#[test]
fn tampered_signature_fails() {
    let token = create_token(&identity("1", "a"), 3600, 1000, SECRET).unwrap();
    let last = token.chars().last().unwrap();
    let swapped = if last == 'A' { 'B' } else { 'A' };
    let mut tampered: String = token.chars().take(token.chars().count() - 1).collect();
    tampered.push(swapped);
    assert!(!verify_token(&tampered, 1000, SECRET));
    let truncated = token.rsplit_once('.').unwrap().0.to_string() + ".";
    assert!(!verify_token(&truncated, 1000, SECRET));
}

#[test]
fn other_secret_fails() {
    let token = create_token(&identity("1", "a"), 3600, 1000, b"another-secret").unwrap();
    assert!(!verify_token(&token, 1000, SECRET));
    assert_eq!(decode_token(&token, SECRET).err(), Some(TokenError::Decode));
}

#[test]
fn garbage_token_fails() {
    assert!(!verify_token("not.a.token", 0, SECRET));
    assert!(!verify_token("abc", 0, SECRET));
}

#[test]
fn expiry_overflow_is_a_signing_error() {
    let r = create_token(&identity("1", "a"), u64::MAX, 1, SECRET);
    assert_eq!(r.err(), Some(TokenError::Signing));
    assert!(create_token(&identity("1", "a"), u64::MAX - 1, 1, SECRET).is_ok());
}

#[test]
fn claims_text_layout() {
    let text = write_claims(&chars("12"), &chars("a\"b\\c\u{1f}d"), 5, 1234567890);
    let s: String = text.iter().collect();
    assert_eq!(s, "{\"id\":\"12\",\"username\":\"a\\\"b\\\\c\\u001fd\",\"iat\":5,\"exp\":1234567890}");
}

#[test]
fn claims_text_round_trip() {
    let text = write_claims(&chars("ид"), &chars(""), 0, u64::MAX);
    let (id, username, iat, exp) = parse_claims(&text).unwrap();
    assert_eq!(id, chars("ид"));
    assert!(username.is_empty());
    assert_eq!(iat, 0);
    assert_eq!(exp, u64::MAX);
}

#[test]
fn claims_parser_refuses_other_layouts() {
    for s in [
        "{\"id\":\"1\",\"username\":\"a\",\"iat\":05,\"exp\":1}",
        "{\"id\":\"1\",\"username\":\"a\",\"iat\":5,\"exp\":1} ",
        "{\"id\":\"1\",\"username\":\"a\",\"exp\":1,\"iat\":5}",
        "{\"id\":\"1\",\"username\":\"a\",\"iat\":5,\"exp\":18446744073709551616}",
        "{\"id\":\"1\",\"username\":\"a\\n\",\"iat\":5,\"exp\":1}",
        "{\"id\":\"1\",\"username\":\"a",
        "",
    ] {
        assert!(parse_claims(&chars(s)).is_none(), "{}", s);
    }
}
