//! The session token: an HS256-signed compact token whose payload is the
//! claims text of `claims`, checked for expiry against a given time.

use vstd::prelude::*;
use crate::claims::{claims_text, parse_claims, read_claims, write_claims, lemma_read_claims_sound,
    lemma_read_claims_text};
use crate::discord::DiscordIdentity;

verus! {

#[verifier::external_type_specification]
#[verifier::external_body]
pub struct ExJwtError(jsonwebtoken::errors::Error);

/// The token that `jsonwebtoken::encode` makes of a claims text under a secret.
pub uninterp spec fn hs256_token(claims: Seq<char>, secret: Seq<u8>) -> Seq<char>;

/// The claims text that `jsonwebtoken::decode` finds in a token whose
/// signature checks under a secret, or nothing.
pub uninterp spec fn hs256_open(token: Seq<char>, secret: Seq<u8>) -> Option<Seq<char>>;

/// Relies on `jsonwebtoken::encode` with the default header (HS256): the
/// claims text, passed through unchanged as a `serde_json` raw value, is the
/// payload, and the result is a function of the text and the secret. It
/// fails only where `RawValue::from_string` refuses text that is not JSON;
/// a claims text is JSON, and HMAC signing does not fail.
#[verifier::external_body]
fn seal(claims: &str, secret: &[u8]) -> (r: Result<String, jsonwebtoken::errors::Error>)
    ensures
        r is Ok ==> r->Ok_0@ == hs256_token(claims@, secret@),
        (exists|id: Seq<char>, username: Seq<char>, iat: nat, exp: nat|
            iat <= u64::MAX && exp <= u64::MAX && claims@ == #[trigger] claims_text(id, username, iat, exp))
            ==> r is Ok,
{
    let raw = serde_json::value::RawValue::from_string(claims.to_owned())?;
    jsonwebtoken::encode(
        &jsonwebtoken::Header::default(),
        &raw,
        &jsonwebtoken::EncodingKey::from_secret(secret),
    )
}

/// Relies on `jsonwebtoken::decode` with HS256 and its clock check off: it
/// checks the signature, returns the payload's JSON text unchanged, takes a
/// token that `encode` made of a claims text back to that text, and refuses
/// a token without its three parts.
#[verifier::external_body]
fn open(token: &str, secret: &[u8]) -> (r: Result<String, jsonwebtoken::errors::Error>)
    ensures
        r is Ok <==> hs256_open(token@, secret@) is Some,
        r is Ok ==> r->Ok_0@ == hs256_open(token@, secret@).unwrap(),
        token@.len() == 0 ==> r is Err,
        forall|id: Seq<char>, username: Seq<char>, iat: nat, exp: nat|
            iat <= u64::MAX && exp <= u64::MAX && token@ == #[trigger] hs256_token(
                claims_text(id, username, iat, exp),
                secret@,
            ) ==> r is Ok && r->Ok_0@ == claims_text(id, username, iat, exp),
{
    let mut validation = jsonwebtoken::Validation::new(jsonwebtoken::Algorithm::HS256);
    validation.validate_exp = false;
    let key = jsonwebtoken::DecodingKey::from_secret(secret);
    jsonwebtoken::decode::<Box<serde_json::value::RawValue>>(token, &key, &validation).map(
        |data| data.claims.get().to_owned(),
    )
}

/// The characters of `s` in order.
pub(crate) fn chars_of(s: &str) -> (r: Vec<char>)
    ensures
        r@ == s@,
{
    broadcast use vstd::string::group_string_axioms;
    let mut r: Vec<char> = Vec::new();
    for c in it: s.chars()
        invariant
            it.seq() == s@,
            r@ == it.seq().take(it.index() as int),
    {
        r.push(c);
        assert(r@ =~= it.seq().take(it.index() as int + 1));
    }
    assert(r@ =~= s@);
    r
}

/// Relies on `String`'s `FromIterator<&char>`: the string of those characters.
#[verifier::external_body]
pub(crate) fn string_of(v: &Vec<char>) -> (r: String)
    ensures
        r@ == v@,
{
    String::from_iter(v.iter())
}

/// What a session token asserts.
pub struct Claims {
    pub id: String,
    pub username: String,
    pub iat: u64,
    pub exp: u64,
}

/// Why the codec gave no token or no claims.
#[derive(Debug, Clone, Copy, PartialEq, Eq, Structural)]
pub enum TokenError {
    /// No token could be made.
    Signing,
    /// The token is malformed, or its signature does not check.
    Decode,
}

/// The claims of a token whose signature checks under `secret`.
pub open spec fn session_claims(token: Seq<char>, secret: Seq<u8>) -> Option<
    (Seq<char>, Seq<char>, nat, nat),
> {
    match hs256_open(token, secret) {
        Some(t) => read_claims(t),
        None => None,
    }
}

/// A token is a valid session at `now`: its signature checks and it has not
/// expired.
pub open spec fn session_valid(token: Seq<char>, secret: Seq<u8>, now: nat) -> bool {
    match session_claims(token, secret) {
        Some(c) => now <= c.3,
        None => false,
    }
}

/// The token issued at `now` for `identity`, valid for `ttl` seconds.
pub open spec fn issued_token(id: Seq<char>, username: Seq<char>, now: nat, ttl: nat, secret: Seq<u8>) -> Seq<char> {
    hs256_token(claims_text(id, username, now, now + ttl), secret)
}

/// Issues a session token for `identity` at `now`, expiring `expiry_time`
/// seconds later.
pub fn create_token(identity: &DiscordIdentity, expiry_time: u64, now: u64, secret: &[u8]) -> (r:
    Result<String, TokenError>)
    ensures
        now + expiry_time > u64::MAX ==> r == Err::<String, TokenError>(TokenError::Signing),
        now + expiry_time <= u64::MAX ==> r is Ok,
        r is Ok ==> r->Ok_0@ == issued_token(identity.id@, identity.global_name@, now as nat, expiry_time as nat, secret@),
        r is Err ==> r == Err::<String, TokenError>(TokenError::Signing),
{
    let exp = match now.checked_add(expiry_time) {
        Some(e) => e,
        None => return Err(TokenError::Signing),
    };
    let id = chars_of(identity.id.as_str());
    let username = chars_of(identity.global_name.as_str());
    let text = write_claims(&id, &username, now, exp);
    let claims = string_of(&text);
    assert(claims@ == claims_text(id@, username@, now as nat, exp as nat));
    match seal(claims.as_str(), secret) {
        Ok(token) => Ok(token),
        Err(_) => Err(TokenError::Signing),
    }
}

/// The claims of `jwt` if its signature checks under `secret`; the expiry is
/// not looked at. Only payloads in the layout that `create_token` writes are
/// read (`read_claims`): a token signed with the same secret whose payload
/// has other whitespace, another key order or another escape style (`\n`
/// where `create_token` writes `\u000a`) is refused as `Decode`.
pub fn decode_token(jwt: &str, secret: &[u8]) -> (r: Result<Claims, TokenError>)
    ensures
        r is Ok <==> session_claims(jwt@, secret@) is Some,
        r is Ok ==> ({
            let c = session_claims(jwt@, secret@).unwrap();
            &&& r->Ok_0.id@ == c.0
            &&& r->Ok_0.username@ == c.1
            &&& r->Ok_0.iat == c.2
            &&& r->Ok_0.exp == c.3
        }),
        r is Ok ==> hs256_open(jwt@, secret@) == Some(
            claims_text(r->Ok_0.id@, r->Ok_0.username@, r->Ok_0.iat as nat, r->Ok_0.exp as nat),
        ),
        r is Err ==> r == Err::<Claims, TokenError>(TokenError::Decode),
        jwt@.len() == 0 ==> r is Err,
        forall|id: Seq<char>, username: Seq<char>, iat: nat, exp: nat|
            iat <= u64::MAX && exp <= u64::MAX && jwt@ == #[trigger] hs256_token(
                claims_text(id, username, iat, exp),
                secret@,
            ) ==> r is Ok && r->Ok_0.id@ == id && r->Ok_0.username@ == username && r->Ok_0.iat
                == iat && r->Ok_0.exp == exp,
{
    let text = match open(jwt, secret) {
        Ok(t) => t,
        Err(_) => return Err(TokenError::Decode),
    };
    proof {
        assert forall|id: Seq<char>, username: Seq<char>, iat: nat, exp: nat|
            iat <= u64::MAX && exp <= u64::MAX && jwt@ == #[trigger] hs256_token(
                claims_text(id, username, iat, exp),
                secret@,
            ) implies read_claims(text@) == Some((id, username, iat, exp)) by {
            lemma_read_claims_text(id, username, iat, exp);
        }
        if read_claims(text@) is Some {
            lemma_read_claims_sound(text@);
        }
    }
    match parse_claims(&chars_of(text.as_str())) {
        Some((id, username, iat, exp)) => Ok(
            Claims { id: string_of(&id), username: string_of(&username), iat, exp },
        ),
        None => Err(TokenError::Decode),
    }
}

/// Whether `jwt` is a valid session at `now` under `secret`: its signature
/// checks and its expiry has not passed. A token that `create_token` issued
/// at `iat` for `ttl` seconds is valid exactly up to `iat + ttl`; the empty
/// string is never valid.
pub fn verify_token(jwt: &str, now: u64, secret: &[u8]) -> (r: bool)
    ensures
        r == session_valid(jwt@, secret@, now as nat),
        jwt@.len() == 0 ==> !r,
        forall|id: Seq<char>, username: Seq<char>, iat: nat, ttl: nat|
            iat + ttl <= u64::MAX && jwt@ == #[trigger] issued_token(id, username, iat, ttl, secret@)
                ==> (r <==> now <= iat + ttl),
{
    match decode_token(jwt, secret) {
        Ok(claims) => now <= claims.exp,
        Err(_) => false,
    }
}

} // verus!
