//! The claims codec: encodes a claim set into an opaque, signed, expiring
//! credential and verifies such credentials.
//!
//! Signing and signature verification are delegated to the `jsonwebtoken`
//! crate.  An encoded credential is a function of the claim fields and the
//! secret alone, so it is named by the uninterpreted function [`token_of`];
//! the claim set a credential carries (when its signature verifies) is named
//! by [`payload_of`].  Whether verification reports a well-signed credential
//! as live or expired depends on the clock, so no contract relates those two
//! outcomes to each other.

use vstd::prelude::*;
use jsonwebtoken::{decode, DecodingKey, EncodingKey, Header, Validation};
use jsonwebtoken::errors::ErrorKind;
use serde_json::Value;
use uuid::Uuid;

verus! {

/// Seconds a freshly minted access claim set lives.
pub const ACCESS_LIFETIME: u64 = 3600;

/// Seconds a freshly minted refresh claim set lives.
pub const REFRESH_LIFETIME: u64 = 604800;

/// The claim set carried by a credential: when it was issued, when it
/// expires (both seconds since the epoch), the session identifier `id` and
/// the subject identifier `user_id`.
#[derive(Clone, Copy, PartialEq, Eq, Structural, Debug)]
pub struct JwtToken {
    pub iat: u64,
    pub exp: u64,
    pub id: u128,
    pub user_id: u128,
}

/// What verifying a credential can report.  Expiry is the only recoverable
/// outcome: it alone may drive the rotation path.
#[derive(Clone, Copy, PartialEq, Eq, Structural, Debug)]
pub enum DecodeOutcome {
    /// Signature and expiry both pass; the carried claim set follows.
    Valid(JwtToken),
    /// The signature verifies but the claim set has expired.
    Expired,
    /// Bad signature, malformed payload, or any other terminal failure.
    Invalid,
}

/// The credential that encoding a claim set under a secret produces.
pub uninterp spec fn token_of(iat: u64, exp: u64, id: u128, user_id: u128, secret: Seq<u8>) -> Seq<
    char,
>;

/// The claim set a credential carries under a secret, when the credential is
/// well signed, names no audience (the default validation rejects one), and
/// its payload holds the four claims; `None` otherwise.
pub uninterp spec fn payload_of(token: Seq<char>, secret: Seq<u8>) -> Option<JwtToken>;

impl JwtToken {
    /// Relies on `jsonwebtoken::encode` with the default `HS256` header: the
    /// result is a function of the claim fields and the secret alone, and it
    /// is a well-signed credential carrying exactly these claims.
    #[verifier::external_body]
    pub(crate) fn encode(&self, secret: &[u8]) -> (r: String)
        ensures
            r@ == token_of(self.iat, self.exp, self.id, self.user_id, secret@),
            payload_of(r@, secret@) == Some(*self),
    {
        let mut claims = serde_json::Map::new();
        claims.insert("iat".to_string(), Value::from(self.iat));
        claims.insert("exp".to_string(), Value::from(self.exp));
        claims.insert("id".to_string(), Value::from(Uuid::from_u128(self.id).to_string()));
        let user = Value::from(Uuid::from_u128(self.user_id).to_string());
        claims.insert("user_id".to_string(), user);
        let key = EncodingKey::from_secret(secret);
        jsonwebtoken::encode(&Header::default(), &Value::Object(claims), &key).unwrap()
    }

    /// Mint an access claim set for `user_id`: a fresh random session
    /// identifier, issued now, expiring [`ACCESS_LIFETIME`] seconds later.
    pub fn generate_access_token(user_id: u128) -> (r: JwtToken)
        ensures
            r.user_id == user_id,
            r.exp == r.iat + ACCESS_LIFETIME,
            r.iat + REFRESH_LIFETIME <= u64::MAX,
    {
        let t = now_timestamp();
        let iat: u64 = if t >= 0 {
            t as u64
        } else {
            0
        };
        JwtToken { iat, exp: iat + ACCESS_LIFETIME, id: fresh_session_id(), user_id }
    }

    /// Mint a refresh claim set for `user_id`: a fresh random session
    /// identifier, issued now, expiring [`REFRESH_LIFETIME`] seconds later.
    pub fn generate_refresh_token(user_id: u128) -> (r: JwtToken)
        ensures
            r.user_id == user_id,
            r.exp == r.iat + REFRESH_LIFETIME,
            r.iat + REFRESH_LIFETIME <= u64::MAX,
    {
        let t = now_timestamp();
        let iat: u64 = if t >= 0 {
            t as u64
        } else {
            0
        };
        JwtToken { iat, exp: iat + REFRESH_LIFETIME, id: fresh_session_id(), user_id }
    }

    /// Encode the claim set and wrap it as a response cookie: rooted path,
    /// secure, HTTP-only, no explicit age.
    pub fn generate_cookie(&self, secret: &[u8], name: String) -> (r: CookieSpec)
        ensures
            r.name == name,
            r.value@ == token_of(self.iat, self.exp, self.id, self.user_id, secret@),
            payload_of(r.value@, secret@) == Some(*self),
            r.path@ == "/"@,
            r.secure,
            r.http_only,
            r.max_age_seconds == None::<i64>,
    {
        CookieSpec {
            name,
            value: self.encode(secret),
            path: "/".to_owned(),
            secure: true,
            http_only: true,
            max_age_seconds: None,
        }
    }

    /// Wrap an already-encoded credential as a response cookie, with the same
    /// attributes that [`JwtToken::generate_cookie`] sets.
    pub fn rebuild_cookie_from_value(name: String, value: String) -> (r: CookieSpec)
        ensures
            r.name == name,
            r.value == value,
            r.path@ == "/"@,
            r.secure,
            r.http_only,
            r.max_age_seconds == None::<i64>,
    {
        CookieSpec {
            name,
            value,
            path: "/".to_owned(),
            secure: true,
            http_only: true,
            max_age_seconds: None,
        }
    }
}

/// Verify a credential against the secret: the codec's public operation.
/// Expiry is the only recoverable verdict; see [`decode_signed`] for what
/// each verdict guarantees.
pub fn verify(credential: &str, secret: &[u8]) -> (r: DecodeOutcome)
    ensures
        r matches DecodeOutcome::Valid(c) ==> payload_of(credential@, secret@) == Some(c),
        r is Invalid ==> payload_of(credential@, secret@) is None,
{
    decode_signed(credential, secret)
}

/// Relies on `jsonwebtoken::decode` with the default validation (`HS256`,
/// `exp` required): a credential is reported `Valid` only with exactly the
/// claim set it carries, and is reported `Invalid` exactly when it carries
/// none — a signature or format failure, which no clock reading can repair.
#[verifier::external_body]
pub(crate) fn decode_signed(token: &str, secret: &[u8]) -> (r: DecodeOutcome)
    ensures
        r matches DecodeOutcome::Valid(c) ==> payload_of(token@, secret@) == Some(c),
        r is Invalid ==> payload_of(token@, secret@) is None,
{
    let key = DecodingKey::from_secret(secret);
    match decode::<Value>(token, &key, &Validation::default()) {
        Ok(d) => {
            let iat = d.claims.get("iat").and_then(Value::as_u64);
            let exp = d.claims.get("exp").and_then(Value::as_u64);
            match (iat, exp, uuid_in(d.claims.get("id")), uuid_in(d.claims.get("user_id"))) {
                (Some(iat), Some(exp), Some(id), Some(user_id)) => DecodeOutcome::Valid(JwtToken { iat, exp, id, user_id }),
                _ => DecodeOutcome::Invalid,
            }
        },
        Err(e) if matches!(e.kind(), ErrorKind::ExpiredSignature) => DecodeOutcome::Expired,
        Err(_) => DecodeOutcome::Invalid,
    }
}

#[verifier::external_type_specification]
#[verifier::external_body]
pub struct ExValue(Value);

/// Relies on `uuid::Uuid::parse_str` to read a textual identifier out of a
/// claim field.  Only [`decode_signed`]'s contract speaks for the result.
#[verifier::external_body]
fn uuid_in(v: Option<&Value>) -> Option<u128> {
    v.and_then(Value::as_str).and_then(|s| Uuid::parse_str(s).ok()).map(|u| u.as_u128())
}

/// Relies on `chrono::Utc::now`: seconds since the epoch by the system
/// clock.  Nothing is promised of a clock reading.
#[verifier::external_body]
pub(crate) fn now_timestamp() -> i64 {
    chrono::Utc::now().timestamp()
}

/// Relies on `uuid::Uuid::new_v4`: a freshly drawn random identifier.
/// Nothing is promised of a random value.
#[verifier::external_body]
pub(crate) fn fresh_session_id() -> u128 {
    Uuid::new_v4().as_u128()
}

/// What the routing layer needs to materialise a response cookie.
#[derive(Clone, PartialEq, Eq, Debug)]
pub struct CookieSpec {
    pub name: String,
    pub value: String,
    pub path: String,
    pub secure: bool,
    pub http_only: bool,
    /// `Some(seconds)` bounds the cookie's age; a negative bound discards it.
    pub max_age_seconds: Option<i64>,
}

} // verus!
