use session_refresh::claims::{verify, CookieSpec, DecodeOutcome, JwtToken};
use session_refresh::coordinator::Outcome;
use session_refresh::boundary::{generate_db_error, generate_error, logout_cookies, response_status};

const SECRET: &[u8] = b"test-signing-secret";
const FAR_FUTURE: u64 = 4102444800;

#[test]
fn minted_access_claims_live_one_hour() {
    let t = JwtToken::generate_access_token(9);
    assert_eq!(t.user_id, 9);
    assert_eq!(t.exp, t.iat + 3600);
}

#[test]
fn minted_refresh_claims_live_seven_days() {
    let t = JwtToken::generate_refresh_token(9);
    assert_eq!(t.user_id, 9);
    assert_eq!(t.exp, t.iat + 604800);
}

#[test]
fn encode_then_verify_recovers_the_claims() {
    let claims = JwtToken { iat: 1000, exp: FAR_FUTURE, id: 77, user_id: 42 };
    let cookie = claims.generate_cookie(SECRET, "access_cookie".to_string());
    assert_eq!(verify(&cookie.value, SECRET), DecodeOutcome::Valid(claims));
}

#[test]
fn expired_claims_report_expiry_not_invalidity() {
    let claims = JwtToken { iat: 0, exp: 1, id: 77, user_id: 42 };
    let cookie = claims.generate_cookie(SECRET, "access_cookie".to_string());
    assert_eq!(verify(&cookie.value, SECRET), DecodeOutcome::Expired);
}

#[test]
fn wrong_secret_and_garbage_are_invalid() {
    let claims = JwtToken { iat: 1000, exp: FAR_FUTURE, id: 77, user_id: 42 };
    let cookie = claims.generate_cookie(SECRET, "access_cookie".to_string());
    assert_eq!(verify(&cookie.value, b"another-secret"), DecodeOutcome::Invalid);
    assert_eq!(verify("garbage", SECRET), DecodeOutcome::Invalid);
    assert_eq!(verify("", SECRET), DecodeOutcome::Invalid);
}

#[test]
fn generated_cookie_carries_the_hardened_attributes() {
    let claims = JwtToken { iat: 1000, exp: FAR_FUTURE, id: 77, user_id: 42 };
    let cookie = claims.generate_cookie(SECRET, "access_cookie".to_string());
    assert_eq!(cookie.name, "access_cookie");
    assert_eq!(cookie.path, "/");
    assert!(cookie.secure);
    assert!(cookie.http_only);
    assert_eq!(cookie.max_age_seconds, None);
}

#[test]
fn rebuilt_cookie_keeps_the_value_verbatim() {
    let c: CookieSpec = JwtToken::rebuild_cookie_from_value(
        "refresh_cookie".to_string(),
        "opaque-value".to_string(),
    );
    assert_eq!(c.name, "refresh_cookie");
    assert_eq!(c.value, "opaque-value");
    assert_eq!(c.path, "/");
    assert!(c.secure);
    assert!(c.http_only);
}

#[test]
fn logout_blanks_both_cookies() {
    let (a, r) = logout_cookies();
    assert_eq!(a.name, "access_cookie");
    assert_eq!(r.name, "refresh_cookie");
    assert_eq!(a.value, "");
    assert_eq!(r.value, "");
    assert_eq!(a.max_age_seconds, Some(-1));
    assert_eq!(r.max_age_seconds, Some(-1));
}

#[test]
fn statuses_collapse_to_three_answers() {
    assert_eq!(response_status(&Outcome::Rejected), 401);
    assert_eq!(response_status(&Outcome::InternalError), 500);
    assert_eq!(
        response_status(&Outcome::Authenticated { subject: 1, fresh: None }),
        200
    );
}

#[test]
fn rejection_bodies_are_uniform() {
    assert_eq!(
        generate_error(),
        "{\"status\":\"fail\",\"message\":\"You are not logged in, please provide a token\"}"
    );
    assert_eq!(
        generate_db_error(),
        "{\"status\":\"error\",\"message\":\"Internal server error, database access\"}"
    );
}
