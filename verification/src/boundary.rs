//! The boundary adapter: what the routing layer answers for each
//! coordinator verdict.  This layer never decides rotation itself; it only
//! maps outcomes to statuses, bodies and cookies.

use vstd::prelude::*;
use crate::claims::CookieSpec;
use crate::coordinator::{Outcome, OutcomeModel};

verus! {

/// Marks a route as requiring authentication: the routing layer wraps the
/// coordinator around every request below it.
pub struct AuthRequired;

/// The status each verdict maps to: every credential rejection collapses to
/// one unauthenticated answer, every store failure to one server error.
pub open spec fn status_of(o: OutcomeModel) -> u16 {
    match o {
        OutcomeModel::Rejected => 401,
        OutcomeModel::InternalError => 500,
        OutcomeModel::Granted { .. } => 200,
    }
}

/// Map a coordinator verdict to the response status.
pub fn response_status(outcome: &Outcome) -> (r: u16)
    ensures
        r == status_of(outcome@),
{
    match outcome {
        Outcome::Rejected => 401,
        Outcome::InternalError => 500,
        Outcome::Authenticated { .. } => 200,
    }
}

/// The body sent with every credential rejection: one uniform message,
/// deliberately silent about which validation step failed.
pub fn generate_error() -> (r: String)
    ensures
        r@ == "{\"status\":\"fail\",\"message\":\"You are not logged in, please provide a token\"}"@,
{
    "{\"status\":\"fail\",\"message\":\"You are not logged in, please provide a token\"}".to_owned()
}

/// The body sent when a store call fails: a server error, never an
/// authentication rejection.
pub fn generate_db_error() -> (r: String)
    ensures
        r@ == "{\"status\":\"error\",\"message\":\"Internal server error, database access\"}"@,
{
    "{\"status\":\"error\",\"message\":\"Internal server error, database access\"}".to_owned()
}

/// The cookie pair a logout answer carries: both credentials blanked and
/// discarded at once by a negative age.
pub fn logout_cookies() -> (r: (CookieSpec, CookieSpec))
    ensures
        r.0.name@ == "access_cookie"@,
        r.1.name@ == "refresh_cookie"@,
        r.0.value@ == ""@,
        r.1.value@ == ""@,
        r.0.path@ == "/"@,
        r.1.path@ == "/"@,
        !r.0.secure,
        !r.1.secure,
        r.0.http_only,
        r.1.http_only,
        r.0.max_age_seconds == Some(-1i64),
        r.1.max_age_seconds == Some(-1i64),
{
    let access = CookieSpec {
        name: "access_cookie".to_owned(),
        value: "".to_owned(),
        path: "/".to_owned(),
        secure: false,
        http_only: true,
        max_age_seconds: Some(-1),
    };
    let refresh = CookieSpec {
        name: "refresh_cookie".to_owned(),
        value: "".to_owned(),
        path: "/".to_owned(),
        secure: false,
        http_only: true,
        max_age_seconds: Some(-1),
    };
    (access, refresh)
}

} // verus!
