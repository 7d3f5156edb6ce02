//! Account and one-time-code domain values, and the decisions the
//! registration/login flows take over them.  The persistence calls around
//! these decisions live with the routing layer; everything here is a
//! function of plain values.

use vstd::prelude::*;
use vstd::string::StringExecFns;

verus! {

/// Seconds a one-time confirmation code stays accepted after emission.
pub const CODE_LIFETIME: u64 = 300;

/// An account row.
pub struct User {
    pub id: u128,
    pub email: String,
    pub language_id: String,
    pub role: String,
    pub verified: bool,
    pub created_at: Option<u64>,
    pub updated_at: Option<u64>,
}

/// A one-time confirmation code row: the account it belongs to, the code
/// text, how many failed confirmations it has seen, and when it was emitted
/// (seconds since the epoch).
pub struct Code {
    pub id: u128,
    pub code: String,
    pub tries: i16,
    pub emitted_at: u64,
}

/// The uppercase-free form of `s`, as `str::to_lowercase` computes it.
pub uninterp spec fn lower_of(s: Seq<char>) -> Seq<char>;

/// Relies on `str::to_lowercase`: the result depends on the characters
/// alone.
#[verifier::external_body]
fn lowercase(s: &str) -> (r: String)
    ensures
        r@ == lower_of(s@),
{
    s.to_lowercase()
}

impl User {
    /// The column values a fresh account is created with: lowercased email
    /// and language, the default role, not yet verified.
    pub fn new_user_fields(email: &str, language: &str) -> (r: (String, String, String, bool))
        ensures
            r.0@ == lower_of(email@),
            r.1@ == lower_of(language@),
            r.2@ == "user"@,
            r.3 == false,
    {
        (lowercase(email), lowercase(language), "user".to_owned(), false)
    }
}

impl Code {
    /// Accept the submitted code exactly when it matches the stored one and
    /// the stored one was emitted within [`CODE_LIFETIME`] seconds of `now`.
    pub fn matches(&self, submitted: &String, now: u64) -> (r: bool)
        ensures
            r == (self.code@ == submitted@ && now <= self.emitted_at + CODE_LIFETIME),
    {
        let fresh = now <= self.emitted_at || now - self.emitted_at <= CODE_LIFETIME;
        self.code == *submitted && fresh
    }
}

/// Whether the number of failed confirmations has reached the configured
/// bound, after which a fresh code is mailed out.
pub fn retry_exhausted(tries: i16, max_tries: i16) -> (r: bool)
    ensures
        r == (tries >= max_tries),
{
    tries >= max_tries
}

/// The stored code, if any, accepts the submitted text at time `now`.
pub open spec fn code_accepted(code: Option<Code>, submitted: Seq<char>, now: u64) -> bool {
    match code {
        Some(c) => c.code@ == submitted && now <= c.emitted_at + CODE_LIFETIME,
        None => false,
    }
}

/// What the code-confirmation flow decides once the account and its stored
/// code have been looked up.
#[derive(Clone, Copy, PartialEq, Eq, Structural, Debug)]
pub enum ConfirmDecision {
    /// No account exists for the address: reject.
    NoSuchUser,
    /// The code is accepted; mark the address verified first when the
    /// account is not verified yet, then issue credentials.
    CodeAccepted { needs_verification: bool },
    /// The code is missing, stale, or does not match: count the failure.
    CodeRejected,
}

/// Decide the code-confirmation flow from the looked-up account and code.
pub fn confirm_decision(
    user: Option<&User>,
    code: Option<&Code>,
    submitted: &String,
    now: u64,
) -> (r: ConfirmDecision)
    ensures
        match user {
            None => r == ConfirmDecision::NoSuchUser,
            Some(u) => r == if code_accepted(
                match code {
                    Some(c) => Some(*c),
                    None => None,
                },
                submitted@,
                now,
            ) {
                ConfirmDecision::CodeAccepted { needs_verification: !u.verified }
            } else {
                ConfirmDecision::CodeRejected
            },
        },
{
    match user {
        None => ConfirmDecision::NoSuchUser,
        Some(u) => {
            let accepted = match code {
                Some(c) => c.matches(submitted, now),
                None => false,
            };
            if accepted {
                ConfirmDecision::CodeAccepted { needs_verification: !u.verified }
            } else {
                ConfirmDecision::CodeRejected
            }
        },
    }
}

/// The mails the flows send, each a subject and a body built around the
/// application name and the freshly drawn code.
#[derive(Clone, Copy, PartialEq, Eq, Structural, Debug)]
pub enum MailKind {
    /// First registration of an address.
    Register,
    /// A login request for a known address.
    Login,
    /// The same address asked for its code again.
    Resend,
    /// Too many failed confirmations: a replacement code goes out.
    RetryAfterFailures,
}

/// An account is addressed in French exactly when its language is `fr`.
pub fn is_french(language_id: &String) -> (r: bool)
    ensures
        r == (language_id@ == "fr"@),
{
    let fr = String::from_str("fr");
    *language_id == fr
}

/// The subject line of each mail, up to the application name.
pub open spec fn mail_subject_prefix(kind: MailKind, french: bool) -> Seq<char> {
    match kind {
        MailKind::Register => if french {
            "Confirmez votre enregistrement sur "@
        } else {
            "Confirm your registration on "@
        },
        MailKind::Login => if french {
            "Confirmez votre authentification sur "@
        } else {
            "Confirm your authentication on "@
        },
        MailKind::Resend => if french {
            "Confirmez votre authentification sur "@
        } else {
            "Confirm your authentication on "@
        },
        MailKind::RetryAfterFailures => if french {
            "Déjà trois confirmations échouées. Confirmez votre authentification sur "@
        } else {
            "Already three confirmations failed. Confirm your authentication on "@
        },
    }
}

/// The body of each mail, up to the code itself.
pub open spec fn mail_body_prefix(kind: MailKind, french: bool) -> Seq<char> {
    match kind {
        MailKind::Resend => if french {
            "Nouveau code de validation (pour 5 minutes) : "@
        } else {
            "New validation code (5 minutes): "@
        },
        _ => if french {
            "Code de validation (pour 5 minutes) : "@
        } else {
            "Validation code (5 minutes): "@
        },
    }
}

/// Build the subject and body of the mail carrying a confirmation code.
pub fn confirmation_mail(kind: MailKind, french: bool, app_name: &str, code: &str) -> (r: (
    String,
    String,
))
    ensures
        r.0@ == mail_subject_prefix(kind, french) + app_name@,
        r.1@ == mail_body_prefix(kind, french) + code@,
{
    let subject = match kind {
        MailKind::Register => if french {
            String::from_str("Confirmez votre enregistrement sur ")
        } else {
            String::from_str("Confirm your registration on ")
        },
        MailKind::Login => if french {
            String::from_str("Confirmez votre authentification sur ")
        } else {
            String::from_str("Confirm your authentication on ")
        },
        MailKind::Resend => if french {
            String::from_str("Confirmez votre authentification sur ")
        } else {
            String::from_str("Confirm your authentication on ")
        },
        MailKind::RetryAfterFailures => if french {
            String::from_str(
                "Déjà trois confirmations échouées. Confirmez votre authentification sur ",
            )
        } else {
            String::from_str("Already three confirmations failed. Confirm your authentication on ")
        },
    };
    let body = match kind {
        MailKind::Resend => if french {
            String::from_str("Nouveau code de validation (pour 5 minutes) : ")
        } else {
            String::from_str("New validation code (5 minutes): ")
        },
        _ => if french {
            String::from_str("Code de validation (pour 5 minutes) : ")
        } else {
            String::from_str("Validation code (5 minutes): ")
        },
    };
    (subject.concat(app_name), body.concat(code))
}

} // verus!
