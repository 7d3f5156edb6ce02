use session_refresh::accounts::{confirm_decision, confirmation_mail, is_french, retry_exhausted,
    Code, ConfirmDecision, MailKind, User};
use session_refresh::config::Config;
use session_refresh::config::RawConfig;
use session_refresh::mailer::Mailer;
use session_refresh::tools::generate_string_number;

fn sample_user(verified: bool) -> User {
    User {
        id: 7,
        email: "someone@example.org".to_string(),
        language_id: "fr".to_string(),
        role: "user".to_string(),
        verified,
        created_at: Some(1000),
        updated_at: None,
    }
}

fn sample_code() -> Code {
    Code { id: 7, code: "123456".to_string(), tries: 0, emitted_at: 1000 }
}

#[test]
fn code_matches_within_five_minutes() {
    let c = sample_code();
    assert!(c.matches(&"123456".to_string(), 1300));
    assert!(!c.matches(&"123456".to_string(), 1301));
    assert!(!c.matches(&"654321".to_string(), 1100));
    // a clock slightly behind the emission still accepts
    assert!(c.matches(&"123456".to_string(), 900));
}

#[test]
fn confirm_decision_follows_user_and_code() {
    let submitted = "123456".to_string();
    assert_eq!(
        confirm_decision(None, Some(&sample_code()), &submitted, 1100),
        ConfirmDecision::NoSuchUser
    );
    assert_eq!(
        confirm_decision(Some(&sample_user(false)), Some(&sample_code()), &submitted, 1100),
        ConfirmDecision::CodeAccepted { needs_verification: true }
    );
    assert_eq!(
        confirm_decision(Some(&sample_user(true)), Some(&sample_code()), &submitted, 1100),
        ConfirmDecision::CodeAccepted { needs_verification: false }
    );
    assert_eq!(
        confirm_decision(Some(&sample_user(true)), Some(&sample_code()), &submitted, 9999),
        ConfirmDecision::CodeRejected
    );
    assert_eq!(
        confirm_decision(Some(&sample_user(true)), None, &submitted, 1100),
        ConfirmDecision::CodeRejected
    );
}

#[test]
fn retries_exhaust_at_the_configured_bound() {
    assert!(!retry_exhausted(2, 3));
    assert!(retry_exhausted(3, 3));
    assert!(retry_exhausted(4, 3));
}

#[test]
fn language_selection_is_exact() {
    assert!(is_french(&"fr".to_string()));
    assert!(!is_french(&"en".to_string()));
    assert!(!is_french(&"FR".to_string()));
}

#[test]
fn mail_texts_are_exact() {
    let (s, b) = confirmation_mail(MailKind::Register, false, "Demo", "123456");
    assert_eq!(s, "Confirm your registration on Demo");
    assert_eq!(b, "Validation code (5 minutes): 123456");
    let (s, b) = confirmation_mail(MailKind::Register, true, "Demo", "123456");
    assert_eq!(s, "Confirmez votre enregistrement sur Demo");
    assert_eq!(b, "Code de validation (pour 5 minutes) : 123456");
    let (s, b) = confirmation_mail(MailKind::Resend, false, "Demo", "99");
    assert_eq!(s, "Confirm your authentication on Demo");
    assert_eq!(b, "New validation code (5 minutes): 99");
    let (s, b) = confirmation_mail(MailKind::Login, true, "Demo", "99");
    assert_eq!(s, "Confirmez votre authentification sur Demo");
    assert_eq!(b, "Code de validation (pour 5 minutes) : 99");
    let (s, _) = confirmation_mail(MailKind::RetryAfterFailures, false, "Demo", "99");
    assert_eq!(s, "Already three confirmations failed. Confirm your authentication on Demo");
}

#[test]
fn new_accounts_are_normalised_and_unverified() {
    let (email, language, role, verified) = User::new_user_fields("AbC@Example.ORG", "FR");
    assert_eq!(email, "abc@example.org");
    assert_eq!(language, "fr");
    assert_eq!(role, "user");
    assert!(!verified);
}

#[test]
fn generated_code_strings_are_numeric() {
    let s = generate_string_number(6);
    assert_eq!(s.len(), 6);
    assert!(s.chars().all(|c| c.is_ascii_digit()));
    assert_eq!(generate_string_number(0), "");
}

#[test]
fn mailer_carves_its_settings_out_of_the_config() {
    let raw = RawConfig {
        app_name: "Demo".to_string(),
        postgres_host: "localhost".to_string(),
        postgres_port: "5432".to_string(),
        postgres_user: "postgres".to_string(),
        postgres_pwd: "SECRET-REDACTED".to_string(),
        postgres_db: "app".to_string(),
        jwt_secret: "SECRET-REDACTED".to_string(),
        jwt_expires_in: "60m".to_string(),
        jwt_maxage: "3600".to_string(),
        max_tries: "3".to_string(),
        backend_host: "127.0.0.1".to_string(),
        backend_port: "8080".to_string(),
        front_url: "http://localhost:3000".to_string(),
        mail_host: "smtp.example.org".to_string(),
        mail_port: "587".to_string(),
        mail_auth_user: "mailer@example.org".to_string(),
        mail_auth_pwd: "SECRET-REDACTED".to_string(),
    };
    let config = Config::init(&raw).unwrap();
    let mailer = Mailer::new(&config);
    assert_eq!(mailer.host, "smtp.example.org");
    assert_eq!(mailer.port, 587);
    assert_eq!(mailer.auth_user, "mailer@example.org");
    assert_eq!(mailer.app_name, "Demo");
}
