use session_refresh::config::{parse_i16, parse_i32, parse_u16, parse_u64, Config, ConfigError,
    RawConfig};

#[test]
fn unsigned_parsing_is_exact() {
    assert_eq!(parse_u64("0"), Some(0));
    assert_eq!(parse_u64("8080"), Some(8080));
    assert_eq!(parse_u64("18446744073709551615"), Some(u64::MAX));
    assert_eq!(parse_u64("18446744073709551616"), None);
    assert_eq!(parse_u64(""), None);
    assert_eq!(parse_u64("80a0"), None);
    assert_eq!(parse_u64(" 80"), None);
    assert_eq!(parse_u16("65535"), Some(65535));
    assert_eq!(parse_u16("65536"), None);
    assert_eq!(parse_u16("007"), Some(7));
}

#[test]
fn signed_parsing_is_exact() {
    assert_eq!(parse_i32("2147483647"), Some(i32::MAX));
    assert_eq!(parse_i32("-2147483647"), Some(-2147483647));
    assert_eq!(parse_i32("2147483648"), None);
    assert_eq!(parse_i32("-"), None);
    assert_eq!(parse_i32("--3"), None);
    assert_eq!(parse_i16("-42"), Some(-42));
    assert_eq!(parse_i16("32767"), Some(32767));
    assert_eq!(parse_i16("32768"), None);
    // magnitudes are bounded symmetrically
    assert_eq!(parse_i16("-32767"), Some(-32767));
    assert_eq!(parse_i16("-32768"), None);
    assert_eq!(parse_i16("-0"), Some(0));
}

fn raw() -> RawConfig {
    RawConfig {
        app_name: "Demo".to_string(),
        postgres_host: "localhost".to_string(),
        postgres_port: "5432".to_string(),
        postgres_user: "postgres".to_string(),
        postgres_pwd: "SECRET-REDACTED".to_string(),
        postgres_db: "app".to_string(),
        jwt_secret: "SECRET-REDACTED".to_string(),
        jwt_expires_in: "60m".to_string(),
        jwt_maxage: "3600".to_string(),
        max_tries: "3".to_string(),
        backend_host: "127.0.0.1".to_string(),
        backend_port: "8080".to_string(),
        front_url: "http://localhost:3000".to_string(),
        mail_host: "smtp.example.org".to_string(),
        mail_port: "587".to_string(),
        mail_auth_user: "mailer@example.org".to_string(),
        mail_auth_pwd: "SECRET-REDACTED".to_string(),
    }
}

#[test]
fn config_init_parses_every_numeric_field() {
    let c = Config::init(&raw()).unwrap();
    assert_eq!(c.postgres_port, 5432);
    assert_eq!(c.backend_port, 8080);
    assert_eq!(c.mail_port, 587);
    assert_eq!(c.jwt_maxage, 3600);
    assert_eq!(c.max_tries, 3);
    assert_eq!(c.app_name, "Demo");
    assert_eq!(c.front_url, "http://localhost:3000");
}

#[test]
fn config_init_rejects_a_bad_number() {
    let mut r = raw();
    r.backend_port = "eighty".to_string();
    assert!(matches!(Config::init(&r), Err(ConfigError::InvalidNumber)));
    let mut r2 = raw();
    r2.max_tries = "".to_string();
    assert!(matches!(Config::init(&r2), Err(ConfigError::InvalidNumber)));
}
