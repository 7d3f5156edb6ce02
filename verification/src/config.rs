//! Application configuration: raw textual settings parsed into typed values.
//!
//! Reading the settings from the environment is the caller's business; this
//! module owns the parsing, with decimal fields interpreted exactly.

use vstd::prelude::*;
use vstd::string::StringSliceAdditionalSpecFns;
use vstd::utf8::encode_utf8;

verus! {

/// `b` is an ASCII decimal digit.
pub open spec fn is_digit(b: u8) -> bool {
    48 <= b <= 57
}

/// Every byte of `s` is an ASCII decimal digit.
pub open spec fn all_digits(s: Seq<u8>) -> bool {
    forall|i: int| 0 <= i < s.len() ==> is_digit(#[trigger] s[i])
}

/// The number the digit string `s` denotes in base ten.
pub open spec fn dec_value(s: Seq<u8>) -> int
    decreases s.len(),
{
    if s.len() == 0 {
        0
    } else {
        dec_value(s.drop_last()) * 10 + (s.last() - 48)
    }
}

/// A digit string denotes a non-negative number.
proof fn lemma_dec_value_nonneg(s: Seq<u8>)
    requires
        all_digits(s),
    ensures
        dec_value(s) >= 0,
    decreases s.len(),
{
    if s.len() > 0 {
        assert(all_digits(s.drop_last())) by {
            assert(forall|i: int| 0 <= i < s.len() - 1 ==> is_digit(#[trigger] s[i]));
        }
        lemma_dec_value_nonneg(s.drop_last());
    }
}

/// Extending a digit string multiplies its value by ten and adds the digit.
proof fn lemma_dec_value_take(s: Seq<u8>, i: int)
    requires
        0 <= i < s.len(),
    ensures
        dec_value(s.take(i + 1)) == dec_value(s.take(i)) * 10 + (s[i] - 48),
    decreases s.len(),
{
    assert(s.take(i + 1).drop_last() =~= s.take(i));
    assert(s.take(i + 1).last() == s[i]);
}

/// A digit string denotes at least what any prefix of it denotes.
proof fn lemma_dec_value_prefix(s: Seq<u8>, i: int)
    requires
        all_digits(s),
        0 <= i <= s.len(),
    ensures
        dec_value(s.take(i)) <= dec_value(s),
    decreases s.len() - i,
{
    if i == s.len() {
        assert(s.take(i) =~= s);
    } else {
        lemma_dec_value_take(s, i);
        assert(all_digits(s.take(i + 1))) by {
            assert(forall|j: int| 0 <= j < i + 1 ==> is_digit(#[trigger] s.take(i + 1)[j]));
        }
        lemma_dec_value_nonneg(s.take(i + 1));
        assert(dec_value(s.take(i)) <= dec_value(s.take(i + 1)));
        lemma_dec_value_prefix(s, i + 1);
    }
}

/// Parse the base-ten digits of `b` from position `start` to the end.
fn parse_digits(b: &[u8], start: usize) -> (r: Option<u64>)
    requires
        start <= b@.len(),
    ensures
        ({
            let d = b@.skip(start as int);
            match r {
                Some(v) => d.len() > 0 && all_digits(d) && v == dec_value(d),
                None => d.len() == 0 || !all_digits(d) || dec_value(d) > u64::MAX,
            }
        }),
{
    let ghost digits = b@.skip(start as int);
    let n = b.len();
    if start == n {
        return None;
    }
    let mut acc: u64 = 0;
    let mut i: usize = start;
    proof {
        assert(digits.take(0) =~= Seq::<u8>::empty());
    }
    while i < n
        invariant
            digits == b@.skip(start as int),
            start <= i <= n,
            n == b@.len(),
            acc == dec_value(digits.take(i - start)),
            all_digits(digits.take(i - start)),
        decreases n - i,
    {
        let d = b[i];
        proof {
            assert(digits[i - start] == b@[i as int]);
        }
        if !(48 <= d && d <= 57) {
            proof {
                assert(!is_digit(digits[i - start]));
            }
            return None;
        }
        proof {
            lemma_dec_value_take(digits, i - start);
            assert(forall|j: int|
                0 <= j < i - start + 1 ==> is_digit(#[trigger] digits.take(i - start + 1)[j]));
        }
        let unit: u64 = (d - 48) as u64;
        if acc > (u64::MAX - unit) / 10 {
            proof {
                assert(acc * 10 + unit > u64::MAX) by {
                    assert(acc >= (u64::MAX - unit) / 10 + 1);
                    assert(((u64::MAX - unit) / 10 + 1) * 10 == (u64::MAX - unit) / 10 * 10 + 10);
                    assert((u64::MAX - unit) / 10 * 10 + 9 >= u64::MAX - unit);
                };
                assert(dec_value(digits.take(i - start + 1)) > u64::MAX);
                if all_digits(digits) {
                    lemma_dec_value_prefix(digits, i - start + 1);
                }
            }
            return None;
        }
        acc = acc * 10 + unit;
        i += 1;
    }
    proof {
        assert(digits.take(n - start) =~= digits);
    }
    Some(acc)
}

/// Parse an unsigned decimal number: succeeds exactly on a non-empty,
/// all-digit string whose value fits.
pub fn parse_u64(s: &str) -> (r: Option<u64>)
    ensures
        match r {
            Some(v) => s.spec_bytes().len() > 0 && all_digits(s.spec_bytes()) && v == dec_value(
                s.spec_bytes(),
            ),
            None => s.spec_bytes().len() == 0 || !all_digits(s.spec_bytes()) || dec_value(
                s.spec_bytes(),
            ) > u64::MAX,
        },
{
    let b = s.as_bytes();
    proof {
        assert(b@.skip(0) =~= s.spec_bytes());
    }
    parse_digits(b, 0)
}

/// Parse an unsigned decimal number into sixteen bits.
pub fn parse_u16(s: &str) -> (r: Option<u16>)
    ensures
        match r {
            Some(v) => s.spec_bytes().len() > 0 && all_digits(s.spec_bytes()) && v == dec_value(
                s.spec_bytes(),
            ),
            None => s.spec_bytes().len() == 0 || !all_digits(s.spec_bytes()) || dec_value(
                s.spec_bytes(),
            ) > u16::MAX,
        },
{
    match parse_u64(s) {
        Some(v) => if v <= 65535 {
            Some(v as u16)
        } else {
            None
        },
        None => None,
    }
}

/// The signed number a decimal string with an optional leading minus sign
/// denotes, or `None` where it is ill-formed or the magnitude exceeds `bound`.
pub open spec fn signed_value(s: Seq<u8>, bound: int) -> Option<int> {
    if s.len() >= 1 && s[0] == 45 {
        let mag = s.skip(1);
        if mag.len() > 0 && all_digits(mag) && dec_value(mag) <= bound {
            Some(-dec_value(mag))
        } else {
            None
        }
    } else {
        if s.len() > 0 && all_digits(s) && dec_value(s) <= bound {
            Some(dec_value(s))
        } else {
            None
        }
    }
}

/// Parse a 32-bit signed decimal number; a magnitude of up to `i32::MAX` is
/// accepted either side of zero.
pub fn parse_i32(s: &str) -> (r: Option<i32>)
    ensures
        match r {
            Some(v) => signed_value(s.spec_bytes(), i32::MAX as int) == Some(v as int),
            None => signed_value(s.spec_bytes(), i32::MAX as int) is None,
        },
{
    let b = s.as_bytes();
    if b.len() >= 1 && b[0] == 45 {
        proof {
            if all_digits(s.spec_bytes().skip(1)) {
                lemma_dec_value_nonneg(s.spec_bytes().skip(1));
            }
        }
        match parse_digits(b, 1) {
            Some(v) => if v <= 0x7fff_ffff {
                Some(-(v as i32))
            } else {
                None
            },
            None => None,
        }
    } else {
        match parse_digits(b, 0) {
            Some(v) => {
                proof {
                    assert(b@.skip(0) =~= s.spec_bytes());
                }
                if v <= 0x7fff_ffff {
                    Some(v as i32)
                } else {
                    None
                }
            },
            None => {
                proof {
                    assert(b@.skip(0) =~= s.spec_bytes());
                }
                None
            },
        }
    }
}

/// Parse a 16-bit signed decimal number; a magnitude of up to `i16::MAX` is
/// accepted either side of zero.
pub fn parse_i16(s: &str) -> (r: Option<i16>)
    ensures
        match r {
            Some(v) => signed_value(s.spec_bytes(), i16::MAX as int) == Some(v as int),
            None => signed_value(s.spec_bytes(), i16::MAX as int) is None,
        },
{
    proof {
        if s.spec_bytes().len() >= 1 && s.spec_bytes()[0] == 45 && all_digits(
            s.spec_bytes().skip(1),
        ) {
            lemma_dec_value_nonneg(s.spec_bytes().skip(1));
        }
        if all_digits(s.spec_bytes()) {
            lemma_dec_value_nonneg(s.spec_bytes());
        }
    }
    match parse_i32(s) {
        Some(v) => if -32767 <= v && v <= 32767 {
            Some(v as i16)
        } else {
            None
        },
        None => None,
    }
}

/// The raw textual settings, exactly as the environment supplies them.
pub struct RawConfig {
    pub app_name: String,
    pub postgres_host: String,
    pub postgres_port: String,
    pub postgres_user: String,
    pub postgres_pwd: String,
    pub postgres_db: String,
    pub jwt_secret: String,
    pub jwt_expires_in: String,
    pub jwt_maxage: String,
    pub max_tries: String,
    pub backend_host: String,
    pub backend_port: String,
    pub front_url: String,
    pub mail_host: String,
    pub mail_port: String,
    pub mail_auth_user: String,
    pub mail_auth_pwd: String,
}

/// Every numeric setting of the raw configuration is well formed: ports are
/// plain digit strings within sixteen bits; the age and retry bounds are
/// signed decimals within their types' positive ranges.
pub open spec fn numbers_well_formed(raw: RawConfig) -> bool {
    let pp = encode_utf8(raw.postgres_port@);
    let bp = encode_utf8(raw.backend_port@);
    let mp = encode_utf8(raw.mail_port@);
    pp.len() > 0 && all_digits(pp) && dec_value(pp) <= u16::MAX && bp.len() > 0 && all_digits(bp)
        && dec_value(bp) <= u16::MAX && mp.len() > 0 && all_digits(mp) && dec_value(mp)
        <= u16::MAX && signed_value(encode_utf8(raw.jwt_maxage@), i32::MAX as int) is Some
        && signed_value(encode_utf8(raw.max_tries@), i16::MAX as int) is Some
}

/// A numeric setting did not parse.
#[derive(Clone, Copy, PartialEq, Eq, Structural, Debug)]
pub enum ConfigError {
    InvalidNumber,
}

/// The application's typed configuration.
#[derive(Clone)]
pub struct Config {
    pub app_name: String,
    pub postgres_host: String,
    pub postgres_port: u16,
    pub postgres_user: String,
    pub postgres_pwd: String,
    pub postgres_db: String,
    pub jwt_secret: String,
    pub jwt_expires_in: String,
    pub jwt_maxage: i32,
    pub max_tries: i16,
    pub backend_host: String,
    pub backend_port: u16,
    pub front_url: String,
    pub mail_host: String,
    pub mail_port: u16,
    pub mail_auth_user: String,
    pub mail_auth_pwd: String,
}

impl Config {
    /// Build the typed configuration from raw settings.  Textual fields are
    /// carried over unchanged; each numeric field is parsed exactly, and any
    /// ill-formed number fails the whole initialisation.
    pub fn init(raw: &RawConfig) -> (r: Result<Config, ConfigError>)
        ensures
            match r {
                Ok(c) => c.app_name@ == raw.app_name@ && c.postgres_host@ == raw.postgres_host@
                    && c.postgres_user@ == raw.postgres_user@ && c.postgres_pwd@
                    == raw.postgres_pwd@ && c.postgres_db@ == raw.postgres_db@ && c.jwt_secret@
                    == raw.jwt_secret@ && c.jwt_expires_in@ == raw.jwt_expires_in@
                    && c.backend_host@ == raw.backend_host@ && c.front_url@ == raw.front_url@
                    && c.mail_host@ == raw.mail_host@ && c.mail_auth_user@ == raw.mail_auth_user@
                    && c.mail_auth_pwd@ == raw.mail_auth_pwd@ && c.postgres_port == dec_value(
                    encode_utf8(raw.postgres_port@),
                ) && c.backend_port == dec_value(encode_utf8(raw.backend_port@)) && c.mail_port
                    == dec_value(encode_utf8(raw.mail_port@)) && signed_value(
                    encode_utf8(raw.jwt_maxage@),
                    i32::MAX as int,
                ) == Some(c.jwt_maxage as int) && signed_value(
                    encode_utf8(raw.max_tries@),
                    i16::MAX as int,
                ) == Some(c.max_tries as int),
                Err(e) => e == ConfigError::InvalidNumber && !numbers_well_formed(*raw),
            },
            r is Ok <==> numbers_well_formed(*raw),
    {
        let postgres_port = match parse_u16(raw.postgres_port.as_str()) {
            Some(v) => v,
            None => {
                return Err(ConfigError::InvalidNumber);
            },
        };
        let backend_port = match parse_u16(raw.backend_port.as_str()) {
            Some(v) => v,
            None => {
                return Err(ConfigError::InvalidNumber);
            },
        };
        let mail_port = match parse_u16(raw.mail_port.as_str()) {
            Some(v) => v,
            None => {
                return Err(ConfigError::InvalidNumber);
            },
        };
        let jwt_maxage = match parse_i32(raw.jwt_maxage.as_str()) {
            Some(v) => v,
            None => {
                return Err(ConfigError::InvalidNumber);
            },
        };
        let max_tries = match parse_i16(raw.max_tries.as_str()) {
            Some(v) => v,
            None => {
                return Err(ConfigError::InvalidNumber);
            },
        };
        Ok(
            Config {
                app_name: raw.app_name.clone(),
                postgres_host: raw.postgres_host.clone(),
                postgres_port,
                postgres_user: raw.postgres_user.clone(),
                postgres_pwd: raw.postgres_pwd.clone(),
                postgres_db: raw.postgres_db.clone(),
                jwt_secret: raw.jwt_secret.clone(),
                jwt_expires_in: raw.jwt_expires_in.clone(),
                jwt_maxage,
                max_tries,
                backend_host: raw.backend_host.clone(),
                backend_port,
                front_url: raw.front_url.clone(),
                mail_host: raw.mail_host.clone(),
                mail_port,
                mail_auth_user: raw.mail_auth_user.clone(),
                mail_auth_pwd: raw.mail_auth_pwd.clone(),
            },
        )
    }
}

} // verus!
