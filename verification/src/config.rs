//! The service's configuration, read from the variables of its environment.

use vstd::prelude::*;

verus! {

/// Whether a character is one of the digits `0` to `9`.
pub open spec fn is_digit(c: char) -> bool {
    '0' <= c <= '9'
}

/// The number that a run of digits writes in base ten.
pub open spec fn digits_value(digits: Seq<char>) -> nat
    decreases digits.len(),
{
    if digits.len() == 0 {
        0
    } else {
        digits_value(digits.drop_last()) * 10 + (digits.last() as nat - '0' as nat) as nat
    }
}

/// Whether a text is a run of digits and nothing else.
pub open spec fn all_digits(text: Seq<char>) -> bool {
    forall|i: int| 0 <= i < text.len() ==> is_digit(#[trigger] text[i])
}

/// A text without the plus sign that it may begin with.
pub open spec fn unsigned_part(text: Seq<char>) -> Seq<char> {
    if text.len() > 0 && text[0] == '+' {
        text.subrange(1, text.len() as int)
    } else {
        text
    }
}

/// The number that a text writes: an optional plus sign, then at least one
/// digit and only digits, for a number of at most `max`. Blanks, a minus
/// sign, and a number beyond `max` make it no number.
pub open spec fn spec_decimal(text: Seq<char>, max: u64) -> Option<u64> {
    let digits = unsigned_part(text);
    if digits.len() > 0 && all_digits(digits) && digits_value(digits) <= max {
        Some(digits_value(digits) as u64)
    } else {
        None
    }
}

proof fn lemma_digits_grow(digits: Seq<char>, k: int)
    requires
        0 <= k <= digits.len(),
        all_digits(digits),
    ensures
        digits_value(digits.subrange(0, k)) <= digits_value(digits),
    decreases digits.len() - k,
{
    if k == digits.len() {
        assert(digits.subrange(0, k) =~= digits);
    } else {
        lemma_digits_grow(digits, k + 1);
        let longer = digits.subrange(0, k + 1);
        assert(longer.drop_last() =~= digits.subrange(0, k));
        assert(is_digit(digits[k]));
        assert(longer.last() == digits[k]);
    }
}

/// Reads the number that a text writes, if it writes one of at most `max`.
pub fn parse_decimal(text: &str, max: u64) -> (number: Option<u64>)
    ensures
        number == spec_decimal(text@, max),
{
    let len = text.unicode_len();
    if len == 0 {
        return None;
    }
    let start: usize = if text.get_char(0) == '+' {
        1
    } else {
        0
    };
    let ghost digits = unsigned_part(text@);
    if start == len {
        return None;
    }
    let mut value: u64 = 0;
    let mut i: usize = start;
    while i < len
        invariant
            len == text@.len(),
            start <= i <= len,
            start < len,
            digits == unsigned_part(text@),
            digits == text@.subrange(start as int, len as int),
            all_digits(digits.subrange(0, i - start)),
            value == digits_value(digits.subrange(0, i - start)),
            value <= max,
        decreases len - i,
    {
        let c = text.get_char(i);
        let ghost done = digits.subrange(0, i - start);
        let ghost next = digits.subrange(0, i - start + 1);
        proof {
            assert(digits[i - start] == c);
            assert(next.drop_last() =~= done);
            assert(next.last() == c);
        }
        if c < '0' || c > '9' {
            proof {
                assert(!is_digit(digits[i - start]));
            }
            return None;
        }
        let digit: u64 = (c as u32 - '0' as u32) as u64;
        proof {
            assert forall|j: int| 0 <= j < next.len() implies is_digit(#[trigger] next[j]) by {
                if j < done.len() {
                    assert(next[j] == done[j]);
                }
            }
            assert(digits_value(next) == value * 10 + digit);
        }
        let grown = match value.checked_mul(10) {
            Some(tens) => tens.checked_add(digit),
            None => None,
        };
        match grown {
            Some(v) if v <= max => {
                value = v;
            },
            _ => {
                proof {
                    assert(digits_value(next) > max);
                    if all_digits(digits) {
                        lemma_digits_grow(digits, i - start + 1);
                    }
                }
                return None;
            },
        }
        i = i + 1;
    }
    proof {
        assert(digits.subrange(0, len - start) =~= digits);
    }
    Some(value)
}

/// The variables that the configuration is read from, each with its text
/// where the environment holds it.
pub struct Environment {
    pub server_addr: Option<String>,
    pub database_url: Option<String>,
    pub jwt_secret: Option<String>,
    pub access_token_ttl: Option<String>,
    pub refresh_token_ttl: Option<String>,
    pub rate_login_per_min: Option<String>,
    pub rate_register_per_min: Option<String>,
    pub rate_refresh_per_min: Option<String>,
    pub rate_protected_per_min: Option<String>,
    pub api_prefix: Option<String>,
}

/// The configuration of the service.
#[derive(Clone, Debug, PartialEq, Eq)]
pub struct Config {
    pub database_url: String,
    pub jwt_secret: String,
    pub server_addr: String,
    /// The lifetime of an access token, in seconds.
    pub access_token_ttl: usize,
    /// The lifetime of a refresh token, in seconds.
    pub refresh_token_ttl: usize,
    pub rate_login_per_min: u32,
    pub rate_register_per_min: u32,
    pub rate_refresh_per_min: u32,
    pub rate_protected_per_min: u32,
    /// The path under which the protected routes live.
    pub api_prefix: String,
}

/// Why the environment gives no configuration.
#[derive(Debug, Clone, Copy, PartialEq, Eq, Structural)]
pub enum ConfigError {
    /// `SERVER_ADDR` is not set.
    ServerAddrMissing,
    /// `DATABASE_URL` is not set.
    DatabaseUrlMissing,
    /// `JWT_SECRET` is not set.
    JwtSecretMissing,
    /// `ACCESS_TOKEN_TTL` is no number.
    AccessTokenTtlInvalid,
    /// `REFRESH_TOKEN_TTL` is no number.
    RefreshTokenTtlInvalid,
    /// `RATE_LOGIN_PER_MIN` is no number.
    RateLoginInvalid,
    /// `RATE_REGISTER_PER_MIN` is no number.
    RateRegisterInvalid,
    /// `RATE_REFRESH_PER_MIN` is no number.
    RateRefreshInvalid,
    /// `RATE_PROTECTED_PER_MIN` is no number.
    RateProtectedInvalid,
}

/// The number of a variable: the number that its text writes, `default`
/// where it is not set, none where its text is no number of at most `max`.
pub open spec fn spec_setting(text: Option<String>, default: u64, max: u64) -> Option<u64> {
    match text {
        Some(t) => spec_decimal(t@, max),
        None => Some(default),
    }
}

/// Reads the number of a variable.
pub fn setting(text: &Option<String>, default: u64, max: u64) -> (number: Option<u64>)
    ensures
        number == spec_setting(*text, default, max),
{
    match text {
        Some(t) => parse_decimal(t.as_str(), max),
        None => Some(default),
    }
}

/// The first fault of an environment, in the order in which the variables
/// are read, if it has one.
pub open spec fn first_fault(env: Environment) -> Option<ConfigError> {
    if env.server_addr.is_none() {
        Some(ConfigError::ServerAddrMissing)
    } else if env.database_url.is_none() {
        Some(ConfigError::DatabaseUrlMissing)
    } else if env.jwt_secret.is_none() {
        Some(ConfigError::JwtSecretMissing)
    } else if spec_setting(env.access_token_ttl, 900, usize::MAX as u64).is_none() {
        Some(ConfigError::AccessTokenTtlInvalid)
    } else if spec_setting(env.refresh_token_ttl, 604800, usize::MAX as u64).is_none() {
        Some(ConfigError::RefreshTokenTtlInvalid)
    } else if spec_setting(env.rate_login_per_min, 60, u32::MAX as u64).is_none() {
        Some(ConfigError::RateLoginInvalid)
    } else if spec_setting(env.rate_register_per_min, 30, u32::MAX as u64).is_none() {
        Some(ConfigError::RateRegisterInvalid)
    } else if spec_setting(env.rate_refresh_per_min, 30, u32::MAX as u64).is_none() {
        Some(ConfigError::RateRefreshInvalid)
    } else if spec_setting(env.rate_protected_per_min, 1000, u32::MAX as u64).is_none() {
        Some(ConfigError::RateProtectedInvalid)
    } else {
        None
    }
}

impl Config {
    /// The configuration that an environment gives. The address, the
    /// database and the secret must be set. The token lifetimes default to
    /// a quarter of an hour and a week, the rates to 60, 30, 30 and 1000
    /// requests a minute, the prefix to `/api`.
    pub fn from_vars(env: Environment) -> (config: Result<Config, ConfigError>)
        ensures
            match config {
                Ok(c) => {
                    &&& first_fault(env).is_none()
                    &&& env.server_addr == Some(c.server_addr)
                    &&& env.database_url == Some(c.database_url)
                    &&& env.jwt_secret == Some(c.jwt_secret)
                    &&& spec_setting(env.access_token_ttl, 900, usize::MAX as u64) == Some(
                        c.access_token_ttl as u64,
                    )
                    &&& spec_setting(env.refresh_token_ttl, 604800, usize::MAX as u64) == Some(
                        c.refresh_token_ttl as u64,
                    )
                    &&& spec_setting(env.rate_login_per_min, 60, u32::MAX as u64) == Some(
                        c.rate_login_per_min as u64,
                    )
                    &&& spec_setting(env.rate_register_per_min, 30, u32::MAX as u64) == Some(
                        c.rate_register_per_min as u64,
                    )
                    &&& spec_setting(env.rate_refresh_per_min, 30, u32::MAX as u64) == Some(
                        c.rate_refresh_per_min as u64,
                    )
                    &&& spec_setting(env.rate_protected_per_min, 1000, u32::MAX as u64) == Some(
                        c.rate_protected_per_min as u64,
                    )
                    &&& c.api_prefix@ == match env.api_prefix {
                        Some(prefix) => prefix@,
                        None => "/api"@,
                    }
                },
                Err(e) => first_fault(env) == Some(e),
            },
    {
        let server_addr = match env.server_addr {
            Some(v) => v,
            None => {
                return Err(ConfigError::ServerAddrMissing);
            },
        };
        let database_url = match env.database_url {
            Some(v) => v,
            None => {
                return Err(ConfigError::DatabaseUrlMissing);
            },
        };
        let jwt_secret = match env.jwt_secret {
            Some(v) => v,
            None => {
                return Err(ConfigError::JwtSecretMissing);
            },
        };
        let access_token_ttl = match setting(&env.access_token_ttl, 900, usize::MAX as u64) {
            Some(v) => v as usize,
            None => {
                return Err(ConfigError::AccessTokenTtlInvalid);
            },
        };
        let refresh_token_ttl = match setting(&env.refresh_token_ttl, 604800, usize::MAX as u64) {
            Some(v) => v as usize,
            None => {
                return Err(ConfigError::RefreshTokenTtlInvalid);
            },
        };
        let rate_login_per_min = match setting(&env.rate_login_per_min, 60, u32::MAX as u64) {
            Some(v) => v as u32,
            None => {
                return Err(ConfigError::RateLoginInvalid);
            },
        };
        let rate_register_per_min = match setting(&env.rate_register_per_min, 30, u32::MAX as u64) {
            Some(v) => v as u32,
            None => {
                return Err(ConfigError::RateRegisterInvalid);
            },
        };
        let rate_refresh_per_min = match setting(&env.rate_refresh_per_min, 30, u32::MAX as u64) {
            Some(v) => v as u32,
            None => {
                return Err(ConfigError::RateRefreshInvalid);
            },
        };
        let rate_protected_per_min = match setting(
            &env.rate_protected_per_min,
            1000,
            u32::MAX as u64,
        ) {
            Some(v) => v as u32,
            None => {
                return Err(ConfigError::RateProtectedInvalid);
            },
        };
        let api_prefix = match env.api_prefix {
            Some(v) => v,
            None => String::from_str("/api"),
        };
        Ok(
            Config {
                database_url,
                jwt_secret,
                server_addr,
                access_token_ttl,
                refresh_token_ttl,
                rate_login_per_min,
                rate_register_per_min,
                rate_refresh_per_min,
                rate_protected_per_min,
                api_prefix,
            },
        )
    }
}

/// The number of milliseconds after which a limiter that allows
/// `requests_per_min` requests a minute lets one more request in.
pub open spec fn spec_limiter_period_ms(requests_per_min: u32) -> u64 {
    if requests_per_min == 0 {
        1
    } else {
        (60_000int / requests_per_min as int) as u64
    }
}

/// The number of milliseconds after which a limiter that allows
/// `requests_per_min` requests a minute lets one more request in.
pub fn limiter_period_ms(requests_per_min: u32) -> (period: u64)
    ensures
        period == spec_limiter_period_ms(requests_per_min),
{
    if requests_per_min == 0 {
        1
    } else {
        60_000 / (requests_per_min as u64)
    }
}

/// Whether a limiter can be built for a rate: it needs a burst of at least
/// one request and a period of at least one millisecond.
pub fn limiter_rate_in_range(requests_per_min: u32) -> (usable: bool)
    ensures
        usable == (requests_per_min != 0 && spec_limiter_period_ms(requests_per_min) != 0),
        usable == (1 <= requests_per_min <= 60_000),
{
    proof {
        let n = requests_per_min as int;
        assert(n > 60_000 ==> 60_000int / n == 0) by (nonlinear_arith);
        assert(1 <= n <= 60_000 ==> 60_000int / n >= 1) by (nonlinear_arith);
    }
    requests_per_min != 0 && limiter_period_ms(requests_per_min) != 0
}

} // verus!
