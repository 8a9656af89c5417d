//! Password hashing with Argon2 and the bookkeeping of API tokens.
use crate::domain::user::error::AuthError;
use crate::domain::user::models::UserToken;
use argon2::password_hash::rand_core::OsRng;
use argon2::password_hash::SaltString;
use argon2::{Algorithm, Argon2, Params, PasswordHash, PasswordHasher, PasswordVerifier, Version};
use chrono::TimeDelta;
use crate::utils::text::nat_decimal;
use vstd::string::StringSliceAdditionalSpecFns;
use vstd::prelude::*;

verus! {

/// Largest number of seconds a `chrono::TimeDelta` holds either way.
pub const TIME_DELTA_MAX_SECONDS: i64 = 9_223_372_036_854_775;

/// Seconds in a day.
pub const SECONDS_PER_DAY: i64 = 86_400;

/// Latest instant, in seconds since the epoch, that a `chrono::DateTime<Utc>` holds.
pub const MAX_UTC_TIMESTAMP: i64 = 8_210_298_412_799;

/// Earliest instant, in seconds since the epoch, that a `chrono::DateTime<Utc>` holds.
pub const MIN_UTC_TIMESTAMP: i64 = -8_334_601_228_800;

/// Argon2 memory cost (KiB) of newly hashed passwords.
pub const HASH_MEMORY_COST: u32 = 15000;

/// Argon2 iterations of newly hashed passwords.
pub const HASH_TIME_COST: u32 = 2;

/// Argon2 parallelism of newly hashed passwords.
pub const HASH_PARALLELISM: u32 = 1;

/// Text of the error when a stored hash is not a PHC string.
pub const BAD_HASH_TEXT: &'static str = "Failed to parse hash in PHC string format.";

/// Text of the error when a password does not match its hash.
pub const WRONG_PASSWORD_TEXT: &'static str = "Invalid password.";

/// What `humantime::parse_duration` gives for a text: the whole seconds and
/// the nanoseconds of the duration, or `None` where the text is no duration.
pub uninterp spec fn humantime_duration(text: Seq<char>) -> Option<(u64, u32)>;

/// Whether `argon2::PasswordHash::new` accepts a text as a PHC string.
pub uninterp spec fn phc_string_valid(hash: Seq<char>) -> bool;

/// Whether `Argon2::default().verify_password` accepts a password against a
/// parsed PHC string.
pub uninterp spec fn argon2_accepts(hash: Seq<char>, password: Seq<char>) -> bool;

/// Calls `humantime::parse_duration`; the result is a function of the text
/// alone, named `humantime_duration`.
#[verifier::external_body]
fn parse_duration(text: &str) -> (r: Option<(u64, u32)>)
    ensures
        r == humantime_duration(text@),
{
    match humantime::parse_duration(text) {
        Ok(d) => Some((d.as_secs(), d.subsec_nanos())),
        Err(_) => None,
    }
}

/// Calls `chrono::TimeDelta::try_seconds` and reads the seconds back with
/// `num_seconds`: a delta exists exactly for the seconds within
/// `TIME_DELTA_MAX_SECONDS` either way, as chrono's documentation states.
#[verifier::external_body]
fn try_seconds(seconds: i64) -> (r: Option<i64>)
    ensures
        r == (if -TIME_DELTA_MAX_SECONDS <= seconds <= TIME_DELTA_MAX_SECONDS {
            Some(seconds)
        } else {
            None::<i64>
        }),
{
    match TimeDelta::try_seconds(seconds) {
        Some(d) => Some(d.num_seconds()),
        None => None,
    }
}

/// Calls `chrono::TimeDelta::try_days` and reads the seconds back with
/// `num_seconds`: a delta exists exactly when the days, counted in seconds,
/// stay within `TIME_DELTA_MAX_SECONDS` either way.
#[verifier::external_body]
fn try_days(days: i64) -> (r: Option<i64>)
    ensures
        r == (if -TIME_DELTA_MAX_SECONDS <= days * SECONDS_PER_DAY <= TIME_DELTA_MAX_SECONDS {
            Some((days * SECONDS_PER_DAY) as i64)
        } else {
            None::<i64>
        }),
{
    match TimeDelta::try_days(days) {
        Some(d) => Some(d.num_seconds()),
        None => None,
    }
}

/// Parses a stored hash with `argon2::PasswordHash::new` and, where it is a
/// PHC string, checks the password with `Argon2::default().verify_password`.
/// `None` stands for a hash that does not parse.
#[verifier::external_body]
fn argon2_check(hash: &str, password: &str) -> (r: Option<bool>)
    ensures
        r == (if phc_string_valid(hash@) {
            Some(argon2_accepts(hash@, password@))
        } else {
            None::<bool>
        }),
{
    match PasswordHash::new(hash) {
        Ok(parsed) => Some(Argon2::default().verify_password(password.as_bytes(), &parsed).is_ok()),
        Err(_) => None,
    }
}

/// Longest password, in bytes, that Argon2 hashes.
pub const MAX_PASSWORD_BYTES: u64 = 0xFFFF_FFFF;

/// The start of the PHC string of an Argon2id hash, version 0x13, with the
/// given costs: `$argon2id$v=19$m=<m>,t=<t>,p=<p>$`; the salt and the digest
/// follow.
pub open spec fn argon2id_phc_prefix(memory_cost: u32, time_cost: u32, parallelism: u32) -> Seq<char> {
    "$argon2id$v=19$m="@ + nat_decimal(memory_cost as nat) + ",t="@ + nat_decimal(time_cost as nat) + ",p="@
        + nat_decimal(parallelism as nat) + "$"@
}

/// Hashes a password with Argon2id, version 0x13, the given costs and a
/// fresh salt from `SaltString::generate(&mut OsRng)`, through
/// `Params::new`, `Argon2::new` and `hash_password`, and renders the PHC
/// string. Hashing fails only for a password of more than 0xFFFFFFFF bytes
/// (the costs are valid by `requires`, the salt has a valid length). The
/// string starts with the algorithm, the version and the costs; the salt is
/// random, so the salt and the digest are not named, only that the string
/// parses and that the same password verifies against it (verification
/// recomputes the hash from the salt and the costs that the string carries).
/// An error gives its displayed text.
#[verifier::external_body]
fn argon2_hash(password: &str, memory_cost: u32, time_cost: u32, parallelism: u32) -> (r: Result<String, String>)
    requires
        memory_cost >= 8,
        time_cost >= 1,
        1 <= parallelism <= 0xFFFFFF,
        memory_cost >= 8 * parallelism,
    ensures
        password.spec_bytes().len() <= MAX_PASSWORD_BYTES ==> r is Ok,
        r matches Ok(h) ==> {
            &&& phc_string_valid(h@)
            &&& argon2_accepts(h@, password@)
            &&& argon2id_phc_prefix(memory_cost, time_cost, parallelism).is_prefix_of(h@)
        },
{
    let salt = SaltString::generate(&mut OsRng);
    let params = Params::new(memory_cost, time_cost, parallelism, None).unwrap();
    let hasher = Argon2::new(Algorithm::Argon2id, Version::V0x13, params);
    match hasher.hash_password(password.as_bytes(), &salt) {
        Ok(h) => Ok(h.to_string()),
        Err(e) => Err(e.to_string()),
    }
}

/// The claims of an API token: its subject and its expiry instant in
/// seconds since the epoch.
#[derive(Debug, Clone)]
pub struct TokenPlayload {
    pub sub: String,
    pub exp: u64,
}

/// Issues and checks API tokens and passwords. `expire_time` is the lifetime
/// of a token in seconds.
#[derive(Debug, Clone)]
pub struct LocalAuthProvider {
    pub secret_key: String,
    pub expire_time: i64,
}

/// The lifetime, in seconds, that a configured text gives: the text read as
/// a duration (zero where it is none), kept where chrono can hold it, two
/// days otherwise.
pub open spec fn configured_lifetime(text: Seq<char>) -> i64 {
    let secs: u64 = match humantime_duration(text) {
        Some(d) => d.0,
        None => 0,
    };
    let wide = secs as i64;
    if -TIME_DELTA_MAX_SECONDS <= wide <= TIME_DELTA_MAX_SECONDS {
        wide
    } else {
        (2 * SECONDS_PER_DAY) as i64
    }
}

/// Whether `h` is a hash that `encrypt_password` may give for `password`:
/// an Argon2id PHC string with the costs of new passwords, which parses and
/// accepts the password.
pub open spec fn is_new_hash(h: Seq<char>, password: Seq<char>) -> bool {
    &&& phc_string_valid(h)
    &&& argon2_accepts(h, password)
    &&& argon2id_phc_prefix(HASH_MEMORY_COST, HASH_TIME_COST, HASH_PARALLELISM).is_prefix_of(h)
}

/// Whether `r` is what checking `candidate` against the stored `hash` gives:
/// an unexpected error when the hash is no PHC string, invalid credentials
/// when the password does not match it, success otherwise.
pub open spec fn is_password_check(r: Result<(), AuthError>, hash: Seq<char>, candidate: Seq<char>) -> bool {
    if !phc_string_valid(hash) {
        r matches Err(AuthError::UnexpectedError(m)) && m@ == BAD_HASH_TEXT@
    } else if !argon2_accepts(hash, candidate) {
        r matches Err(AuthError::InvalidCredentials(m)) && m@ == WRONG_PASSWORD_TEXT@
    } else {
        r is Ok
    }
}

impl Default for LocalAuthProvider {
    fn default() -> (r: Self)
        ensures
            r.secret_key@ == Seq::<char>::empty(),
            r.expire_time == 0,
    {
        LocalAuthProvider { secret_key: String::new(), expire_time: 0 }
    }
}

impl LocalAuthProvider {
    /// A provider signing with `secret_key` whose tokens live as long as the
    /// duration `expire_time` says (see `configured_lifetime`).
    pub fn new(secret_key: String, expire_time: &str) -> (r: Self)
        ensures
            r.secret_key@ == secret_key@,
            r.expire_time == configured_lifetime(expire_time@),
    {
        let secs: u64 = match parse_duration(expire_time) {
            Some(d) => d.0,
            None => 0,
        };
        let default_expire_time: i64 = match try_days(2) {
            Some(s) => s,
            None => 0,
        };
        let expire = match try_seconds(secs as i64) {
            Some(s) => s,
            None => default_expire_time,
        };
        LocalAuthProvider { secret_key, expire_time: expire }
    }

    /// Checks a password against its stored hash: an error when the hash is
    /// no PHC string, `InvalidCredentials` when the password does not match.
    pub fn verify_password(&self, password: &str, password_candidate: &str) -> (r: Result<(), AuthError>)
        ensures
            is_password_check(r, password@, password_candidate@),
    {
        match argon2_check(password, password_candidate) {
            None => Err(AuthError::UnexpectedError(String::from_str(BAD_HASH_TEXT))),
            Some(false) => Err(AuthError::InvalidCredentials(String::from_str(WRONG_PASSWORD_TEXT))),
            Some(true) => Ok(()),
        }
    }

    /// Hashes a new password with Argon2id, version 0x13, 15000 KiB of
    /// memory, 2 iterations and 1 lane; the hash verifies against that
    /// password. Only a password of more than 0xFFFFFFFF bytes fails.
    pub fn encrypt_password(&self, password: &str) -> (r: Result<String, AuthError>)
        ensures
            password.spec_bytes().len() <= MAX_PASSWORD_BYTES ==> r is Ok,
            r matches Ok(h) ==> is_new_hash(h@, password@),
            r matches Err(e) ==> e is InvalidCredentials,
    {
        match argon2_hash(password, HASH_MEMORY_COST, HASH_TIME_COST, HASH_PARALLELISM) {
            Ok(h) => Ok(h),
            Err(e) => Err(AuthError::InvalidCredentials(e)),
        }
    }

    /// The claims of a token issued to `username` at `now` (seconds since the
    /// epoch): it expires one lifetime later.
    pub fn token_claims(&self, username: &str, now: i64) -> (r: TokenPlayload)
        requires
            MIN_UTC_TIMESTAMP <= now + self.expire_time <= MAX_UTC_TIMESTAMP,
        ensures
            r.sub@ == username@,
            r.exp == (now + self.expire_time) as u64,
    {
        let at: i64 = now + self.expire_time;
        TokenPlayload { sub: String::from_str(username), exp: at as u64 }
    }

    /// The token handed to `username` once signed: it carries the lifetime in
    /// milliseconds.
    pub fn issued_token(&self, username: &str, token: String) -> (r: UserToken)
        requires
            -TIME_DELTA_MAX_SECONDS <= self.expire_time <= TIME_DELTA_MAX_SECONDS,
        ensures
            r.username@ == username@,
            r.token@ == token@,
            r.expire_time == (self.expire_time * 1000) as u64,
    {
        let millis: i64 = self.expire_time * 1000;
        UserToken { username: String::from_str(username), token, expire_time: millis as u64 }
    }

    /// The token that a verified bearer string stands for: its subject and
    /// its expiry instant.
    pub fn token_from_claims(&self, token: &str, claims: TokenPlayload) -> (r: UserToken)
        ensures
            r.username@ == claims.sub@,
            r.token@ == token@,
            r.expire_time == claims.exp,
    {
        UserToken { username: claims.sub, token: String::from_str(token), expire_time: claims.exp }
    }
}

/// A password verifies against the hash that `encrypt_password` made of it:
/// whatever a check of that pair gives is a success.
pub proof fn lemma_encrypted_password_verifies(r: Result<(), AuthError>, hash: Seq<char>, password: Seq<char>)
    requires
        phc_string_valid(hash),
        argon2_accepts(hash, password),
        is_password_check(r, hash, password),
    ensures
        r is Ok,
{
}

/// A configured lifetime that chrono can hold is kept to the second: when the
/// text reads as a duration of `s` whole seconds and `s` is within chrono's
/// range, tokens live exactly `s` seconds; a text that is no duration gives
/// no lifetime at all.
pub proof fn lemma_configured_lifetime_kept(text: Seq<char>, s: u64, nanos: u32)
    ensures
        humantime_duration(text) == Some((s, nanos)) && s <= TIME_DELTA_MAX_SECONDS ==> configured_lifetime(text)
            == s,
        humantime_duration(text) is None ==> configured_lifetime(text) == 0,
{
    if humantime_duration(text) == Some((s, nanos)) && s <= TIME_DELTA_MAX_SECONDS {
        assert((s as i64) == s);
    }
}

} // verus!
