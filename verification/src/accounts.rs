//! Accounts of the site: checking a login against the stored password hash,
//! making the hash of a new password, and the dashboard's time window.

use argon2::{PasswordHasher, PasswordVerifier};
use vstd::prelude::*;

verus! {

/// Errors of account operations.
#[derive(Debug, Copy, Clone, PartialEq, Eq, Structural)]
pub enum AccountError {
    /// "Passwords are not the same!"
    PasswordsDiffer,
    /// The stored password hash could not be read.
    InvalidHash,
    /// The password could not be hashed.
    HashFailed,
    /// The operating system's random source failed.
    RandomUnavailable,
}

/// What `Argon2::default().hash_password(password, salt)` gives, as a PHC
/// string: `None` when hashing fails (such as for a salt that is not
/// valid B64).
pub uninterp spec fn spec_argon2_hash(password: Seq<u8>, salt: Seq<char>) -> Option<Seq<char>>;

/// `Argon2::hash_password` (argon2), with the default parameters, and the
/// PHC string of the result. The contract names the result.
#[verifier::external_body]
fn argon2_hash(password: &[u8], salt: &str) -> (r: Option<String>)
    ensures
        match r {
            Some(h) => spec_argon2_hash(password@, salt@) == Some(h@),
            None => spec_argon2_hash(password@, salt@) is None,
        },
{
    argon2::Argon2::default().hash_password(password, salt).ok().map(|h| h.to_string())
}

/// `SaltString::b64_encode` (password-hash) of 16 bytes: the salt as B64.
/// Sixteen bytes always fit the encoding buffer (the crate's own
/// `SaltString::generate` relies on that); nothing is stated of the text.
#[verifier::external_body]
fn salt_b64(bytes: &[u8]) -> String
    requires
        bytes@.len() == 16,
{
    argon2::password_hash::SaltString::b64_encode(bytes).unwrap().as_str().to_owned()
}

/// What checking `password` against the PHC string `hash` gives:
/// `PasswordHash::new(hash)`, `None` when it fails, then whether
/// `Argon2::default().verify_password` accepts the password.
pub uninterp spec fn spec_argon2_verify(password: Seq<u8>, hash: Seq<char>) -> Option<bool>;

/// `PasswordHash::new` and `Argon2::verify_password` (argon2): whether the
/// password matches a stored hash, `None` when the hash cannot be read.
/// The contract names the result.
#[verifier::external_body]
fn argon2_verify(password: &[u8], hash: &str) -> (r: Option<bool>)
    ensures
        r == spec_argon2_verify(password@, hash@),
{
    match argon2::PasswordHash::new(hash) {
        Ok(parsed) => Some(argon2::Argon2::default().verify_password(password, &parsed).is_ok()),
        Err(_) => None,
    }
}

/// A password typed twice must be typed the same.
pub fn check_repeated_password(password: &String, repeat_password: &String) -> (r: Result<
    (),
    AccountError,
>)
    ensures
        r is Ok <==> password@ == repeat_password@,
        r is Err ==> r == Err::<(), AccountError>(AccountError::PasswordsDiffer),
{
    if *password != *repeat_password {
        return Err(AccountError::PasswordsDiffer);
    }
    Ok(())
}

/// The hash to store for a new password, typed twice, with the salt
/// `salt`: the Argon2 hash of the password's UTF-8 bytes, or an error when
/// hashing fails.
pub fn password_hash_with_salt(password: &String, repeat_password: &String, salt: &str) -> (r:
    Result<String, AccountError>)
    ensures
        password@ != repeat_password@ ==> r == Err::<String, AccountError>(
            AccountError::PasswordsDiffer,
        ),
        password@ == repeat_password@ ==> match spec_argon2_hash(
            vstd::utf8::encode_utf8(password@),
            salt@,
        ) {
            Some(h) => r matches Ok(s) && s@ == h,
            None => r == Err::<String, AccountError>(AccountError::HashFailed),
        },
{
    check_repeated_password(password, repeat_password)?;
    match argon2_hash(password.as_str().as_bytes(), salt) {
        Some(h) => Ok(h),
        None => Err(AccountError::HashFailed),
    }
}

/// The hash to store for a new password, typed twice, with a fresh salt of
/// 16 random bytes: as `password_hash_with_salt` gives for that salt, or an
/// error when the operating system's random source fails.
pub fn new_password_hash(password: &String, repeat_password: &String) -> (r: Result<
    String,
    AccountError,
>)
    ensures
        password@ != repeat_password@ ==> r == Err::<String, AccountError>(
            AccountError::PasswordsDiffer,
        ),
        password@ == repeat_password@ ==> (r == Err::<String, AccountError>(
            AccountError::RandomUnavailable,
        ) || exists|salt: Seq<char>|
            match #[trigger] spec_argon2_hash(vstd::utf8::encode_utf8(password@), salt) {
                Some(h) => r matches Ok(s) && s@ == h,
                None => r == Err::<String, AccountError>(AccountError::HashFailed),
            }),
{
    check_repeated_password(password, repeat_password)?;
    let bytes = match crate::site::os_random_bytes(16) {
        Some(b) => b,
        None => {
            return Err(AccountError::RandomUnavailable);
        },
    };
    let salt = salt_b64(bytes.as_slice());
    let r = password_hash_with_salt(password, repeat_password, salt.as_str());
    assert(match spec_argon2_hash(vstd::utf8::encode_utf8(password@), salt@) {
        Some(h) => r matches Ok(s) && s@ == h,
        None => r == Err::<String, AccountError>(AccountError::HashFailed),
    });
    r
}

/// The account a login opens a session for: the account found by the
/// e-mail given (its ID and stored hash), when the password matches its
/// hash; `None` without such an account or with another password; an
/// error when the stored hash cannot be read.
pub fn verify_login(account: Option<(i32, String)>, password: &String) -> (r: Result<
    Option<i32>,
    AccountError,
>)
    ensures
        match account {
            None => r == Ok::<Option<i32>, AccountError>(None),
            Some((id, hash)) => match spec_argon2_verify(vstd::utf8::encode_utf8(password@), hash@) {
                None => r == Err::<Option<i32>, AccountError>(AccountError::InvalidHash),
                Some(true) => r == Ok::<Option<i32>, AccountError>(Some(id)),
                Some(false) => r == Ok::<Option<i32>, AccountError>(None),
            },
        },
{
    match account {
        None => Ok(None),
        Some((id, hash)) => match argon2_verify(password.as_str().as_bytes(), hash.as_str()) {
            None => Err(AccountError::InvalidHash),
            Some(true) => Ok(Some(id)),
            Some(false) => Ok(None),
        },
    }
}

/// Seconds in a day.
pub const SECONDS_PER_DAY: i64 = 86400;

/// The window of a dashboard, in seconds since the Unix epoch: from
/// midnight (UTC) of the day `day` days before `now` (with `day` the day
/// of the month, the last day of the previous month), for 31 days.
pub open spec fn spec_dashboard_window(now: i64, day: u8) -> (int, int) {
    let t = now - (day as int) * SECONDS_PER_DAY;
    let start = t - t % (SECONDS_PER_DAY as int);
    (start, start + 31 * SECONDS_PER_DAY)
}

/// The dashboard's window for the current time `now` and its day of the
/// month `day`. Times within about a month of the ends of the `i64` range
/// overflow; `requires` leaves them out.
pub fn dashboard_window(now: i64, day: u8) -> (r: (i64, i64))
    requires
        i64::MIN + 256 * SECONDS_PER_DAY <= now <= i64::MAX - 32 * SECONDS_PER_DAY,
    ensures
        r.0 == spec_dashboard_window(now, day).0,
        r.1 == spec_dashboard_window(now, day).1,
{
    let t = now - day as i64 * SECONDS_PER_DAY;
    let rem = t % SECONDS_PER_DAY;
    let rem = if rem < 0 {
        rem + SECONDS_PER_DAY
    } else {
        rem
    };
    let start = t - rem;
    (start, start + 31 * SECONDS_PER_DAY)
}

} // verus!
