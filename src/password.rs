use vstd::prelude::*;
use vstd::string::StringSliceAdditionalSpecFns;

use rand::RngCore;

verus! {

/// The longest password Argon2 takes, in bytes.
pub const MAX_PASSWORD_BYTES: u64 = 0xffff_ffff;

/// The PHC string that Argon2 (`Argon2::default()`: Argon2id, version 19, default cost) makes
/// of a password with a given B64 salt.
pub uninterp spec fn argon2_phc(password: Seq<char>, salt: Seq<char>) -> Seq<char>;

/// Whether a PHC string parses and its digest is that of the password under the parameters
/// and salt it records.
pub uninterp spec fn argon2_accepts(password: Seq<char>, phc: Seq<char>) -> bool;

/// Whether a character belongs to the B64 alphabet (`[A-Za-z0-9+/]`).
pub open spec fn is_b64_char(c: char) -> bool {
    ('A' <= c <= 'Z') || ('a' <= c <= 'z') || ('0' <= c <= '9') || c == '+' || c == '/'
}

/// Whether a salt is the unpadded B64 text of 16 bytes: 22 characters of the alphabet, the
/// last of which carries no leftover bits. Argon2 accepts every such salt.
pub open spec fn salt_ok(s: Seq<char>) -> bool {
    &&& s.len() == 22
    &&& forall|i: int| 0 <= i < 22 ==> is_b64_char(#[trigger] s[i])
    &&& (s[21] == 'A' || s[21] == 'Q' || s[21] == 'g' || s[21] == 'w')
}

/// The start of every PHC string that `Argon2::default()` writes with a salt.
pub open spec fn phc_prefix(salt: Seq<char>) -> Seq<char> {
    "$argon2id$v=19$m=19456,t=2,p=1$"@ + salt + "$"@
}

/// Whether a password fits Argon2's length limit.
pub open spec fn password_fits(password: Seq<char>) -> bool {
    vstd::utf8::encode_utf8(password).len() <= MAX_PASSWORD_BYTES
}

/// Relies on rand's `OsRng::try_fill_bytes` for 16 random bytes and password-hash's
/// `SaltString::encode_b64`, which writes them as 22 unpadded B64 characters. `None` when the
/// operating system's entropy source fails.
#[verifier::external_body]
fn fresh_salt() -> (r: Option<String>)
    ensures
        r matches Some(s) ==> salt_ok(s@),
{
    let mut bytes = [0u8; argon2::password_hash::Salt::RECOMMENDED_LENGTH];
    rand::rngs::OsRng.try_fill_bytes(&mut bytes).ok()?;
    argon2::password_hash::SaltString::encode_b64(&bytes).ok().map(|s| s.as_str().to_owned())
}

/// Relies on password-hash's `PasswordHash::generate` with `Argon2::default()`: the PHC string
/// `$argon2id$v=19$m=19456,t=2,p=1$<salt>$<digest>` of the password and salt, which Argon2's
/// verification accepts for that password. It succeeds for every salt of the form above and
/// every password within Argon2's length limit.
#[verifier::external_body]
fn argon2_hash(password: &str, salt: &str) -> (r: Option<String>)
    ensures
        r matches Some(h) ==> h@ == argon2_phc(password@, salt@),
        r matches Some(h) ==> argon2_accepts(password@, h@),
        r matches Some(h) ==> h@.len() > phc_prefix(salt@).len() && h@.subrange(
            0,
            phc_prefix(salt@).len() as int,
        ) == phc_prefix(salt@),
        salt_ok(salt@) && password_fits(password@) ==> r is Some,
{
    let salt = argon2::password_hash::SaltString::from_b64(salt).ok()?;
    argon2::PasswordHash::generate(argon2::Argon2::default(), password, &salt).ok().map(
        |h| h.to_string(),
    )
}

/// Relies on password-hash's `PasswordHash::new` and `PasswordHash::verify_password` with
/// `Argon2::default()`: the string must parse as a PHC hash, and the password's digest under
/// its parameters must match (compared in constant time). The parser refuses an empty string
/// and any string that does not start with `$`.
#[verifier::external_body]
fn argon2_verify(password: &str, phc: &str) -> (r: bool)
    ensures
        r == argon2_accepts(password@, phc@),
        phc@.len() == 0 || phc@[0] != '$' ==> !r,
{
    match argon2::PasswordHash::new(phc) {
        Ok(h) => h.verify_password(&[&argon2::Argon2::default()], password).is_ok(),
        Err(_) => false,
    }
}

/// Why a password could not be hashed or did not verify.
#[derive(Debug, Clone, Copy, PartialEq, Eq, Structural)]
pub enum CredentialError {
    /// The salt is not of the accepted form, or the password is longer than Argon2 takes.
    Hashing,
    /// The operating system's entropy source failed to give a salt.
    Entropy,
    /// The password does not match the hash, or the hash is malformed.
    Mismatch,
}

/// Draws a fresh random salt.
pub fn generate_salt() -> (r: Result<String, CredentialError>)
    ensures
        r matches Ok(s) ==> salt_ok(s@),
        r matches Err(e) ==> e == CredentialError::Entropy,
{
    match fresh_salt() {
        Some(s) => Ok(s),
        None => Err(CredentialError::Entropy),
    }
}

/// Hashes a password with a given salt.
pub fn hash_password_with_salt(password: &str, salt: &str) -> (r: Result<String, CredentialError>)
    ensures
        r matches Ok(h) ==> h@ == argon2_phc(password@, salt@) && argon2_accepts(password@, h@)
            && h@.subrange(0, phc_prefix(salt@).len() as int) == phc_prefix(salt@),
        salt_ok(salt@) && password_fits(password@) ==> r is Ok,
        r matches Err(e) ==> e == CredentialError::Hashing,
{
    match argon2_hash(password, salt) {
        Some(h) => Ok(h),
        None => Err(CredentialError::Hashing),
    }
}

/// Hashes a password with a fresh random salt. It fails only when the password is longer than
/// Argon2 takes, or when the entropy source fails.
pub fn hash_password(password: &str) -> (r: Result<String, CredentialError>)
    ensures
        r matches Ok(h) ==> argon2_accepts(password@, h@) && exists|salt: Seq<char>|
            salt_ok(salt) && #[trigger] argon2_phc(password@, salt) == h@
                && h@.subrange(0, phc_prefix(salt).len() as int) == phc_prefix(salt),
        !password_fits(password@) ==> r == Err::<String, CredentialError>(CredentialError::Hashing),
        password_fits(password@) ==> (r is Ok || r == Err::<String, CredentialError>(
            CredentialError::Entropy,
        )),
{
    if password.as_bytes().len() as u64 > MAX_PASSWORD_BYTES {
        return Err(CredentialError::Hashing);
    }
    let salt = generate_salt()?;
    hash_password_with_salt(password, salt.as_str())
}

/// Checks a password against a stored hash; a malformed hash fails the check.
pub fn verify_password(password: &str, password_hash: &str) -> (r: Result<(), CredentialError>)
    ensures
        r is Ok == argon2_accepts(password@, password_hash@),
        password_hash@.len() == 0 || password_hash@[0] != '$' ==> r is Err,
        r matches Err(e) ==> e == CredentialError::Mismatch,
{
    if argon2_verify(password, password_hash) {
        Ok(())
    } else {
        Err(CredentialError::Mismatch)
    }
}

} // verus!
