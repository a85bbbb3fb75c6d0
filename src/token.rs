use vstd::prelude::*;

use hmac::Mac;
use jwt::{SignWithKey, VerifyWithKey};

use crate::claims::{claims_of, claims_text, decode_claims, encode_claims, lemma_claims_round_trip};

verus! {

/// The shortest signing key accepted: the output size of SHA-384, as HMAC-SHA-384 asks.
pub const MIN_KEY_LEN: usize = 48;

/// The lifetime of an issued token: two weeks, in seconds.
pub const SESSION_TTL_SECONDS: i64 = 1209600;

/// The compact token (`header.claims.mac`, each part base64url) that signs a claims text with
/// HMAC-SHA-384 under a key.
pub uninterp spec fn hs384_token(key: Seq<u8>, claims: Seq<char>) -> Seq<char>;

/// The claims text that a compact token carries, when the token has three parts, its header
/// names HMAC-SHA-384, its claims part is base64url of a JSON value and its MAC verifies under
/// the key; `None` otherwise.
pub uninterp spec fn hs384_claims(key: Seq<u8>, token: Seq<char>) -> Option<Seq<char>>;

/// Relies on jwt's `SignWithKey` with an HMAC-SHA-384 key; the claims text goes through as a
/// raw JSON value, so the token carries exactly that text. HMAC takes a key of any length,
/// `RawValue::from_string` accepts any JSON text (canonical claims are JSON), and signing with
/// an HMAC key does not fail, so canonical claims are always signed.
#[verifier::external_body]
fn sign_hs384(key: &[u8], claims: &str) -> (r: Option<String>)
    ensures
        r matches Some(t) ==> t@ == hs384_token(key@, claims@),
        (exists|u: u128, e: i64| claims@ == claims_text(u, e)) ==> r is Some,
{
    let mac = hmac::Hmac::<sha2::Sha384>::new_from_slice(key).ok()?;
    let raw = serde_json::value::RawValue::from_string(claims.to_owned()).ok()?;
    raw.sign_with_key(&mac).ok()
}

/// Relies on jwt's `VerifyWithKey` with an HMAC-SHA-384 key: it splits the token, checks the
/// header's algorithm, recomputes the MAC and compares it in constant time, and hands back the
/// claims segment's JSON text. A token that `sign_hs384` made from canonical claims reads back
/// as those claims.
#[verifier::external_body]
fn verify_hs384(key: &[u8], token: &str) -> (r: Option<String>)
    ensures
        hs384_claims(key@, token@) == match r {
            Some(c) => Some(c@),
            None => None,
        },
        forall|u: u128, e: i64|
            token@ == hs384_token(key@, claims_text(u, e)) ==> r is Some && r.unwrap()@
                == claims_text(u, e),
{
    let mac = hmac::Hmac::<sha2::Sha384>::new_from_slice(key).ok()?;
    let raw: Box<serde_json::value::RawValue> = token.verify_with_key(&mac).ok()?;
    Some(raw.get().to_owned())
}

/// Why a token could not be issued or was not accepted.
#[derive(Debug, Clone, Copy, PartialEq, Eq, Structural)]
pub enum TokenError {
    /// The token is malformed, its MAC does not verify, its claims are not canonical, or it
    /// has expired. The reasons are deliberately not told apart.
    Invalid,
    /// The expiry of a new token does not fit in an `i64`.
    ExpiryOutOfRange,
    /// The MAC library refused to sign.
    Signing,
}

/// Why a codec could not be built.
#[derive(Debug, Clone, Copy, PartialEq, Eq, Structural)]
pub enum ConfigError {
    /// The signing key is shorter than `MIN_KEY_LEN` bytes.
    KeyTooShort,
    /// The token lifetime is not positive.
    NonPositiveTtl,
}

/// What verification concludes from the claims text that a token carried (if its MAC verified).
pub open spec fn claims_verdict(claims: Option<Seq<char>>, now: i64) -> Result<u128, TokenError> {
    match claims {
        None => Err(TokenError::Invalid),
        Some(text) => match claims_of(text) {
            None => Err(TokenError::Invalid),
            Some(p) => if p.1 >= now {
                Ok(p.0)
            } else {
                Err(TokenError::Invalid)
            },
        },
    }
}

/// The claims of an issued token are accepted, with their subject, up to and including their
/// expiry, and refused after it.
pub proof fn lemma_issued_claims_verdict(user_id: u128, exp: i64, now: i64)
    ensures
        claims_verdict(Some(claims_text(user_id, exp)), now) == if exp >= now {
            Ok::<u128, TokenError>(user_id)
        } else {
            Err::<u128, TokenError>(TokenError::Invalid)
        },
{
    lemma_claims_round_trip(user_id, exp);
}

/// Decides on the claims text of a token whose MAC verified: the subject, if the claims are
/// canonical and have not expired at `now`.
pub fn check_claims(claims: Option<&str>, now: i64) -> (r: Result<u128, TokenError>)
    ensures
        r == claims_verdict(
            match claims {
                Some(c) => Some(c@),
                None => None,
            },
            now,
        ),
        forall|u: u128, e: i64|
            claims matches Some(c) && c@ == #[trigger] claims_text(u, e) ==> r == (if e >= now {
                Ok::<u128, TokenError>(u)
            } else {
                Err::<u128, TokenError>(TokenError::Invalid)
            }),
{
    match claims {
        None => Err(TokenError::Invalid),
        Some(text) => match decode_claims(text) {
            None => Err(TokenError::Invalid),
            Some((user_id, exp)) => if exp >= now {
                Ok(user_id)
            } else {
                Err(TokenError::Invalid)
            },
        },
    }
}

/// Signs and checks bearer tokens with one process-wide key and lifetime.
pub struct TokenCodec {
    key: Vec<u8>,
    ttl: i64,
}

impl TokenCodec {
    /// The key is long enough and the lifetime positive.
    #[verifier::type_invariant]
    spec fn well_formed(&self) -> bool {
        self.key@.len() >= MIN_KEY_LEN && self.ttl > 0
    }

    /// The lifetime of the tokens this codec issues, in seconds; every codec has a key of at
    /// least `MIN_KEY_LEN` bytes and a positive lifetime.
    pub fn ttl_seconds(&self) -> (r: i64)
        ensures
            r == self.ttl(),
            r > 0,
            self.key().len() >= MIN_KEY_LEN,
    {
        proof {
            use_type_invariant(self);
        }
        self.ttl
    }

    pub closed spec fn key(&self) -> Seq<u8> {
        self.key@
    }

    pub closed spec fn ttl(&self) -> i64 {
        self.ttl
    }

    /// The expiry of a token issued at `now`.
    pub open spec fn expiry_at(&self, now: i64) -> int {
        now + self.ttl()
    }

    /// Builds a codec; short keys and non-positive lifetimes are refused.
    pub fn new(key: &[u8], ttl_seconds: i64) -> (r: Result<TokenCodec, ConfigError>)
        ensures
            key@.len() < MIN_KEY_LEN ==> r == Err::<TokenCodec, ConfigError>(
                ConfigError::KeyTooShort,
            ),
            key@.len() >= MIN_KEY_LEN && ttl_seconds <= 0 ==> r == Err::<TokenCodec, ConfigError>(
                ConfigError::NonPositiveTtl,
            ),
            key@.len() >= MIN_KEY_LEN && ttl_seconds > 0 ==> (r matches Ok(c) && c.key() == key@
                && c.ttl() == ttl_seconds),
    {
        if key.len() < MIN_KEY_LEN {
            return Err(ConfigError::KeyTooShort);
        }
        if ttl_seconds <= 0 {
            return Err(ConfigError::NonPositiveTtl);
        }
        let mut owned: Vec<u8> = Vec::new();
        let mut i: usize = 0;
        while i < key.len()
            invariant
                i <= key@.len(),
                owned@ == key@.subrange(0, i as int),
            decreases key@.len() - i,
        {
            owned.push(key[i]);
            i = i + 1;
            proof {
                assert(owned@ =~= key@.subrange(0, i as int));
            }
        }
        proof {
            assert(owned@ =~= key@);
        }
        Ok(TokenCodec { key: owned, ttl: ttl_seconds })
    }

    /// Issues a token for `user_id` at time `now` (seconds since the epoch); it expires at
    /// `now` plus the lifetime.
    pub fn issue(&self, user_id: u128, now: i64) -> (r: Result<String, TokenError>)
        ensures
            self.expiry_at(now) > i64::MAX ==> r == Err::<String, TokenError>(
                TokenError::ExpiryOutOfRange,
            ),
            self.expiry_at(now) <= i64::MAX ==> (r matches Ok(t) && t@ == hs384_token(
                self.key(),
                claims_text(user_id, self.expiry_at(now) as i64),
            )),
    {
        proof {
            use_type_invariant(self);
        }
        let exp = match now.checked_add(self.ttl) {
            Some(exp) => exp,
            None => return Err(TokenError::ExpiryOutOfRange),
        };
        let claims = encode_claims(user_id, exp);
        proof {
            assert(claims@ == claims_text(user_id, exp));
        }
        match sign_hs384(self.key.as_slice(), claims.as_str()) {
            Some(token) => Ok(token),
            None => Err(TokenError::Signing),
        }
    }

    /// Verifies a token at time `now` and hands back its subject. Any failure, whatever its
    /// cause, is the one `TokenError::Invalid`.
    pub fn verify(&self, token: &str, now: i64) -> (r: Result<u128, TokenError>)
        ensures
            r == claims_verdict(hs384_claims(self.key(), token@), now),
            forall|u: u128, e: i64|
                token@ == hs384_token(self.key(), claims_text(u, e)) ==> r == (if e >= now {
                    Ok::<u128, TokenError>(u)
                } else {
                    Err::<u128, TokenError>(TokenError::Invalid)
                }),
    {
        let claims = verify_hs384(self.key.as_slice(), token);
        match claims {
            None => Err(TokenError::Invalid),
            Some(text) => check_claims(Some(text.as_str()), now),
        }
    }
}

} // verus!
