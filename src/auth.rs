use vstd::prelude::*;
use vstd::string::*;

use crate::claims::claims_text;
use crate::error::AppError;
use crate::ids::{id_from_text, id_to_text, lemma_uuid_text_injective, uuid_text};
use crate::password::{
    argon2_accepts, argon2_phc, hash_password_with_salt, password_fits, salt_ok, verify_password,
};
use crate::session::{lookup, RecordView, SessionRecord, StoreError};
use crate::session_store::{
    lemma_save_then_load, load_from, save_command, stored_after_delete, stored_after_save, CacheWrite, MemoryStore,
};
use crate::token::{claims_verdict, hs384_claims, hs384_token, TokenCodec, TokenError};

verus! {

/// The scheme prefix of a bearer `Authorization` header.
pub const SCHEME_PREFIX: &'static str = "Bearer ";

/// The session data key that holds the signed-in user's id.
pub const USER_ID_KEY: &'static str = "user_id";

/// The authenticated principal that every transport yields: the user's id.
#[derive(Debug, Clone, Copy, PartialEq, Eq, Structural)]
pub struct AuthUser {
    pub user_id: u128,
}

/// Why a request was not authenticated.
#[derive(Debug, Clone, Copy, PartialEq, Eq, Structural)]
pub enum AuthError {
    /// No configured transport carried a credential.
    MissingCredential,
    /// A carried credential is malformed, does not verify or has expired.
    InvalidCredential,
    /// The session id is unknown, expired or signed out.
    NotAuthenticated,
    /// The session store could not be reached or held a corrupt record.
    Backend,
}

impl AuthError {
    /// The HTTP status of this failure: a server error for a backend failure, an authorization
    /// failure for everything else.
    pub fn status_code(&self) -> (r: u16)
        ensures
            r == (if *self == AuthError::Backend {
                500u16
            } else {
                401u16
            }),
    {
        match self {
            AuthError::Backend => 500,
            _ => 401,
        }
    }

    /// The error that the HTTP layer turns into a response; the detail is the same for every
    /// authorization failure, so a client learns nothing of which check failed.
    pub fn to_app_error(&self) -> (r: AppError)
        ensures
            *self == AuthError::Backend ==> r is Unexpected,
            *self != AuthError::Backend ==> (r matches AppError::Authorization(m) && m@
                == rejection_detail()),
    {
        match self {
            AuthError::Backend => AppError::Unexpected("session store unavailable".to_owned()),
            _ => AppError::Authorization("invalid credential".to_owned()),
        }
    }
}

/// The detail of every authorization failure.
pub open spec fn rejection_detail() -> Seq<char> {
    "invalid credential"@
}

/// Which transports a deployment accepts. They are tried in a fixed order: bearer header,
/// then private token cookie, then session cookie.
#[derive(Debug, Clone, Copy, PartialEq, Eq, Structural)]
pub struct AuthConfig {
    pub bearer: bool,
    pub private_cookie: bool,
    pub session: bool,
}

/// The credential carriers of one request, as the HTTP layer read them: the `Authorization`
/// header, the token held by the private (already decrypted) cookie, and the session cookie.
pub struct Carriers {
    pub authorization: Option<String>,
    pub token_cookie: Option<String>,
    pub session_cookie: Option<String>,
}

/// What authentication needs next: either it has concluded, or it must look a session up.
#[derive(Debug, Clone, Copy)]
pub enum AuthStep {
    Done(Result<AuthUser, AuthError>),
    LookUpSession(u128),
}

pub open spec fn opt_view(o: Option<String>) -> Option<Seq<char>> {
    match o {
        Some(s) => Some(s@),
        None => None,
    }
}

/// The token of a bearer header: what follows the scheme prefix.
pub open spec fn bearer_of(header: Seq<char>) -> Option<Seq<char>> {
    if header.len() >= 7 && header.subrange(0, 7) == "Bearer "@ {
        Some(header.subrange(7, header.len() as int))
    } else {
        None
    }
}

/// The verdict on a token through the codec.
pub open spec fn token_verdict(codec: &TokenCodec, token: Seq<char>, now: i64) -> Result<
    AuthUser,
    AuthError,
> {
    match claims_verdict(hs384_claims(codec.key(), token), now) {
        Ok(u) => Ok(AuthUser { user_id: u }),
        Err(_) => Err(AuthError::InvalidCredential),
    }
}

/// The verdict on an `Authorization` header.
pub open spec fn header_verdict(codec: &TokenCodec, header: Seq<char>, now: i64) -> Result<
    AuthUser,
    AuthError,
> {
    match bearer_of(header) {
        None => Err(AuthError::InvalidCredential),
        Some(t) => token_verdict(codec, t, now),
    }
}

/// The id whose canonical text this is.
pub open spec fn id_of_text(s: Seq<char>) -> Option<u128> {
    if exists|id: u128| uuid_text(id) == s {
        Some(choose|id: u128| uuid_text(id) == s)
    } else {
        None
    }
}

/// The first step of authentication: the first configured transport whose carrier is present
/// decides; a session cookie that holds no session id is an invalid credential.
pub open spec fn auth_step(
    codec: &TokenCodec,
    config: AuthConfig,
    authorization: Option<Seq<char>>,
    token_cookie: Option<Seq<char>>,
    session_cookie: Option<Seq<char>>,
    now: i64,
) -> AuthStep {
    if config.bearer && authorization is Some {
        AuthStep::Done(header_verdict(codec, authorization.unwrap(), now))
    } else if config.private_cookie && token_cookie is Some {
        AuthStep::Done(token_verdict(codec, token_cookie.unwrap(), now))
    } else if config.session && session_cookie is Some {
        match id_of_text(session_cookie.unwrap()) {
            None => AuthStep::Done(Err(AuthError::InvalidCredential)),
            Some(id) => AuthStep::LookUpSession(id),
        }
    } else {
        AuthStep::Done(Err(AuthError::MissingCredential))
    }
}

/// The user that session data names, if its user entry holds a canonical id.
pub open spec fn session_user(data: Seq<(Seq<char>, Seq<char>)>) -> Option<u128> {
    match lookup(data, USER_ID_KEY@) {
        None => None,
        Some(text) => id_of_text(text),
    }
}

/// The verdict on a session lookup: a store failure stays distinct from "not signed in".
pub open spec fn session_verdict(loaded: Result<Option<RecordView>, StoreError>) -> Result<
    AuthUser,
    AuthError,
> {
    match loaded {
        Err(_) => Err(AuthError::Backend),
        Ok(None) => Err(AuthError::NotAuthenticated),
        Ok(Some(v)) => match session_user(v.data) {
            None => Err(AuthError::NotAuthenticated),
            Some(u) => Ok(AuthUser { user_id: u }),
        },
    }
}

/// Reads an id from its canonical text, with the same answer as `id_of_text`.
pub fn parse_id(s: &str) -> (r: Option<u128>)
    ensures
        r == id_of_text(s@),
{
    let r = id_from_text(s);
    proof {
        if exists|id: u128| uuid_text(id) == s@ {
            let id = choose|id: u128| uuid_text(id) == s@;
            assert(r == Some(id));
        } else if r is Some {
            assert(s@ == uuid_text(r.unwrap()));
        }
    }
    r
}

/// The token of a bearer header, if it uses the bearer scheme.
pub fn bearer_token(header: &str) -> (r: Option<&str>)
    ensures
        match r {
            Some(t) => bearer_of(header@) == Some(t@),
            None => bearer_of(header@) is None,
        },
{
    proof {
        reveal_strlit("Bearer ");
    }
    let n = header.unicode_len();
    if n < 7 {
        return None;
    }
    let prefix = header.substring_char(0, 7);
    if crate::ids::same_text(prefix, SCHEME_PREFIX) {
        Some(header.substring_char(7, n))
    } else {
        None
    }
}

impl AuthUser {
    /// A bearer token for this user, issued at `now`.
    pub fn to_jwt(&self, codec: &TokenCodec, now: i64) -> (r: Result<String, TokenError>)
        ensures
            codec.expiry_at(now) > i64::MAX ==> r == Err::<String, TokenError>(
                TokenError::ExpiryOutOfRange,
            ),
            codec.expiry_at(now) <= i64::MAX ==> (r matches Ok(t) && t@ == hs384_token(
                codec.key(),
                claims_text(self.user_id, codec.expiry_at(now) as i64),
            )),
    {
        codec.issue(self.user_id, now)
    }

    /// Authenticates a token through the codec; every failure is the same invalid credential.
    pub fn from_token(codec: &TokenCodec, token: &str, now: i64) -> (r: Result<AuthUser, AuthError>)
        ensures
            r == token_verdict(codec, token@, now),
    {
        match codec.verify(token, now) {
            Ok(user_id) => Ok(AuthUser { user_id }),
            Err(_) => Err(AuthError::InvalidCredential),
        }
    }

    /// Authenticates an `Authorization: Bearer <token>` header.
    pub fn from_authorization(codec: &TokenCodec, header: &str, now: i64) -> (r: Result<
        AuthUser,
        AuthError,
    >)
        ensures
            r == header_verdict(codec, header@, now),
    {
        match bearer_token(header) {
            None => Err(AuthError::InvalidCredential),
            Some(token) => AuthUser::from_token(codec, token, now),
        }
    }

    /// Authenticates from the record that a session lookup found (or the failure it met).
    pub fn from_session(loaded: Result<Option<SessionRecord>, StoreError>) -> (r: Result<
        AuthUser,
        AuthError,
    >)
        ensures
            r == session_verdict(crate::session_store::loaded_view(loaded)),
    {
        match loaded {
            Err(_) => Err(AuthError::Backend),
            Ok(None) => Err(AuthError::NotAuthenticated),
            Ok(Some(record)) => match record.get(USER_ID_KEY) {
                None => Err(AuthError::NotAuthenticated),
                Some(text) => match parse_id(text.as_str()) {
                    None => Err(AuthError::NotAuthenticated),
                    Some(user_id) => Ok(AuthUser { user_id }),
                },
            },
        }
    }
}

/// The first step of authenticating a request.
pub fn authenticate(codec: &TokenCodec, config: AuthConfig, carriers: &Carriers, now: i64) -> (r:
    AuthStep)
    ensures
        r == auth_step(
            codec,
            config,
            opt_view(carriers.authorization),
            opt_view(carriers.token_cookie),
            opt_view(carriers.session_cookie),
            now,
        ),
{
    if config.bearer {
        if let Some(header) = &carriers.authorization {
            return AuthStep::Done(AuthUser::from_authorization(codec, header.as_str(), now));
        }
    }
    if config.private_cookie {
        if let Some(token) = &carriers.token_cookie {
            return AuthStep::Done(AuthUser::from_token(codec, token.as_str(), now));
        }
    }
    if config.session {
        if let Some(cookie) = &carriers.session_cookie {
            return match parse_id(cookie.as_str()) {
                None => AuthStep::Done(Err(AuthError::InvalidCredential)),
                Some(id) => AuthStep::LookUpSession(id),
            };
        }
    }
    AuthStep::Done(Err(AuthError::MissingCredential))
}

/// Authenticates a request end to end, looking sessions up in an in-process store.
pub fn authenticate_with_store(
    codec: &TokenCodec,
    config: AuthConfig,
    carriers: &Carriers,
    store: &MemoryStore,
    now: i64,
) -> (r: Result<AuthUser, AuthError>)
    ensures
        match auth_step(
            codec,
            config,
            opt_view(carriers.authorization),
            opt_view(carriers.token_cookie),
            opt_view(carriers.session_cookie),
            now,
        ) {
            AuthStep::Done(v) => r == v,
            AuthStep::LookUpSession(id) => if store.is_available() {
                r == session_verdict(load_from(store.contents(), id, now))
            } else {
                r == Err::<AuthUser, AuthError>(AuthError::Backend)
            },
        },
{
    match authenticate(codec, config, carriers, now) {
        AuthStep::Done(v) => v,
        AuthStep::LookUpSession(id) => AuthUser::from_session(store.load(id, now)),
    }
}

/// A stored login: the user's id and password hash, as the user table holds them.
pub struct StoredCredential {
    pub user_id: u128,
    pub password_hash: String,
}

/// Checks a login against the stored credential of the named user (`None` when there is no
/// such user).
pub fn validate_credentials(stored: Option<&StoredCredential>, password: &str) -> (r: Result<
    u128,
    AuthError,
>)
    ensures
        match stored {
            None => r == Err::<u128, AuthError>(AuthError::InvalidCredential),
            Some(s) => if argon2_accepts(password@, s.password_hash@) {
                r == Ok::<u128, AuthError>(s.user_id)
            } else {
                r == Err::<u128, AuthError>(AuthError::InvalidCredential)
            },
        },
{
    match stored {
        None => Err(AuthError::InvalidCredential),
        Some(s) => match verify_password(password, s.password_hash.as_str()) {
            Ok(()) => Ok(s.user_id),
            Err(_) => Err(AuthError::InvalidCredential),
        },
    }
}

/// The record of a fresh session for a user.
pub fn session_for_user(id: u128, user_id: u128, expiry: i64) -> (r: SessionRecord)
    ensures
        r@.id == id,
        r@.expiry == expiry,
        r@.data == seq![(USER_ID_KEY@, uuid_text(user_id))],
{
    SessionRecord::with_entry(id, USER_ID_KEY.to_owned(), id_to_text(user_id), expiry)
}

/// Signs a user in with a server-side session under the fresh id `new_id` (which must differ
/// from the id the client held), expiring at `expiry`. The session the client held before, if
/// any, is deleted first, so the old id stops working no later than the new one starts. An
/// expiry before the epoch is refused as a store failure, with nothing written.
pub fn start_session(
    store: &mut MemoryStore,
    old_id: Option<u128>,
    new_id: u128,
    user_id: u128,
    expiry: i64,
) -> (r: Result<u128, AuthError>)
    requires
        old_id != Some(new_id),
    ensures
        final(store).is_available() == old(store).is_available(),
        !old(store).is_available() || expiry < 0 ==> r == Err::<u128, AuthError>(
            AuthError::Backend,
        ) && final(store).contents() == old(store).contents(),
        old(store).is_available() && expiry >= 0 ==> r == Ok::<u128, AuthError>(new_id)
            && final(store).contents() == stored_after_save(
            match old_id {
                Some(o) => stored_after_delete(old(store).contents(), o),
                None => old(store).contents(),
            },
            session_for_user_view(new_id, user_id, expiry),
        ),
{
    if expiry < 0 {
        return Err(AuthError::Backend);
    }
    if let Some(o) = old_id {
        if store.delete(o).is_err() {
            return Err(AuthError::Backend);
        }
    }
    let record = session_for_user(new_id, user_id, expiry);
    proof {
        crate::auth::lemma_user_record_encodable(record@);
    }
    match store.save(&record) {
        Ok(()) => Ok(new_id),
        Err(_) => Err(AuthError::Backend),
    }
}

/// The view of `session_for_user(id, user_id, expiry)`.
pub open spec fn session_for_user_view(id: u128, user_id: u128, expiry: i64) -> RecordView {
    RecordView { id, data: seq![(USER_ID_KEY@, uuid_text(user_id))], expiry }
}

proof fn lemma_utf8_len_bound(s: Seq<char>)
    ensures
        vstd::utf8::encode_utf8(s).len() <= 4 * s.len(),
    decreases s.len(),
{
    if s.len() > 0 {
        lemma_utf8_len_bound(s.drop_first());
    }
}

proof fn lemma_user_record_encodable(v: RecordView)
    requires
        v.data.len() == 1,
        v.data[0].0 == USER_ID_KEY@,
        exists|u: u128| v.data[0].1 == uuid_text(u),
    ensures
        crate::session::encodable(v),
{
    reveal_strlit("user_id");
    lemma_utf8_len_bound(v.data[0].0);
    lemma_utf8_len_bound(v.data[0].1);
}

/// The text of an id reads back as that id.
pub proof fn lemma_id_text_round_trip(id: u128)
    ensures
        id_of_text(uuid_text(id)) == Some(id),
{
    let other = choose|other: u128| uuid_text(other) == uuid_text(id);
    lemma_uuid_text_injective(other, id);
}

/// A freshly started session authenticates its user until it expires.
pub proof fn lemma_fresh_session_authenticates(
    m: Map<u128, (Seq<u8>, i64)>,
    new_id: u128,
    user_id: u128,
    expiry: i64,
    now: i64,
)
    requires
        now < expiry,
    ensures
        session_verdict(
            load_from(
                stored_after_save(m, session_for_user_view(new_id, user_id, expiry)),
                new_id,
                now,
            ),
        ) == Ok::<AuthUser, AuthError>(AuthUser { user_id }),
{
    let v = session_for_user_view(new_id, user_id, expiry);
    lemma_user_record_encodable(v);
    lemma_save_then_load(m, v, now);
    lemma_id_text_round_trip(user_id);
    reveal_strlit("user_id");
    assert(lookup(v.data, USER_ID_KEY@) == Some(uuid_text(user_id)));
}

/// Once a session is signed out, its id no longer authenticates.
pub proof fn lemma_signed_out_session_is_rejected(
    m: Map<u128, (Seq<u8>, i64)>,
    id: u128,
    now: i64,
)
    ensures
        session_verdict(load_from(stored_after_delete(m, id), id, now)) == Err::<
            AuthUser,
            AuthError,
        >(AuthError::NotAuthenticated),
{
}

/// After a login replaces the session `old_id` by a fresh one, the old id no longer
/// authenticates.
pub proof fn lemma_rotated_session_id_is_rejected(
    m: Map<u128, (Seq<u8>, i64)>,
    old_id: u128,
    new_id: u128,
    user_id: u128,
    expiry: i64,
    now: i64,
)
    requires
        old_id != new_id,
    ensures
        session_verdict(
            load_from(
                stored_after_save(
                    stored_after_delete(m, old_id),
                    session_for_user_view(new_id, user_id, expiry),
                ),
                old_id,
                now,
            ),
        ) == Err::<AuthUser, AuthError>(AuthError::NotAuthenticated),
{
}

/// What signing a user in with a fresh session asks of the backing cache, in this order: delete
/// the session the client held (if any), then write the new record.
pub struct SessionRotation {
    pub delete: Option<u128>,
    pub write: CacheWrite,
}

/// The cache commands that replace the client's session (if any) by a fresh session `new_id`
/// (which must differ from the old id) for `user_id`, expiring at `expiry`. An expiry before
/// the epoch is refused.
pub fn rotation_plan(old_id: Option<u128>, new_id: u128, user_id: u128, expiry: i64) -> (r:
    Result<SessionRotation, StoreError>)
    requires
        old_id != Some(new_id),
    ensures
        expiry >= 0 ==> (r matches Ok(p) && p.delete == old_id && p.write.id == new_id
            && p.write.expire_at == expiry && p.write.bytes@ == crate::session::record_bytes(
            session_for_user_view(new_id, user_id, expiry),
        )),
        expiry < 0 ==> r == Err::<SessionRotation, StoreError>(StoreError::Encode),
{
    let record = session_for_user(new_id, user_id, expiry);
    proof {
        lemma_user_record_encodable(record@);
    }
    match save_command(&record) {
        Ok(write) => Ok(SessionRotation { delete: old_id, write }),
        Err(e) => Err(e),
    }
}

/// Signs a session out: its record is deleted, so its id no longer authenticates.
pub fn end_session(store: &mut MemoryStore, id: u128) -> (r: Result<(), AuthError>)
    ensures
        final(store).is_available() == old(store).is_available(),
        !old(store).is_available() ==> r == Err::<(), AuthError>(AuthError::Backend),
        old(store).is_available() ==> r is Ok && final(store).contents() == stored_after_delete(
            old(store).contents(),
            id,
        ),
{
    match store.delete(id) {
        Ok(()) => Ok(()),
        Err(_) => Err(AuthError::Backend),
    }
}

/// Logs a user in with a bearer token: the password is checked against the stored credential,
/// then a token for the user is issued at `now`.
pub fn login_with_token(
    codec: &TokenCodec,
    stored: Option<&StoredCredential>,
    password: &str,
    now: i64,
) -> (r: Result<String, AppError>)
    ensures
        match stored {
            None => r matches Err(AppError::Authorization(m)) && m@ == rejection_detail(),
            Some(s) => if !argon2_accepts(password@, s.password_hash@) {
                r matches Err(AppError::Authorization(m)) && m@ == rejection_detail()
            } else if codec.expiry_at(now) > i64::MAX {
                r matches Err(AppError::Unexpected(_))
            } else {
                r matches Ok(t) && t@ == hs384_token(
                    codec.key(),
                    claims_text(s.user_id, codec.expiry_at(now) as i64),
                )
            },
        },
{
    let user_id = match validate_credentials(stored, password) {
        Ok(user_id) => user_id,
        Err(e) => return Err(e.to_app_error()),
    };
    match codec.issue(user_id, now) {
        Ok(token) => Ok(token),
        Err(_) => Err(AppError::Unexpected("could not issue a token".to_owned())),
    }
}

/// Logs a user in with a server-side session: the password is checked against the stored
/// credential, then the session the client held (if any) is replaced by a fresh one under
/// `new_id`, expiring at `expiry`. Nothing is written when the password is wrong.
pub fn login_with_session(
    store: &mut MemoryStore,
    stored: Option<&StoredCredential>,
    password: &str,
    old_id: Option<u128>,
    new_id: u128,
    expiry: i64,
) -> (r: Result<u128, AppError>)
    requires
        old_id != Some(new_id),
    ensures
        final(store).is_available() == old(store).is_available(),
        match stored {
            None => r matches Err(AppError::Authorization(m)) && m@ == rejection_detail()
                && final(store).contents() == old(store).contents(),
            Some(s) => if !argon2_accepts(password@, s.password_hash@) {
                r matches Err(AppError::Authorization(m)) && m@ == rejection_detail()
                    && final(store).contents() == old(store).contents()
            } else if !old(store).is_available() || expiry < 0 {
                r matches Err(AppError::Unexpected(_)) && final(store).contents() == old(
                    store,
                ).contents()
            } else {
                r matches Ok(id) && id == new_id && final(store).contents() == stored_after_save(
                    match old_id {
                        Some(o) => stored_after_delete(old(store).contents(), o),
                        None => old(store).contents(),
                    },
                    session_for_user_view(new_id, s.user_id, expiry),
                )
            },
        },
{
    let user_id = match validate_credentials(stored, password) {
        Ok(user_id) => user_id,
        Err(e) => return Err(e.to_app_error()),
    };
    match start_session(store, old_id, new_id, user_id, expiry) {
        Ok(id) => Ok(id),
        Err(e) => Err(e.to_app_error()),
    }
}

/// Changes a signed-in user's password: the new password must be typed the same twice and the
/// current one must verify against the stored hash. Gives the hash of the new password under
/// `salt` (drawn with `generate_salt`), to store.
pub fn change_password(
    stored: &StoredCredential,
    current_password: &str,
    new_password: &str,
    new_password_check: &str,
    salt: &str,
) -> (r: Result<String, AppError>)
    ensures
        new_password@ != new_password_check@ ==> r matches Err(AppError::Validation(_)),
        new_password@ == new_password_check@ && !argon2_accepts(
            current_password@,
            stored.password_hash@,
        ) ==> (r matches Err(AppError::Authorization(m)) && m@ == rejection_detail()),
        new_password@ == new_password_check@ && argon2_accepts(
            current_password@,
            stored.password_hash@,
        ) ==> match r {
            Ok(h) => h@ == argon2_phc(new_password@, salt@) && argon2_accepts(new_password@, h@),
            Err(e) => e is Unexpected,
        },
        new_password@ == new_password_check@ && argon2_accepts(
            current_password@,
            stored.password_hash@,
        ) && salt_ok(salt@) && password_fits(new_password@) ==> r is Ok,
{
    if !crate::ids::same_text(new_password, new_password_check) {
        return Err(AppError::Validation("the two new passwords differ".to_owned()));
    }
    if let Err(e) = validate_credentials(Some(stored), current_password) {
        return Err(e.to_app_error());
    }
    match hash_password_with_salt(new_password, salt) {
        Ok(h) => Ok(h),
        Err(_) => Err(AppError::Unexpected("could not hash the new password".to_owned())),
    }
}

} // verus!
