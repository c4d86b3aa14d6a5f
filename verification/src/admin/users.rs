//! Users, passwords and sessions: what is accepted when a user is created,
//! when a password changes, at login, and when a session token is presented.
//! Password hashing is Argon2's; the table rows are read and written by the
//! caller.
use vstd::prelude::*;
use argon2::password_hash::rand_core::RngCore;
use argon2::password_hash::{PasswordHash, PasswordHasher, PasswordVerifier, SaltString};
use crate::text::{
    blank, cat, hex_lower, hex_string, is_blank, owned, seq_less, str_eq, str_less, trim, trimmed,
    utf8_len, utf8_len_at_least,
};

verus! {

#[derive(Debug)]
pub enum UserError {
    NotFound,
    Duplicate,
    InvalidCredentials,
    Disabled,
    Forbidden,
    Other(String),
    /// A database failure, with the error's text.
    Db(String),
}

impl UserError {
    pub open spec fn text(&self) -> Seq<char> {
        match self {
            UserError::NotFound => "user not found"@,
            UserError::Duplicate => "username already exists"@,
            UserError::InvalidCredentials => "invalid credentials"@,
            UserError::Disabled => "user disabled"@,
            UserError::Forbidden => "forbidden"@,
            UserError::Other(m) => m@,
            UserError::Db(e) => "db error: "@ + e@,
        }
    }

    /// The text the error displays.
    pub fn message(&self) -> (r: String)
        ensures
            r@ == self.text(),
    {
        match self {
            UserError::NotFound => owned("user not found"),
            UserError::Duplicate => owned("username already exists"),
            UserError::InvalidCredentials => owned("invalid credentials"),
            UserError::Disabled => owned("user disabled"),
            UserError::Forbidden => owned("forbidden"),
            UserError::Other(m) => owned(m.as_str()),
            UserError::Db(e) => cat("db error: ", e.as_str()),
        }
    }
}

/// `r` is `Err(Other(m))`.
pub open spec fn is_other<T>(r: Result<T, UserError>, m: Seq<char>) -> bool {
    r matches Err(UserError::Other(x)) && x@ == m
}

pub struct UserInfo {
    pub id: String,
    pub username: String,
    pub role: String,
    pub disabled: bool,
    pub created_at: String,
    pub updated_at: String,
}

pub struct CreateUserRequest {
    pub username: String,
    pub password: String,
    pub role: String,
}

/// The role of a user created without one.
pub fn default_role() -> (r: String)
    ensures
        r@ == "operator"@,
{
    owned("operator")
}

pub struct LoginRequest {
    pub username: String,
    pub password: String,
}

pub struct LoginResponse {
    pub token: String,
    pub expires_at: String,
    pub user: UserInfo,
}

pub struct ChangePasswordRequest {
    pub old_password: String,
    pub new_password: String,
}

pub struct SetDisabledRequest {
    pub disabled: bool,
}

/// Who is calling: a session user, or the service token.
pub struct AuthContext {
    pub user_id: Option<String>,
    pub username: String,
    pub role: String,
    pub is_service: bool,
    /// Present for session logins; used by logout.
    pub session_token: Option<String>,
}

impl AuthContext {
    /// The service token and users with role `admin` may administer.
    pub fn is_admin(&self) -> (r: bool)
        ensures
            r == (self.is_service || self.role@ == "admin"@),
    {
        self.is_service || str_eq(self.role.as_str(), "admin")
    }
}

/// Passwords are at least 6 bytes long in UTF-8.
pub open spec fn password_long_enough(p: Seq<char>) -> bool {
    utf8_len(p) >= 6
}

pub open spec fn short_password_message() -> Seq<char> {
    "password must be at least 6 characters"@
}

/// The length rule for a new password.
pub fn check_password(password: &str) -> (r: Result<(), UserError>)
    ensures
        password_long_enough(password@) ==> r is Ok,
        !password_long_enough(password@) ==> is_other(r, short_password_message()),
{
    if !utf8_len_at_least(password, 6) {
        return Err(UserError::Other(owned("password must be at least 6 characters")));
    }
    Ok(())
}

pub open spec fn role_ok(role: Seq<char>) -> bool {
    trim(role) == "admin"@ || trim(role) == "operator"@
}

/// A user to create: the username trimmed and required, the password long
/// enough, the role (trimmed) `admin` or `operator`.  Gives the username
/// and role to store.
pub fn validate_new_user(req: &CreateUserRequest) -> (r: Result<(String, String), UserError>)
    ensures
        blank(req.username@) ==> is_other(r, "username is required"@),
        !blank(req.username@) && !password_long_enough(req.password@) ==> is_other(
            r,
            short_password_message(),
        ),
        !blank(req.username@) && password_long_enough(req.password@) && !role_ok(req.role@)
            ==> is_other(r, "role must be admin or operator"@),
        !blank(req.username@) && password_long_enough(req.password@) && role_ok(req.role@) ==> (
        r matches Ok((u, role)) && u@ == trim(req.username@) && role@ == trim(req.role@)),
{
    let username = trimmed(req.username.as_str());
    if username.as_str().is_empty() {
        return Err(UserError::Other(owned("username is required")));
    }
    check_password(req.password.as_str())?;
    let role = trimmed(req.role.as_str());
    if !(str_eq(role.as_str(), "admin") || str_eq(role.as_str(), "operator")) {
        return Err(UserError::Other(owned("role must be admin or operator")));
    }
    Ok((username, role))
}

/// What Argon2 answers when `password` is checked against the PHC string
/// `hash`: whether it matches, or the text of the error when `hash` cannot
/// be parsed.
pub uninterp spec fn argon2_verdict(password: Seq<char>, hash: Seq<char>) -> Result<bool, Seq<char>>;

/// `Argon2::default().hash_password` with a fresh random salt from the OS,
/// as a PHC string.  The salt is random, so nothing fixes the text; what
/// holds of every result is that checking the same password against it
/// succeeds.  With the default parameters and a generated salt the only
/// refusal left is a password of more than `u32::MAX` bytes.
#[verifier::external_body]
fn argon2_hash(password: &str) -> (r: Result<String, String>)
    ensures
        match r {
            Ok(h) => argon2_verdict(password@, h@) == Ok::<bool, Seq<char>>(true),
            Err(_) => utf8_len(password@) > 0xFFFF_FFFF,
        },
{
    let salt = SaltString::generate(&mut argon2::password_hash::rand_core::OsRng);
    argon2::Argon2::default()
        .hash_password(password.as_bytes(), &salt)
        .map(|h| h.to_string())
        .map_err(|e| e.to_string())
}

/// `PasswordHash::new(hash)` then `Argon2::default().verify_password`:
/// parse errors come back as their text, a mismatch as `false`.
#[verifier::external_body]
fn argon2_verify(password: &str, hash: &str) -> (r: Result<bool, String>)
    ensures
        match r {
            Ok(b) => argon2_verdict(password@, hash@) == Ok::<bool, Seq<char>>(b),
            Err(e) => argon2_verdict(password@, hash@) == Err::<bool, Seq<char>>(e@),
        },
{
    match PasswordHash::new(hash) {
        Ok(parsed) => Ok(argon2::Argon2::default().verify_password(password.as_bytes(), &parsed).is_ok()),
        Err(e) => Err(e.to_string()),
    }
}

/// The stored hash of a new password.
pub fn hash_password(password: &str) -> (r: Result<String, UserError>)
    ensures
        r matches Ok(h) ==> argon2_verdict(password@, h@) == Ok::<bool, Seq<char>>(true),
        r matches Err(e) ==> e is Other && utf8_len(password@) > 0xFFFF_FFFF,
{
    match argon2_hash(password) {
        Ok(h) => Ok(h),
        Err(e) => Err(UserError::Other(e)),
    }
}

/// Whether `password` matches the stored `hash`; an unreadable hash is an
/// error with its text.
pub fn verify_password(password: &str, hash: &str) -> (r: Result<bool, UserError>)
    ensures
        match argon2_verdict(password@, hash@) {
            Ok(b) => r == Ok::<bool, UserError>(b),
            Err(e) => is_other(r, e),
        },
{
    match argon2_verify(password, hash) {
        Ok(b) => Ok(b),
        Err(e) => Err(UserError::Other(e)),
    }
}

/// The row a login looks up by username.
pub struct LoginRow {
    pub id: String,
    pub password_hash: String,
    pub disabled: bool,
}

/// A login succeeds for an existing, enabled user whose password matches;
/// gives the user's id.
pub fn check_login(row: Option<LoginRow>, password: &str) -> (r: Result<String, UserError>)
    ensures
        row is None ==> r matches Err(UserError::InvalidCredentials),
        row is Some && row->0.disabled ==> r matches Err(UserError::Disabled),
        r is Ok <==> (row is Some && login_accepts(row->0.password_hash@, row->0.disabled, password@)),
        row is Some && !row->0.disabled ==> match argon2_verdict(password@, row->0.password_hash@) {
            Ok(true) => r matches Ok(id) && id@ == row->0.id@,
            Ok(false) => r matches Err(UserError::InvalidCredentials),
            Err(e) => is_other(r, e),
        },
{
    let row = match row {
        Some(x) => x,
        None => {
            return Err(UserError::InvalidCredentials);
        },
    };
    if row.disabled {
        return Err(UserError::Disabled);
    }
    if !verify_password(password, row.password_hash.as_str())? {
        return Err(UserError::InvalidCredentials);
    }
    Ok(row.id)
}

/// A password change needs a long enough new password, an existing user
/// (`stored_hash`), and the old password.
pub fn check_password_change(req: &ChangePasswordRequest, stored_hash: Option<&str>) -> (r: Result<
    (),
    UserError,
>)
    ensures
        !password_long_enough(req.new_password@) ==> is_other(r, short_password_message()),
        password_long_enough(req.new_password@) && stored_hash is None ==> r matches Err(
            UserError::NotFound,
        ),
        password_long_enough(req.new_password@) && stored_hash is Some ==> match argon2_verdict(
            req.old_password@,
            stored_hash->0@,
        ) {
            Ok(true) => r is Ok,
            Ok(false) => r matches Err(UserError::InvalidCredentials),
            Err(e) => is_other(r, e),
        },
{
    check_password(req.new_password.as_str())?;
    let h = match stored_hash {
        Some(h) => h,
        None => {
            return Err(UserError::NotFound);
        },
    };
    if !verify_password(req.old_password.as_str(), h)? {
        return Err(UserError::InvalidCredentials);
    }
    Ok(())
}

/// A write to the user store, in the order a change performs them.
#[derive(Debug)]
pub enum UserStoreOp {
    /// Store a new password hash for the user.
    SetPasswordHash { user_id: String, hash: String },
    /// Set or clear the user's disabled flag (a missing user is an error).
    SetDisabled { user_id: String, disabled: bool },
    /// Delete every session of the user; when `strict`, a failure ends the
    /// change, otherwise it is ignored.
    RevokeSessions { user_id: String, strict: bool },
}

/// The writes of an accepted password change: the new hash, then every
/// session of the user is revoked, so that the user logs in again.
pub fn password_change_ops(user_id: &str, new_hash: String) -> (r: Vec<UserStoreOp>)
    ensures
        r@.len() == 2,
        r@[0] matches UserStoreOp::SetPasswordHash { user_id: u, hash: h } && u@ == user_id@ && h@
            == new_hash@,
        r@[1] matches UserStoreOp::RevokeSessions { user_id: u, strict } && u@ == user_id@ && strict,
{
    let mut v: Vec<UserStoreOp> = Vec::new();
    v.push(UserStoreOp::SetPasswordHash { user_id: owned(user_id), hash: new_hash });
    v.push(UserStoreOp::RevokeSessions { user_id: owned(user_id), strict: true });
    v
}

/// The writes of enabling or disabling a user: the flag, then, when the user
/// is disabled, every session of the user is revoked (a failure there is
/// ignored).
pub fn disable_ops(user_id: &str, disabled: bool) -> (r: Vec<UserStoreOp>)
    ensures
        r@.len() == if disabled {
            2int
        } else {
            1int
        },
        r@[0] matches UserStoreOp::SetDisabled { user_id: u, disabled: d } && u@ == user_id@ && d
            == disabled,
        disabled ==> (r@[1] matches UserStoreOp::RevokeSessions { user_id: u, strict } && u@
            == user_id@ && !strict),
{
    let mut v: Vec<UserStoreOp> = Vec::new();
    v.push(UserStoreOp::SetDisabled { user_id: owned(user_id), disabled });
    if disabled {
        v.push(UserStoreOp::RevokeSessions { user_id: owned(user_id), strict: false });
    }
    v
}

/// Session length in hours: the configured value read as `i64`, at least 1.
pub open spec fn ttl_hours_of(configured: u64) -> i64 {
    if 1 <= configured && configured <= i64::MAX as u64 {
        configured as i64
    } else {
        1
    }
}

pub fn effective_ttl_hours(configured: u64) -> (r: i64)
    ensures
        r == ttl_hours_of(configured),
        r >= 1,
{
    let h: i64 = configured as i64;
    proof {
        if configured > i64::MAX as u64 {
            assert(configured > 0x7fff_ffff_ffff_ffffu64 ==> (configured as i64) < 0) by (bit_vector);
        } else {
            assert(configured <= 0x7fff_ffff_ffff_ffffu64 ==> (configured as i64) == configured) by (bit_vector);
        }
    }
    if h < 1 {
        1
    } else {
        h
    }
}

/// The session row found for a token: its user and expiry.
pub struct SessionRow {
    pub user_id: String,
    pub expires_at: String,
}

/// A session row as plain values: its user and its expiry.
pub open spec fn session_view(row: Option<SessionRow>) -> Option<(Seq<char>, Seq<char>)> {
    match row {
        Some(r) => Some((r.user_id@, r.expires_at@)),
        None => None,
    }
}

/// The user a session row stands for at time `now`: none for a missing or
/// expired session.
pub open spec fn session_user(row: Option<(Seq<char>, Seq<char>)>, now: Seq<char>) -> Option<Seq<char>> {
    match row {
        Some((user_id, expires_at)) => if seq_less(expires_at, now) {
            None
        } else {
            Some(user_id)
        },
        None => None,
    }
}

/// The session table as plain values: token, user and expiry of each row.
pub open spec fn find_session(rows: Seq<(Seq<char>, Seq<char>, Seq<char>)>, token: Seq<char>) -> Option<
    (Seq<char>, Seq<char>),
>
    decreases rows.len(),
{
    if rows.len() == 0 {
        None
    } else if rows[0].0 == token {
        Some((rows[0].1, rows[0].2))
    } else {
        find_session(rows.drop_first(), token)
    }
}

/// The session table without the rows of `user_id`.
pub open spec fn without_user(rows: Seq<(Seq<char>, Seq<char>, Seq<char>)>, user_id: Seq<char>) -> Seq<
    (Seq<char>, Seq<char>, Seq<char>),
>
    decreases rows.len(),
{
    if rows.len() == 0 {
        rows
    } else if rows[0].1 == user_id {
        without_user(rows.drop_first(), user_id)
    } else {
        seq![rows[0]] + without_user(rows.drop_first(), user_id)
    }
}

/// What a user-store write does to the session table.
pub open spec fn sessions_after(op: UserStoreOp, rows: Seq<(Seq<char>, Seq<char>, Seq<char>)>) -> Seq<
    (Seq<char>, Seq<char>, Seq<char>),
> {
    match op {
        UserStoreOp::RevokeSessions { user_id, .. } => without_user(rows, user_id@),
        _ => rows,
    }
}

proof fn lemma_without_user_finds_other(
    rows: Seq<(Seq<char>, Seq<char>, Seq<char>)>,
    user_id: Seq<char>,
    token: Seq<char>,
)
    ensures
        find_session(without_user(rows, user_id), token) matches Some((u, _)) ==> u != user_id,
    decreases rows.len(),
{
    if rows.len() > 0 {
        lemma_without_user_finds_other(rows.drop_first(), user_id, token);
        if rows[0].1 != user_id {
            let w = seq![rows[0]] + without_user(rows.drop_first(), user_id);
            assert(w[0] == rows[0]);
            assert(w.drop_first() =~= without_user(rows.drop_first(), user_id));
        }
    }
}

/// Once a user's sessions are revoked (as a password change and a disable
/// do), no token resolves to that user any more, whatever the time.
pub proof fn law_revoked_sessions_do_not_resolve(
    op: UserStoreOp,
    rows: Seq<(Seq<char>, Seq<char>, Seq<char>)>,
    user_id: Seq<char>,
    token: Seq<char>,
    now: Seq<char>,
)
    requires
        op matches UserStoreOp::RevokeSessions { user_id: u, .. } && u@ == user_id,
    ensures
        session_user(find_session(sessions_after(op, rows), token), now) != Some(user_id),
{
    lemma_without_user_finds_other(rows, user_id, token);
}

/// The caller a valid session of an enabled user stands for.
pub open spec fn user_context(id: Seq<char>, username: Seq<char>, role: Seq<char>, token: Seq<char>) -> (
    Option<Seq<char>>,
    Seq<char>,
    Seq<char>,
    bool,
    Option<Seq<char>>,
) {
    (Some(id), username, role, false, Some(token))
}

/// An `AuthContext` as plain values.
pub open spec fn context_view(c: AuthContext) -> (
    Option<Seq<char>>,
    Seq<char>,
    Seq<char>,
    bool,
    Option<Seq<char>>,
) {
    (
        match c.user_id {
            Some(u) => Some(u@),
            None => None,
        },
        c.username@,
        c.role@,
        c.is_service,
        match c.session_token {
            Some(t) => Some(t@),
            None => None,
        },
    )
}

/// A login that is accepted stores a session for the user; looked up before
/// its expiry, that session stands for the user again, as a session caller
/// (not the service) holding that token.
pub proof fn law_login_then_lookup(
    hash: Seq<char>,
    password: Seq<char>,
    id: Seq<char>,
    username: Seq<char>,
    role: Seq<char>,
    expires_at: Seq<char>,
    now: Seq<char>,
    token: Seq<char>,
)
    requires
        login_accepts(hash, false, password),
        !seq_less(expires_at, now),
    ensures
        session_user(Some((id, expires_at)), now) == Some(id),
        user_context(id, username, role, token) == (Some(id), username, role, false, Some(token)),
{
}

/// After an accepted password change, whose new hash `hash_password` gave,
/// a login with the new password is accepted while the user is enabled.
pub proof fn law_password_change_then_login(
    old_password: Seq<char>,
    old_hash: Seq<char>,
    new_password: Seq<char>,
    new_hash: Seq<char>,
)
    requires
        password_long_enough(new_password),
        argon2_verdict(old_password, old_hash) == Ok::<bool, Seq<char>>(true),
        argon2_verdict(new_password, new_hash) == Ok::<bool, Seq<char>>(true),
    ensures
        login_accepts(new_hash, false, new_password),
{
}

/// A session is expired when its RFC 3339 expiry sorts before now.
pub fn session_expired(expires_at: &str, now: &str) -> (r: bool)
    ensures
        r == seq_less(expires_at@, now@),
{
    str_less(expires_at, now)
}

/// What a presented session token resolves to, before the user is read: the
/// user id, or invalid credentials when there is no such session or it has
/// expired (then the caller deletes it).
pub fn check_session(row: Option<SessionRow>, now: &str) -> (r: Result<String, UserError>)
    ensures
        match session_user(session_view(row), now@) {
            Some(u) => r matches Ok(x) && x@ == u,
            None => r matches Err(UserError::InvalidCredentials),
        },
        row is None ==> r matches Err(UserError::InvalidCredentials),
        row is Some && seq_less(row->0.expires_at@, now@) ==> r matches Err(
            UserError::InvalidCredentials,
        ),
        row is Some && !seq_less(row->0.expires_at@, now@) ==> (r matches Ok(u) && u@
            == row->0.user_id@),
{
    let row = match row {
        Some(x) => x,
        None => {
            return Err(UserError::InvalidCredentials);
        },
    };
    if session_expired(row.expires_at.as_str(), now) {
        return Err(UserError::InvalidCredentials);
    }
    Ok(row.user_id)
}

/// The caller behind a valid session: refused when the user is disabled.
pub fn session_context(user: UserInfo, token: &str) -> (r: Result<AuthContext, UserError>)
    ensures
        user.disabled ==> r matches Err(UserError::Disabled),
        !user.disabled ==> (r matches Ok(c) && {
            &&& c.user_id == Some(user.id)
            &&& c.username == user.username
            &&& c.role == user.role
            &&& !c.is_service
            &&& c.session_token is Some
            &&& c.session_token->0@ == token@
        }),
        !user.disabled ==> (r matches Ok(c) && context_view(c) == user_context(
            user.id@,
            user.username@,
            user.role@,
            token@,
        )),
{
    if user.disabled {
        return Err(UserError::Disabled);
    }
    Ok(AuthContext {
        user_id: Some(user.id),
        username: user.username,
        role: user.role,
        is_service: false,
        session_token: Some(owned(token)),
    })
}

/// 32 bytes from the operating system's random source.
#[verifier::external_body]
fn os_random_32() -> (r: Vec<u8>)
    ensures
        r@.len() == 32,
{
    let mut bytes = [0u8; 32];
    argon2::password_hash::rand_core::OsRng.fill_bytes(&mut bytes);
    bytes.to_vec()
}

/// A session token: the lowercase hex of 32 random bytes.
pub fn random_token() -> (r: String)
    ensures
        r@.len() == 64,
        exists|b: Seq<u8>| b.len() == 32 && r@ == hex_lower(b),
{
    let bytes = os_random_32();
    let t = hex_string(bytes.as_slice());
    proof {
        crate::text::lemma_hex_lower_len(bytes@);
    }
    t
}

/// The seed admin's credentials, trimmed; both are required when no user
/// exists yet.
pub fn seed_credentials(username: &str, password: &str) -> (r: Result<(String, String), String>)
    ensures
        blank(username@) || blank(password@) ==> (r matches Err(m) && m@
            == "seed_username / seed_password required when no users exist"@),
        !blank(username@) && !blank(password@) ==> (r matches Ok((u, p)) && u@ == trim(username@)
            && p@ == trim(password@)),
{
    if is_blank(username) || is_blank(password) {
        return Err(owned("seed_username / seed_password required when no users exist"));
    }
    Ok((trimmed(username), trimmed(password)))
}

/// Whether a login with `password` is accepted for an enabled or disabled
/// user whose stored hash is `hash`.
pub open spec fn login_accepts(hash: Seq<char>, disabled: bool, password: Seq<char>) -> bool {
    !disabled && argon2_verdict(password, hash) == Ok::<bool, Seq<char>>(true)
}

/// A password that `hash_password` stored (at creation or on a change) is
/// accepted at login as long as the user is enabled.
pub proof fn law_login_accepts_stored_password(password: Seq<char>, hash: Seq<char>)
    requires
        argon2_verdict(password, hash) == Ok::<bool, Seq<char>>(true),
    ensures
        login_accepts(hash, false, password),
        !login_accepts(hash, true, password),
{
}

} // verus!
