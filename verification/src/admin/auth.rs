//! Who a request to the admin API comes from: a session token (in
//! `Authorization: Bearer` or `X-AxleOps-Session`) when one is sent, else the
//! service token in `X-AxleOps-Token`.
use vstd::prelude::*;
use crate::text::{blank, is_blank, owned, starts_with, starts_with_str, str_eq, string_of,
    chars_of, trim, trimmed};
use crate::admin::users::{AuthContext, UserError};

verus! {

/// Authenticated caller: session user or legacy service token.
pub struct AuthUser(pub AuthContext);

/// The session token a request carries: the `Authorization` value after
/// `Bearer ` (trimmed), else the `X-AxleOps-Session` value when it is not
/// blank (trimmed).
pub open spec fn session_token_of(
    authorization: Option<Seq<char>>,
    session: Option<Seq<char>>,
) -> Option<Seq<char>> {
    let bearer = "Bearer "@;
    if authorization is Some && starts_with(authorization->0, bearer) {
        Some(trim(authorization->0.skip(bearer.len() as int)))
    } else if session is Some && !blank(session->0) {
        Some(trim(session->0))
    } else {
        None
    }
}

pub fn session_token(authorization: Option<&str>, session: Option<&str>) -> (r: Option<String>)
    ensures
        ostr_of(r) == session_token_of(opt(authorization), opt(session)),
{
    proof {
        reveal_strlit("Bearer ");
    }
    if let Some(a) = authorization {
        if starts_with_str(a, "Bearer ") {
            let v = chars_of(a);
            let rest = string_of(&v, 7, v.len());
            assert(rest@ =~= a@.skip(7));
            return Some(trimmed(rest.as_str()));
        }
    }
    if let Some(s) = session {
        if !is_blank(s) {
            return Some(trimmed(s));
        }
    }
    None
}

pub open spec fn opt(o: Option<&str>) -> Option<Seq<char>> {
    match o {
        Some(s) => Some(s@),
        None => None,
    }
}

pub open spec fn ostr_of(o: Option<String>) -> Option<Seq<char>> {
    match o {
        Some(s) => Some(s@),
        None => None,
    }
}

/// A session that does not resolve is answered 403 when its user is
/// disabled and 401 otherwise.
pub fn session_rejection(e: &UserError) -> (r: (u16, String))
    ensures
        e is Disabled ==> r.0 == 403 && r.1@ == "user disabled"@,
        !(e is Disabled) ==> r.0 == 401 && r.1@ == "invalid or expired session"@,
{
    match e {
        UserError::Disabled => (403, owned("user disabled")),
        _ => (401, owned("invalid or expired session")),
    }
}

/// Without a session, the service token must be present and equal to the
/// configured one; the caller is then the admin `service-token`.
pub fn service_token_auth(provided: Option<&str>, configured: &str) -> (r: Result<AuthUser, (u16, String)>)
    ensures
        ({
            let p = match provided {
                Some(p) => p@,
                None => Seq::empty(),
            };
            &&& (p.len() > 0 && p == configured@) <==> r is Ok
            &&& r matches Ok(AuthUser(c)) ==> {
                &&& c.user_id is None
                &&& c.username@ == "service-token"@
                &&& c.role@ == "admin"@
                &&& c.is_service
                &&& c.session_token is None
            }
            &&& r is Err ==> r->Err_0.0 == 401 && r->Err_0.1@ == "missing session or X-AxleOps-Token"@
        }),
{
    proof {
        reveal_strlit("");
    }
    let p = match provided {
        Some(p) => p,
        None => "",
    };
    if !p.is_empty() && str_eq(p, configured) {
        return Ok(
            AuthUser(
                AuthContext {
                    user_id: None,
                    username: owned("service-token"),
                    role: owned("admin"),
                    is_service: true,
                    session_token: None,
                },
            ),
        );
    }
    Err((401, owned("missing session or X-AxleOps-Token")))
}

/// Who a request comes from, given what the session lookup gave (none when
/// the request carries no session token): a session, when sent, decides
/// alone (a failed one is refused even with a valid service token);
/// without one, the service token decides.
pub fn authenticate(
    session: Option<Result<AuthContext, UserError>>,
    provided: Option<&str>,
    configured: &str,
) -> (r: Result<AuthUser, (u16, String)>)
    ensures
        session matches Some(Ok(c)) ==> r == Ok::<AuthUser, (u16, String)>(AuthUser(c)),
        session matches Some(Err(e)) ==> (r matches Err((code, m)) && (e is Disabled ==> code == 403
            && m@ == "user disabled"@) && (!(e is Disabled) ==> code == 401 && m@
            == "invalid or expired session"@)),
        session is None ==> ({
            let p = match provided {
                Some(p) => p@,
                None => Seq::empty(),
            };
            &&& (p.len() > 0 && p == configured@) <==> r is Ok
            &&& r matches Ok(AuthUser(c)) ==> {
                &&& c.user_id is None
                &&& c.username@ == "service-token"@
                &&& c.role@ == "admin"@
                &&& c.is_service
                &&& c.session_token is None
            }
            &&& r is Err ==> r->Err_0.0 == 401 && r->Err_0.1@ == "missing session or X-AxleOps-Token"@
        }),
{
    match session {
        Some(Ok(c)) => Ok(AuthUser(c)),
        Some(Err(e)) => Err(session_rejection(&e)),
        None => service_token_auth(provided, configured),
    }
}

/// Only administrators may manage users and read the audit log.
pub fn require_admin(auth: &AuthUser) -> (r: Result<(), (u16, String)>)
    ensures
        (auth.0.is_service || auth.0.role@ == "admin"@) <==> r is Ok,
        r is Err ==> r->Err_0.0 == 403 && r->Err_0.1@ == "admin role required"@,
{
    if auth.0.is_admin() {
        Ok(())
    } else {
        Err((403, owned("admin role required")))
    }
}

} // verus!
