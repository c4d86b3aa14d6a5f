use axleops::admin::auth::{authenticate, require_admin, service_token_auth, session_rejection, session_token, AuthUser};
use axleops::admin::users::{
    check_login, check_password, check_password_change, check_session, default_role,
    effective_ttl_hours, hash_password, random_token, seed_credentials, session_context,
    session_expired, validate_new_user, verify_password, AuthContext, ChangePasswordRequest,
    CreateUserRequest, LoginRow, SessionRow, UserError, UserInfo, UserStoreOp,
};
use axleops::admin::users::{disable_ops, password_change_ops};

fn other(e: UserError) -> String {
    match e {
        UserError::Other(m) => m,
        e => panic!("expected Other, got {e:?}"),
    }
}

fn user(disabled: bool) -> UserInfo {
    UserInfo {
        id: "u1".into(),
        username: "alice".into(),
        role: "operator".into(),
        disabled,
        created_at: "2024".into(),
        updated_at: "2024".into(),
    }
}

#[test]
fn new_user_rules() {
    let req = |u: &str, p: &str, r: &str| CreateUserRequest { username: u.into(), password: p.into(), role: r.into() };
    assert_eq!(other(validate_new_user(&req("  ", "secret1", "admin")).unwrap_err()), "username is required");
    assert_eq!(other(validate_new_user(&req("bob", "12345", "admin")).unwrap_err()), "password must be at least 6 characters");
    assert_eq!(other(validate_new_user(&req("bob", "123456", "root")).unwrap_err()), "role must be admin or operator");
    let (u, r) = validate_new_user(&req(" bob ", "123456", " operator ")).unwrap();
    assert_eq!(u, "bob");
    assert_eq!(r, "operator");
    assert_eq!(default_role(), "operator");
    // six bytes: two 3-byte characters
    assert!(check_password("中文").is_ok());
    assert!(check_password("中").is_err());
}

#[test]
fn login_with_the_stored_password() {
    let hash = hash_password("correct horse").unwrap();
    assert!(verify_password("correct horse", &hash).unwrap());
    assert!(!verify_password("wrong", &hash).unwrap());
    let row = |disabled: bool| Some(LoginRow { id: "u1".into(), password_hash: hash.clone(), disabled });
    assert_eq!(check_login(row(false), "correct horse").unwrap(), "u1");
    assert!(matches!(check_login(row(false), "nope"), Err(UserError::InvalidCredentials)));
    assert!(matches!(check_login(row(true), "correct horse"), Err(UserError::Disabled)));
    assert!(matches!(check_login(None, "x"), Err(UserError::InvalidCredentials)));
    assert!(verify_password("x", "not a phc string").is_err());
}

#[test]
fn password_change_rules() {
    let hash = hash_password("oldpass").unwrap();
    let req = |o: &str, n: &str| ChangePasswordRequest { old_password: o.into(), new_password: n.into() };
    assert_eq!(other(check_password_change(&req("oldpass", "short"), Some(&hash)).unwrap_err()), "password must be at least 6 characters");
    assert!(matches!(check_password_change(&req("oldpass", "newpass"), None), Err(UserError::NotFound)));
    assert!(matches!(check_password_change(&req("bad", "newpass"), Some(&hash)), Err(UserError::InvalidCredentials)));
    assert!(check_password_change(&req("oldpass", "newpass"), Some(&hash)).is_ok());
}

#[test]
fn sessions() {
    assert!(session_expired("2024-01-01T00:00:00+00:00", "2024-06-01T00:00:00+00:00"));
    assert!(!session_expired("2025-01-01T00:00:00+00:00", "2024-06-01T00:00:00+00:00"));
    let row = |exp: &str| Some(SessionRow { user_id: "u1".into(), expires_at: exp.into() });
    assert_eq!(check_session(row("2099-01-01T00:00:00+00:00"), "2024-01-01T00:00:00+00:00").unwrap(), "u1");
    assert!(matches!(check_session(row("2000-01-01T00:00:00+00:00"), "2024-01-01T00:00:00+00:00"), Err(UserError::InvalidCredentials)));
    assert!(matches!(check_session(None, "now"), Err(UserError::InvalidCredentials)));
    let ctx = session_context(user(false), "tok").ok().unwrap();
    assert_eq!(ctx.user_id.as_deref(), Some("u1"));
    assert_eq!(ctx.session_token.as_deref(), Some("tok"));
    assert!(!ctx.is_service);
    assert!(matches!(session_context(user(true), "tok"), Err(UserError::Disabled)));
}

#[test]
fn ttl_and_tokens() {
    assert_eq!(effective_ttl_hours(24), 24);
    assert_eq!(effective_ttl_hours(0), 1);
    assert_eq!(effective_ttl_hours(u64::MAX), 1);
    let t = random_token();
    assert_eq!(t.len(), 64);
    assert!(t.chars().all(|c| c.is_ascii_hexdigit() && !c.is_ascii_uppercase()));
    assert_ne!(t, random_token());
}

#[test]
fn seed_admin_credentials() {
    assert_eq!(seed_credentials(" admin ", " pw ").unwrap(), ("admin".to_string(), "pw".to_string()));
    assert_eq!(seed_credentials("admin", "  ").unwrap_err(), "seed_username / seed_password required when no users exist");
}

#[test]
fn user_error_texts() {
    assert_eq!(UserError::NotFound.message(), "user not found");
    assert_eq!(UserError::Duplicate.message(), "username already exists");
    assert_eq!(UserError::Db("locked".into()).message(), "db error: locked");
}

#[test]
fn who_is_calling() {
    assert_eq!(session_token(Some("Bearer  abc "), Some("zzz")).as_deref(), Some("abc"));
    assert_eq!(session_token(Some("Basic x"), Some(" s1 ")).as_deref(), Some("s1"));
    assert_eq!(session_token(None, Some("   ")), None);
    assert_eq!(session_rejection(&UserError::Disabled), (403, "user disabled".to_string()));
    assert_eq!(session_rejection(&UserError::NotFound), (401, "invalid or expired session".to_string()));
    let AuthUser(ctx) = service_token_auth(Some("svc"), "svc").ok().unwrap();
    assert!(ctx.is_service);
    assert_eq!(ctx.username, "service-token");
    assert_eq!(ctx.role, "admin");
    assert_eq!(service_token_auth(Some(""), "").err().unwrap(), (401, "missing session or X-AxleOps-Token".to_string()));
    assert!(service_token_auth(None, "svc").is_err());
}

#[test]
fn admin_role() {
    let ctx = |role: &str, svc: bool| AuthContext { user_id: None, username: "u".into(), role: role.into(), is_service: svc, session_token: None };
    assert!(ctx("admin", false).is_admin());
    assert!(ctx("operator", true).is_admin());
    assert!(!ctx("operator", false).is_admin());
    assert_eq!(require_admin(&AuthUser(ctx("operator", false))).unwrap_err(), (403, "admin role required".to_string()));
    assert!(require_admin(&AuthUser(ctx("admin", false))).is_ok());
}

#[test]
fn password_change_revokes_sessions() {
    let ops = password_change_ops("u1", "hash".into());
    assert_eq!(ops.len(), 2);
    assert!(matches!(&ops[0], UserStoreOp::SetPasswordHash { user_id, hash } if user_id == "u1" && hash == "hash"));
    assert!(matches!(&ops[1], UserStoreOp::RevokeSessions { user_id, strict: true } if user_id == "u1"));
}

#[test]
fn disabling_revokes_sessions() {
    let ops = disable_ops("u2", true);
    assert_eq!(ops.len(), 2);
    assert!(matches!(&ops[0], UserStoreOp::SetDisabled { user_id, disabled: true } if user_id == "u2"));
    assert!(matches!(&ops[1], UserStoreOp::RevokeSessions { user_id, strict: false } if user_id == "u2"));
    let ops = disable_ops("u2", false);
    assert_eq!(ops.len(), 1);
    assert!(matches!(&ops[0], UserStoreOp::SetDisabled { user_id, disabled: false } if user_id == "u2"));
}

#[test]
fn a_session_decides_before_the_service_token() {
    let ctx = session_context(user(false), "tok").ok().unwrap();
    match authenticate(Some(Ok(ctx)), Some("svc"), "svc") {
        Ok(AuthUser(c)) => {
            assert!(!c.is_service);
            assert_eq!(c.session_token.as_deref(), Some("tok"));
        }
        Err(_) => panic!("session accepted"),
    }
    match authenticate(Some(Err(UserError::InvalidCredentials)), Some("svc"), "svc") {
        Err((code, m)) => {
            assert_eq!(code, 401);
            assert_eq!(m, "invalid or expired session");
        }
        Ok(_) => panic!("a failed session is refused"),
    }
    assert!(matches!(authenticate(Some(Err(UserError::Disabled)), None, "svc"), Err((403, _))));
    match authenticate(None, Some("svc"), "svc") {
        Ok(AuthUser(c)) => assert!(c.is_service && c.username == "service-token"),
        Err(_) => panic!("service token accepted"),
    }
    assert!(matches!(authenticate(None, Some("bad"), "svc"), Err((401, _))));
}
