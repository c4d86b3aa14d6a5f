use axleops::admin::audit::{audit_err, audit_limit, default_audit_limit, AuditError};
use axleops::admin::config::{split_origins, Config};
use axleops::admin::models::{
    AgentInfo, ImportUpstreamRequest, ProxyInfo, RegisterAgentRequest, RegisterProxyRequest,
    UpdateAgentRequest, UpdateProxyRequest, UpstreamView,
};
use axleops::admin::registry::{
    new_agent, new_proxy, proxy_registry_err, registry_err, tags_from_json, tags_to_json,
    update_agent, update_proxy, ProxyRegistryError, RegistryError,
};
use axleops::admin::overview::JsonScalar;
use axleops::admin::routes::{remote_token, RotateReply};
use axleops::admin::routes::{
    agent_url, artifact_path, check_self_disable, logs_path, mask_agents, mask_proxy, mask_token,
    password_change_user, plan_import, proxy_as_agent, proxy_token_update, rotation_outcome,
    service_path, token_update, user_err,
};
use axleops::admin::users::{AuthContext, UserError};

fn reg(name: &str, url: &str, token: &str) -> RegisterAgentRequest {
    RegisterAgentRequest { name: name.into(), base_url: url.into(), token: token.into(), tags: vec!["a".into()], proxy_id: None }
}

fn agent_err(e: RegistryError) -> String {
    match e {
        RegistryError::Other(m) => m,
        e => panic!("expected Other, got {e:?}"),
    }
}

fn proxy() -> ProxyInfo {
    ProxyInfo {
        id: "p1".into(),
        name: "edge".into(),
        base_url: "http://proxy:9200//".into(),
        token: "ptoken".into(),
        notes: String::new(),
        created_at: "c".into(),
        updated_at: "u".into(),
    }
}

#[test]
fn register_agent_rules() {
    let a = new_agent(reg(" node ", " http://h:9100/ ", " t "), "id1".into(), "now".into()).unwrap();
    assert_eq!(a.name, "node");
    assert_eq!(a.base_url, "http://h:9100");
    assert_eq!(a.token, " t ");
    assert_eq!(a.created_at, "now");
    assert_eq!(agent_err(new_agent(reg(" ", "http://h", "t"), "i".into(), "n".into()).err().unwrap()), "name is required");
    assert_eq!(agent_err(new_agent(reg("n", " / ", "t"), "i".into(), "n".into()).err().unwrap()), "base_url is required");
    assert_eq!(agent_err(new_agent(reg("n", "http://h", "  "), "i".into(), "n".into()).err().unwrap()), "token is required");
}

#[test]
fn update_agent_rules() {
    let a = new_agent(reg("node", "http://h", "t"), "id1".into(), "t0".into()).unwrap();
    let upd = UpdateAgentRequest { name: None, base_url: Some("http://new/".into()), token: None, tags: Some(vec![]), proxy_id: None };
    let b = update_agent(a, upd, "t1".into()).unwrap();
    assert_eq!(b.id, "id1");
    assert_eq!(b.base_url, "http://new");
    assert!(b.tags.is_empty());
    assert_eq!(b.created_at, "t0");
    assert_eq!(b.updated_at, "t1");
    let bad = UpdateAgentRequest { name: Some(" ".into()), base_url: None, token: None, tags: None, proxy_id: None };
    assert_eq!(agent_err(update_agent(b, bad, "t2".into()).err().unwrap()), "name cannot be empty");
}

#[test]
fn token_rotation_changes_only_the_token() {
    let a = new_agent(reg("node", "http://h", "old"), "id1".into(), "t0".into()).unwrap();
    let b = update_agent(a, token_update("axle_new"), "t1".into()).unwrap();
    assert_eq!(b.token, "axle_new");
    assert_eq!(b.name, "node");
    assert_eq!(b.base_url, "http://h");
    assert_eq!(b.tags, vec!["a".to_string()]);
}

#[test]
fn proxy_registry_rules() {
    let req = RegisterProxyRequest { name: " edge ".into(), base_url: "http://p/".into(), token: " tok ".into(), notes: None };
    let p = new_proxy(req, "p1".into(), "now".into()).unwrap();
    assert_eq!(p.token, "tok");
    assert_eq!(p.notes, "");
    let q = update_proxy(p, proxy_token_update(" fresh "), "later".into()).unwrap();
    assert_eq!(q.token, "fresh");
    let bad = UpdateProxyRequest { name: None, base_url: None, token: Some("  ".into()), notes: None };
    match update_proxy(q, bad, "x".into()) {
        Err(ProxyRegistryError::Other(m)) => assert_eq!(m, "token cannot be empty"),
        _ => panic!("expected refusal"),
    }
}

#[test]
fn registry_error_replies() {
    assert_eq!(registry_err(&RegistryError::NotFound), (404, "agent not found".to_string()));
    assert_eq!(registry_err(&RegistryError::DuplicateName("n".into())), (409, "agent name already exists: n".to_string()));
    assert_eq!(registry_err(&RegistryError::Io("x".into())).0, 500);
    assert_eq!(proxy_registry_err(&ProxyRegistryError::NotFound), (404, "proxy not found".to_string()));
    assert_eq!(proxy_registry_err(&ProxyRegistryError::Other("bad".into())), (400, "bad".to_string()));
    assert_eq!(user_err(&UserError::InvalidCredentials), (401, "invalid credentials".to_string()));
    assert_eq!(user_err(&UserError::Forbidden), (403, "forbidden".to_string()));
}

#[test]
fn tags_json_roundtrip() {
    let tags = vec!["via:edge".to_string(), "quote\"d".to_string(), "中文".to_string()];
    let text = tags_to_json(&tags).unwrap();
    assert_eq!(tags_from_json(&text).unwrap(), tags);
    assert_eq!(tags_to_json(&vec![]).unwrap(), "[]");
    let odd = vec!["a".to_string(), "b\"c\\".to_string(), "\n\u{1}\t".to_string(), "é/".to_string()];
    assert_eq!(tags_to_json(&odd).unwrap(), "[\"a\",\"b\\\"c\\\\\",\"\\n\\u0001\\t\",\"é/\"]");
    assert!(matches!(tags_from_json("{"), Err(RegistryError::Other(_))));
}

#[test]
fn masking() {
    assert_eq!(mask_token("abcdefgh"), "abcd****");
    assert_eq!(mask_token("abcd"), "****");
    assert_eq!(mask_token("a中bc"), "a中****");
    let a = AgentInfo {
        id: "i".into(), name: "n".into(), base_url: "b".into(), token: "secret-token".into(),
        tags: vec![], proxy_id: None, created_at: "c".into(), updated_at: "u".into(),
    };
    let masked = mask_agents(vec![a]);
    assert_eq!(masked[0].token, "secr****");
    assert_eq!(masked[0].name, "n");
    assert_eq!(mask_proxy(proxy()).token, "ptok****");
}

#[test]
fn import_upstream_plan() {
    let list = vec![
        UpstreamView { id: "n1".into(), name: "Node 1".into(), base_url: "http://a".into(), path_prefix: "/a/n1".into() },
        UpstreamView { id: "n2".into(), name: "Node 2".into(), base_url: "http://b".into(), path_prefix: "a/n2".into() },
    ];
    let req = ImportUpstreamRequest { upstream_id: " n2 ".into(), agent_name: Some("  ".into()), tags: vec!["prod".into()] };
    let r = plan_import(&proxy(), &list, req).ok().unwrap();
    assert_eq!(r.name, "Node 2");
    assert_eq!(r.base_url, "http://proxy:9200/a/n2");
    assert_eq!(r.token, "ptoken");
    assert_eq!(r.tags, vec!["prod".to_string(), "via:edge".to_string()]);
    assert_eq!(r.proxy_id.as_deref(), Some("p1"));
    let again = ImportUpstreamRequest { upstream_id: "n1".into(), agent_name: Some(" Mine ".into()), tags: vec!["via:edge".into()] };
    let r2 = plan_import(&proxy(), &list, again).ok().unwrap();
    assert_eq!(r2.name, "Mine");
    assert_eq!(r2.tags, vec!["via:edge".to_string()]);
    assert_eq!(r2.base_url, "http://proxy:9200/a/n1");
    let missing = ImportUpstreamRequest { upstream_id: "zz".into(), agent_name: None, tags: vec![] };
    assert_eq!(plan_import(&proxy(), &list, missing).err().unwrap(), (404, "upstream `zz` not found on proxy".to_string()));
}

#[test]
fn rotation_reports() {
    let (t, synced, msg) = rotation_outcome(false, "axle_local".into(), None);
    assert_eq!((t.as_str(), synced), ("axle_local", false));
    assert_eq!(msg, "registry token updated — copy into agent/proxy if needed");
    let (t, synced, msg) = rotation_outcome(true, "axle_local".into(), Some(Ok(Some("axle_remote".into()))));
    assert_eq!((t.as_str(), synced, msg.as_str()), ("axle_remote", true, "remote agent token rotated"));
    let (t, synced, _) = rotation_outcome(true, "axle_local".into(), Some(Ok(None)));
    assert_eq!((t.as_str(), synced), ("axle_local", false));
    let (_, _, msg) = rotation_outcome(true, "l".into(), Some(Err("timeout".into())));
    assert_eq!(msg, "sync failed (timeout); registry token updated — copy into agent config");
}

#[test]
fn user_self_checks() {
    let me = AuthContext { user_id: Some("u1".into()), username: "a".into(), role: "admin".into(), is_service: false, session_token: None };
    assert_eq!(check_self_disable(&me, "u1", true).unwrap_err(), (400, "cannot disable yourself".to_string()));
    assert!(check_self_disable(&me, "u1", false).is_ok());
    assert!(check_self_disable(&me, "u2", true).is_ok());
    assert_eq!(password_change_user(&me).unwrap(), "u1");
    let svc = AuthContext { user_id: None, username: "s".into(), role: "admin".into(), is_service: true, session_token: None };
    assert_eq!(password_change_user(&svc).unwrap_err().0, 400);
}

#[test]
fn paths_and_urls() {
    assert_eq!(service_path("api", "/start"), "/api/v1/services/api/start");
    assert_eq!(logs_path("api", 32768), "/api/v1/services/api/logs?bytes=32768");
    assert_eq!(artifact_path("api", "v1", "/activate"), "/api/v1/services/api/artifacts/v1/activate");
    let as_agent = proxy_as_agent(&proxy());
    assert_eq!(as_agent.token, "ptoken");
    assert!(as_agent.tags.is_empty());
    assert_eq!(agent_url(&as_agent, "/health"), "http://proxy:9200///health");
}

#[test]
fn admin_config() {
    let c = Config::default();
    assert_eq!(c.bind, "0.0.0.0:9000");
    assert_eq!(c.session_ttl_hours, 24);
    assert!(c.cors_is_permissive());
    let mut d = Config::default();
    d.cors_origins = split_origins(" https://a.example , ,https://b.example");
    assert_eq!(d.cors_origins, vec!["https://a.example".to_string(), "https://b.example".to_string()]);
    assert!(!d.cors_is_permissive());
    d.cors_origins.push(" * ".into());
    assert!(d.cors_is_permissive());
    assert!(split_origins("").is_empty());
}

#[test]
fn audit_limits() {
    assert_eq!(default_audit_limit(), 100);
    assert_eq!(audit_limit(0), 1);
    assert_eq!(audit_limit(42), 42);
    assert_eq!(audit_limit(10_000), 500);
    assert_eq!(audit_err(&AuditError::Db("x".into())), (500, "db error: x".to_string()));
}

#[test]
fn rotation_reply_token() {
    let reply = RotateReply {
        data: Some(vec![
            ("id".to_string(), JsonScalar::Str("a1".into())),
            ("token".to_string(), JsonScalar::Str("axle_new".into())),
        ]),
    };
    assert_eq!(remote_token(&reply).as_deref(), Some("axle_new"));
    let numeric = RotateReply { data: Some(vec![("token".to_string(), JsonScalar::U64(5))]) };
    assert_eq!(remote_token(&numeric), None);
    assert_eq!(remote_token(&RotateReply { data: None }), None);
}
