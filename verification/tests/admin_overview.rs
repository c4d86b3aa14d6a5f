use axleops::admin::client::{parse_reply, proxy_err, status_display, ProxyError};
use axleops::admin::overview::{build_overview, AgentFetch, JsonScalar, JsonShape, ServiceItem, ServicesReply};

fn item(fields: Vec<(&str, JsonScalar)>) -> ServiceItem {
    ServiceItem { fields: fields.into_iter().map(|(k, v)| (k.to_string(), v)).collect() }
}

fn s(v: &str) -> JsonScalar {
    JsonScalar::Str(v.to_string())
}

#[test]
fn overview_rows_and_counts() {
    let list = vec![
        item(vec![("name", s("api")), ("state", s("running")), ("kind", s("jar")), ("pid", JsonScalar::U64(42)), ("jar_path", s("/a.jar")), ("healthy", JsonScalar::Bool(true))]),
        item(vec![("name", s("job")), ("target", JsonScalar::Other), ("jar_path", s("/j.jar"))]),
        item(vec![]),
    ];
    let fetched = vec![
        AgentFetch { agent_id: "a1".into(), agent_name: "one".into(), outcome: Ok(ServicesReply { data: Some(JsonShape::Array(list)), whole: JsonShape::Other }) },
        AgentFetch { agent_id: "a2".into(), agent_name: "two".into(), outcome: Err("agent request failed: refused".into()) },
        AgentFetch { agent_id: "a3".into(), agent_name: "three".into(), outcome: Ok(ServicesReply { data: None, whole: JsonShape::Other }) },
    ];
    let o = build_overview(4, &fetched);
    assert_eq!(o.agents_total, 4);
    assert_eq!(o.agents_reachable, 2);
    assert_eq!(o.services.len(), 5);
    let r0 = &o.services[0];
    assert_eq!((r0.name.as_str(), r0.state.as_str()), ("api", "running"));
    assert_eq!(r0.pid, Some(42));
    assert_eq!(r0.target.as_deref(), Some("/a.jar"));
    assert_eq!(r0.healthy, Some(true));
    // a `target` field that is not text hides `jar_path`
    assert_eq!(o.services[1].target, None);
    assert_eq!(o.services[1].state, "unknown");
    assert_eq!(o.services[2].name, "");
    let r3 = &o.services[3];
    assert!(!r3.agent_reachable);
    assert_eq!(r3.state, "unreachable");
    assert_eq!(r3.error.as_deref(), Some("agent request failed: refused"));
    let r4 = &o.services[4];
    assert!(r4.agent_reachable);
    assert_eq!(r4.error.as_deref(), Some("unexpected services payload"));
}

#[test]
fn replies_from_agents() {
    assert!(parse_reply(200, "  ".into()).unwrap().is_null());
    assert_eq!(parse_reply(200, "{\"ok\":true}".into()).unwrap()["ok"], serde_json::Value::Bool(true));
    match parse_reply(404, "nope".into()) {
        Err(ProxyError::AgentStatus { status, body }) => assert_eq!((status, body.as_str()), (404, "nope")),
        _ => panic!("expected status error"),
    }
    assert!(matches!(parse_reply(200, "{".into()), Err(ProxyError::Other(_))));
}

#[test]
fn status_texts() {
    assert_eq!(status_display(404), "404 Not Found");
    assert_eq!(status_display(599), "599 <unknown status code>");
    let e = ProxyError::AgentStatus { status: 503, body: "down".into() };
    assert_eq!(e.message(), "agent returned 503 Service Unavailable: down");
}

#[test]
fn error_replies() {
    let (code, msg) = proxy_err(&ProxyError::AgentStatus { status: 404, body: " missing ".into() });
    assert_eq!(code, 404);
    assert_eq!(msg, "???????? Agent/Proxy ????? id?HTTP 404 Not Found? ? missing");
    let long = "x".repeat(300);
    let (_, msg) = proxy_err(&ProxyError::AgentStatus { status: 500, body: long });
    assert!(msg.ends_with(&format!(" ? {}?", "x".repeat(240))));
    let (code, msg) = proxy_err(&ProxyError::AgentStatus { status: 401, body: String::new() });
    assert_eq!(code, 401);
    assert_eq!(msg, "?????Token ??????HTTP 401 Unauthorized?");
    let (code, msg) = proxy_err(&ProxyError::Http { text: "refused".into(), timeout: false, connect: true });
    assert_eq!(code, 502);
    assert_eq!(msg, "???? Agent/Proxy?????????????????refused?");
    let (code, msg) = proxy_err(&ProxyError::Other("bad json".into()));
    assert_eq!((code, msg.as_str()), (500, "bad json"));
}
