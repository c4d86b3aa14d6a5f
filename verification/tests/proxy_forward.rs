use axleops::proxy::config::Upstream;
use axleops::proxy::forward::{
    forwards_request_header, hop_by_hop_header, join_path_query, parse_method, plan_forward,
    relayed_status, unreachable_reply, HttpMethod,
};
use axleops::proxy::routes::{
    dispatch_error, probe_url, store_err, to_view, verify_precheck, verify_probe_outcome,
    ProbeReply,
};
use axleops::proxy::store::{StoreError, UpstreamRecord};

fn upstream() -> Upstream {
    Upstream { id: "n".into(), name: "n".into(), base_url: "http://10.0.0.1:9100".into(), token: " tok ".into() }
}

#[test]
fn hop_by_hop_headers_are_dropped() {
    assert!(hop_by_hop_header("Connection"));
    assert!(hop_by_hop_header("TRANSFER-ENCODING"));
    assert!(!hop_by_hop_header("content-type"));
    assert!(!forwards_request_header("host"));
    assert!(!forwards_request_header("X-AxleOps-Token"));
    assert!(forwards_request_header("accept"));
}

#[test]
fn forward_plans() {
    let p = plan_forward(&upstream(), "POST", "/api/v1/services?x=1").ok().unwrap();
    assert!(p.method == HttpMethod::Post);
    assert_eq!(p.url, "http://10.0.0.1:9100/api/v1/services?x=1");
    assert_eq!(p.token, "tok");
    assert_eq!(plan_forward(&upstream(), "GET", "").ok().unwrap().url, "http://10.0.0.1:9100/");
    assert_eq!(plan_forward(&upstream(), "GET", "x").err().unwrap(), (400, "forward path must start with /".to_string()));
    assert_eq!(plan_forward(&upstream(), "TRACE", "/").err().unwrap(), (405, "unsupported method TRACE".to_string()));
    assert!(parse_method("get").is_none());
}

#[test]
fn path_and_query() {
    assert_eq!(join_path_query(None, None), "/");
    assert_eq!(join_path_query(Some("api/v1"), Some("a=1")), "/api/v1?a=1");
    assert_eq!(join_path_query(Some("/health"), None), "/health");
}

#[test]
fn relayed_statuses() {
    assert_eq!(relayed_status(404), 404);
    assert_eq!(relayed_status(42), 502);
    assert_eq!(unreachable_reply("boom").0, 502);
}

#[test]
fn route_replies() {
    assert_eq!(store_err(&StoreError::NotFound), (404, "upstream not found".to_string()));
    assert_eq!(store_err(&StoreError::Other("bad".into())), (400, "bad".to_string()));
    assert_eq!(dispatch_error(&StoreError::NotFound, "q"), (404, "unknown upstream id `q`".to_string()));
    let v = to_view(&UpstreamRecord { id: "n1".into(), name: "N".into(), base_url: "http://h".into(), token: "t".into() });
    assert_eq!(v.path_prefix, "/a/n1");
}

#[test]
fn verify_checks() {
    assert!(verify_precheck("http://proxy:9200/a/n1", "t").is_err());
    assert_eq!(verify_precheck("http://h:9100", "  ").unwrap_err(), "Agent Token 不能为空");
    assert!(verify_precheck("http://h:9100/", "t").is_ok());
    assert_eq!(probe_url(" http://h:9100/ "), "http://h:9100/api/v1/services");
    let ok = ProbeReply::Answered { code: 200, status_text: "200 OK".into(), body: String::new() };
    assert!(verify_probe_outcome("u", "t", ok).is_ok());
    let bad = ProbeReply::Answered { code: 500, status_text: "500 Internal Server Error".into(), body: "x".into() };
    assert_eq!(
        verify_probe_outcome("u", "t", bad).unwrap_err(),
        "下游 Agent 返回 HTTP 500 Internal Server Error（探测 u）：x"
    );
}
