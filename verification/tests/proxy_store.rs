use axleops::proxy::config::{Config, UpstreamAgent};
use axleops::proxy::store::{
    StoreError, UpdateUpstreamRequest, UpsertUpstreamRequest, UpstreamRecord, UpstreamStore,
};

fn agent(id: &str, name: Option<&str>, url: &str, token: &str) -> UpstreamAgent {
    UpstreamAgent {
        id: id.into(),
        name: name.map(|s| s.to_string()),
        base_url: url.into(),
        token: token.into(),
    }
}

fn create_req(id: &str, url: &str, token: &str) -> UpsertUpstreamRequest {
    UpsertUpstreamRequest { id: id.into(), name: None, base_url: url.into(), token: token.into() }
}

fn other(e: StoreError) -> String {
    match e {
        StoreError::Other(m) => m,
        _ => panic!("expected Other"),
    }
}

#[test]
fn create_then_get() {
    let mut s = UpstreamStore::new();
    let rec = s.create(create_req(" node-1 ", "http://10.0.0.1:9100/ ", " tok ")).unwrap();
    assert_eq!(rec.id, "node-1");
    assert_eq!(rec.name, "node-1");
    assert_eq!(rec.base_url, "http://10.0.0.1:9100");
    assert_eq!(rec.token, "tok");
    let up = s.get("node-1").unwrap();
    assert_eq!(up.base_url, "http://10.0.0.1:9100");
    assert_eq!(up.token, "tok");
}

#[test]
fn create_rejects_duplicates_and_bad_ids() {
    let mut s = UpstreamStore::new();
    s.create(create_req("a", "http://h", "t")).unwrap();
    match s.create(create_req("a", "http://h2", "t2")) {
        Err(StoreError::Duplicate(id)) => assert_eq!(id, "a"),
        _ => panic!("expected duplicate"),
    }
    assert_eq!(other(s.create(create_req("a b", "http://h", "t")).unwrap_err()), "id cannot contain spaces or path separators");
    assert_eq!(other(s.create(create_req("  ", "http://h", "t")).unwrap_err()), "id is required");
    assert_eq!(other(s.create(create_req("c", "http://h", "  ")).unwrap_err()), "token is required");
    assert_eq!(s.list().len(), 1);
}

#[test]
fn create_remove_roundtrip() {
    let mut s = UpstreamStore::new();
    s.create(create_req("b", "http://h", "t")).unwrap();
    let before: Vec<String> = s.list().iter().map(|r| r.id.clone()).collect();
    s.create(create_req("a", "http://h", "t")).unwrap();
    let removed = s.remove("a").unwrap();
    assert_eq!(removed.id, "a");
    let after: Vec<String> = s.list().iter().map(|r| r.id.clone()).collect();
    assert_eq!(before, after);
    assert!(matches!(s.remove("a"), Err(StoreError::NotFound)));
    assert!(matches!(s.get("a"), Err(StoreError::NotFound)));
}

#[test]
fn update_keeps_id_and_checks_fields() {
    let mut s = UpstreamStore::new();
    s.create(create_req("n1", "http://old", "t")).unwrap();
    let r = s
        .update("n1", UpdateUpstreamRequest { name: Some(" Node ".into()), base_url: Some("http://new//".into()), token: None })
        .unwrap();
    assert_eq!(r.id, "n1");
    assert_eq!(r.name, "Node");
    assert_eq!(r.base_url, "http://new");
    let e = s
        .update("n1", UpdateUpstreamRequest { name: None, base_url: None, token: Some("  ".into()) })
        .unwrap_err();
    assert_eq!(other(e), "token cannot be empty");
    assert!(matches!(
        s.update("zz", UpdateUpstreamRequest { name: None, base_url: None, token: None }),
        Err(StoreError::NotFound)
    ));
}

#[test]
fn list_is_sorted_by_id() {
    let mut s = UpstreamStore::new();
    for id in ["c", "a", "b"] {
        s.create(create_req(id, "http://h", "t")).unwrap();
    }
    let ids: Vec<String> = s.list().iter().map(|r| r.id.clone()).collect();
    assert_eq!(ids, vec!["a", "b", "c"]);
}

#[test]
fn seeded_from_agents_and_records() {
    let s = UpstreamStore::seeded(&vec![agent("x", Some("  "), "http://x/", "t")]);
    let up = s.get("x").unwrap();
    assert_eq!(up.name, "x");
    assert_eq!(up.base_url, "http://x");
    let recs = vec![
        UpstreamRecord { id: "r".into(), name: "one".into(), base_url: "http://1".into(), token: "t".into() },
        UpstreamRecord { id: "r".into(), name: "two".into(), base_url: "http://2".into(), token: "t".into() },
    ];
    let s2 = UpstreamStore::from_records(&recs);
    assert_eq!(s2.get("r").unwrap().name, "two");
    assert_eq!(s2.list().len(), 1);
}

#[test]
fn record_validation_messages() {
    let rec = UpstreamRecord { id: "a/b".into(), name: "n".into(), base_url: "http://h".into(), token: "t".into() };
    assert_eq!(other(rec.validate().unwrap_err()), "id cannot contain spaces or path separators");
    let from = UpstreamRecord::from_agent(&agent(" z ", None, " http://z/ ", "tk"));
    assert_eq!(from.id, "z");
    assert_eq!(from.base_url, "http://z");
    assert_eq!(from.to_upstream().name, "z");
}

#[test]
fn store_error_messages() {
    assert_eq!(StoreError::NotFound.message(), "upstream not found");
    assert_eq!(StoreError::Duplicate("q".into()).message(), "upstream id already exists: q");
}

#[test]
fn config_checks() {
    let mut c = Config::default();
    assert_eq!(c.bind, "0.0.0.0:9200");
    assert_eq!(c.timeout_secs, 120);
    c.token = "  secret ".into();
    c.agents = vec![agent("a", None, "http://a", "t"), agent("a", None, "http://b", "t")];
    assert_eq!(c.finish().err().unwrap(), "duplicate agent id `a`");
    let mut d = Config::default();
    d.token = " s ".into();
    d.agents = vec![agent("a", None, "  ", "t")];
    assert_eq!(d.finish().err().unwrap(), "agent `a` base_url cannot be empty");
    let mut e = Config::default();
    e.token = " s ".into();
    assert_eq!(e.finish().ok().unwrap().token, "s");
}
