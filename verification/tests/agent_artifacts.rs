use axleops::agent::artifacts::{
    apply_path_to_spec, clean_note, list_manifest, plan_upload, sanitize_filename, sanitize_name,
    publish_step, version_id_from, version_path, ArtifactRecord, ArtifactStore, Manifest,
    PublishAction, PublishEvent, PublishStage, MAX_KEEP,
};
use axleops::agent::models::{ServiceKind, ServiceSpec};
use axleops::agent::process::ProcessError;

fn demo_spec() -> ServiceSpec {
    ServiceSpec {
        name: "demo".into(),
        kind: Some(ServiceKind::Jar),
        jar_path: Some("/tmp/old.jar".into()),
        script_path: None,
        command: None,
        interpreter: None,
        work_dir: None,
        jvm_args: vec![],
        app_args: vec![],
        args: vec![],
        env: vec![],
        health_url: None,
    }
}

fn record(id: &str, filename: &str, size: u64, note: Option<&str>) -> ArtifactRecord {
    ArtifactRecord {
        id: id.into(),
        filename: filename.into(),
        size,
        uploaded_at: "2024-01-01T00:00:00+00:00".into(),
        note: clean_note(note),
    }
}

fn other(e: ProcessError) -> String {
    match e {
        ProcessError::Other(m) => m,
        _ => panic!("expected Other"),
    }
}

#[test]
fn store_list_activate_publish() {
    let dir = tempfile::tempdir().unwrap();
    let store = ArtifactStore::new(dir.path().to_str().unwrap());
    let service_dir = store.service_dir("demo").unwrap();
    let mut spec = demo_spec();
    let mut m = Manifest::empty();

    // store v1
    let bytes1 = b"jar-bytes-v1";
    let (filename, id) = plan_upload(bytes1.len(), "app.jar", Some("v1"), "unused".into()).unwrap();
    assert!(!m.has(&id));
    let removed = m.add(record(&id, &filename, bytes1.len() as u64, Some("first")));
    assert!(removed.is_empty());
    assert_eq!(id, "v1");
    let list = list_manifest("demo", &service_dir, &m);
    assert_eq!(list.artifacts.len(), 1);

    // activate v1
    let rec = m.version_record("v1").unwrap();
    let path = version_path(&service_dir, &rec);
    apply_path_to_spec(&mut spec, &path).unwrap();
    m.activate("v1");
    let jar = spec.jar_path.clone().unwrap();
    assert!(jar.contains("v1") && jar.ends_with("app.jar"), "jar={jar}");

    // store v2, publish it
    let bytes2 = b"jar-bytes-v2";
    let (filename2, id2) = plan_upload(bytes2.len(), "app.jar", Some("v2"), "unused".into()).unwrap();
    m.add(record(&id2, &filename2, bytes2.len() as u64, None));
    let previous = m.active.clone();
    let (st, a) = publish_step(PublishStage::Stop, false, PublishEvent::Stopped(Err(ProcessError::NotRunning)));
    assert!(st == PublishStage::Activate && matches!(a, PublishAction::Activate));
    let rec2 = m.version_record("v2").unwrap();
    apply_path_to_spec(&mut spec, &version_path(&service_dir, &rec2)).unwrap();
    m.activate("v2");
    assert_eq!(m.active.as_deref(), Some("v2"));
    assert_eq!(previous.as_deref(), Some("v1"));

    // roll back
    let target = m.rollback_target().unwrap();
    let (st, a) = publish_step(PublishStage::Stop, false, PublishEvent::Stopped(Ok(())));
    assert!(st == PublishStage::Activate && matches!(a, PublishAction::Activate));
    m.activate(&target);
    assert_eq!(target, "v1");
    assert_eq!(m.active.as_deref(), Some("v1"));
    assert_eq!(m.previous.as_deref(), Some("v2"));
}

#[test]
fn activate_twice_is_activate_once() {
    let mut m = Manifest::empty();
    m.add(record("a", "x.jar", 1, None));
    assert!(m.activate("a"));
    assert!(!m.activate("a"));
    assert_eq!(m.active.as_deref(), Some("a"));
    assert_eq!(m.previous, None);
}

#[test]
fn prune_keeps_twelve_and_pinned() {
    let mut m = Manifest::empty();
    for i in 0..MAX_KEEP {
        assert!(m.add(record(&format!("v{i}"), "a.jar", 1, None)).is_empty());
    }
    m.activate("v0");
    // v0 is pinned, so nothing is dropped even over the limit
    assert!(m.add(record("extra", "a.jar", 1, None)).is_empty());
    assert_eq!(m.versions.len(), MAX_KEEP + 1);
    // once something else is active, the two oldest unpinned go
    m.activate("extra");
    m.activate("v5");
    let removed = m.add(record("more", "a.jar", 1, None));
    assert_eq!(removed, vec!["v0".to_string(), "v1".to_string()]);
    assert_eq!(m.versions.len(), MAX_KEEP);
    let mut m2 = Manifest::empty();
    for i in 0..MAX_KEEP + 2 {
        m2.add(record(&format!("w{i}"), "a.jar", 1, None));
    }
    assert_eq!(m2.versions.len(), MAX_KEEP);
    assert_eq!(m2.versions[0].id, "w2");
}

#[test]
fn delete_rules() {
    let mut m = Manifest::empty();
    m.add(record("a", "x.jar", 1, None));
    m.add(record("b", "x.jar", 1, None));
    m.activate("a");
    m.activate("b");
    assert_eq!(
        other(m.remove_version("b").unwrap_err()),
        "cannot delete the active artifact; publish another version first"
    );
    assert_eq!(other(m.remove_version("zz").unwrap_err()), "artifact version not found: zz");
    m.remove_version("a").unwrap();
    assert_eq!(m.previous, None);
    assert_eq!(m.versions.len(), 1);
    assert_eq!(other(m.rollback_target().unwrap_err()), "no previous artifact to roll back to");
}

#[test]
fn names_are_sanitized() {
    assert_eq!(sanitize_name("my app!v1").unwrap(), "my_app_v1");
    assert_eq!(other(sanitize_name("..").unwrap_err()), "invalid name");
    assert_eq!(other(sanitize_name("a..b").unwrap_err()), "invalid name");
    assert_eq!(other(sanitize_name("").unwrap_err()), "invalid name");
    assert_eq!(sanitize_filename("/tmp/dir/my app.jar").unwrap(), "my_app.jar");
    assert_eq!(other(sanitize_filename("   ").unwrap_err()), "filename required");
}

#[test]
fn upload_plan_rules() {
    assert_eq!(other(plan_upload(0, "a.jar", None, "x".into()).unwrap_err()), "empty upload");
    let (f, id) = plan_upload(3, "a.jar", Some("   "), "fallback-id".into()).unwrap();
    assert_eq!(f, "a.jar");
    assert_eq!(id, "fallback-id");
    let (_, id2) = plan_upload(3, "a.jar", Some(" v 2 "), "x".into()).unwrap();
    assert_eq!(id2, "v_2");
    assert_eq!(clean_note(Some("  ")), None);
    assert_eq!(clean_note(Some(" hi ")).as_deref(), Some("hi"));
}

#[test]
fn version_ids() {
    assert_eq!(
        version_id_from("20240101-120000", "0123456789abcdef"),
        "20240101-120000-01234567"
    );
    let id = axleops::agent::artifacts::default_version_id();
    assert_eq!(id.len(), "20240101-120000-01234567".len());
    let tail: Vec<char> = id.chars().rev().take(9).collect();
    assert_eq!(tail[8], '-');
    assert!(tail[..8].iter().all(|c| c.is_ascii_digit() || ('a'..='f').contains(c)));
}

#[test]
fn command_services_cannot_take_artifacts() {
    let mut spec = demo_spec();
    spec.kind = Some(ServiceKind::Command);
    assert_eq!(
        other(apply_path_to_spec(&mut spec, "/x").unwrap_err()),
        "artifact publish is only supported for jar and script services"
    );
    let mut s2 = demo_spec();
    s2.kind = Some(ServiceKind::Script);
    apply_path_to_spec(&mut s2, "/srv/run.sh").unwrap();
    assert_eq!(s2.script_path.as_deref(), Some("/srv/run.sh"));
}

#[test]
fn store_root_is_under_data_dir() {
    let store = axleops::agent::artifacts::ArtifactStore::new("/data");
    assert_eq!(store.root, "/data/artifacts");
}

#[test]
fn plain_upload_names_are_sanitized_as_given() {
    assert_eq!(sanitize_filename("my app.jar").unwrap(), "my_app.jar");
    assert_eq!(other(sanitize_filename("a..b.jar").unwrap_err()), "invalid name");
}

#[test]
fn publish_stops_then_activates_then_starts() {
    match publish_step(PublishStage::Stop, true, PublishEvent::Stopped(Err(ProcessError::Other("stuck".into())))) {
        (PublishStage::Finished, PublishAction::Fail(ProcessError::Other(m))) => assert_eq!(m, "stuck"),
        _ => panic!("the stop error ends the publish"),
    }
    let (st, a) = publish_step(PublishStage::Activate, true, PublishEvent::Activated(Ok(())));
    assert!(st == PublishStage::Start && matches!(a, PublishAction::StartSaved));
    let (st, a) = publish_step(PublishStage::Activate, false, PublishEvent::Activated(Ok(())));
    assert!(st == PublishStage::Finished && matches!(a, PublishAction::FinishWithStatus));
    let (st, a) = publish_step(PublishStage::Start, true, PublishEvent::Started(Ok(())));
    assert!(st == PublishStage::Finished && matches!(a, PublishAction::FinishStarted));
    assert!(matches!(
        publish_step(PublishStage::Start, true, PublishEvent::Started(Err(ProcessError::NotRunning))).1,
        PublishAction::Fail(ProcessError::NotRunning)
    ));
}

#[test]
fn stored_version_paths() {
    let store = ArtifactStore::new("/data");
    let dir = store.service_dir("demo").unwrap();
    assert_eq!(dir, "/data/artifacts/demo");
    let rec = record("v1", "app.jar", 12, Some("first"));
    assert_eq!(version_path(&dir, &rec), "/data/artifacts/demo/v1/app.jar");
    assert_eq!(ArtifactStore::new("/data/").root, "/data/artifacts");
}
