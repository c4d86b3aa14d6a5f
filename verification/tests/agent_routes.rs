use axleops::agent::models::{ServiceKind, ServiceSpec};
use axleops::agent::process::ProcessError;
use axleops::agent::routes::{
    default_log_bytes, default_true, map_process_err, new_agent_token, publish_version,
    token_from, upload_field, validate_spec, AuthToken, UploadField, UploadForm,
};

fn spec(name: &str, kind: Option<ServiceKind>) -> ServiceSpec {
    ServiceSpec {
        name: name.into(),
        kind,
        jar_path: None,
        script_path: None,
        command: None,
        interpreter: None,
        work_dir: None,
        jvm_args: vec![],
        app_args: vec![],
        args: vec![],
        env: vec![],
        health_url: None,
    }
}

#[test]
fn process_errors_answer_conflict() {
    let (code, msg) = map_process_err(&ProcessError::AlreadyRunning(9));
    assert_eq!(code, 409);
    assert_eq!(msg, "service already running (pid=9)");
}

#[test]
fn spec_validation() {
    assert_eq!(validate_spec(&spec("  ", Some(ServiceKind::Jar))).unwrap_err(), (400, "name is required".to_string()));
    assert_eq!(
        validate_spec(&spec("x", None)).unwrap_err(),
        (400, "kind is required (or provide jar_path / script_path / command)".to_string())
    );
    assert!(validate_spec(&spec("x", Some(ServiceKind::Command))).is_ok());
}

#[test]
fn defaults() {
    assert_eq!(default_log_bytes(), 32768);
    assert!(default_true());
}

#[test]
fn publish_needs_a_version() {
    assert_eq!(publish_version(" \t").unwrap_err(), (400, "version is required".to_string()));
    assert_eq!(publish_version(" v3 ").unwrap(), "v3");
}

#[test]
fn upload_form_fields() {
    assert!(upload_field("artifact") == UploadField::File);
    assert!(upload_field("id") == UploadField::Version);
    assert!(upload_field("note") == UploadField::Note);
    assert!(upload_field("other") == UploadField::Ignored);

    let missing = UploadForm::new().finish();
    assert_eq!(missing.unwrap_err(), (400, "multipart field `file` is required".to_string()));

    let mut f = UploadForm::new();
    f.take_version(" v1 ");
    f.take_version("   ");
    f.take_note(" hello ");
    f.take_file(Some(String::new()), vec![1, 2, 3]);
    let (name, bytes, version, note) = f.finish().unwrap();
    assert_eq!(name, "artifact.bin");
    assert_eq!(bytes, vec![1, 2, 3]);
    assert_eq!(version.as_deref(), Some("v1"));
    assert_eq!(note.as_deref(), Some("hello"));

    let mut g = UploadForm::new();
    g.take_file(Some("app.jar".into()), vec![9]);
    assert_eq!(g.finish().unwrap().0, "app.jar");
}

#[test]
fn agent_tokens() {
    assert_eq!(token_from("abc"), "axle_abc");
    let t = new_agent_token();
    assert!(t.starts_with("axle_"));
    assert_eq!(t.len(), 37);
    assert!(t[5..].chars().all(|c| c.is_ascii_hexdigit()));
    assert_ne!(t, new_agent_token());
}

#[test]
fn token_check() {
    assert!(AuthToken::check(Some("s3cret"), "s3cret").is_ok());
    let e = AuthToken::check(Some(""), "").err().unwrap();
    assert_eq!(e, (401, "invalid or missing X-AxleOps-Token".to_string()));
    assert!(AuthToken::check(None, "s3cret").is_err());
    assert!(AuthToken::check(Some("other"), "s3cret").is_err());
}
