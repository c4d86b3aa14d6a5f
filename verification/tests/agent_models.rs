use axleops::agent::models::{ServiceKind, ServiceSpec, ServiceState, ServiceStatus};
use axleops::agent::process::{kind_str, parse_kind, ProcessError};

fn spec(kind: Option<ServiceKind>, jar: Option<&str>, script: Option<&str>, command: Option<&str>) -> ServiceSpec {
    ServiceSpec {
        name: "x".into(),
        kind,
        jar_path: jar.map(|s| s.to_string()),
        script_path: script.map(|s| s.to_string()),
        command: command.map(|s| s.to_string()),
        interpreter: None,
        work_dir: None,
        jvm_args: vec![],
        app_args: vec![],
        args: vec![],
        env: vec![],
        health_url: None,
    }
}

#[test]
fn resolved_kind_prefers_explicit() {
    let s = spec(Some(ServiceKind::Command), Some("a.jar"), None, Some("echo"));
    assert_eq!(s.resolved_kind().unwrap(), ServiceKind::Command);
}

#[test]
fn resolved_kind_infers_jar() {
    let s = spec(None, Some("a.jar"), None, None);
    assert_eq!(s.resolved_kind().unwrap(), ServiceKind::Jar);
}

#[test]
fn resolved_kind_infers_script_then_command_and_skips_blank() {
    let s = spec(None, Some("   "), Some("run.sh"), Some("echo"));
    assert_eq!(s.resolved_kind().unwrap(), ServiceKind::Script);
    let c = spec(None, None, Some(""), Some("echo"));
    assert_eq!(c.resolved_kind().unwrap(), ServiceKind::Command);
}

#[test]
fn resolved_kind_requires_something() {
    let s = spec(None, None, None, Some("  "));
    assert_eq!(
        s.resolved_kind().unwrap_err(),
        "kind is required (or provide jar_path / script_path / command)"
    );
}

#[test]
fn kind_names_roundtrip() {
    for k in [ServiceKind::Jar, ServiceKind::Script, ServiceKind::Command] {
        assert_eq!(parse_kind(kind_str(k)), Some(k));
    }
    assert_eq!(kind_str(ServiceKind::Jar), "jar");
    assert_eq!(parse_kind("JAR"), None);
}

#[test]
fn stopped_status_is_plain() {
    let s = ServiceStatus::stopped("svc".into(), Some("removed".into()));
    assert_eq!(s.name, "svc");
    assert!(s.state == ServiceState::Stopped);
    assert_eq!(s.pid, None);
    assert_eq!(s.message.as_deref(), Some("removed"));
}

#[test]
fn process_error_messages() {
    assert_eq!(ProcessError::AlreadyRunning(42).message(), "service already running (pid=42)");
    assert_eq!(ProcessError::NotRunning.message(), "service is not running");
    assert_eq!(ProcessError::Io("disk".into()).message(), "io error: disk");
    assert_eq!(ProcessError::InvalidPidFile.message(), "invalid pid file");
    assert_eq!(ProcessError::Other("boom".into()).message(), "boom");
}
