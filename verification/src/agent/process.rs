//! The agent's process decisions.  Files, child handles, signals and the
//! clock stay with the caller, which feeds what it observed into these
//! functions and carries out what they return.
use vstd::prelude::*;
use crate::text::{
    blank, cat, cat3, decimal, decimal_string, is_blank, owned, str_eq, trim, trimmed,
};
use crate::agent::models::{
    ServiceKind, ServiceSpec, ServiceSpecView, ServiceState, ServiceStatus, ServiceStatusView,
    copy_opt, env_names_unique, ostr, resolved_kind_of,
};

verus! {

#[derive(Debug)]
pub enum ProcessError {
    AlreadyRunning(u32),
    NotRunning,
    /// An I/O failure, with the error's text.
    Io(String),
    InvalidPidFile,
    Other(String),
}

impl ProcessError {
    pub open spec fn text(&self) -> Seq<char> {
        match self {
            ProcessError::AlreadyRunning(pid) => "service already running (pid="@ + decimal(
                *pid as nat,
            ) + ")"@,
            ProcessError::NotRunning => "service is not running"@,
            ProcessError::Io(e) => "io error: "@ + e@,
            ProcessError::InvalidPidFile => "invalid pid file"@,
            ProcessError::Other(m) => m@,
        }
    }

    /// The text the error displays.
    pub fn message(&self) -> (r: String)
        ensures
            r@ == self.text(),
    {
        match self {
            ProcessError::AlreadyRunning(pid) => {
                let n = decimal_string(*pid as u64);
                cat3("service already running (pid=", n.as_str(), ")")
            },
            ProcessError::NotRunning => owned("service is not running"),
            ProcessError::Io(e) => cat("io error: ", e.as_str()),
            ProcessError::InvalidPidFile => owned("invalid pid file"),
            ProcessError::Other(m) => owned(m.as_str()),
        }
    }
}

/// `r` is `Err(Other(m))`.
pub open spec fn is_other<T>(r: Result<T, ProcessError>, m: Seq<char>) -> bool {
    r matches Err(ProcessError::Other(x)) && x@ == m
}

/// The pid file of a running service.  `started_at` is an RFC 3339 time.
pub struct PidRecord {
    pub pid: u32,
    pub kind: String,
    /// Display / restart hint: jar path, script path, or command.
    pub target: String,
    pub started_at: String,
}

/// Persisted service definition (survives stop; enables restart/edit).
pub struct ServiceMeta {
    pub name: String,
    pub kind: String,
    pub target: String,
    /// Full launch spec when available.
    pub spec: Option<ServiceSpec>,
    /// Whether the service should be running (start/stop intent + watchdog).
    pub desired_running: bool,
}

pub struct ServiceMetaView {
    pub name: Seq<char>,
    pub kind: Seq<char>,
    pub target: Seq<char>,
    pub spec: Option<ServiceSpecView>,
    pub desired_running: bool,
}

impl View for ServiceMeta {
    type V = ServiceMetaView;

    open spec fn view(&self) -> ServiceMetaView {
        ServiceMetaView {
            name: self.name@,
            kind: self.kind@,
            target: self.target@,
            spec: match self.spec {
                Some(s) => Some(s@),
                None => None,
            },
            desired_running: self.desired_running,
        }
    }
}

pub open spec fn kind_name(k: ServiceKind) -> Seq<char> {
    match k {
        ServiceKind::Jar => "jar"@,
        ServiceKind::Script => "script"@,
        ServiceKind::Command => "command"@,
    }
}

pub open spec fn kind_of_name(s: Seq<char>) -> Option<ServiceKind> {
    if s == "jar"@ {
        Some(ServiceKind::Jar)
    } else if s == "script"@ {
        Some(ServiceKind::Script)
    } else if s == "command"@ {
        Some(ServiceKind::Command)
    } else {
        None
    }
}

pub fn parse_kind(s: &str) -> (r: Option<ServiceKind>)
    ensures
        r == kind_of_name(s@),
{
    if str_eq(s, "jar") {
        Some(ServiceKind::Jar)
    } else if str_eq(s, "script") {
        Some(ServiceKind::Script)
    } else if str_eq(s, "command") {
        Some(ServiceKind::Command)
    } else {
        None
    }
}

pub fn kind_str(kind: ServiceKind) -> (r: &'static str)
    ensures
        r@ == kind_name(kind),
{
    match kind {
        ServiceKind::Jar => "jar",
        ServiceKind::Script => "script",
        ServiceKind::Command => "command",
    }
}

/// Parsing the name of a kind gives the kind back.
pub proof fn law_kind_name_roundtrip(k: ServiceKind)
    ensures
        kind_of_name(kind_name(k)) == Some(k),
{
    reveal_strlit("jar");
    reveal_strlit("script");
    reveal_strlit("command");
    assert("jar"@.len() == 3 && "script"@.len() == 6 && "command"@.len() == 7);
}

/// The field a kind launches from.
pub open spec fn target_field(s: ServiceSpecView, k: ServiceKind) -> Option<Seq<char>> {
    match k {
        ServiceKind::Jar => s.jar_path,
        ServiceKind::Script => s.script_path,
        ServiceKind::Command => s.command,
    }
}

pub open spec fn or_empty(o: Option<Seq<char>>) -> Seq<char> {
    match o {
        Some(s) => s,
        None => Seq::empty(),
    }
}

/// The definition stored for a spec (not yet meant to run).
pub open spec fn meta_of_spec(s: ServiceSpecView, k: ServiceKind) -> ServiceMetaView {
    ServiceMetaView {
        name: trim(s.name),
        kind: kind_name(k),
        target: or_empty(target_field(s, k)),
        spec: Some(s),
        desired_running: false,
    }
}

fn opt_or_empty(o: &Option<String>) -> (r: String)
    ensures
        r@ == or_empty(ostr(*o)),
{
    match o {
        Some(s) => s.clone(),
        None => String::new(),
    }
}

pub fn meta_from_spec(spec: &ServiceSpec) -> (r: Result<ServiceMeta, ProcessError>)
    ensures
        match resolved_kind_of(spec@) {
            Some(k) => r matches Ok(m) && m@ == meta_of_spec(spec@, k),
            None => is_other(r, crate::agent::models::kind_required_message()),
        },
{
    let kind = match spec.resolved_kind() {
        Ok(k) => k,
        Err(m) => return Err(ProcessError::Other(m)),
    };
    let target = match kind {
        ServiceKind::Jar => opt_or_empty(&spec.jar_path),
        ServiceKind::Script => opt_or_empty(&spec.script_path),
        ServiceKind::Command => opt_or_empty(&spec.command),
    };
    Ok(ServiceMeta {
        name: trimmed(spec.name.as_str()),
        kind: owned(kind_str(kind)),
        target,
        spec: Some(spec.duplicate()),
        desired_running: false,
    })
}

/// The minimal spec rebuilt from a definition that only kept kind and target.
pub open spec fn spec_of_legacy(m: ServiceMetaView, k: ServiceKind) -> ServiceSpecView {
    ServiceSpecView {
        name: m.name,
        kind: Some(k),
        jar_path: if k == ServiceKind::Jar {
            Some(m.target)
        } else {
            None
        },
        script_path: if k == ServiceKind::Script {
            Some(m.target)
        } else {
            None
        },
        command: if k == ServiceKind::Command {
            Some(m.target)
        } else {
            None
        },
        interpreter: None,
        work_dir: None,
        jvm_args: Seq::empty(),
        app_args: Seq::empty(),
        args: Seq::empty(),
        env: Seq::empty(),
        health_url: None,
    }
}

pub fn spec_from_meta(meta: &ServiceMeta) -> (r: Result<ServiceSpec, ProcessError>)
    ensures
        r matches Ok(x) ==> (meta@.spec matches Some(s) && env_names_unique(s.env) || meta@.spec
            is None) ==> env_names_unique(x@.env),
        match meta@.spec {
            Some(s) => r matches Ok(x) && x@ == s,
            None => match kind_of_name(meta@.kind) {
                Some(k) => r matches Ok(x) && x@ == spec_of_legacy(meta@, k),
                None => is_other(r, "service has no saved spec; edit and save first"@),
            },
        },
{
    if let Some(spec) = &meta.spec {
        return Ok(spec.duplicate());
    }
    let kind = match parse_kind(meta.kind.as_str()) {
        Some(k) => k,
        None => return Err(ProcessError::Other(owned("service has no saved spec; edit and save first"))),
    };
    let spec = ServiceSpec {
        name: meta.name.clone(),
        kind: Some(kind),
        jar_path: if kind == ServiceKind::Jar {
            Some(meta.target.clone())
        } else {
            None
        },
        script_path: if kind == ServiceKind::Script {
            Some(meta.target.clone())
        } else {
            None
        },
        command: if kind == ServiceKind::Command {
            Some(meta.target.clone())
        } else {
            None
        },
        interpreter: None,
        work_dir: None,
        jvm_args: Vec::new(),
        app_args: Vec::new(),
        args: Vec::new(),
        env: Vec::new(),
        health_url: None,
    };
    assert(spec@.jvm_args =~= Seq::<Seq<char>>::empty());
    assert(spec@.app_args =~= Seq::<Seq<char>>::empty());
    assert(spec@.args =~= Seq::<Seq<char>>::empty());
    assert(spec@.env =~= Seq::<(Seq<char>, Seq<char>)>::empty());
    Ok(spec)
}

/// Checks and definition for `save`: a name and a launch kind are needed;
/// the start/stop intent of an existing definition is kept.
pub fn prepare_save(spec: &ServiceSpec, previous: &Option<ServiceMeta>) -> (r: Result<
    ServiceMeta,
    ProcessError,
>)
    ensures
        blank(spec@.name) ==> is_other(r, "name is required"@),
        !blank(spec@.name) ==> match resolved_kind_of(spec@) {
            None => is_other(r, crate::agent::models::kind_required_message()),
            Some(k) => r matches Ok(m) && m@ == (ServiceMetaView {
                desired_running: match previous {
                    Some(p) => p.desired_running,
                    None => false,
                },
                ..meta_of_spec(spec@, k)
            }),
        },
{
    if is_blank(spec.name.as_str()) {
        return Err(ProcessError::Other(owned("name is required")));
    }
    let mut meta = meta_from_spec(spec)?;
    if let Some(prev) = previous {
        meta.desired_running = prev.desired_running;
    }
    Ok(meta)
}

/// `get_spec`: the saved spec of a known service.
pub fn spec_for(name: &str, meta: &Option<ServiceMeta>) -> (r: Result<ServiceSpec, ProcessError>)
    ensures
        meta is None ==> is_other(r, "service not found: "@ + name@),
        meta matches Some(m) ==> match m@.spec {
            Some(s) => r matches Ok(x) && x@ == s,
            None => match kind_of_name(m@.kind) {
                Some(k) => r matches Ok(x) && x@ == spec_of_legacy(m@, k),
                None => is_other(r, "service has no saved spec; edit and save first"@),
            },
        },
{
    match meta {
        None => Err(ProcessError::Other(cat("service not found: ", name))),
        Some(m) => spec_from_meta(m),
    }
}

/// What `save` stores for a spec is read back by `get_spec` as that same
/// spec, whatever the start/stop intent kept with it.
pub proof fn law_saved_spec_reads_back(s: ServiceSpecView, k: ServiceKind, running: bool)
    requires
        resolved_kind_of(s) == Some(k),
    ensures
        ({
            let m = ServiceMetaView { desired_running: running, ..meta_of_spec(s, k) };
            m.spec == Some(s) && kind_of_name(m.kind) == Some(k) && m.name == trim(s.name)
        }),
{
    law_kind_name_roundtrip(k);
}

/// Environment names stay unique through storage: a saved spec is read back
/// as it was, and a spec rebuilt from kind and target has no environment.
pub proof fn law_env_names_stay_unique(s: ServiceSpecView, k: ServiceKind, m: ServiceMetaView)
    requires
        env_names_unique(s.env),
    ensures
        meta_of_spec(s, k).spec matches Some(t) && env_names_unique(t.env),
        env_names_unique(spec_of_legacy(m, k).env),
{
}

/// A definition that kept only kind and target rebuilds a spec which, saved
/// again, keeps that kind and that target.
pub proof fn law_legacy_spec_keeps_target(m: ServiceMetaView, k: ServiceKind)
    requires
        kind_of_name(m.kind) == Some(k),
    ensures
        resolved_kind_of(spec_of_legacy(m, k)) == Some(k),
        meta_of_spec(spec_of_legacy(m, k), k).kind == m.kind,
        meta_of_spec(spec_of_legacy(m, k), k).target == m.target,
{
    reveal_strlit("jar");
    reveal_strlit("script");
    reveal_strlit("command");
    assert("jar"@.len() == 3 && "script"@.len() == 6 && "command"@.len() == 7);
}

pub open spec fn jar_alias(kind: Option<ServiceKind>, target: Option<Seq<char>>) -> Option<
    Seq<char>,
> {
    if kind == Some(ServiceKind::Jar) {
        target
    } else {
        None
    }
}

pub open spec fn running_view(name: Seq<char>, r: PidRecord) -> ServiceStatusView {
    let kind = kind_of_name(r.kind@);
    ServiceStatusView {
        name,
        state: ServiceState::Running,
        kind,
        pid: Some(r.pid),
        target: Some(r.target@),
        jar_path: jar_alias(kind, Some(r.target@)),
        started_at: Some(r.started_at@),
        message: None,
        healthy: None,
    }
}

pub fn status_running(name: &str, record: &PidRecord) -> (s: ServiceStatus)
    ensures
        s@ == running_view(name@, *record),
{
    let kind = parse_kind(record.kind.as_str());
    let jar_path = if kind == Some(ServiceKind::Jar) {
        Some(record.target.clone())
    } else {
        None
    };
    ServiceStatus {
        name: owned(name),
        state: ServiceState::Running,
        kind,
        pid: Some(record.pid),
        target: Some(record.target.clone()),
        jar_path,
        started_at: Some(record.started_at.clone()),
        message: None,
        healthy: None,
    }
}

pub open spec fn stopped_view(
    name: Seq<char>,
    kind: Option<ServiceKind>,
    target: Option<Seq<char>>,
    message: Option<Seq<char>>,
) -> ServiceStatusView {
    ServiceStatusView {
        name,
        state: ServiceState::Stopped,
        kind,
        pid: None,
        target,
        jar_path: jar_alias(kind, target),
        started_at: None,
        message,
        healthy: None,
    }
}

pub fn status_stopped(
    name: &str,
    kind: Option<ServiceKind>,
    target: Option<String>,
    message: Option<String>,
) -> (s: ServiceStatus)
    ensures
        s@ == stopped_view(name@, kind, ostr(target), ostr(message)),
{
    let jar_path = if kind == Some(ServiceKind::Jar) {
        copy_opt(&target)
    } else {
        None
    };
    ServiceStatus {
        name: owned(name),
        state: ServiceState::Stopped,
        kind,
        pid: None,
        target,
        jar_path,
        started_at: None,
        message,
        healthy: None,
    }
}

// ---------------------------------------------------------------------------
// Status of one service
// ---------------------------------------------------------------------------

/// What reading the pid file gave.
pub enum RecordRead {
    Found(PidRecord),
    Missing,
    Failed(ProcessError),
}

/// The status, and the bookkeeping the caller then does: write a definition
/// rebuilt from the pid file, drop the child handle, delete the pid file,
/// forget the cached health result.
pub struct StatusStep {
    pub status: ServiceStatus,
    pub write_meta: Option<ServiceMeta>,
    pub drop_child: bool,
    pub clear_record: bool,
    pub forget_health: bool,
}

pub open spec fn meta_kind(meta: Option<ServiceMeta>) -> Option<ServiceKind> {
    match meta {
        Some(m) => kind_of_name(m.kind@),
        None => None,
    }
}

pub open spec fn meta_target_filled(meta: Option<ServiceMeta>) -> Option<Seq<char>> {
    match meta {
        Some(m) => if m.target@.len() > 0 {
            Some(m.target@)
        } else {
            None
        },
        None => None,
    }
}

/// The definition rebuilt from a pid file when none was saved.
pub open spec fn meta_of_record(name: Seq<char>, r: PidRecord) -> ServiceMetaView {
    ServiceMetaView {
        name,
        kind: r.kind@,
        target: r.target@,
        spec: None,
        desired_running: false,
    }
}

pub open spec fn write_back(name: Seq<char>, meta: Option<ServiceMeta>, r: PidRecord, w: Option<
    ServiceMeta,
>) -> bool {
    if meta is None {
        w matches Some(m) && m@ == meta_of_record(name, r)
    } else {
        w is None
    }
}

fn meta_from_record(name: &str, record: &PidRecord) -> (m: ServiceMeta)
    ensures
        m@ == meta_of_record(name@, *record),
{
    ServiceMeta {
        name: owned(name),
        kind: record.kind.clone(),
        target: record.target.clone(),
        spec: None,
        desired_running: false,
    }
}

/// The status of a service from its definition, its pid file and whether
/// the recorded pid is alive: running when it is; stopped with
/// "stale pid cleared" (and the pid file deleted) when it is not; stopped
/// when there is no pid file; unknown, with the error, when the pid file
/// cannot be read.  A definition is rebuilt from a pid file that has none.
pub fn status_step(name: &str, meta: &Option<ServiceMeta>, record: RecordRead, alive: bool) -> (r:
    StatusStep)
    ensures
        match record {
            RecordRead::Found(rec) => if alive {
                &&& r.status@ == running_view(name@, rec)
                &&& write_back(name@, *meta, rec, r.write_meta)
                &&& !r.drop_child && !r.clear_record && !r.forget_health
            } else {
                &&& r.status@ == stopped_view(
                    name@,
                    match meta_kind(*meta) {
                        Some(k) => Some(k),
                        None => kind_of_name(rec.kind@),
                    },
                    match meta_target_filled(*meta) {
                        Some(t) => Some(t),
                        None => Some(rec.target@),
                    },
                    Some("stale pid cleared"@),
                )
                &&& write_back(name@, *meta, rec, r.write_meta)
                &&& r.drop_child && r.clear_record && r.forget_health
            },
            RecordRead::Missing => {
                &&& r.status@ == stopped_view(
                    name@,
                    meta_kind(*meta),
                    meta_target_filled(*meta),
                    None,
                )
                &&& r.write_meta is None
                &&& r.drop_child && !r.clear_record && !r.forget_health
            },
            RecordRead::Failed(e) => {
                &&& r.status@ == (ServiceStatusView {
                    name: name@,
                    state: ServiceState::Unknown,
                    kind: meta_kind(*meta),
                    pid: None,
                    target: match meta {
                        Some(m) => Some(m.target@),
                        None => None,
                    },
                    jar_path: None,
                    started_at: None,
                    message: Some(e.text()),
                    healthy: None,
                })
                &&& r.write_meta is None
                &&& !r.drop_child && !r.clear_record && !r.forget_health
            },
        },
{
    let mkind: Option<ServiceKind> = match meta {
        Some(m) => parse_kind(m.kind.as_str()),
        None => None,
    };
    let mtarget: Option<String> = match meta {
        Some(m) => if m.target.as_str().is_empty() {
            None
        } else {
            Some(m.target.clone())
        },
        None => None,
    };
    match record {
        RecordRead::Found(rec) => {
            let write_meta = if meta.is_none() {
                Some(meta_from_record(name, &rec))
            } else {
                None
            };
            if alive {
                StatusStep {
                    status: status_running(name, &rec),
                    write_meta,
                    drop_child: false,
                    clear_record: false,
                    forget_health: false,
                }
            } else {
                let kind = match mkind {
                    Some(k) => Some(k),
                    None => parse_kind(rec.kind.as_str()),
                };
                let target = match mtarget {
                    Some(t) => Some(t),
                    None => Some(rec.target.clone()),
                };
                StatusStep {
                    status: status_stopped(name, kind, target, Some(owned("stale pid cleared"))),
                    write_meta,
                    drop_child: true,
                    clear_record: true,
                    forget_health: true,
                }
            }
        },
        RecordRead::Missing => StatusStep {
            status: status_stopped(name, mkind, mtarget, None),
            write_meta: None,
            drop_child: true,
            clear_record: false,
            forget_health: false,
        },
        RecordRead::Failed(e) => {
            let target = match meta {
                Some(m) => Some(m.target.clone()),
                None => None,
            };
            StatusStep {
                status: ServiceStatus {
                    name: owned(name),
                    state: ServiceState::Unknown,
                    kind: mkind,
                    pid: None,
                    target,
                    jar_path: None,
                    started_at: None,
                    message: Some(e.message()),
                    healthy: None,
                },
                write_meta: None,
                drop_child: false,
                clear_record: false,
                forget_health: false,
            }
        },
    }
}

// ---------------------------------------------------------------------------
// Health of a running service
// ---------------------------------------------------------------------------

pub open spec fn up(s: ServiceState) -> bool {
    s == ServiceState::Running || s == ServiceState::Unhealthy
}

/// The health URL of a definition, when one is configured.
pub fn health_url_of(meta: &Option<ServiceMeta>) -> (r: Option<String>)
    ensures
        r == match meta {
            Some(m) => match m.spec {
                Some(s) => s.health_url,
                None => None,
            },
            None => None,
        },
{
    match meta {
        Some(m) => match &m.spec {
            Some(s) => match &s.health_url {
                Some(u) => Some(u.clone()),
                None => None,
            },
            None => None,
        },
        None => None,
    }
}

/// The URL to check for a status: only for a service that is up and has a
/// health URL that is not blank (trimmed).
pub fn health_target(status: &ServiceStatus, url: &Option<String>) -> (r: Option<String>)
    ensures
        match ostr(*url) {
            Some(u) => if !blank(u) && up(status.state) {
                r matches Some(x) && x@ == trim(u)
            } else {
                r is None
            },
            None => r is None,
        },
{
    match url {
        Some(u) => {
            let t = trimmed(u.as_str());
            if !t.as_str().is_empty() && (status.state == ServiceState::Running || status.state
                == ServiceState::Unhealthy) {
                Some(t)
            } else {
                None
            }
        },
        None => None,
    }
}

pub open spec fn probed_view(s: ServiceStatusView, result: Result<(), Seq<char>>) -> ServiceStatusView {
    match result {
        Ok(()) => ServiceStatusView {
            healthy: Some(true),
            message: if s.message is None {
                Some("healthy"@)
            } else {
                s.message
            },
            ..s
        },
        Err(e) => ServiceStatusView {
            state: ServiceState::Unhealthy,
            healthy: Some(false),
            message: Some("unhealthy: "@ + e),
            ..s
        },
    }
}

/// A status after a live probe of its health URL.
pub fn apply_probe(status: ServiceStatus, result: Result<(), String>) -> (r: ServiceStatus)
    ensures
        r@ == probed_view(
            status@,
            match result {
                Ok(()) => Ok(()),
                Err(e) => Err(e@),
            },
        ),
{
    let mut s = status;
    match result {
        Ok(()) => {
            s.healthy = Some(true);
            if s.message.is_none() {
                s.message = Some(owned("healthy"));
            }
        },
        Err(e) => {
            s.state = ServiceState::Unhealthy;
            s.healthy = Some(false);
            s.message = Some(cat("unhealthy: ", e.as_str()));
        },
    }
    s
}

/// A cached probe result: healthy or not, and its message.
pub struct HealthEntry {
    pub healthy: bool,
    pub message: String,
}

/// A cached result is used while it is younger than a non-zero time to live.
pub fn cache_fresh(ttl_ms: u64, age_ms: u64) -> (r: bool)
    ensures
        r == (ttl_ms != 0 && age_ms <= ttl_ms),
{
    ttl_ms != 0 && age_ms <= ttl_ms
}

pub open spec fn cached_view(s: ServiceStatusView, healthy: bool, message: Seq<char>) -> ServiceStatusView {
    ServiceStatusView {
        healthy: Some(healthy),
        message: Some(message),
        state: if healthy && s.state == ServiceState::Unhealthy {
            ServiceState::Running
        } else if !healthy && s.state == ServiceState::Running {
            ServiceState::Unhealthy
        } else {
            s.state
        },
        ..s
    }
}

/// A status with a fresh cached health result applied.
pub fn apply_cached(status: ServiceStatus, entry: &HealthEntry) -> (r: ServiceStatus)
    ensures
        r@ == cached_view(status@, entry.healthy, entry.message@),
{
    let mut s = status;
    s.healthy = Some(entry.healthy);
    s.message = Some(entry.message.clone());
    if entry.healthy {
        if s.state == ServiceState::Unhealthy {
            s.state = ServiceState::Running;
        }
    } else if s.state == ServiceState::Running {
        s.state = ServiceState::Unhealthy;
    }
    s
}

/// What a probed status leaves in the cache: nothing unless it carries a
/// health result; the message defaults to "healthy" / "unhealthy".
pub fn health_entry(status: &ServiceStatus) -> (r: Option<HealthEntry>)
    ensures
        match status.healthy {
            None => r is None,
            Some(h) => r matches Some(e) && e.healthy == h && e.message@ == match ostr(
                status.message,
            ) {
                Some(m) => m,
                None => if h {
                    "healthy"@
                } else {
                    "unhealthy"@
                },
            },
        },
{
    match status.healthy {
        None => None,
        Some(h) => {
            let message = match &status.message {
                Some(m) => m.clone(),
                None => if h {
                    owned("healthy")
                } else {
                    owned("unhealthy")
                },
            };
            Some(HealthEntry { healthy: h, message })
        },
    }
}

/// Reading a fresh health result back from the cache gives the same verdict
/// the live probe gave to a running service: same state, same flag, same
/// message.
pub proof fn law_cache_replays_probe(s: ServiceStatusView, result: Result<(), Seq<char>>)
    requires
        s.state == ServiceState::Running,
    ensures
        ({
            let p = probed_view(s, result);
            let msg = p.message->0;
            let c = cached_view(s, p.healthy->0, msg);
            &&& c.healthy == p.healthy
            &&& c.state == p.state
            &&& c.message == p.message
        }),
{
}

/// A pid file whose pid is alive reports the service running, with that
/// pid, the recorded target and start time, the recorded kind (jar path
/// shown for a jar), and no message or health yet; a service reported
/// stopped has no pid and no start time, and keeps the message it is given.
pub proof fn law_status_reports(
    name: Seq<char>,
    rec: PidRecord,
    k: ServiceKind,
    kind: Option<ServiceKind>,
    target: Option<Seq<char>>,
    message: Option<Seq<char>>,
)
    ensures
        ({
            let s = running_view(name, rec);
            &&& s.state == ServiceState::Running && up(s.state)
            &&& s.name == name
            &&& s.pid == Some(rec.pid)
            &&& s.target == Some(rec.target@)
            &&& s.started_at == Some(rec.started_at@)
            &&& s.message is None && s.healthy is None
            &&& rec.kind@ == kind_name(k) ==> s.kind == Some(k)
            &&& s.jar_path == if s.kind == Some(ServiceKind::Jar) {
                Some(rec.target@)
            } else {
                None
            }
        }),
        ({
            let s = stopped_view(name, kind, target, message);
            &&& s.state == ServiceState::Stopped && !up(s.state)
            &&& s.name == name && s.pid is None && s.started_at is None
            &&& s.kind == kind && s.target == target && s.message == message
            &&& s.healthy is None
        }),
{
    law_kind_name_roundtrip(k);
}

} // verus!
