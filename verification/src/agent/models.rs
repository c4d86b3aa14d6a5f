//! Service definitions and statuses as the agent stores and reports them.
use vstd::prelude::*;
use crate::text::{blank, is_blank, owned};

verus! {

/// How the service is launched.
#[derive(PartialEq, Eq, Structural, Clone, Copy, Debug)]
pub enum ServiceKind {
    /// `java [jvm_args] -jar <jar_path> [app_args]`
    Jar,
    /// Script file via inferred/override interpreter (sh/bat/ps1/py/…).
    Script,
    /// Arbitrary executable: `<command> [args]`
    Command,
}

/// A service definition.  `env` holds the environment variables as pairs.
pub struct ServiceSpec {
    /// Unique service name, e.g. order-service
    pub name: String,
    /// Launch mode. If omitted, inferred from jar_path / script_path / command.
    pub kind: Option<ServiceKind>,
    /// Absolute or relative path to the JAR (`kind=jar`)
    pub jar_path: Option<String>,
    /// Absolute or relative path to a script (`kind=script`)
    pub script_path: Option<String>,
    /// Executable for `kind=command`
    pub command: Option<String>,
    /// Optional interpreter override for scripts, e.g. "bash", "powershell", "python"
    pub interpreter: Option<String>,
    /// Working directory (optional)
    pub work_dir: Option<String>,
    /// Extra JVM args (`kind=jar`)
    pub jvm_args: Vec<String>,
    /// App args after -jar (`kind=jar`)
    pub app_args: Vec<String>,
    /// Args for script / command kinds
    pub args: Vec<String>,
    /// Process environment variables, each name at most once (see
    /// `env_names_unique`; the wire form is a map).
    pub env: Vec<(String, String)>,
    /// Health check URL (optional)
    pub health_url: Option<String>,
}

pub open spec fn ostr(o: Option<String>) -> Option<Seq<char>> {
    match o {
        Some(s) => Some(s@),
        None => None,
    }
}

pub open spec fn strs(v: Seq<String>) -> Seq<Seq<char>> {
    v.map_values(|s: String| s@)
}

pub open spec fn pairs(v: Seq<(String, String)>) -> Seq<(Seq<char>, Seq<char>)> {
    v.map_values(|p: (String, String)| (p.0@, p.1@))
}

pub struct ServiceSpecView {
    pub name: Seq<char>,
    pub kind: Option<ServiceKind>,
    pub jar_path: Option<Seq<char>>,
    pub script_path: Option<Seq<char>>,
    pub command: Option<Seq<char>>,
    pub interpreter: Option<Seq<char>>,
    pub work_dir: Option<Seq<char>>,
    pub jvm_args: Seq<Seq<char>>,
    pub app_args: Seq<Seq<char>>,
    pub args: Seq<Seq<char>>,
    pub env: Seq<(Seq<char>, Seq<char>)>,
    pub health_url: Option<Seq<char>>,
}

/// Each environment variable name occurs at most once, as in a map.
pub open spec fn env_names_unique(env: Seq<(Seq<char>, Seq<char>)>) -> bool {
    forall|i: int, j: int| 0 <= i < env.len() && 0 <= j < env.len() && i != j ==> #[trigger] env[i].0
        != #[trigger] env[j].0
}

impl View for ServiceSpec {
    type V = ServiceSpecView;

    open spec fn view(&self) -> ServiceSpecView {
        ServiceSpecView {
            name: self.name@,
            kind: self.kind,
            jar_path: ostr(self.jar_path),
            script_path: ostr(self.script_path),
            command: ostr(self.command),
            interpreter: ostr(self.interpreter),
            work_dir: ostr(self.work_dir),
            jvm_args: strs(self.jvm_args@),
            app_args: strs(self.app_args@),
            args: strs(self.args@),
            env: pairs(self.env@),
            health_url: ostr(self.health_url),
        }
    }
}

pub fn copy_opt(o: &Option<String>) -> (r: Option<String>)
    ensures
        ostr(r) == ostr(*o),
{
    match o {
        Some(s) => Some(s.clone()),
        None => None,
    }
}

pub fn copy_strs(v: &Vec<String>) -> (r: Vec<String>)
    ensures
        strs(r@) == strs(v@),
{
    let mut r: Vec<String> = Vec::new();
    let mut i: usize = 0;
    while i < v.len()
        invariant
            i <= v.len(),
            strs(r@) == strs(v@).take(i as int),
        decreases v.len() - i,
    {
        let ghost prev = r@;
        r.push(v[i].clone());
        assert(strs(r@) =~= strs(prev).push(v@[i as int]@));
        assert(strs(r@) =~= strs(v@).take(i + 1));
        i = i + 1;
    }
    assert(strs(v@).take(v.len() as int) =~= strs(v@));
    r
}

pub fn copy_pairs(v: &Vec<(String, String)>) -> (r: Vec<(String, String)>)
    ensures
        pairs(r@) == pairs(v@),
{
    let mut r: Vec<(String, String)> = Vec::new();
    let mut i: usize = 0;
    while i < v.len()
        invariant
            i <= v.len(),
            pairs(r@) == pairs(v@).take(i as int),
        decreases v.len() - i,
    {
        let ghost prev = r@;
        let p = (v[i].0.clone(), v[i].1.clone());
        r.push(p);
        assert(pairs(r@) =~= pairs(prev).push((v@[i as int].0@, v@[i as int].1@)));
        assert(pairs(r@) =~= pairs(v@).take(i + 1));
        i = i + 1;
    }
    assert(pairs(v@).take(v.len() as int) =~= pairs(v@));
    r
}

/// Whether an optional field holds a value that is not blank.
pub open spec fn filled(o: Option<Seq<char>>) -> bool {
    o matches Some(s) && !blank(s)
}

pub fn is_filled(o: &Option<String>) -> (r: bool)
    ensures
        r == filled(ostr(*o)),
{
    match o {
        Some(s) => !is_blank(s.as_str()),
        None => false,
    }
}

pub open spec fn kind_required_message() -> Seq<char> {
    "kind is required (or provide jar_path / script_path / command)"@
}

/// The launch kind: the explicit one, else inferred from the first filled
/// field among jar_path, script_path, command.
pub open spec fn resolved_kind_of(s: ServiceSpecView) -> Option<ServiceKind> {
    if s.kind is Some {
        s.kind
    } else if filled(s.jar_path) {
        Some(ServiceKind::Jar)
    } else if filled(s.script_path) {
        Some(ServiceKind::Script)
    } else if filled(s.command) {
        Some(ServiceKind::Command)
    } else {
        None
    }
}

impl ServiceSpec {
    /// Resolve launch kind, preferring explicit `kind`.
    pub fn resolved_kind(&self) -> (r: Result<ServiceKind, String>)
        ensures
            match resolved_kind_of(self@) {
                Some(k) => r == Ok::<ServiceKind, String>(k),
                None => r matches Err(m) && m@ == kind_required_message(),
            },
    {
        if let Some(kind) = self.kind {
            return Ok(kind);
        }
        if is_filled(&self.jar_path) {
            return Ok(ServiceKind::Jar);
        }
        if is_filled(&self.script_path) {
            return Ok(ServiceKind::Script);
        }
        if is_filled(&self.command) {
            return Ok(ServiceKind::Command);
        }
        Err(owned("kind is required (or provide jar_path / script_path / command)"))
    }

    /// A field-by-field copy.
    pub fn duplicate(&self) -> (r: Self)
        ensures
            r@ == self@,
    {
        ServiceSpec {
            name: self.name.clone(),
            kind: self.kind,
            jar_path: copy_opt(&self.jar_path),
            script_path: copy_opt(&self.script_path),
            command: copy_opt(&self.command),
            interpreter: copy_opt(&self.interpreter),
            work_dir: copy_opt(&self.work_dir),
            jvm_args: copy_strs(&self.jvm_args),
            app_args: copy_strs(&self.app_args),
            args: copy_strs(&self.args),
            env: copy_pairs(&self.env),
            health_url: copy_opt(&self.health_url),
        }
    }
}

#[derive(PartialEq, Eq, Structural, Clone, Copy, Debug)]
pub enum ServiceState {
    Running,
    /// Process is up but health_url probe failed.
    Unhealthy,
    Stopped,
    Unknown,
}

/// What the agent reports about a service.  `started_at` is an RFC 3339 time.
pub struct ServiceStatus {
    pub name: String,
    pub state: ServiceState,
    pub kind: Option<ServiceKind>,
    pub pid: Option<u32>,
    /// Jar path, script path, or command string for display.
    pub target: Option<String>,
    /// Legacy alias of `target` when kind is jar (kept for older clients).
    pub jar_path: Option<String>,
    pub started_at: Option<String>,
    pub message: Option<String>,
    /// Result of health_url probe when configured (running/unhealthy only).
    pub healthy: Option<bool>,
}

pub struct ServiceStatusView {
    pub name: Seq<char>,
    pub state: ServiceState,
    pub kind: Option<ServiceKind>,
    pub pid: Option<u32>,
    pub target: Option<Seq<char>>,
    pub jar_path: Option<Seq<char>>,
    pub started_at: Option<Seq<char>>,
    pub message: Option<Seq<char>>,
    pub healthy: Option<bool>,
}

impl View for ServiceStatus {
    type V = ServiceStatusView;

    open spec fn view(&self) -> ServiceStatusView {
        ServiceStatusView {
            name: self.name@,
            state: self.state,
            kind: self.kind,
            pid: self.pid,
            target: ostr(self.target),
            jar_path: ostr(self.jar_path),
            started_at: ostr(self.started_at),
            message: ostr(self.message),
            healthy: self.healthy,
        }
    }
}

impl ServiceStatus {
    pub fn stopped(name: String, message: Option<String>) -> (s: Self)
        ensures
            s@ == (ServiceStatusView {
                name: name@,
                state: ServiceState::Stopped,
                kind: None,
                pid: None,
                target: None,
                jar_path: None,
                started_at: None,
                message: ostr(message),
                healthy: None,
            }),
    {
        ServiceStatus {
            name,
            state: ServiceState::Stopped,
            kind: None,
            pid: None,
            target: None,
            jar_path: None,
            started_at: None,
            message,
            healthy: None,
        }
    }

    pub fn duplicate(&self) -> (r: Self)
        ensures
            r@ == self@,
    {
        ServiceStatus {
            name: self.name.clone(),
            state: self.state,
            kind: self.kind,
            pid: self.pid,
            target: copy_opt(&self.target),
            jar_path: copy_opt(&self.jar_path),
            started_at: copy_opt(&self.started_at),
            message: copy_opt(&self.message),
            healthy: self.healthy,
        }
    }
}

/// The envelope of every agent reply.
pub struct ApiResponse<T> {
    pub ok: bool,
    pub message: String,
    pub data: Option<T>,
}

impl<T> ApiResponse<T> {
    pub fn ok(message: String, data: T) -> (r: Self)
        ensures
            r.ok,
            r.message == message,
            r.data == Some(data),
    {
        ApiResponse { ok: true, message, data: Some(data) }
    }

    pub fn err(message: String) -> (r: ApiResponse<()>)
        ensures
            !r.ok,
            r.message == message,
            r.data is None,
    {
        ApiResponse { ok: false, message, data: None }
    }
}

pub struct HealthInfo {
    pub service: &'static str,
    pub version: &'static str,
}

} // verus!
