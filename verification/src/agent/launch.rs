//! How a service is started: what to run, from which directory, with which
//! interpreter, and what the start reports while it waits for health.
use vstd::prelude::*;
use crate::text::{
    ascii_lower, ascii_lowercase, blank, cat, cat3, decimal, decimal_string, owned,
    dir_and_name, dir_part, lemma_ne_at, lemma_ne_len, name_part, single_component, starts_with, str_eq, trim, trimmed,
};
use crate::agent::models::{
    ServiceKind, ServiceSpec, ServiceSpecView, ServiceState, ServiceStatus, ServiceStatusView,
    copy_strs, ostr, strs,
};
use crate::agent::process::{ProcessError, is_other, jar_alias, target_field, up};

verus! {

/// `Path::parent` of a path given as text, when it has one.  What holds of
/// every result is that it is a prefix of the path; a path of one plain
/// component has the empty path as parent, and a path of plain names
/// separated by `/` has as parent everything before its last `/`.  Beyond
/// that the result depends on the platform's path syntax and is left unsaid.
#[verifier::external_body]
fn path_parent(p: &str) -> (r: Option<String>)
    ensures
        r matches Some(q) ==> starts_with(p@, q@),
        single_component(p@) ==> r is Some && r->0@.len() == 0,
        dir_and_name(p@) is Some ==> r is Some && r->0@ == dir_part(p@),
{
    std::path::Path::new(p).parent().map(|q| q.to_string_lossy().into_owned())
}

/// Index of the last `.` in `s`.
pub open spec fn last_dot_at(s: Seq<char>, k: int) -> bool {
    0 <= k < s.len() && s[k] == '.' && forall|j: int| k < j < s.len() ==> s[j] != '.'
}

/// The extension of a file name: what follows its last dot, unless that dot
/// starts the name or there is none.
pub open spec fn name_extension(n: Seq<char>) -> Option<Seq<char>> {
    if exists|k: int| last_dot_at(n, k) && k > 0 {
        let k = choose|k: int| last_dot_at(n, k) && k > 0;
        Some(n.subrange(k + 1, n.len() as int))
    } else {
        None
    }
}

/// `Path::extension` of a path given as text, when it has one.  What holds
/// of every result is that it has no dot; for a path of one plain component,
/// or of plain names separated by `/`, it is the extension of the last
/// name.  Beyond that the result depends on the platform's path syntax and
/// is left unsaid.
#[verifier::external_body]
fn path_extension(p: &str) -> (r: Option<String>)
    ensures
        r matches Some(e) ==> !e@.contains('.'),
        single_component(p@) ==> (r is Some <==> name_extension(p@) is Some),
        single_component(p@) && r is Some ==> r->0@ == name_extension(p@)->0,
        dir_and_name(p@) is Some ==> (r is Some <==> name_extension(name_part(p@)) is Some),
        dir_and_name(p@) is Some && r is Some ==> r->0@ == name_extension(name_part(p@))->0,
{
    std::path::Path::new(p).extension().and_then(|s| s.to_str()).map(|s| s.to_string())
}

/// Whether `current` is already up: starting it again is refused.
pub fn start_conflict(current: &ServiceStatus) -> (r: Option<ProcessError>)
    ensures
        (current.pid is Some && up(current.state)) ==> (r matches Some(
            ProcessError::AlreadyRunning(p),
        ) && Some(p) == current.pid),
        !(current.pid is Some && up(current.state)) ==> r is None,
{
    match current.pid {
        Some(pid) => if current.state == ServiceState::Running || current.state
            == ServiceState::Unhealthy {
            Some(ProcessError::AlreadyRunning(pid))
        } else {
            None
        },
        None => None,
    }
}

pub open spec fn required_message(k: ServiceKind) -> Seq<char> {
    match k {
        ServiceKind::Jar => "jar_path is required for kind=jar"@,
        ServiceKind::Script => "script_path is required for kind=script"@,
        ServiceKind::Command => "command is required for kind=command"@,
    }
}

pub open spec fn launch_target_of(s: ServiceSpecView, k: ServiceKind) -> Option<Seq<char>> {
    match target_field(s, k) {
        Some(t) => if trim(t).len() > 0 {
            Some(trim(t))
        } else {
            None
        },
        None => None,
    }
}

/// The trimmed jar path, script path or command a kind launches.
pub fn launch_target(spec: &ServiceSpec, kind: ServiceKind) -> (r: Result<String, ProcessError>)
    ensures
        match launch_target_of(spec@, kind) {
            Some(t) => r matches Ok(x) && x@ == t,
            None => is_other(r, required_message(kind)),
        },
{
    let field = match kind {
        ServiceKind::Jar => &spec.jar_path,
        ServiceKind::Script => &spec.script_path,
        ServiceKind::Command => &spec.command,
    };
    let t = match field {
        Some(s) => trimmed(s.as_str()),
        None => String::new(),
    };
    if t.as_str().is_empty() {
        let m = match kind {
            ServiceKind::Jar => owned("jar_path is required for kind=jar"),
            ServiceKind::Script => owned("script_path is required for kind=script"),
            ServiceKind::Command => owned("command is required for kind=command"),
        };
        return Err(ProcessError::Other(m));
    }
    Ok(t)
}

/// Jars and scripts must exist before they are launched; commands are
/// looked up by the system.
pub fn target_must_exist(kind: ServiceKind) -> (r: bool)
    ensures
        r == (kind != ServiceKind::Command),
{
    kind != ServiceKind::Command
}

/// The error for a jar or script that does not exist.
pub fn missing_target(kind: ServiceKind, target: &str) -> (r: ProcessError)
    requires
        kind != ServiceKind::Command,
    ensures
        kind == ServiceKind::Jar ==> (r matches ProcessError::Other(m) && m@ == "jar not found: "@
            + target@),
        kind == ServiceKind::Script ==> (r matches ProcessError::Other(m) && m@
            == "script not found: "@ + target@),
{
    if kind == ServiceKind::Jar {
        ProcessError::Other(cat("jar not found: ", target))
    } else {
        ProcessError::Other(cat("script not found: ", target))
    }
}

pub open spec fn work_dir_of(explicit: Option<Seq<char>>, parent: Option<Seq<char>>) -> Seq<char> {
    match explicit {
        Some(d) if trim(d).len() > 0 => trim(d),
        _ => match parent {
            Some(p) if p.len() > 0 => p,
            _ => "."@,
        },
    }
}

/// The working directory chosen: the explicit one (trimmed) when it is not
/// blank, else the launch target's parent when that is not empty, else `.`.
pub fn work_dir_choice(explicit: Option<&str>, parent: Option<&str>) -> (r: String)
    ensures
        r@ == work_dir_of(
            match explicit {
                Some(s) => Some(s@),
                None => None,
            },
            match parent {
                Some(s) => Some(s@),
                None => None,
            },
        ),
{
    if let Some(d) = explicit {
        let t = trimmed(d);
        if !t.as_str().is_empty() {
            return t;
        }
    }
    match parent {
        Some(p) => if p.is_empty() {
            owned(".")
        } else {
            owned(p)
        },
        None => owned("."),
    }
}

/// A working directory must exist and be a directory.
pub fn check_work_dir(dir: String, exists: bool, is_dir: bool) -> (r: Result<String, ProcessError>)
    ensures
        !exists ==> is_other(r, "work_dir not found: "@ + dir@),
        exists && !is_dir ==> is_other(r, "work_dir is not a directory: "@ + dir@),
        exists && is_dir ==> (r matches Ok(d) && d@ == dir@),
{
    if !exists {
        return Err(ProcessError::Other(cat("work_dir not found: ", dir.as_str())));
    }
    if !is_dir {
        return Err(ProcessError::Other(cat("work_dir is not a directory: ", dir.as_str())));
    }
    Ok(dir)
}

/// The working directory for a launch, given whether the chosen directory
/// exists and is a directory.
pub fn resolve_work_dir(
    explicit: Option<&str>,
    fallback_parent: Option<&str>,
    exists: bool,
    is_dir: bool,
) -> (r: Result<String, ProcessError>)
    ensures
        ({
            let d = work_dir_of(
                match explicit {
                    Some(s) => Some(s@),
                    None => None,
                },
                match fallback_parent {
                    Some(s) => Some(s@),
                    None => None,
                },
            );
            &&& !exists ==> is_other(r, "work_dir not found: "@ + d)
            &&& exists && !is_dir ==> is_other(r, "work_dir is not a directory: "@ + d)
            &&& exists && is_dir ==> (r matches Ok(x) && x@ == d)
        }),
{
    let d = work_dir_choice(explicit, fallback_parent);
    check_work_dir(d, exists, is_dir)
}

/// The directory a launch target would run in, before it is checked: the
/// explicit one, else the target's parent (a prefix of the target), else `.`;
/// a target of one plain component has no parent to run in, so `.`.
pub fn work_dir_candidate(spec: &ServiceSpec, target: &str) -> (r: String)
    ensures
        match ostr(spec.work_dir) {
            Some(d) if trim(d).len() > 0 => r@ == trim(d),
            _ => r@ == "."@ || (r@.len() > 0 && starts_with(target@, r@)),
        },
        single_component(target@) ==> r@ == work_dir_of(ostr(spec.work_dir), None),
        dir_and_name(target@) is Some ==> r@ == work_dir_of(
            ostr(spec.work_dir),
            Some(dir_part(target@)),
        ),
{
    let parent = path_parent(target);
    let explicit: Option<&str> = match &spec.work_dir {
        Some(d) => Some(d.as_str()),
        None => None,
    };
    match parent {
        Some(p) => work_dir_choice(explicit, Some(p.as_str())),
        None => work_dir_choice(explicit, None),
    }
}

/// How a script is run.
pub enum ScriptLaunch {
    /// Run the script path itself (Unix +x / Windows .exe).
    Direct,
    /// `program [prefix_args...] <script> [args...]`
    Via { program: String, prefix_args: Vec<String> },
}

pub enum LaunchView {
    Direct,
    Via { program: Seq<char>, prefix_args: Seq<Seq<char>> },
}

impl View for ScriptLaunch {
    type V = LaunchView;

    open spec fn view(&self) -> LaunchView {
        match self {
            ScriptLaunch::Direct => LaunchView::Direct,
            ScriptLaunch::Via { program, prefix_args } => LaunchView::Via {
                program: program@,
                prefix_args: strs(prefix_args@),
            },
        }
    }
}

pub open spec fn powershell_args() -> Seq<Seq<char>> {
    seq!["-NoProfile"@, "-ExecutionPolicy"@, "Bypass"@, "-File"@]
}

pub open spec fn launcher_of(interp: Seq<char>) -> LaunchView {
    let lower = ascii_lower(interp);
    if lower == "powershell"@ || lower == "pwsh"@ {
        LaunchView::Via {
            program: if lower == "pwsh"@ {
                "pwsh"@
            } else {
                "powershell"@
            },
            prefix_args: powershell_args(),
        }
    } else if lower == "cmd"@ || lower == "cmd.exe"@ {
        LaunchView::Via { program: "cmd"@, prefix_args: seq!["/C"@] }
    } else {
        LaunchView::Via { program: interp, prefix_args: Seq::empty() }
    }
}

/// The launcher for an interpreter name (ASCII case ignored): PowerShell
/// runs with `-NoProfile -ExecutionPolicy Bypass -File`, cmd with `/C`,
/// anything else is run as given.
pub fn launcher_for_interpreter(interp: &str) -> (r: ScriptLaunch)
    ensures
        r@ == launcher_of(interp@),
{
    let lower = ascii_lowercase(interp);
    if str_eq(lower.as_str(), "powershell") || str_eq(lower.as_str(), "pwsh") {
        let program = if str_eq(lower.as_str(), "pwsh") {
            owned("pwsh")
        } else {
            owned("powershell")
        };
        let mut prefix_args: Vec<String> = Vec::new();
        prefix_args.push(owned("-NoProfile"));
        prefix_args.push(owned("-ExecutionPolicy"));
        prefix_args.push(owned("Bypass"));
        prefix_args.push(owned("-File"));
        assert(strs(prefix_args@) =~= powershell_args());
        ScriptLaunch::Via { program, prefix_args }
    } else if str_eq(lower.as_str(), "cmd") || str_eq(lower.as_str(), "cmd.exe") {
        let mut prefix_args: Vec<String> = Vec::new();
        prefix_args.push(owned("/C"));
        assert(strs(prefix_args@) =~= seq!["/C"@]);
        ScriptLaunch::Via { program: owned("cmd"), prefix_args }
    } else {
        let prefix_args: Vec<String> = Vec::new();
        assert(strs(prefix_args@) =~= Seq::<Seq<char>>::empty());
        ScriptLaunch::Via { program: owned(interp), prefix_args }
    }
}

/// The interpreter implied by a lowercase extension, if the extension is known.
pub open spec fn interpreter_for_ext(e: Seq<char>) -> Option<Seq<char>> {
    if e == "sh"@ || e == "bash"@ {
        Some("bash"@)
    } else if e == "zsh"@ {
        Some("zsh"@)
    } else if e == "ps1"@ {
        Some("powershell"@)
    } else if e == "bat"@ || e == "cmd"@ {
        Some("cmd"@)
    } else if e == "py"@ || e == "pyw"@ {
        Some("python"@)
    } else if e == "js"@ || e == "mjs"@ || e == "cjs"@ {
        Some("node"@)
    } else if e == "rb"@ {
        Some("ruby"@)
    } else if e == "pl"@ {
        Some("perl"@)
    } else {
        None
    }
}

pub open spec fn runs_directly(e: Seq<char>) -> bool {
    e.len() == 0 || e == "exe"@ || e == "com"@
}

fn ext_interpreter(e: &str) -> (r: Option<&'static str>)
    ensures
        match interpreter_for_ext(e@) {
            Some(i) => r matches Some(x) && x@ == i,
            None => r is None,
        },
{
    if str_eq(e, "sh") || str_eq(e, "bash") {
        Some("bash")
    } else if str_eq(e, "zsh") {
        Some("zsh")
    } else if str_eq(e, "ps1") {
        Some("powershell")
    } else if str_eq(e, "bat") || str_eq(e, "cmd") {
        Some("cmd")
    } else if str_eq(e, "py") || str_eq(e, "pyw") {
        Some("python")
    } else if str_eq(e, "js") || str_eq(e, "mjs") || str_eq(e, "cjs") {
        Some("node")
    } else if str_eq(e, "rb") {
        Some("ruby")
    } else if str_eq(e, "pl") {
        Some("perl")
    } else {
        None
    }
}

/// What choosing a launcher gives for an extension and an interpreter.
pub open spec fn launcher_outcome(
    ext: Option<Seq<char>>,
    interpreter: Option<Seq<char>>,
    r: Result<ScriptLaunch, ProcessError>,
) -> bool {
    let e = ascii_lower(
        match ext {
            Some(x) => x,
            None => Seq::empty(),
        },
    );
    match interpreter {
        Some(i) if trim(i).len() > 0 => r matches Ok(l) && l@ == launcher_of(trim(i)),
        _ => match interpreter_for_ext(e) {
            Some(name) => r matches Ok(l) && l@ == launcher_of(name),
            None => if runs_directly(e) {
                r matches Ok(l) && l@ == LaunchView::Direct
            } else {
                is_other(r, "unsupported script extension '."@ + e + "'; set interpreter explicitly"@)
            },
        },
    }
}

/// The launcher for a script: the interpreter given (trimmed) when it is not
/// blank; else by the script's extension (lowercased): known extensions map
/// to their interpreter, none / `exe` / `com` run directly, others are refused.
pub fn resolve_script_launcher(ext: Option<&str>, interpreter: Option<&str>) -> (r: Result<
    ScriptLaunch,
    ProcessError,
>)
    ensures
        launcher_outcome(
            match ext {
                Some(x) => Some(x@),
                None => None,
            },
            match interpreter {
                Some(i) => Some(i@),
                None => None,
            },
            r,
        ),
{
    if let Some(i) = interpreter {
        let t = trimmed(i);
        if !t.as_str().is_empty() {
            return Ok(launcher_for_interpreter(t.as_str()));
        }
    }
    let raw = match ext {
        Some(x) => owned(x),
        None => String::new(),
    };
    let e = ascii_lowercase(raw.as_str());
    match ext_interpreter(e.as_str()) {
        Some(name) => Ok(launcher_for_interpreter(name)),
        None => {
            if e.as_str().is_empty() || str_eq(e.as_str(), "exe") || str_eq(e.as_str(), "com") {
                Ok(ScriptLaunch::Direct)
            } else {
                Err(ProcessError::Other(cat3(
                    "unsupported script extension '.",
                    e.as_str(),
                    "'; set interpreter explicitly",
                )))
            }
        },
    }
}

/// The launcher for a script path, from the interpreter or the path's
/// extension (read with `Path::extension`): the outcome is that of
/// `resolve_script_launcher` on some extension without a dot, and on the
/// name's own extension for a path of one plain component.
pub fn script_launch(script_path: &str, interpreter: &Option<String>) -> (r: Result<
    ScriptLaunch,
    ProcessError,
>)
    ensures
        match ostr(*interpreter) {
            Some(i) if trim(i).len() > 0 => r matches Ok(l) && l@ == launcher_of(trim(i)),
            _ => true,
        },
        exists|e: Option<Seq<char>>|
            (e matches Some(x) ==> !x.contains('.')) && #[trigger] launcher_outcome(
                e,
                ostr(*interpreter),
                r,
            ),
        single_component(script_path@) ==> launcher_outcome(
            name_extension(script_path@),
            ostr(*interpreter),
            r,
        ),
        dir_and_name(script_path@) is Some ==> launcher_outcome(
            name_extension(name_part(script_path@)),
            ostr(*interpreter),
            r,
        ),
{
    let ext = path_extension(script_path);
    let interp: Option<&str> = match interpreter {
        Some(i) => Some(i.as_str()),
        None => None,
    };
    match ext {
        Some(e) => resolve_script_launcher(Some(e.as_str()), interp),
        None => resolve_script_launcher(None, interp),
    }
}

fn append_strs(out: &mut Vec<String>, v: &Vec<String>)
    ensures
        strs(final(out)@) == strs(old(out)@) + strs(v@),
{
    let mut i: usize = 0;
    let ghost start = strs(out@);
    while i < v.len()
        invariant
            i <= v.len(),
            strs(out@) == start + strs(v@).take(i as int),
        decreases v.len() - i,
    {
        let ghost prev = out@;
        out.push(v[i].clone());
        assert(strs(out@) =~= strs(prev).push(v@[i as int]@));
        assert(strs(out@) =~= start + strs(v@).take(i + 1));
        i = i + 1;
    }
    assert(strs(v@).take(v.len() as int) =~= strs(v@));
}

/// `java [jvm_args] -jar <jar> [app_args]`; `args` belong to script and
/// command kinds and are not passed to a jar.
pub fn jar_command(spec: &ServiceSpec, jar: &str) -> (r: (String, Vec<String>))
    ensures
        r.0@ == "java"@,
        strs(r.1@) == spec@.jvm_args + seq!["-jar"@, jar@] + spec@.app_args,
{
    let mut args: Vec<String> = Vec::new();
    assert(strs(args@) =~= Seq::<Seq<char>>::empty());
    append_strs(&mut args, &spec.jvm_args);
    let ghost a = strs(args@);
    args.push(owned("-jar"));
    args.push(owned(jar));
    assert(strs(args@) =~= a + seq!["-jar"@, jar@]);
    append_strs(&mut args, &spec.app_args);
    (owned("java"), args)
}

/// A script run directly, or through its launcher with the script path
/// after the launcher's own arguments.
pub fn script_command(spec: &ServiceSpec, script: &str, launch: &ScriptLaunch) -> (r: (
    String,
    Vec<String>,
))
    ensures
        match launch@ {
            LaunchView::Direct => r.0@ == script@ && strs(r.1@) == spec@.args,
            LaunchView::Via { program, prefix_args } => r.0@ == program && strs(r.1@)
                == prefix_args + seq![script@] + spec@.args,
        },
{
    let mut args: Vec<String> = Vec::new();
    assert(strs(args@) =~= Seq::<Seq<char>>::empty());
    match launch {
        ScriptLaunch::Direct => {
            append_strs(&mut args, &spec.args);
            assert(strs(args@) =~= spec@.args);
            (owned(script), args)
        },
        ScriptLaunch::Via { program, prefix_args } => {
            append_strs(&mut args, prefix_args);
            let ghost a = strs(args@);
            args.push(owned(script));
            assert(strs(args@) =~= a + seq![script@]);
            append_strs(&mut args, &spec.args);
            assert(strs(args@) =~= strs(prefix_args@) + seq![script@] + spec@.args);
            (owned(program.as_str()), args)
        },
    }
}

/// A command run as given, with the spec's args.
pub fn exec_command(spec: &ServiceSpec, command: &str) -> (r: (String, Vec<String>))
    ensures
        r.0@ == command@,
        strs(r.1@) == spec@.args,
{
    (owned(command), copy_strs(&spec.args))
}

pub open spec fn started_view(
    name: Seq<char>,
    kind: ServiceKind,
    pid: u32,
    target: Seq<char>,
    started_at: Seq<char>,
) -> ServiceStatusView {
    ServiceStatusView {
        name,
        state: ServiceState::Running,
        kind: Some(kind),
        pid: Some(pid),
        target: Some(target),
        jar_path: jar_alias(Some(kind), Some(target)),
        started_at: Some(started_at),
        message: Some("started"@),
        healthy: None,
    }
}

/// The status reported once the process survived its first moments.
pub fn started_status(
    name: &str,
    kind: ServiceKind,
    pid: u32,
    target: &str,
    started_at: &str,
) -> (s: ServiceStatus)
    ensures
        s@ == started_view(name@, kind, pid, target@, started_at@),
{
    ServiceStatus {
        name: owned(name),
        state: ServiceState::Running,
        kind: Some(kind),
        pid: Some(pid),
        target: Some(owned(target)),
        jar_path: if kind == ServiceKind::Jar {
            Some(owned(target))
        } else {
            None
        },
        started_at: Some(owned(started_at)),
        message: Some(owned("started")),
        healthy: None,
    }
}

/// Where a start is once its command is built: spawning, recording the
/// definition (meant to run), recording the pid, checking that the process
/// survived its first moments, waiting for health, or finished.
#[derive(PartialEq, Eq, Structural, Clone, Copy)]
pub enum StartStage {
    Spawn,
    WriteMeta(u32),
    WriteRecord(u32),
    Settle(u32),
    HealthWait(u32),
    Finished,
}

/// What the caller learned from the step it performed.
pub enum StartEvent {
    /// The child was spawned with this pid.
    Spawned(u32),
    /// The file was written.
    Written,
    /// The step failed with this error.
    Failed(ProcessError),
    /// Whether the process is still alive.
    Alive(bool),
}

/// How to clean up after a failed start.
#[derive(PartialEq, Eq, Structural, Clone, Copy)]
pub enum StartCleanup {
    /// Nothing was started.
    Nothing,
    /// Kill and reap the child.
    KillChild,
    /// Kill and reap the child, and mark the definition as not meant to run.
    KillChildClearIntent,
    /// Forget the child, remove the pid record, and mark the definition as
    /// not meant to run.
    Abandon,
}

/// What the caller does next.
pub enum StartAction {
    /// Write the definition with `desired_running` set.
    WriteMeta,
    /// Write the pid record.
    WriteRecord,
    /// Keep the child handle, wait a moment, then check that it is alive.
    SettleThenCheck,
    /// Check that it is alive, then probe health (see `health_wait_step`).
    CheckThenProbe,
    /// The start succeeded.
    Succeed,
    /// The start failed with this error, after this cleanup.
    Fail { error: ProcessError, cleanup: StartCleanup },
}

/// The event that can follow each stage.
pub open spec fn start_event_fits(stage: StartStage, event: StartEvent) -> bool {
    match stage {
        StartStage::Spawn => event is Spawned || event is Failed,
        StartStage::WriteMeta(_) | StartStage::WriteRecord(_) => event is Written || event is Failed,
        StartStage::Settle(_) | StartStage::HealthWait(_) => event is Alive,
        StartStage::Finished => false,
    }
}

/// The stage a start moves to.  Spawning comes first, then the definition
/// is recorded as meant to run, then the pid, then the process is judged.
pub open spec fn next_start_stage(stage: StartStage, has_health_url: bool, event: StartEvent) -> StartStage {
    match (stage, event) {
        (StartStage::Spawn, StartEvent::Spawned(pid)) => StartStage::WriteMeta(pid),
        (StartStage::WriteMeta(pid), StartEvent::Written) => StartStage::WriteRecord(pid),
        (StartStage::WriteRecord(pid), StartEvent::Written) => StartStage::Settle(pid),
        (StartStage::Settle(pid), StartEvent::Alive(true)) => if has_health_url {
            StartStage::HealthWait(pid)
        } else {
            StartStage::Finished
        },
        (StartStage::HealthWait(pid), StartEvent::Alive(true)) => StartStage::HealthWait(pid),
        _ => StartStage::Finished,
    }
}

/// What a start does after a step: the next write or look, success once
/// the process was found alive (with no health URL to wait for), or failure
/// with its cleanup; a failure after the spawn never leaves the child.
pub open spec fn start_action_ok(
    stage: StartStage,
    has_health_url: bool,
    event: StartEvent,
    a: StartAction,
) -> bool {
    match (stage, event) {
        (StartStage::Spawn, StartEvent::Spawned(_)) => a is WriteMeta,
        (StartStage::WriteMeta(_), StartEvent::Written) => a is WriteRecord,
        (StartStage::WriteRecord(_), StartEvent::Written) => a is SettleThenCheck,
        (StartStage::Spawn, StartEvent::Failed(e)) => a == StartAction::Fail {
            error: e,
            cleanup: StartCleanup::Nothing,
        },
        (StartStage::WriteMeta(_), StartEvent::Failed(e)) => a == StartAction::Fail {
            error: e,
            cleanup: StartCleanup::KillChild,
        },
        (StartStage::WriteRecord(_), StartEvent::Failed(e)) => a == StartAction::Fail {
            error: e,
            cleanup: StartCleanup::KillChildClearIntent,
        },
        (StartStage::Settle(pid), StartEvent::Alive(alive)) => if !alive {
            a matches StartAction::Fail { error: ProcessError::Other(m), cleanup } && cleanup
                == StartCleanup::Abandon && m@ == "process exited immediately after start (pid="@
                + decimal(pid as nat) + "); check service logs"@
        } else if has_health_url {
            a is CheckThenProbe
        } else {
            a is Succeed
        },
        (StartStage::HealthWait(pid), StartEvent::Alive(alive)) => if !alive {
            a matches StartAction::Fail { error: ProcessError::Other(m), cleanup } && cleanup
                == StartCleanup::Abandon && m@ == "process exited during health wait (pid="@
                + decimal(pid as nat) + "); check service logs"@
        } else {
            a is CheckThenProbe
        },
        _ => false,
    }
}

/// Takes one step of a start: the next stage and what to do.
pub fn start_step(stage: StartStage, has_health_url: bool, event: StartEvent) -> (r: (
    StartStage,
    StartAction,
))
    requires
        start_event_fits(stage, event),
    ensures
        r.0 == next_start_stage(stage, has_health_url, event),
        start_action_ok(stage, has_health_url, event, r.1),
{
    match (stage, event) {
        (StartStage::Spawn, StartEvent::Spawned(pid)) => (StartStage::WriteMeta(pid), StartAction::WriteMeta),
        (StartStage::WriteMeta(pid), StartEvent::Written) => (
            StartStage::WriteRecord(pid),
            StartAction::WriteRecord,
        ),
        (StartStage::WriteRecord(pid), StartEvent::Written) => (
            StartStage::Settle(pid),
            StartAction::SettleThenCheck,
        ),
        (StartStage::Spawn, StartEvent::Failed(e)) => (
            StartStage::Finished,
            StartAction::Fail { error: e, cleanup: StartCleanup::Nothing },
        ),
        (StartStage::WriteMeta(_), StartEvent::Failed(e)) => (
            StartStage::Finished,
            StartAction::Fail { error: e, cleanup: StartCleanup::KillChild },
        ),
        (StartStage::WriteRecord(_), StartEvent::Failed(e)) => (
            StartStage::Finished,
            StartAction::Fail { error: e, cleanup: StartCleanup::KillChildClearIntent },
        ),
        (StartStage::Settle(pid), StartEvent::Alive(alive)) => if !alive {
            (
                StartStage::Finished,
                StartAction::Fail { error: exited_immediately(pid), cleanup: StartCleanup::Abandon },
            )
        } else if has_health_url {
            (StartStage::HealthWait(pid), StartAction::CheckThenProbe)
        } else {
            (StartStage::Finished, StartAction::Succeed)
        },
        (StartStage::HealthWait(pid), StartEvent::Alive(alive)) => if !alive {
            (
                StartStage::Finished,
                StartAction::Fail {
                    error: exited_during_health_wait(pid),
                    cleanup: StartCleanup::Abandon,
                },
            )
        } else {
            (StartStage::HealthWait(pid), StartAction::CheckThenProbe)
        },
        _ => (StartStage::Finished, StartAction::Succeed),
    }
}

/// A start that fails after the spawn always cleans up the child: it is
/// killed, or forgotten with its pid record removed.
pub proof fn law_start_failure_cleans_up(
    stage: StartStage,
    has_health_url: bool,
    event: StartEvent,
    a: StartAction,
)
    requires
        start_event_fits(stage, event),
        stage != StartStage::Spawn,
        start_action_ok(stage, has_health_url, event, a),
    ensures
        a matches StartAction::Fail { cleanup, .. } ==> cleanup != StartCleanup::Nothing,
{
}

/// The definition is recorded right after the spawn and before the pid;
/// the process is judged only after both writes; success comes only from a
/// look that found it alive.
pub proof fn law_start_order(stage: StartStage, has_health_url: bool, event: StartEvent, a: StartAction)
    requires
        start_event_fits(stage, event),
        start_action_ok(stage, has_health_url, event, a),
    ensures
        a is WriteMeta ==> stage is Spawn,
        a is WriteRecord ==> stage is WriteMeta,
        a is SettleThenCheck ==> stage is WriteRecord,
        a is Succeed ==> stage is Settle && event == StartEvent::Alive(true) && !has_health_url,
{
}

/// The error when the process is gone right after the spawn.
pub fn exited_immediately(pid: u32) -> (r: ProcessError)
    ensures
        r matches ProcessError::Other(m) && m@ == "process exited immediately after start (pid="@
            + decimal(pid as nat) + "); check service logs"@,
{
    let n = decimal_string(pid as u64);
    ProcessError::Other(cat3(
        "process exited immediately after start (pid=",
        n.as_str(),
        "); check service logs",
    ))
}

/// The error when the process is gone while its health is awaited.
pub fn exited_during_health_wait(pid: u32) -> (r: ProcessError)
    ensures
        r matches ProcessError::Other(m) && m@ == "process exited during health wait (pid="@
            + decimal(pid as nat) + "); check service logs"@,
{
    let n = decimal_string(pid as u64);
    ProcessError::Other(cat3(
        "process exited during health wait (pid=",
        n.as_str(),
        "); check service logs",
    ))
}

/// One round of waiting for a fresh service's health URL.
pub enum HealthWait {
    /// The probe passed: report this status.
    Healthy(ServiceStatus),
    /// Not yet: sleep and probe again.
    Retry,
    /// Out of time: report this status, stopping the process first if asked.
    GiveUp { status: ServiceStatus, stop: bool },
}

/// After a probe during the start: a pass makes the service running and
/// healthy; a failure before the deadline retries; after it the service is
/// unhealthy, and is stopped when the agent is set to kill on failure.
pub fn health_wait_step(
    status: &ServiceStatus,
    probe: Result<(), String>,
    past_deadline: bool,
    kill_on_fail: bool,
) -> (r: HealthWait)
    ensures
        match probe {
            Ok(()) => r matches HealthWait::Healthy(s) && s@ == (ServiceStatusView {
                healthy: Some(true),
                state: ServiceState::Running,
                message: Some("healthy"@),
                ..status@
            }),
            Err(e) => if past_deadline {
                r matches HealthWait::GiveUp { status: s, stop } && stop == kill_on_fail && s@
                    == (ServiceStatusView {
                    state: ServiceState::Unhealthy,
                    healthy: Some(false),
                    message: Some("unhealthy: "@ + e@),
                    ..status@
                })
            } else {
                r is Retry
            },
        },
{
    match probe {
        Ok(()) => {
            let mut s = status.duplicate();
            s.healthy = Some(true);
            s.state = ServiceState::Running;
            s.message = Some(owned("healthy"));
            HealthWait::Healthy(s)
        },
        Err(e) => {
            if past_deadline {
                let mut s = status.duplicate();
                s.state = ServiceState::Unhealthy;
                s.healthy = Some(false);
                s.message = Some(cat("unhealthy: ", e.as_str()));
                HealthWait::GiveUp { status: s, stop: kill_on_fail }
            } else {
                HealthWait::Retry
            }
        },
    }
}

/// The error a start reports after it stopped an unhealthy service.
pub fn start_failed(msg: &str, cleanup: &Result<(), ProcessError>) -> (r: ProcessError)
    ensures
        match cleanup {
            Ok(()) => r matches ProcessError::Other(m) && m@ == "start failed ("@ + msg@
                + "); process stopped"@,
            Err(e) => r matches ProcessError::Other(m) && m@ == "start failed ("@ + msg@
                + "); process cleanup failed: "@ + e.text(),
        },
{
    match cleanup {
        Ok(()) => ProcessError::Other(cat3("start failed (", msg, "); process stopped")),
        Err(e) => {
            let m = e.message();
            let a = cat3("start failed (", msg, "); process cleanup failed: ");
            ProcessError::Other(cat(a.as_str(), m.as_str()))
        },
    }
}

/// Checked against a health URL, a status code from 200 up to 399 passes;
/// any other is reported as `HTTP <code>`.  A transport error is reported
/// as it came.
pub fn probe_verdict(reply: Result<u16, String>) -> (r: Result<(), String>)
    ensures
        match reply {
            Ok(code) => if 200 <= code < 400 {
                r is Ok
            } else {
                r matches Err(m) && m@ == "HTTP "@ + decimal(code as nat)
            },
            Err(e) => r matches Err(m) && m@ == e@,
        },
{
    match reply {
        Ok(code) => if 200 <= code && code < 400 {
            Ok(())
        } else {
            let n = decimal_string(code as u64);
            Err(cat("HTTP ", n.as_str()))
        },
        Err(e) => Err(e),
    }
}

/// An interpreter name with no capital letter that is neither PowerShell
/// nor cmd is run as given, with no arguments of its own.
proof fn lemma_plain_launcher(n: Seq<char>)
    requires
        forall|i: int| 0 <= i < n.len() ==> !('A' <= #[trigger] n[i] && n[i] <= 'Z'),
        n != "powershell"@,
        n != "pwsh"@,
        n != "cmd"@,
        n != "cmd.exe"@,
    ensures
        launcher_of(n) == (LaunchView::Via { program: n, prefix_args: Seq::empty() }),
{
    assert(ascii_lower(n) =~= n);
}

/// Without an interpreter, a script runs by its extension, ASCII case
/// ignored: `sh`/`bash` through bash, `zsh` through zsh, `ps1` through
/// PowerShell (`-NoProfile -ExecutionPolicy Bypass -File`), `bat`/`cmd`
/// through `cmd /C`, `py`/`pyw` through python, `js`/`mjs`/`cjs` through
/// node, `rb` through ruby, `pl` through perl; no extension, `exe` and `com`
/// run directly; any other extension is refused.
pub proof fn law_extension_launchers(
    ext: Seq<char>,
    interpreter: Option<Seq<char>>,
    r: Result<ScriptLaunch, ProcessError>,
)
    requires
        launcher_outcome(Some(ext), interpreter, r),
        interpreter is None || trim(interpreter->0).len() == 0,
    ensures
        ({
            let x = ascii_lower(ext);
            &&& (x == "sh"@ || x == "bash"@) ==> (r matches Ok(l) && l@ == LaunchView::Via {
                program: "bash"@,
                prefix_args: Seq::empty(),
            })
            &&& x == "zsh"@ ==> (r matches Ok(l) && l@ == LaunchView::Via {
                program: "zsh"@,
                prefix_args: Seq::empty(),
            })
            &&& x == "ps1"@ ==> (r matches Ok(l) && l@ == LaunchView::Via {
                program: "powershell"@,
                prefix_args: seq!["-NoProfile"@, "-ExecutionPolicy"@, "Bypass"@, "-File"@],
            })
            &&& (x == "bat"@ || x == "cmd"@) ==> (r matches Ok(l) && l@ == LaunchView::Via {
                program: "cmd"@,
                prefix_args: seq!["/C"@],
            })
            &&& (x == "py"@ || x == "pyw"@) ==> (r matches Ok(l) && l@ == LaunchView::Via {
                program: "python"@,
                prefix_args: Seq::empty(),
            })
            &&& (x == "js"@ || x == "mjs"@ || x == "cjs"@) ==> (r matches Ok(l) && l@
                == LaunchView::Via { program: "node"@, prefix_args: Seq::empty() })
            &&& x == "rb"@ ==> (r matches Ok(l) && l@ == LaunchView::Via {
                program: "ruby"@,
                prefix_args: Seq::empty(),
            })
            &&& x == "pl"@ ==> (r matches Ok(l) && l@ == LaunchView::Via {
                program: "perl"@,
                prefix_args: Seq::empty(),
            })
            &&& (x.len() == 0 || x == "exe"@ || x == "com"@) ==> (r matches Ok(l) && l@
                == LaunchView::Direct)
            &&& !(x == "sh"@ || x == "bash"@ || x == "zsh"@ || x == "ps1"@ || x == "bat"@ || x
                == "cmd"@ || x == "py"@ || x == "pyw"@ || x == "js"@ || x == "mjs"@ || x
                == "cjs"@ || x == "rb"@ || x == "pl"@ || x.len() == 0 || x == "exe"@ || x
                == "com"@) ==> is_other(
                r,
                "unsupported script extension '."@ + x + "'; set interpreter explicitly"@,
            )
        }),
{
    reveal_strlit("powershell");
    reveal_strlit("pwsh");
    reveal_strlit("cmd");
    reveal_strlit("cmd.exe");
    reveal_strlit("bash");
    reveal_strlit("zsh");
    reveal_strlit("python");
    reveal_strlit("node");
    reveal_strlit("ruby");
    reveal_strlit("perl");
    lemma_ne_len("bash"@, "powershell"@);
    lemma_ne_at("bash"@, "pwsh"@, 0);
    lemma_ne_len("bash"@, "cmd"@);
    lemma_ne_len("bash"@, "cmd.exe"@);
    lemma_ne_len("zsh"@, "powershell"@);
    lemma_ne_len("zsh"@, "pwsh"@);
    lemma_ne_at("zsh"@, "cmd"@, 0);
    lemma_ne_len("zsh"@, "cmd.exe"@);
    lemma_ne_len("python"@, "powershell"@);
    lemma_ne_len("python"@, "pwsh"@);
    lemma_ne_len("python"@, "cmd"@);
    lemma_ne_len("python"@, "cmd.exe"@);
    lemma_ne_len("node"@, "powershell"@);
    lemma_ne_at("node"@, "pwsh"@, 0);
    lemma_ne_len("node"@, "cmd"@);
    lemma_ne_len("node"@, "cmd.exe"@);
    lemma_ne_len("ruby"@, "powershell"@);
    lemma_ne_at("ruby"@, "pwsh"@, 0);
    lemma_ne_len("ruby"@, "cmd"@);
    lemma_ne_len("ruby"@, "cmd.exe"@);
    lemma_ne_len("perl"@, "powershell"@);
    lemma_ne_at("perl"@, "pwsh"@, 1);
    lemma_ne_len("perl"@, "cmd"@);
    lemma_ne_len("perl"@, "cmd.exe"@);
    lemma_plain_launcher("bash"@);
    lemma_plain_launcher("zsh"@);
    lemma_plain_launcher("python"@);
    lemma_plain_launcher("node"@);
    lemma_plain_launcher("ruby"@);
    lemma_plain_launcher("perl"@);
    reveal_strlit("sh");
    reveal_strlit("bash");
    reveal_strlit("zsh");
    reveal_strlit("ps1");
    reveal_strlit("bat");
    reveal_strlit("py");
    reveal_strlit("pyw");
    reveal_strlit("js");
    reveal_strlit("mjs");
    reveal_strlit("cjs");
    reveal_strlit("rb");
    reveal_strlit("pl");
    reveal_strlit("exe");
    reveal_strlit("com");
    lemma_ne_len("sh"@, "bash"@);
    lemma_ne_len("sh"@, "zsh"@);
    lemma_ne_len("sh"@, "ps1"@);
    lemma_ne_len("sh"@, "bat"@);
    lemma_ne_len("sh"@, "cmd"@);
    lemma_ne_at("sh"@, "py"@, 0);
    lemma_ne_len("sh"@, "pyw"@);
    lemma_ne_at("sh"@, "js"@, 0);
    lemma_ne_len("sh"@, "mjs"@);
    lemma_ne_len("sh"@, "cjs"@);
    lemma_ne_at("sh"@, "rb"@, 0);
    lemma_ne_at("sh"@, "pl"@, 0);
    lemma_ne_len("sh"@, "exe"@);
    lemma_ne_len("sh"@, "com"@);
    lemma_ne_len("sh"@, "powershell"@);
    lemma_ne_len("sh"@, "pwsh"@);
    lemma_ne_len("bash"@, "zsh"@);
    lemma_ne_len("bash"@, "ps1"@);
    lemma_ne_len("bash"@, "bat"@);
    lemma_ne_len("bash"@, "cmd"@);
    lemma_ne_len("bash"@, "py"@);
    lemma_ne_len("bash"@, "pyw"@);
    lemma_ne_len("bash"@, "js"@);
    lemma_ne_len("bash"@, "mjs"@);
    lemma_ne_len("bash"@, "cjs"@);
    lemma_ne_len("bash"@, "rb"@);
    lemma_ne_len("bash"@, "pl"@);
    lemma_ne_len("bash"@, "exe"@);
    lemma_ne_len("bash"@, "com"@);
    lemma_ne_len("bash"@, "powershell"@);
    lemma_ne_at("bash"@, "pwsh"@, 0);
    lemma_ne_at("zsh"@, "ps1"@, 0);
    lemma_ne_at("zsh"@, "bat"@, 0);
    lemma_ne_at("zsh"@, "cmd"@, 0);
    lemma_ne_len("zsh"@, "py"@);
    lemma_ne_at("zsh"@, "pyw"@, 0);
    lemma_ne_len("zsh"@, "js"@);
    lemma_ne_at("zsh"@, "mjs"@, 0);
    lemma_ne_at("zsh"@, "cjs"@, 0);
    lemma_ne_len("zsh"@, "rb"@);
    lemma_ne_len("zsh"@, "pl"@);
    lemma_ne_at("zsh"@, "exe"@, 0);
    lemma_ne_at("zsh"@, "com"@, 0);
    lemma_ne_len("zsh"@, "powershell"@);
    lemma_ne_len("zsh"@, "pwsh"@);
    lemma_ne_at("ps1"@, "bat"@, 0);
    lemma_ne_at("ps1"@, "cmd"@, 0);
    lemma_ne_len("ps1"@, "py"@);
    lemma_ne_at("ps1"@, "pyw"@, 1);
    lemma_ne_len("ps1"@, "js"@);
    lemma_ne_at("ps1"@, "mjs"@, 0);
    lemma_ne_at("ps1"@, "cjs"@, 0);
    lemma_ne_len("ps1"@, "rb"@);
    lemma_ne_len("ps1"@, "pl"@);
    lemma_ne_at("ps1"@, "exe"@, 0);
    lemma_ne_at("ps1"@, "com"@, 0);
    lemma_ne_len("ps1"@, "powershell"@);
    lemma_ne_len("ps1"@, "pwsh"@);
    lemma_ne_at("bat"@, "cmd"@, 0);
    lemma_ne_len("bat"@, "py"@);
    lemma_ne_at("bat"@, "pyw"@, 0);
    lemma_ne_len("bat"@, "js"@);
    lemma_ne_at("bat"@, "mjs"@, 0);
    lemma_ne_at("bat"@, "cjs"@, 0);
    lemma_ne_len("bat"@, "rb"@);
    lemma_ne_len("bat"@, "pl"@);
    lemma_ne_at("bat"@, "exe"@, 0);
    lemma_ne_at("bat"@, "com"@, 0);
    lemma_ne_len("bat"@, "powershell"@);
    lemma_ne_len("bat"@, "pwsh"@);
    lemma_ne_len("cmd"@, "py"@);
    lemma_ne_at("cmd"@, "pyw"@, 0);
    lemma_ne_len("cmd"@, "js"@);
    lemma_ne_at("cmd"@, "mjs"@, 0);
    lemma_ne_at("cmd"@, "cjs"@, 1);
    lemma_ne_len("cmd"@, "rb"@);
    lemma_ne_len("cmd"@, "pl"@);
    lemma_ne_at("cmd"@, "exe"@, 0);
    lemma_ne_at("cmd"@, "com"@, 1);
    lemma_ne_len("cmd"@, "powershell"@);
    lemma_ne_len("cmd"@, "pwsh"@);
    lemma_ne_len("py"@, "pyw"@);
    lemma_ne_at("py"@, "js"@, 0);
    lemma_ne_len("py"@, "mjs"@);
    lemma_ne_len("py"@, "cjs"@);
    lemma_ne_at("py"@, "rb"@, 0);
    lemma_ne_at("py"@, "pl"@, 1);
    lemma_ne_len("py"@, "exe"@);
    lemma_ne_len("py"@, "com"@);
    lemma_ne_len("py"@, "powershell"@);
    lemma_ne_len("py"@, "pwsh"@);
    lemma_ne_len("pyw"@, "js"@);
    lemma_ne_at("pyw"@, "mjs"@, 0);
    lemma_ne_at("pyw"@, "cjs"@, 0);
    lemma_ne_len("pyw"@, "rb"@);
    lemma_ne_len("pyw"@, "pl"@);
    lemma_ne_at("pyw"@, "exe"@, 0);
    lemma_ne_at("pyw"@, "com"@, 0);
    lemma_ne_len("pyw"@, "powershell"@);
    lemma_ne_len("pyw"@, "pwsh"@);
    lemma_ne_len("js"@, "mjs"@);
    lemma_ne_len("js"@, "cjs"@);
    lemma_ne_at("js"@, "rb"@, 0);
    lemma_ne_at("js"@, "pl"@, 0);
    lemma_ne_len("js"@, "exe"@);
    lemma_ne_len("js"@, "com"@);
    lemma_ne_len("js"@, "powershell"@);
    lemma_ne_len("js"@, "pwsh"@);
    lemma_ne_at("mjs"@, "cjs"@, 0);
    lemma_ne_len("mjs"@, "rb"@);
    lemma_ne_len("mjs"@, "pl"@);
    lemma_ne_at("mjs"@, "exe"@, 0);
    lemma_ne_at("mjs"@, "com"@, 0);
    lemma_ne_len("mjs"@, "powershell"@);
    lemma_ne_len("mjs"@, "pwsh"@);
    lemma_ne_len("cjs"@, "rb"@);
    lemma_ne_len("cjs"@, "pl"@);
    lemma_ne_at("cjs"@, "exe"@, 0);
    lemma_ne_at("cjs"@, "com"@, 1);
    lemma_ne_len("cjs"@, "powershell"@);
    lemma_ne_len("cjs"@, "pwsh"@);
    lemma_ne_at("rb"@, "pl"@, 0);
    lemma_ne_len("rb"@, "exe"@);
    lemma_ne_len("rb"@, "com"@);
    lemma_ne_len("rb"@, "powershell"@);
    lemma_ne_len("rb"@, "pwsh"@);
    lemma_ne_len("pl"@, "exe"@);
    lemma_ne_len("pl"@, "com"@);
    lemma_ne_len("pl"@, "powershell"@);
    lemma_ne_len("pl"@, "pwsh"@);
    lemma_ne_at("exe"@, "com"@, 0);
    lemma_ne_len("exe"@, "powershell"@);
    lemma_ne_len("exe"@, "pwsh"@);
    lemma_ne_len("com"@, "powershell"@);
    lemma_ne_len("com"@, "pwsh"@);
    lemma_ne_len("powershell"@, "pwsh"@);
    let p = "powershell"@;
    assert(ascii_lower(p) =~= p);
    let c = "cmd"@;
    assert(ascii_lower(c) =~= c);
}

/// An interpreter that is given (not blank) decides, whatever the
/// extension: PowerShell (`powershell` or `pwsh`, any case) runs with
/// `-NoProfile -ExecutionPolicy Bypass -File`, cmd (`cmd` or `cmd.exe`) with
/// `/C`, and any other interpreter runs as given (trimmed), with no
/// arguments of its own.
pub proof fn law_interpreter_launchers(
    ext: Option<Seq<char>>,
    interpreter: Seq<char>,
    r: Result<ScriptLaunch, ProcessError>,
)
    requires
        launcher_outcome(ext, Some(interpreter), r),
        trim(interpreter).len() > 0,
    ensures
        ({
            let t = trim(interpreter);
            let x = ascii_lower(t);
            &&& x == "powershell"@ ==> (r matches Ok(l) && l@ == LaunchView::Via {
                program: "powershell"@,
                prefix_args: seq!["-NoProfile"@, "-ExecutionPolicy"@, "Bypass"@, "-File"@],
            })
            &&& x == "pwsh"@ ==> (r matches Ok(l) && l@ == LaunchView::Via {
                program: "pwsh"@,
                prefix_args: seq!["-NoProfile"@, "-ExecutionPolicy"@, "Bypass"@, "-File"@],
            })
            &&& (x == "cmd"@ || x == "cmd.exe"@) ==> (r matches Ok(l) && l@ == LaunchView::Via {
                program: "cmd"@,
                prefix_args: seq!["/C"@],
            })
            &&& !(x == "powershell"@ || x == "pwsh"@ || x == "cmd"@ || x == "cmd.exe"@) ==> (r matches Ok(
                l,
            ) && l@ == LaunchView::Via { program: t, prefix_args: Seq::empty() })
        }),
{
    reveal_strlit("powershell");
    reveal_strlit("pwsh");
    reveal_strlit("cmd");
    reveal_strlit("cmd.exe");
    lemma_ne_len("powershell"@, "pwsh"@);
    lemma_ne_len("powershell"@, "cmd"@);
    lemma_ne_len("pwsh"@, "cmd"@);
    lemma_ne_len("cmd.exe"@, "powershell"@);
    lemma_ne_len("cmd.exe"@, "pwsh"@);
}

} // verus!
