//! How a service is stopped: a soft signal, then up to two rounds of forced
//! kills, each followed by polling, written as a machine that the caller
//! drives with what it observes of the process tree.  Also the watchdog's
//! choice and the verdict on a `taskkill` run.
use vstd::prelude::*;
use crate::text::{
    ascii_lower, ascii_lowercase, blank, cat, cat3, contains, contains_str, decimal,
    decimal_string, owned, trim, trimmed,
};
use crate::agent::models::{ServiceKind, ServiceState, ServiceStatus, ServiceStatusView, strs};
use crate::agent::process::{PidRecord, ProcessError, jar_alias, kind_of_name, parse_kind, up};
use crate::agent::procs::{
    is_pid_alive, lemma_select_len, lemma_select_step, lemma_select_within, select,
};

verus! {

/// What `try_wait` said of the child handle this agent holds, if any.
#[derive(PartialEq, Eq, Structural, Clone, Copy)]
pub enum ChildState {
    /// No handle (or its state could not be read).
    Untracked,
    Running,
    Exited,
}

/// One look at the service: its child handle and whether any pid of its
/// process tree is still alive.
#[derive(Clone, Copy)]
pub struct Observation {
    pub child: ChildState,
    pub any_alive: bool,
}

/// Nothing of the service is left.
pub open spec fn settled(o: Observation) -> bool {
    o.child != ChildState::Running && !o.any_alive
}

/// Whether there is anything to stop at all: an exited child is not; a
/// running one is; without a handle, the recorded pid or any descendant.
pub fn initially_alive(child: ChildState, root_alive: bool, has_descendants: bool) -> (r: bool)
    ensures
        r == match child {
            ChildState::Exited => false,
            ChildState::Running => true,
            ChildState::Untracked => root_alive || has_descendants,
        },
{
    match child {
        ChildState::Exited => false,
        ChildState::Running => true,
        ChildState::Untracked => root_alive || has_descendants,
    }
}

pub const SOFT_POLLS: u32 = 40;

pub const FORCE_POLLS: u32 = 30;

pub const SECOND_POLLS: u32 = 20;

/// Where the stop is: polling after the soft signal, after the first and
/// after the second forced kill, or judging the last look.
#[derive(PartialEq, Eq, Structural, Clone, Copy)]
pub enum StopPhase {
    Soft(u32),
    AfterSoft,
    Force(u32),
    AfterForce,
    SecondForce(u32),
    Final,
    Finished,
}

/// What the caller does next; every look is preceded by a refresh of the
/// process tree.
#[derive(PartialEq, Eq, Structural, Clone, Copy)]
pub enum StopAction {
    /// Look again at once.
    Observe,
    /// Wait 100 ms, then look.
    SleepThenObserve,
    /// Kill the child and force-kill the tree, then look.
    KillThenObserve,
    /// The service is stopped.
    Succeed,
    /// The tree is still alive after the forced kills.
    Fail,
}

pub open spec fn valid_phase(p: StopPhase) -> bool {
    match p {
        StopPhase::Soft(n) => n < SOFT_POLLS,
        StopPhase::Force(n) => n < FORCE_POLLS,
        StopPhase::SecondForce(n) => n < SECOND_POLLS,
        _ => true,
    }
}

/// How many steps at most remain.
pub open spec fn measure(p: StopPhase) -> int {
    match p {
        StopPhase::Soft(n) => 300 - n,
        StopPhase::AfterSoft => 200,
        StopPhase::Force(n) => 199 - n,
        StopPhase::AfterForce => 150,
        StopPhase::SecondForce(n) => 149 - n,
        StopPhase::Final => 100,
        StopPhase::Finished => 0,
    }
}

pub open spec fn stop_step_spec(p: StopPhase, o: Observation) -> (StopPhase, StopAction) {
    match p {
        StopPhase::Soft(n) => if settled(o) {
            (StopPhase::AfterSoft, StopAction::Observe)
        } else if n + 1 >= SOFT_POLLS {
            (StopPhase::AfterSoft, StopAction::SleepThenObserve)
        } else {
            (StopPhase::Soft((n + 1) as u32), StopAction::SleepThenObserve)
        },
        StopPhase::AfterSoft => if settled(o) {
            (StopPhase::Finished, StopAction::Succeed)
        } else {
            (StopPhase::Force(0), StopAction::KillThenObserve)
        },
        StopPhase::Force(n) => if settled(o) {
            (StopPhase::AfterForce, StopAction::Observe)
        } else if n + 1 >= FORCE_POLLS {
            (StopPhase::AfterForce, StopAction::SleepThenObserve)
        } else {
            (StopPhase::Force((n + 1) as u32), StopAction::SleepThenObserve)
        },
        StopPhase::AfterForce => if settled(o) {
            (StopPhase::Final, StopAction::Observe)
        } else {
            (StopPhase::SecondForce(0), StopAction::KillThenObserve)
        },
        StopPhase::SecondForce(n) => if settled(o) {
            (StopPhase::Final, StopAction::Observe)
        } else if n + 1 >= SECOND_POLLS {
            (StopPhase::Final, StopAction::SleepThenObserve)
        } else {
            (StopPhase::SecondForce((n + 1) as u32), StopAction::SleepThenObserve)
        },
        StopPhase::Final => if settled(o) {
            (StopPhase::Finished, StopAction::Succeed)
        } else {
            (StopPhase::Finished, StopAction::Fail)
        },
        StopPhase::Finished => (StopPhase::Finished, StopAction::Fail),
    }
}

/// The stop machine's first phase, entered right after the soft signal.
pub fn stop_start() -> (p: StopPhase)
    ensures
        p == StopPhase::Soft(0),
        valid_phase(p),
{
    StopPhase::Soft(0)
}

pub fn is_settled(o: Observation) -> (r: bool)
    ensures
        r == settled(o),
{
    o.child != ChildState::Running && !o.any_alive
}

/// One step of the stop: up to 40 looks after the soft signal; if anything
/// lingers, a forced kill and up to 30 looks; if anything still lingers, a
/// second forced kill and up to 20 looks; then the verdict.
pub fn stop_step(p: StopPhase, o: Observation) -> (r: (StopPhase, StopAction))
    requires
        valid_phase(p),
    ensures
        r == stop_step_spec(p, o),
{
    let done = is_settled(o);
    match p {
        StopPhase::Soft(n) => if done {
            (StopPhase::AfterSoft, StopAction::Observe)
        } else if n + 1 >= SOFT_POLLS {
            (StopPhase::AfterSoft, StopAction::SleepThenObserve)
        } else {
            (StopPhase::Soft(n + 1), StopAction::SleepThenObserve)
        },
        StopPhase::AfterSoft => if done {
            (StopPhase::Finished, StopAction::Succeed)
        } else {
            (StopPhase::Force(0), StopAction::KillThenObserve)
        },
        StopPhase::Force(n) => if done {
            (StopPhase::AfterForce, StopAction::Observe)
        } else if n + 1 >= FORCE_POLLS {
            (StopPhase::AfterForce, StopAction::SleepThenObserve)
        } else {
            (StopPhase::Force(n + 1), StopAction::SleepThenObserve)
        },
        StopPhase::AfterForce => if done {
            (StopPhase::Final, StopAction::Observe)
        } else {
            (StopPhase::SecondForce(0), StopAction::KillThenObserve)
        },
        StopPhase::SecondForce(n) => if done {
            (StopPhase::Final, StopAction::Observe)
        } else if n + 1 >= SECOND_POLLS {
            (StopPhase::Final, StopAction::SleepThenObserve)
        } else {
            (StopPhase::SecondForce(n + 1), StopAction::SleepThenObserve)
        },
        StopPhase::Final => if done {
            (StopPhase::Finished, StopAction::Succeed)
        } else {
            (StopPhase::Finished, StopAction::Fail)
        },
        StopPhase::Finished => (StopPhase::Finished, StopAction::Fail),
    }
}

/// The stop always ends: each step from an unfinished phase moves to a
/// phase of smaller measure, so at most 300 looks are taken.
pub proof fn law_stop_terminates(p: StopPhase, o: Observation)
    requires
        valid_phase(p),
        p != StopPhase::Finished,
    ensures
        valid_phase(stop_step_spec(p, o).0),
        measure(stop_step_spec(p, o).0) < measure(p),
        0 <= measure(stop_step_spec(p, o).0),
{
}

/// The stop reports success only when the last look found the child gone
/// and no pid of the tree alive, and failure only when something lingered.
pub proof fn law_stop_verdict_truthful(p: StopPhase, o: Observation)
    requires
        p != StopPhase::Finished,
    ensures
        stop_step_spec(p, o).1 == StopAction::Succeed ==> settled(o),
        stop_step_spec(p, o).1 == StopAction::Fail ==> !settled(o),
{
}

/// A forced kill is only ever ordered after a look that found something
/// still alive, and only the stop's end leaves the machine.
pub proof fn law_kill_only_when_lingering(p: StopPhase, o: Observation)
    ensures
        stop_step_spec(p, o).1 == StopAction::KillThenObserve ==> !settled(o),
        (stop_step_spec(p, o).1 == StopAction::Succeed || stop_step_spec(p, o).1
            == StopAction::Fail) <==> stop_step_spec(p, o).0 == StopPhase::Finished,
{
}

pub open spec fn stopped_after(name: Seq<char>, r: PidRecord) -> ServiceStatusView {
    let kind = kind_of_name(r.kind@);
    ServiceStatusView {
        name,
        state: ServiceState::Stopped,
        kind,
        pid: None,
        target: Some(r.target@),
        jar_path: jar_alias(kind, Some(r.target@)),
        started_at: None,
        message: Some("stopped"@),
        healthy: None,
    }
}

/// The status a successful stop reports.
pub fn stopped_status(name: &str, record: &PidRecord) -> (s: ServiceStatus)
    ensures
        s@ == stopped_after(name@, *record),
{
    let kind = parse_kind(record.kind.as_str());
    ServiceStatus {
        name: owned(name),
        state: ServiceState::Stopped,
        kind,
        pid: None,
        target: Some(record.target.clone()),
        jar_path: if kind == Some(ServiceKind::Jar) {
            Some(record.target.clone())
        } else {
            None
        },
        started_at: None,
        message: Some(owned("stopped")),
        healthy: None,
    }
}

/// `[a, b, c]`, as `{:?}` writes a list of numbers.
pub open spec fn debug_items(v: Seq<u32>) -> Seq<char>
    decreases v.len(),
{
    if v.len() == 0 {
        Seq::empty()
    } else if v.len() == 1 {
        decimal(v[0] as nat)
    } else {
        debug_items(v.drop_last()) + ", "@ + decimal(v.last() as nat)
    }
}

pub open spec fn debug_list(v: Seq<u32>) -> Seq<char> {
    "["@ + debug_items(v) + "]"@
}

pub fn debug_u32_list(v: &Vec<u32>) -> (r: String)
    ensures
        r@ == debug_list(v@),
{
    let mut items = String::new();
    let mut i: usize = 0;
    while i < v.len()
        invariant
            i <= v.len(),
            items@ == debug_items(v@.take(i as int)),
        decreases v.len() - i,
    {
        let n = decimal_string(v[i] as u64);
        let ghost t = v@.take(i + 1);
        assert(t.drop_last() =~= v@.take(i as int));
        if i == 0 {
            items = n;
            assert(t.len() == 1);
        } else {
            let a = cat(items.as_str(), ", ");
            items = cat(a.as_str(), n.as_str());
        }
        i = i + 1;
    }
    assert(v@.take(v.len() as int) =~= v@);
    cat3("[", items.as_str(), "]")
}

/// The error when the tree survived the forced kills.
pub fn stuck_error(root: u32, leftover: &Vec<u32>) -> (r: ProcessError)
    ensures
        r matches ProcessError::Other(m) && m@ == "process tree still alive after force kill (root="@
            + decimal(root as nat) + ", leftover="@ + debug_list(leftover@) + ")"@,
{
    let n = decimal_string(root as u64);
    let l = debug_u32_list(leftover);
    let a = cat3("process tree still alive after force kill (root=", n.as_str(), ", leftover=");
    ProcessError::Other(cat3(a.as_str(), l.as_str(), ")"))
}

/// What the watchdog does about one service.
#[derive(PartialEq, Eq, Structural, Clone, Copy)]
pub enum WatchdogAction {
    Skip,
    Restart { stop_first: bool },
}

/// A service meant to run that exited (stopped or unknown) or became
/// unhealthy is restarted, after a stop when a pid is still recorded; a
/// healthy running service, and any service not meant to run, is left alone.
pub fn watchdog_action(desired_running: bool, status: &ServiceStatus) -> (r: WatchdogAction)
    ensures
        !desired_running ==> r == WatchdogAction::Skip,
        desired_running && status.state == ServiceState::Running ==> r == WatchdogAction::Skip,
        desired_running && status.state != ServiceState::Running ==> r == (WatchdogAction::Restart {
            stop_first: status.pid is Some,
        }),
{
    if !desired_running {
        return WatchdogAction::Skip;
    }
    match status.state {
        ServiceState::Running => WatchdogAction::Skip,
        ServiceState::Unhealthy | ServiceState::Stopped | ServiceState::Unknown => {
            WatchdogAction::Restart { stop_first: status.pid.is_some() }
        },
    }
}

/// The services to start again when the agent starts: in order, those whose
/// stored definition exists and is meant to run.
pub open spec fn recovery_of(names: Seq<Seq<char>>, desired: Seq<Option<bool>>) -> Seq<Seq<char>>
    decreases names.len(),
{
    if names.len() == 0 {
        Seq::empty()
    } else if desired.last() == Some(true) {
        recovery_of(names.drop_last(), desired.drop_last()).push(names.last())
    } else {
        recovery_of(names.drop_last(), desired.drop_last())
    }
}

/// Which services the agent starts when it boots, given each known name and
/// the `desired_running` of its stored definition (none when there is no
/// readable definition).
pub fn recovery_list(names: &Vec<String>, desired: &Vec<Option<bool>>) -> (r: Vec<String>)
    requires
        names.len() == desired.len(),
    ensures
        strs(r@) == recovery_of(strs(names@), desired@),
{
    let mut out: Vec<String> = Vec::new();
    let mut i: usize = 0;
    while i < names.len()
        invariant
            i <= names.len() == desired.len(),
            strs(out@) == recovery_of(strs(names@).take(i as int), desired@.take(i as int)),
        decreases names.len() - i,
    {
        proof {
            assert(strs(names@).take(i + 1).drop_last() =~= strs(names@).take(i as int));
            assert(desired@.take(i + 1).drop_last() =~= desired@.take(i as int));
        }
        let keep = match desired[i] {
            Some(b) => b,
            None => false,
        };
        if keep {
            let ghost before = strs(out@);
            out.push(names[i].clone());
            proof {
                assert(strs(out@) =~= before.push(names@[i as int]@));
            }
        }
        i = i + 1;
    }
    proof {
        assert(strs(names@).take(names.len() as int) =~= strs(names@));
        assert(desired@.take(names.len() as int) =~= desired@);
    }
    out
}

/// Words joined by a single space.
pub open spec fn join_spaced(v: Seq<Seq<char>>) -> Seq<char>
    decreases v.len(),
{
    if v.len() == 0 {
        Seq::empty()
    } else if v.len() == 1 {
        v[0]
    } else {
        join_spaced(v.drop_last()) + " "@ + v.last()
    }
}

pub fn join_words(v: &Vec<String>) -> (r: String)
    ensures
        r@ == join_spaced(v@.map_values(|s: String| s@)),
{
    let ghost w = v@.map_values(|s: String| s@);
    let mut out = String::new();
    let mut i: usize = 0;
    while i < v.len()
        invariant
            i <= v.len(),
            w == v@.map_values(|s: String| s@),
            out@ == join_spaced(w.take(i as int)),
        decreases v.len() - i,
    {
        let ghost t = w.take(i + 1);
        assert(t.drop_last() =~= w.take(i as int));
        if i == 0 {
            out = v[i].clone();
            assert(t.len() == 1);
        } else {
            out = cat3(out.as_str(), " ", v[i].as_str());
        }
        i = i + 1;
    }
    assert(w.take(v.len() as int) =~= w);
    out
}

pub open spec fn already_gone(combined: Seq<char>) -> bool {
    let c = ascii_lower(combined);
    contains(c, "not found"@) || contains(c, "not running"@) || contains(c, "找不到"@) || contains(
        c,
        "没有运行"@,
    )
}

/// Verdict on a `taskkill` run: success, or output saying the process is
/// already gone (ASCII case ignored), is fine; otherwise the error names the
/// arguments, the pid and stderr (stdout when stderr is blank), trimmed.
pub fn taskkill_verdict(success: bool, stdout: &str, stderr: &str, args: &Vec<String>, pid: u32) -> (r:
    Result<(), ProcessError>)
    ensures
        success ==> r is Ok,
        !success && already_gone(stdout@ + stderr@) ==> r is Ok,
        !success && !already_gone(stdout@ + stderr@) ==> (r matches Err(ProcessError::Other(m))
            && m@ == "taskkill "@ + join_spaced(args@.map_values(|s: String| s@))
            + " failed for pid "@ + decimal(pid as nat) + ": "@ + (if blank(stderr@) {
            trim(stdout@)
        } else {
            trim(stderr@)
        })),
{
    if success {
        return Ok(());
    }
    let combined = cat(stdout, stderr);
    let lower = ascii_lowercase(combined.as_str());
    if contains_str(lower.as_str(), "not found") || contains_str(lower.as_str(), "not running")
        || contains_str(lower.as_str(), "找不到") || contains_str(lower.as_str(), "没有运行") {
        return Ok(());
    }
    let e = trimmed(stderr);
    let detail = if e.as_str().is_empty() {
        trimmed(stdout)
    } else {
        e
    };
    let joined = join_words(args);
    let n = decimal_string(pid as u64);
    let a = cat3("taskkill ", joined.as_str(), " failed for pid ");
    let b = cat3(a.as_str(), n.as_str(), ": ");
    Err(ProcessError::Other(cat(b.as_str(), detail.as_str())))
}

/// The pids a forced kill signals one at a time: the tree deepest first
/// (in reverse order), then the root.
pub fn kill_order(root: u32, tree: &Vec<u32>) -> (r: Vec<u32>)
    ensures
        r@ == tree@.reverse().push(root),
{
    let mut out: Vec<u32> = Vec::new();
    let mut i: usize = tree.len();
    while i > 0
        invariant
            i <= tree@.len(),
            out@ == tree@.subrange(i as int, tree@.len() as int).reverse(),
        decreases i,
    {
        i = i - 1;
        out.push(tree[i]);
        assert(tree@.subrange(i as int, tree@.len() as int).reverse() =~= tree@.subrange(
            i + 1,
            tree@.len() as int,
        ).reverse().push(tree@[i as int]));
    }
    assert(tree@.subrange(0, tree@.len() as int) =~= tree@);
    out.push(root);
    out
}

/// The pids of `pids` found alive now, in their order.  Which ones are alive
/// depends on the machine at the time of the call: the result is the
/// selection of `pids`, order kept, by the answers each look gave.
pub fn alive_among(pids: &Vec<u32>) -> (r: Vec<u32>)
    ensures
        r@.len() <= pids@.len(),
        forall|y: u32| r@.contains(y) ==> pids@.contains(y),
        exists|keep: Seq<bool>| keep.len() == pids@.len() && r@ == #[trigger] select(pids@, keep),
{
    let mut out: Vec<u32> = Vec::new();
    let ghost mut keep: Seq<bool> = Seq::empty();
    let mut i: usize = 0;
    while i < pids.len()
        invariant
            i <= pids@.len(),
            keep.len() == i,
            out@ == select(pids@.take(i as int), keep),
        decreases pids.len() - i,
    {
        let b = is_pid_alive(pids[i]);
        if b {
            out.push(pids[i]);
        }
        proof {
            lemma_select_step(pids@, keep, i as int, b);
            keep = keep.push(b);
        }
        i = i + 1;
    }
    proof {
        assert(pids@.take(pids@.len() as int) =~= pids@);
        lemma_select_len(pids@, keep);
        assert forall|y: u32| out@.contains(y) implies pids@.contains(y) by {
            lemma_select_within(pids@, keep, y);
        }
    }
    out
}

/// The error when `kill -9` left processes alive.
pub fn kill_leftover_error(root: u32, still: &Vec<u32>) -> (r: ProcessError)
    ensures
        r matches ProcessError::Other(m) && m@ == "kill -9 left processes alive for root "@
            + decimal(root as nat) + ": "@ + debug_list(still@),
{
    let n = decimal_string(root as u64);
    let l = debug_u32_list(still);
    let a = cat3("kill -9 left processes alive for root ", n.as_str(), ": ");
    ProcessError::Other(cat(a.as_str(), l.as_str()))
}

/// The error when `taskkill` left processes alive and reported no error.
pub fn taskkill_leftover_error(root: u32) -> (r: ProcessError)
    ensures
        r matches ProcessError::Other(m) && m@ == "taskkill left processes alive for root "@
            + decimal(root as nat),
{
    let n = decimal_string(root as u64);
    ProcessError::Other(cat("taskkill left processes alive for root ", n.as_str()))
}

} // verus!
