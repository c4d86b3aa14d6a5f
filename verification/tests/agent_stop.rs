use axleops::agent::catalog::{add_name, service_name_from_file, sorted_names};
use axleops::agent::stop::{
    debug_u32_list, initially_alive, recovery_list, stop_start, stop_step, stuck_error,
    taskkill_verdict, watchdog_action, ChildState, Observation, StopAction, StopPhase, WatchdogAction,
};
use axleops::agent::models::{ServiceState, ServiceStatus};
use axleops::agent::process::ProcessError;

fn look(child: ChildState, any_alive: bool) -> Observation {
    Observation { child, any_alive }
}

/// Runs the stop machine against a service that dies after `dies_after`
/// looks; gives the actions taken.
fn run(dies_after: usize) -> Vec<StopAction> {
    let mut p = stop_start();
    let mut actions = Vec::new();
    let mut looks = 0usize;
    loop {
        let alive = looks < dies_after;
        let o = look(if alive { ChildState::Running } else { ChildState::Exited }, alive);
        looks += 1;
        let (next, action) = stop_step(p, o);
        actions.push(action);
        if action == StopAction::Succeed || action == StopAction::Fail {
            break;
        }
        p = next;
        assert!(looks < 400, "stop machine must end");
    }
    actions
}

#[test]
fn stop_succeeds_after_soft_signal() {
    let a = run(3);
    assert!(*a.last().unwrap() == StopAction::Succeed);
    assert!(!a.contains(&StopAction::KillThenObserve));
}

#[test]
fn stop_forces_when_soft_signal_is_ignored() {
    let a = run(45);
    assert!(*a.last().unwrap() == StopAction::Succeed);
    assert_eq!(a.iter().filter(|x| **x == StopAction::KillThenObserve).count(), 1);
}

#[test]
fn stop_fails_when_nothing_works() {
    let a = run(usize::MAX);
    assert!(*a.last().unwrap() == StopAction::Fail);
    assert_eq!(a.iter().filter(|x| **x == StopAction::KillThenObserve).count(), 2);
    assert!(a.len() <= 300);
}

#[test]
fn finished_stays_finished() {
    let (p, a) = stop_step(StopPhase::Finished, look(ChildState::Exited, false));
    assert!(p == StopPhase::Finished);
    assert!(a == StopAction::Fail);
}

#[test]
fn alive_checks() {
    assert!(!initially_alive(ChildState::Exited, true, true));
    assert!(initially_alive(ChildState::Running, false, false));
    assert!(initially_alive(ChildState::Untracked, false, true));
    assert!(!initially_alive(ChildState::Untracked, false, false));
}

#[test]
fn stuck_error_lists_pids() {
    assert_eq!(debug_u32_list(&vec![3, 4]), "[3, 4]");
    match stuck_error(7, &vec![8, 9]) {
        ProcessError::Other(m) => {
            assert_eq!(m, "process tree still alive after force kill (root=7, leftover=[8, 9])")
        }
        _ => panic!("expected Other"),
    }
}

#[test]
fn taskkill_verdicts() {
    let args = vec!["/PID".to_string(), "12".to_string(), "/T".to_string()];
    assert!(taskkill_verdict(true, "", "", &args, 12).is_ok());
    assert!(taskkill_verdict(false, "ERROR: process NOT FOUND", "", &args, 12).is_ok());
    match taskkill_verdict(false, " out ", "  ", &args, 12) {
        Err(ProcessError::Other(m)) => assert_eq!(m, "taskkill /PID 12 /T failed for pid 12: out"),
        _ => panic!("expected failure"),
    }
}

#[test]
fn watchdog_decisions() {
    let mut st = ServiceStatus::stopped("s".into(), None);
    assert!(watchdog_action(false, &st) == WatchdogAction::Skip);
    assert!(watchdog_action(true, &st) == WatchdogAction::Restart { stop_first: false });
    st.pid = Some(5);
    assert!(watchdog_action(true, &st) == WatchdogAction::Restart { stop_first: true });
    st.state = ServiceState::Unhealthy;
    assert!(watchdog_action(true, &st) == WatchdogAction::Restart { stop_first: true });
    assert!(watchdog_action(false, &st) == WatchdogAction::Skip);
    st.state = ServiceState::Running;
    assert!(watchdog_action(true, &st) == WatchdogAction::Skip);
}

#[test]
fn service_names_from_files() {
    assert_eq!(service_name_from_file(false, "api.json").as_deref(), Some("api"));
    assert_eq!(service_name_from_file(true, "api.pid.json").as_deref(), Some("api"));
    assert_eq!(service_name_from_file(false, "notes.txt"), None);
    let mut names = Vec::new();
    add_name(&mut names, "b");
    add_name(&mut names, "a");
    add_name(&mut names, "b");
    assert_eq!(sorted_names(&names), vec!["a".to_string(), "b".to_string()]);
}

#[test]
fn boot_recovery_starts_services_meant_to_run() {
    let names = vec!["a".to_string(), "b".to_string(), "c".to_string(), "d".to_string()];
    let desired = vec![Some(true), Some(false), None, Some(true)];
    assert_eq!(recovery_list(&names, &desired), vec!["a".to_string(), "d".to_string()]);
    assert!(recovery_list(&vec![], &vec![]).is_empty());
}
