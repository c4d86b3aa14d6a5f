use axleops::agent::launch::{
    launcher_for_interpreter, probe_verdict, resolve_script_launcher, resolve_work_dir,
    jar_command, script_launch, start_step, work_dir_candidate, ScriptLaunch, StartAction,
    StartCleanup, StartEvent, StartStage,
};
use axleops::agent::models::ServiceSpec;
use axleops::agent::logs::{decode_log_bytes, tail_start};
use axleops::agent::procs::{collect_tree_pids, descendants_in, merge_pids, tree_pids_in};
use axleops::agent::process::ProcessError;

#[test]
fn decode_log_bytes_utf8() {
    assert_eq!(decode_log_bytes(b"hello"), "hello");
}

#[test]
fn decode_log_bytes_gbk() {
    // "中文" in GBK
    let gbk = [0xD6u8, 0xD0, 0xCE, 0xC4];
    assert_eq!(decode_log_bytes(&gbk), "中文");
}

#[test]
fn decode_log_bytes_falls_back_to_lossy() {
    // 0xFF is invalid in UTF-8 and in GBK
    let bytes = [b'a', 0xFF];
    assert_eq!(decode_log_bytes(&bytes), "a\u{FFFD}");
}

#[test]
fn resolve_work_dir_uses_explicit() {
    let dir = tempfile::tempdir().unwrap();
    let path = dir.path().to_path_buf();
    let text = path.to_str().unwrap();
    let got = resolve_work_dir(Some(text), None, path.exists(), path.is_dir()).unwrap();
    assert_eq!(std::path::PathBuf::from(got), path);
}

#[test]
fn resolve_work_dir_errors() {
    match resolve_work_dir(Some("  /nope  "), None, false, false) {
        Err(ProcessError::Other(m)) => assert_eq!(m, "work_dir not found: /nope"),
        _ => panic!("expected not found"),
    }
    match resolve_work_dir(None, Some("/etc/hosts"), true, false) {
        Err(ProcessError::Other(m)) => assert_eq!(m, "work_dir is not a directory: /etc/hosts"),
        _ => panic!("expected not a directory"),
    }
    assert_eq!(resolve_work_dir(None, None, true, true).unwrap(), ".");
}

#[test]
fn tree_pids_include_root() {
    let me = sysinfo::get_current_pid().unwrap().as_u32();
    let pids = collect_tree_pids(me);
    assert!(pids.contains(&me));
}

#[test]
fn descendants_follow_parent_links() {
    let table = vec![(1u32, None), (2, Some(1)), (3, Some(2)), (4, Some(9)), (5, Some(1))];
    let mut d = descendants_in(&table, 1);
    d.sort();
    assert_eq!(d, vec![2, 3, 5]);
    assert_eq!(tree_pids_in(&table, 1), vec![1, 2, 3, 5]);
    assert_eq!(merge_pids(&vec![1, 4], &vec![2, 4, 7]), vec![1, 2, 4, 7]);
}

#[test]
fn tail_start_reads_the_end() {
    assert_eq!(tail_start(100, 30), 70);
    assert_eq!(tail_start(10, 30), 0);
}

#[test]
fn script_launchers() {
    match resolve_script_launcher(Some("PS1"), None).unwrap() {
        ScriptLaunch::Via { program, prefix_args } => {
            assert_eq!(program, "powershell");
            assert_eq!(prefix_args, vec!["-NoProfile", "-ExecutionPolicy", "Bypass", "-File"]);
        }
        _ => panic!("powershell expected"),
    }
    match launcher_for_interpreter("CMD.exe") {
        ScriptLaunch::Via { program, prefix_args } => {
            assert_eq!(program, "cmd");
            assert_eq!(prefix_args, vec!["/C"]);
        }
        _ => panic!("cmd expected"),
    }
    match resolve_script_launcher(Some("sh"), Some("  python3 ")).unwrap() {
        ScriptLaunch::Via { program, prefix_args } => {
            assert_eq!(program, "python3");
            assert!(prefix_args.is_empty());
        }
        _ => panic!("interpreter expected"),
    }
    assert!(matches!(resolve_script_launcher(None, None).unwrap(), ScriptLaunch::Direct));
    match resolve_script_launcher(Some("Xyz"), None) {
        Err(ProcessError::Other(m)) => {
            assert_eq!(m, "unsupported script extension '.xyz'; set interpreter explicitly")
        }
        _ => panic!("expected refusal"),
    }
}

#[test]
fn probe_verdicts() {
    assert!(probe_verdict(Ok(200)).is_ok());
    assert!(probe_verdict(Ok(302)).is_ok());
    assert_eq!(probe_verdict(Ok(503)).unwrap_err(), "HTTP 503");
    assert_eq!(probe_verdict(Err("refused".into())).unwrap_err(), "refused");
}

#[test]
fn script_launch_reads_the_extension() {
    match script_launch("run.sh", &None).unwrap() {
        ScriptLaunch::Via { program, prefix_args } => {
            assert_eq!(program, "bash");
            assert!(prefix_args.is_empty());
        }
        _ => panic!("bash expected"),
    }
    assert!(matches!(script_launch("tool", &None).unwrap(), ScriptLaunch::Direct));
    assert!(matches!(script_launch(".profile", &None).unwrap(), ScriptLaunch::Direct));
    match script_launch("job.xyz", &None) {
        Err(ProcessError::Other(m)) => {
            assert_eq!(m, "unsupported script extension '.xyz'; set interpreter explicitly")
        }
        _ => panic!("expected refusal"),
    }
    match script_launch("job.xyz", &Some(" node ".to_string())).unwrap() {
        ScriptLaunch::Via { program, .. } => assert_eq!(program, "node"),
        _ => panic!("interpreter expected"),
    }
}

#[test]
fn work_dir_candidates() {
    let mut s = ServiceSpec {
        name: "x".into(),
        kind: None,
        jar_path: None,
        script_path: None,
        command: None,
        interpreter: None,
        work_dir: None,
        jvm_args: vec![],
        app_args: vec![],
        args: vec![],
        env: vec![],
        health_url: None,
    };
    assert_eq!(work_dir_candidate(&s, "app.jar"), ".");
    assert_eq!(work_dir_candidate(&s, "/srv/app/app.jar"), "/srv/app");
    s.work_dir = Some("  /opt/run ".into());
    assert_eq!(work_dir_candidate(&s, "app.jar"), "/opt/run");
}

#[test]
fn script_launch_reads_the_last_name_of_a_path() {
    match script_launch("/opt/svc/run.sh", &None).unwrap() {
        ScriptLaunch::Via { program, .. } => assert_eq!(program, "bash"),
        _ => panic!("bash expected"),
    }
    match script_launch("scripts/job.py", &None).unwrap() {
        ScriptLaunch::Via { program, .. } => assert_eq!(program, "python"),
        _ => panic!("python expected"),
    }
}

#[test]
fn jar_commands_leave_out_args() {
    let s = ServiceSpec {
        name: "x".into(),
        kind: None,
        jar_path: None,
        script_path: None,
        command: None,
        interpreter: None,
        work_dir: None,
        jvm_args: vec!["-Xmx1g".into()],
        app_args: vec!["--port=1".into()],
        args: vec!["ignored".into()],
        env: vec![],
        health_url: None,
    };
    let (program, args) = jar_command(&s, "/srv/app.jar");
    assert_eq!(program, "java");
    assert_eq!(args, vec!["-Xmx1g", "-jar", "/srv/app.jar", "--port=1"]);
}

#[test]
fn start_steps() {
    let (st, a) = start_step(StartStage::Spawn, false, StartEvent::Spawned(7));
    assert!(st == StartStage::WriteMeta(7) && matches!(a, StartAction::WriteMeta));
    let (st, a) = start_step(st, false, StartEvent::Written);
    assert!(st == StartStage::WriteRecord(7) && matches!(a, StartAction::WriteRecord));
    let (st, a) = start_step(st, false, StartEvent::Written);
    assert!(st == StartStage::Settle(7) && matches!(a, StartAction::SettleThenCheck));
    let (st, a) = start_step(st, false, StartEvent::Alive(true));
    assert!(st == StartStage::Finished && matches!(a, StartAction::Succeed));
    let (st, a) = start_step(StartStage::Settle(7), true, StartEvent::Alive(true));
    assert!(st == StartStage::HealthWait(7) && matches!(a, StartAction::CheckThenProbe));
    match start_step(StartStage::HealthWait(7), true, StartEvent::Alive(false)).1 {
        StartAction::Fail { error: ProcessError::Other(m), cleanup } => {
            assert_eq!(m, "process exited during health wait (pid=7); check service logs");
            assert!(cleanup == StartCleanup::Abandon);
        }
        _ => panic!("failure expected"),
    }
    match start_step(StartStage::Settle(9), true, StartEvent::Alive(false)).1 {
        StartAction::Fail { error: ProcessError::Other(m), cleanup } => {
            assert_eq!(m, "process exited immediately after start (pid=9); check service logs");
            assert!(cleanup == StartCleanup::Abandon);
        }
        _ => panic!("failure expected"),
    }
    match start_step(StartStage::WriteRecord(9), true, StartEvent::Failed(ProcessError::Io("disk".into()))).1 {
        StartAction::Fail { error: ProcessError::Io(m), cleanup } => {
            assert_eq!(m, "disk");
            assert!(cleanup == StartCleanup::KillChildClearIntent);
        }
        _ => panic!("failure expected"),
    }
    assert!(matches!(
        start_step(StartStage::Spawn, true, StartEvent::Failed(ProcessError::NotRunning)).1,
        StartAction::Fail { cleanup: StartCleanup::Nothing, .. }
    ));
}
