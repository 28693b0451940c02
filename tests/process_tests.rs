use runwhen::error::ErrorKind;
use runwhen::process::{exit_code, CancelableProcess, ProcessState};

#[test]
fn command_follows_the_line_and_settings() {
    let p = CancelableProcess::new("cargo  build --release", Some(vec!["RUST_LOG=debug".to_string()]));
    let c = p.command().unwrap();
    assert_eq!(c.program(), "cargo");
    assert_eq!(c.args(), &vec!["build".to_string(), "--release".to_string()]);
    assert_eq!(c.env_pairs(), &vec![("RUST_LOG".to_string(), "debug".to_string())]);
}

#[test]
fn vertical_tab_only_line_cannot_spawn() {
    let mut p = CancelableProcess::new("\u{0B}", None);
    assert!(p.command().is_err());
    assert_eq!(p.spawn(&Ok(())).err().unwrap().kind, ErrorKind::Spawn);
    assert_eq!(p.state(), ProcessState::Idle);
}

#[test]
fn new_process_is_idle() {
    let p = CancelableProcess::new("sleep 1", None);
    assert_eq!(p.state(), ProcessState::Idle);
    assert!(p.command().is_ok());
}

#[test]
fn cancel_on_idle_is_a_no_op() {
    let mut p = CancelableProcess::new("sleep 1", None);
    assert!(!p.cancel());
    assert_eq!(p.state(), ProcessState::Idle);
}

#[test]
fn spawn_enters_running_and_cancel_asks_for_kill() {
    let mut p = CancelableProcess::new("sleep 1", None);
    assert!(p.spawn(&Ok(())).is_ok());
    assert_eq!(p.state(), ProcessState::Running);
    assert!(p.cancel());
    assert_eq!(p.state(), ProcessState::Idle);
}

#[test]
fn spawn_failure_is_spawn_error() {
    let mut p = CancelableProcess::new("no-such-binary", None);
    let e = p.spawn(&Err("not found".to_string())).err().unwrap();
    assert_eq!(e.kind, ErrorKind::Spawn);
    assert_eq!(e.message(), "not found");
    assert_eq!(p.state(), ProcessState::Idle);
}

#[test]
fn spawn_of_empty_command_is_spawn_error() {
    let mut p = CancelableProcess::new("  ", None);
    let e = p.spawn(&Ok(())).err().unwrap();
    assert_eq!(e.kind, ErrorKind::Spawn);
    assert_eq!(p.state(), ProcessState::Idle);
}

#[test]
fn reset_after_cancel_runs_again() {
    let mut p = CancelableProcess::new("sleep 1", None);
    p.spawn(&Ok(())).unwrap();
    p.cancel();
    assert!(p.reset(&Ok(())).1.is_ok());
    assert_eq!(p.state(), ProcessState::Running);
}

#[test]
fn reset_of_exited_process_runs_again() {
    let mut p = CancelableProcess::new("sleep 1", None);
    p.spawn(&Ok(())).unwrap();
    p.check(&Ok(Some(Some(0)))).unwrap();
    assert!(p.reset(&Ok(())).1.is_ok());
    assert_eq!(p.state(), ProcessState::Running);
}

#[test]
fn reset_with_failed_start_ends_idle() {
    let mut p = CancelableProcess::new("sleep 1", None);
    p.spawn(&Ok(())).unwrap();
    assert!(p.cancel());
    let (kill, r) = p.reset(&Err("denied".to_string()));
    assert!(!kill);
    let e = r.err().unwrap();
    assert_eq!(e.kind, ErrorKind::Spawn);
    assert_eq!(p.state(), ProcessState::Idle);
}

#[test]
fn block_on_running_returns_code_and_goes_idle() {
    let mut p = CancelableProcess::new("false", None);
    p.spawn(&Ok(())).unwrap();
    assert_eq!(p.block(&Ok(Some(1))).unwrap(), 1);
    assert_eq!(p.state(), ProcessState::Idle);
}

#[test]
fn block_without_code_gives_zero() {
    let mut p = CancelableProcess::new("sleep 5", None);
    p.spawn(&Ok(())).unwrap();
    assert_eq!(p.block(&Ok(None)).unwrap(), 0);
}

#[test]
fn block_wait_failure_is_execution_error() {
    let mut p = CancelableProcess::new("sleep 5", None);
    p.spawn(&Ok(())).unwrap();
    let e = p.block(&Err("wait failed".to_string())).err().unwrap();
    assert_eq!(e.kind, ErrorKind::Execution);
    assert_eq!(p.state(), ProcessState::Running);
}

#[test]
fn block_on_idle_runs_once() {
    let mut p = CancelableProcess::new("echo hi", None);
    assert_eq!(p.block(&Ok(Some(7))).unwrap(), 7);
    assert_eq!(p.state(), ProcessState::Idle);
    let e = p.block(&Err("cannot run".to_string())).err().unwrap();
    assert_eq!(e.kind, ErrorKind::Execution);
}

#[test]
fn block_on_idle_empty_command_is_execution_error() {
    let mut p = CancelableProcess::new("", None);
    let e = p.block(&Ok(Some(0))).err().unwrap();
    assert_eq!(e.kind, ErrorKind::Execution);
    assert_eq!(p.state(), ProcessState::Idle);
}

#[test]
fn reset_of_running_process_owes_a_kill() {
    let mut p = CancelableProcess::new("sleep 1", None);
    p.spawn(&Ok(())).unwrap();
    let (kill, r) = p.reset(&Ok(()));
    assert!(kill);
    assert!(r.is_ok());
    assert_eq!(p.state(), ProcessState::Running);
}

#[test]
fn reset_of_idle_process_owes_no_kill() {
    let mut p = CancelableProcess::new("sleep 1", None);
    let (kill, r) = p.reset(&Ok(()));
    assert!(!kill);
    assert!(r.is_ok());
    assert_eq!(p.state(), ProcessState::Running);
}

#[test]
fn check_does_not_block_and_records_exit() {
    let mut p = CancelableProcess::new("sleep 1", None);
    assert_eq!(p.check(&Ok(None)).unwrap(), None);
    p.spawn(&Ok(())).unwrap();
    assert_eq!(p.check(&Ok(None)).unwrap(), None);
    assert_eq!(p.state(), ProcessState::Running);
    assert_eq!(p.check(&Ok(Some(Some(4)))).unwrap(), Some(4));
    assert_eq!(p.state(), ProcessState::Exited(4));
    assert_eq!(p.check(&Ok(None)).unwrap(), Some(4));
    assert_eq!(p.block(&Err("unused".to_string())).unwrap(), 4);
    assert_eq!(p.state(), ProcessState::Idle);
}

#[test]
fn check_after_signal_kill_gives_zero() {
    let mut p = CancelableProcess::new("sleep 1", None);
    p.spawn(&Ok(())).unwrap();
    assert_eq!(p.check(&Ok(Some(None))).unwrap(), Some(0));
    assert_eq!(p.state(), ProcessState::Exited(0));
}

#[test]
fn check_poll_failure_is_execution_error() {
    let mut p = CancelableProcess::new("sleep 1", None);
    p.spawn(&Ok(())).unwrap();
    let e = p.check(&Err("poll failed".to_string())).err().unwrap();
    assert_eq!(e.kind, ErrorKind::Execution);
    assert_eq!(p.state(), ProcessState::Running);
}

#[test]
fn cancel_of_exited_process_needs_no_kill() {
    let mut p = CancelableProcess::new("sleep 1", None);
    p.spawn(&Ok(())).unwrap();
    p.check(&Ok(Some(Some(0)))).unwrap();
    assert!(!p.cancel());
    assert_eq!(p.state(), ProcessState::Idle);
}

#[test]
fn is_success_compares_code_with_zero() {
    let mut p = CancelableProcess::new("true", None);
    assert!(p.is_success(&Ok(Some(0))));
    assert!(!p.is_success(&Ok(Some(2))));
    assert!(!p.is_success(&Err("failed".to_string())));
}

#[test]
fn exit_code_maps_outcomes() {
    assert_eq!(exit_code(&Ok(Some(-3))).unwrap(), -3);
    assert_eq!(exit_code(&Ok(None)).unwrap(), 0);
    assert_eq!(exit_code(&Err("x".to_string())).err().unwrap().kind, ErrorKind::Execution);
}
