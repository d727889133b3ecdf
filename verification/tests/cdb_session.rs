use windbgr_mcp::cdb::actor::{
    break_sent, continue_written, interrupt_result, record_child_exit, spawn_failed, stop_action,
    ControlDecision, InterruptReason, SessionCore, SharedState, StopAction, StopWait,
};
use windbgr_mcp::cdb::manager::SessionTable;
use windbgr_mcp::cdb::session::{
    attach_plan, launch_plan, ready_check, AttachOptions, ControlAction, LaunchOptions,
    ReadyCheck, SessionKind, SessionState, SpawnConfig, StopMode,
};
use windbgr_mcp::error::Error;

#[test]
fn session_state_active_classification() {
    for s in [
        SessionState::Starting,
        SessionState::Idle,
        SessionState::Executing,
        SessionState::Running,
        SessionState::Breaking,
    ] {
        assert!(s.is_active(), "{s:?} should be active");
    }
    for s in [SessionState::Stopped, SessionState::Failed] {
        assert!(!s.is_active(), "{s:?} should be inactive");
    }
}

fn shared(state: SessionState) -> SharedState {
    SharedState {
        state,
        last_error: None,
        exit_status: None,
    }
}

fn new_core() -> SessionCore {
    SessionCore::new(
        "id-1".into(),
        SessionKind::Attach,
        77,
        Some(42),
        "t0".into(),
        1024,
        1000,
    )
}

#[test]
fn first_prompt_makes_session_idle() {
    let mut c = new_core();
    let mut s = shared(SessionState::Starting);
    assert!(c.on_output(&mut s, b"Microsoft (R) Windows Debugger\n", 1001).is_none());
    assert_eq!(s.state, SessionState::Starting);
    assert!(c.on_output(&mut s, b"0:000> ", 1002).is_none());
    assert_eq!(s.state, SessionState::Idle);
}

#[test]
fn command_round_trip() {
    let mut c = new_core();
    let mut s = shared(SessionState::Starting);
    c.on_output(&mut s, b"0:000> ", 1000);
    let line = c.begin_command(&s, "r  \t").unwrap();
    assert_eq!(line, "r\n");
    assert!(c
        .command_written(&mut s, "r".into(), 5000, 2000, Ok(()))
        .is_none());
    assert_eq!(s.state, SessionState::Executing);
    assert_eq!(c.next_deadline(), Some(7000));
    assert!(c.on_output(&mut s, b"r\neax=1\n", 2100).is_none());
    let out = c.on_output(&mut s, b"0:000> ", 2250).expect("completed");
    assert_eq!(s.state, SessionState::Idle);
    assert_eq!(out.state, SessionState::Idle);
    assert_eq!(out.command, "r");
    assert_eq!(out.output, "eax=1");
    assert_eq!(out.output_start_offset, 7);
    assert_eq!(out.output_end_offset, 22);
    assert!(!out.truncated);
    assert_eq!(out.duration_ms, 250);
    assert!(c.executing.is_none());
}

#[test]
fn commands_are_refused_away_from_the_prompt() {
    let c = new_core();
    for st in [
        SessionState::Starting,
        SessionState::Executing,
        SessionState::Running,
        SessionState::Breaking,
        SessionState::Stopped,
        SessionState::Failed,
    ] {
        let err = c.begin_command(&shared(st), "r").unwrap_err();
        assert_eq!(
            err,
            Error::InvalidState {
                current: format!("{st:?}"),
                action: "debug_command".into()
            }
        );
    }
    let err = c.begin_command(&shared(SessionState::Running), "r").unwrap_err();
    assert_eq!(
        err.to_string(),
        "invalid session state: Running \u{2014} debug_command not allowed"
    );
}

#[test]
fn failed_write_reports_io_error() {
    let mut c = new_core();
    let mut s = shared(SessionState::Idle);
    let err = c
        .command_written(&mut s, "r".into(), 0, 5, Err("pipe closed".into()))
        .unwrap();
    assert_eq!(err, Error::Io("pipe closed".into()));
    assert_eq!(s.state, SessionState::Idle);
    assert!(c.executing.is_none());
}

#[test]
fn zero_timeout_means_no_deadline() {
    let mut c = new_core();
    let mut s = shared(SessionState::Idle);
    c.command_written(&mut s, "g".into(), 0, 5, Ok(()));
    assert_eq!(c.next_deadline(), None);
}

#[test]
fn control_decisions() {
    let c = new_core();
    assert!(matches!(
        c.control_request(&shared(SessionState::Idle), ControlAction::Continue),
        ControlDecision::Write(ref t) if t == "g\n"
    ));
    assert!(matches!(
        c.control_request(&shared(SessionState::Running), ControlAction::Continue),
        ControlDecision::Reply(Err(Error::InvalidState { .. }))
    ));
    assert!(matches!(
        c.control_request(&shared(SessionState::Idle), ControlAction::Break),
        ControlDecision::Reply(Ok(SessionState::Idle))
    ));
    assert!(matches!(
        c.control_request(&shared(SessionState::Running), ControlAction::Break),
        ControlDecision::CtrlBreak
    ));
    assert!(matches!(
        c.control_request(&shared(SessionState::Executing), ControlAction::InterruptCommand),
        ControlDecision::CtrlBreak
    ));
    match c.control_request(&shared(SessionState::Stopped), ControlAction::Break) {
        ControlDecision::Reply(Err(e)) => assert_eq!(
            e.to_string(),
            "invalid session state: Stopped \u{2014} break not allowed"
        ),
        _ => panic!("expected refusal"),
    }
}

#[test]
fn continue_and_break_results() {
    let mut s = shared(SessionState::Idle);
    assert_eq!(continue_written(&mut s, Ok(())), Ok(SessionState::Running));
    assert_eq!(s.state, SessionState::Running);
    assert_eq!(
        break_sent(&mut s, Ok(())),
        Ok(SessionState::Breaking)
    );
    assert_eq!(s.state, SessionState::Breaking);
    let mut s = shared(SessionState::Running);
    assert_eq!(
        break_sent(&mut s, Err(Error::WindowsApi("x".into()))),
        Err(Error::WindowsApi("x".into()))
    );
    assert_eq!(s.state, SessionState::Running);
    assert_eq!(
        continue_written(&mut s, Err("gone".into())),
        Err(Error::Io("gone".into()))
    );
}

#[test]
fn break_prompt_completes_pending_command() {
    let mut c = new_core();
    let mut s = shared(SessionState::Idle);
    c.command_written(&mut s, "lm".into(), 0, 10, Ok(()));
    assert_eq!(break_sent(&mut s, Ok(())), Ok(SessionState::Breaking));
    let out = c.on_output(&mut s, b"lm\npartial\n0:000> ", 40).unwrap();
    assert_eq!(out.output, "partial");
    assert_eq!(s.state, SessionState::Idle);
}

#[test]
fn running_target_returns_to_idle_on_prompt() {
    let mut c = new_core();
    let mut s = shared(SessionState::Running);
    assert!(c.on_output(&mut s, b"Breakpoint 0 hit\n0:000> ", 3).is_none());
    assert_eq!(s.state, SessionState::Idle);
}

#[test]
fn stopped_session_ignores_prompts() {
    let mut c = new_core();
    let mut s = shared(SessionState::Stopped);
    assert!(c.on_output(&mut s, b"0:000> ", 3).is_none());
    assert_eq!(s.state, SessionState::Stopped);
}

#[test]
fn child_exit_fails_pending_command_with_last_output() {
    let mut c = new_core();
    let mut s = shared(SessionState::Idle);
    c.on_output(&mut s, b"  bye  \n", 1);
    c.command_written(&mut s, "q".into(), 0, 2, Ok(()));
    let err = c.on_child_exit(&mut s).unwrap();
    assert_eq!(
        err,
        Error::CdbExited("cdb exited during command. Last output:\nbye".into())
    );
    assert_eq!(s.state, SessionState::Stopped);
    assert_eq!(s.last_error.as_deref(), Some("cdb output: bye"));
    assert!(c.executing.is_none());
}

#[test]
fn child_exit_without_output_keeps_earlier_error() {
    let mut c = new_core();
    let mut s = shared(SessionState::Idle);
    s.last_error = Some("earlier".into());
    c.on_output(&mut s, b"noise", 1);
    assert!(c.on_child_exit(&mut s).is_none());
    assert_eq!(s.last_error.as_deref(), Some("earlier"));
    let mut c = new_core();
    let mut s = shared(SessionState::Executing);
    c.command_written(&mut s, "x".into(), 0, 0, Ok(()));
    assert_eq!(
        c.on_child_exit(&mut s),
        Some(Error::CdbExited("cdb exited during command".into()))
    );
    assert_eq!(s.last_error, None);
}

#[test]
fn deadline_times_out_and_interrupts() {
    let mut c = new_core();
    let mut s = shared(SessionState::Idle);
    c.command_written(&mut s, "!analyze".into(), 100, 1000, Ok(()));
    c.on_output(&mut s, b"working...\n", 1050);
    let (reply, send_break) = c.deadline_expired(&mut s, 1100);
    assert_eq!(reply, Some(Error::Timeout(100)));
    assert!(send_break);
    assert!(c.executing.is_none());
    interrupt_result(&mut s, InterruptReason::TimedOut, Ok(()));
    assert_eq!(s.state, SessionState::Breaking);
}

#[test]
fn deadline_with_prompt_already_buffered_recovers_without_break() {
    let mut c = new_core();
    let mut s = shared(SessionState::Executing);
    c.on_output(&mut s, b"0:000> ", 1);
    // The prompt arrived while no command was pending and the state was
    // overwritten back to Executing by a racing writer.
    s.state = SessionState::Executing;
    c.command_written(&mut s, "bp x".into(), 10, 2, Ok(()));
    let (reply, send_break) = c.deadline_expired(&mut s, 20);
    assert_eq!(reply, Some(Error::Timeout(18)));
    assert!(!send_break);
    assert_eq!(s.state, SessionState::Idle);
}

#[test]
fn failed_interrupt_is_recorded() {
    let mut s = shared(SessionState::Executing);
    interrupt_result(
        &mut s,
        InterruptReason::CallerDropped,
        Err(Error::WindowsApi("GenerateConsoleCtrlEvent(CTRL_BREAK, pid=7) failed: 5".into())),
    );
    assert_eq!(s.state, SessionState::Executing);
    assert_eq!(
        s.last_error.as_deref(),
        Some("failed to interrupt cdb command after debug_command caller was dropped: windows api error: GenerateConsoleCtrlEvent(CTRL_BREAK, pid=7) failed: 5")
    );
}

#[test]
fn caller_dropped_releases_pending_command() {
    let mut c = new_core();
    let mut s = shared(SessionState::Idle);
    c.command_written(&mut s, "k".into(), 0, 1, Ok(()));
    assert!(c.caller_dropped(&mut s));
    assert!(c.executing.is_none());
    assert!(!c.caller_dropped(&mut s));
}

#[test]
fn stop_sequence() {
    assert!(matches!(stop_action(StopMode::Detach), StopAction::Write(ref t) if t == "qd\n"));
    assert!(
        matches!(stop_action(StopMode::TerminateTarget), StopAction::Write(ref t) if t == "q\n")
    );
    assert!(matches!(stop_action(StopMode::KillDebugger), StopAction::Kill));
    let mut c = new_core();
    let mut s = shared(SessionState::Idle);
    assert!(!c.stop_finished(&mut s, StopWait::Exited("exit code: 0".into())));
    assert_eq!(s.state, SessionState::Stopped);
    assert_eq!(s.exit_status.as_deref(), Some("exit code: 0"));
    let mut s = shared(SessionState::Running);
    assert!(c.stop_finished(&mut s, StopWait::TimedOut));
    assert_eq!(s.exit_status, None);
    assert!(!c.stop_finished(&mut s, StopWait::WaitFailed("x".into())));
}

#[test]
fn status_and_output_pages() {
    let mut c = new_core();
    let mut s = shared(SessionState::Starting);
    c.on_output(&mut s, b"abcdef", 1500);
    let st = c.status(&s, 1750);
    assert_eq!(st.session_id, "id-1");
    assert_eq!(st.kind, SessionKind::Attach);
    assert_eq!(st.target_pid, Some(42));
    assert_eq!(st.cdb_pid, 77);
    assert_eq!(st.last_activity_at, "250ms ago");
    assert_eq!(st.output_total_bytes, 6);
    assert_eq!(st.output_earliest_offset, 0);
    let page = c.read_output(2, 3);
    assert_eq!(page.bytes, "cde");
    assert_eq!(page.next_offset, 5);
    assert!(!page.truncated_from_start);
    let page = c.read_output(0, 0);
    assert_eq!(page.bytes, "abcdef");
    assert_eq!(page.next_offset, 6);
}

#[test]
fn output_pages_continue_where_the_last_ended() {
    let mut c = new_core();
    let mut s = shared(SessionState::Starting);
    c.on_output(&mut s, b"abcdef", 1);
    let p1 = c.read_output(0, 4);
    assert_eq!(p1.bytes, "abcd");
    assert_eq!(p1.next_offset, 4);
    let p2 = c.read_output(p1.next_offset, 4);
    assert_eq!(p2.bytes, "ef");
    assert_eq!(p2.next_offset, 6);
    let p3 = c.read_output(p2.next_offset, 4);
    assert_eq!(p3.bytes, "");
    assert_eq!(p3.next_offset, 6);
    assert_eq!(p3.total_written, 6);
}

#[test]
fn output_page_after_dropped_bytes_starts_at_earliest() {
    let mut c = SessionCore::new("id".into(), SessionKind::Launch, 1, None, "t".into(), 4, 0);
    let mut s = shared(SessionState::Starting);
    c.on_output(&mut s, b"0123456789", 1);
    let p = c.read_output(0, 3);
    assert!(p.truncated_from_start);
    assert_eq!(p.earliest_offset, 6);
    assert_eq!(p.bytes, "678");
    assert_eq!(p.next_offset, 9);
    let p = c.read_output(p.next_offset, 3);
    assert_eq!(p.bytes, "9");
    assert_eq!(p.next_offset, 10);
    assert!(!p.truncated_from_start);
}

#[test]
fn child_exit_records_status() {
    let mut s = shared(SessionState::Idle);
    record_child_exit(&mut s, Ok("exit code: 1".into()));
    assert_eq!(s.exit_status.as_deref(), Some("exit code: 1"));
    record_child_exit(&mut s, Err("wait failed".into()));
    assert_eq!(s.last_error.as_deref(), Some("wait failed"));
}

#[test]
fn spawn_failure_marks_failed() {
    let mut s = shared(SessionState::Starting);
    spawn_failed(&mut s, &Error::Timeout(15000));
    assert_eq!(s.state, SessionState::Failed);
    assert_eq!(
        s.last_error.as_deref(),
        Some("operation timed out after 15000 ms")
    );
}

#[test]
fn ready_check_decisions() {
    assert!(matches!(
        ready_check(SessionState::Idle, &None, 10, 5, 5),
        ReadyCheck::Ready
    ));
    assert!(matches!(
        ready_check(SessionState::Failed, &None, 0, 5, 5),
        ReadyCheck::Failed(Error::CdbExited(ref m)) if m == "cdb exited before ready"
    ));
    assert!(matches!(
        ready_check(SessionState::Stopped, &Some("boom".into()), 0, 5, 5),
        ReadyCheck::Failed(Error::CdbExited(ref m)) if m == "boom"
    ));
    assert!(matches!(
        ready_check(SessionState::Running, &None, 5, 5, 30),
        ReadyCheck::Failed(Error::Timeout(30))
    ));
    assert!(matches!(
        ready_check(SessionState::Starting, &None, 4, 5, 30),
        ReadyCheck::Wait
    ));
}

fn spawn_cfg() -> SpawnConfig {
    SpawnConfig {
        cdb_path: "C:/cdb/cdb.exe".into(),
        symbol_path: Some("srv*cfg".into()),
        output_ring_bytes: 4096,
        attach_timeout_ms: 111,
        launch_timeout_ms: 222,
    }
}

#[test]
fn spawn_plans_use_configured_symbol_path_as_fallback() {
    let plan = attach_plan(
        &spawn_cfg(),
        &AttachOptions {
            pid: 5,
            noninvasive: false,
            initial_break: true,
            symbol_path: None,
            extra_args: vec![],
        },
    );
    assert_eq!(plan.argv, vec!["-p", "5", "-y", "srv*cfg"]);
    assert_eq!(plan.wait_timeout_ms, 111);
    assert_eq!(plan.target_pid, Some(5));
    assert_eq!(plan.kind, SessionKind::Attach);
    let plan = launch_plan(
        &spawn_cfg(),
        &LaunchOptions {
            executable: "cmd.exe".into(),
            args: vec!["/c".into()],
            cwd: Some("C:/".into()),
            env: vec![("A".into(), "1".into())],
            debug_children: false,
            initial_break: false,
            symbol_path: Some("own".into()),
            extra_args: vec![],
        },
    )
    .unwrap();
    assert_eq!(plan.argv, vec!["-g", "-y", "own", "cmd.exe", "/c"]);
    assert_eq!(plan.wait_timeout_ms, 222);
    assert_eq!(plan.target_pid, None);
    assert_eq!(plan.cwd.as_deref(), Some("C:/"));
    assert_eq!(plan.env, vec![("A".to_string(), "1".to_string())]);
}

#[test]
fn list_active_is_empty_for_fresh_manager() {
    let mut table: SessionTable<u32> = SessionTable::new();
    let pruned = table.prune_inactive(&[]);
    assert_eq!(pruned, 0, "no sessions to prune in a fresh manager");
    assert!(
        table.entries().is_empty(),
        "fresh manager should have no active sessions"
    );
}

#[test]
fn session_limit_check_runs_without_cdb_when_zero_sessions() {
    let mut table: SessionTable<u32> = SessionTable::new();
    let err = table.check_capacity(&[], 0).expect_err("should hit session limit");
    assert!(matches!(err, Error::SessionLimit(0)), "got: {err:?}");
}

#[test]
fn session_table_registers_replaces_prunes_and_removes() {
    let mut table: SessionTable<u32> = SessionTable::new();
    table.insert("a".into(), 1);
    table.insert("b".into(), 2);
    table.insert("c".into(), 3);
    table.insert("b".into(), 20);
    assert_eq!(table.len(), 3);
    assert_eq!(table.get("b"), Ok(&20));
    assert_eq!(
        table.get("zz"),
        Err(Error::SessionNotFound("zz".into()))
    );
    let removed = table.prune_inactive(&[
        SessionState::Idle,
        SessionState::Stopped,
        SessionState::Failed,
    ]);
    assert_eq!(removed, 2);
    assert_eq!(table.len(), 1);
    assert!(table.check_capacity(&[SessionState::Running], 2).is_ok());
    assert_eq!(
        table.check_capacity(&[SessionState::Running], 1),
        Err(Error::SessionLimit(1))
    );
    table.remove("a");
    table.remove("a");
    assert_eq!(table.len(), 0);
}

#[test]
fn table_lookup_follows_insert_and_remove() {
    let mut table: SessionTable<u32> = SessionTable::new();
    table.insert("a".into(), 1);
    table.insert("b".into(), 2);
    assert_eq!(table.get("a"), Ok(&1));
    table.insert("a".into(), 10);
    assert_eq!(table.get("a"), Ok(&10));
    assert_eq!(table.get("b"), Ok(&2));
    table.remove("a");
    assert_eq!(table.get("a"), Err(Error::SessionNotFound("a".into())));
    assert_eq!(table.get("b"), Ok(&2));
    assert_eq!(table.entries().len(), 1);
}
