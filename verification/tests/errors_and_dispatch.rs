use windbgr_mcp::cdb::control::generate_ctrl_break;
use windbgr_mcp::cdb::session::{ControlAction, StopMode};
use windbgr_mcp::error::Error;
use windbgr_mcp::mcp::server::{
    attach_options, effective_command_timeout, enrich_attach_error, launch_options,
};
use windbgr_mcp::mcp::tools::{
    default_output_bytes, default_wait_timeout, DebugAttachArgs, DebugControlAction,
    DebugLaunchArgs, DebugStopMode,
};
use windbgr_mcp::privilege::PrivilegeLevel;

#[test]
fn error_messages() {
    assert_eq!(Error::Io("disk".into()).to_string(), "io error: disk");
    assert_eq!(Error::Config("bad".into()).to_string(), "invalid configuration: bad");
    assert_eq!(Error::CdbNotFound("x".into()).to_string(), "cdb executable not found: x");
    assert_eq!(Error::SessionNotFound("s1".into()).to_string(), "cdb session not found: s1");
    assert_eq!(Error::SessionLimit(4).to_string(), "cdb session limit reached (max = 4)");
    assert_eq!(
        Error::InvalidState { current: "Running".into(), action: "command".into() }.to_string(),
        "invalid session state: Running \u{2014} command not allowed"
    );
    assert_eq!(Error::CdbExited("gone".into()).to_string(), "cdb session exited unexpectedly: gone");
    assert_eq!(Error::Timeout(1500).to_string(), "operation timed out after 1500 ms");
    assert_eq!(Error::WindowsApi("e".into()).to_string(), "windows api error: e");
    assert_eq!(Error::other("plain").to_string(), "plain");
}

#[test]
fn ctrl_break_result() {
    assert_eq!(generate_ctrl_break(42, 1, 0), Ok(()));
    assert_eq!(
        generate_ctrl_break(42, 0, 87),
        Err(Error::WindowsApi("GenerateConsoleCtrlEvent(CTRL_BREAK, pid=42) failed: 87".into()))
    );
}

#[test]
fn command_timeout_falls_back_to_configured() {
    assert_eq!(effective_command_timeout(0, 30_000), 30_000);
    assert_eq!(effective_command_timeout(250, 30_000), 250);
    assert_eq!(default_wait_timeout(), 60_000);
    assert_eq!(default_output_bytes(), 16_384);
}

#[test]
fn attach_errors_get_elevation_hint_for_users_only() {
    let hint = ". This process likely requires elevated privileges. Re-launch windbgr-mcp from an elevated Administrator prompt.";
    let e = enrich_attach_error(PrivilegeLevel::User, Error::Timeout(15_000));
    assert_eq!(e, Error::Other(format!("operation timed out after 15000 ms{hint}")));
    let e = enrich_attach_error(PrivilegeLevel::User, Error::WindowsApi("denied".into()));
    assert_eq!(e, Error::Other(format!("windows api error: denied{hint}")));
    let e = enrich_attach_error(PrivilegeLevel::Admin, Error::Timeout(15_000));
    assert_eq!(e, Error::Timeout(15_000));
    let e = enrich_attach_error(PrivilegeLevel::User, Error::SessionLimit(4));
    assert_eq!(e, Error::SessionLimit(4));
}

#[test]
fn tool_args_become_session_options() {
    let o = attach_options(DebugAttachArgs {
        pid: 7,
        noninvasive: true,
        initial_break: false,
        symbol_path: Some("srv*".into()),
        extra_args: vec!["-x".into()],
    });
    assert_eq!(o.pid, 7);
    assert!(o.noninvasive);
    assert!(!o.initial_break);
    assert_eq!(o.symbol_path.as_deref(), Some("srv*"));
    assert_eq!(o.extra_args, vec!["-x".to_string()]);
    let o = launch_options(DebugLaunchArgs {
        executable: "c:/a.exe".into(),
        args: vec!["1".into()],
        cwd: Some("c:/".into()),
        env: vec![("K".into(), "V".into())],
        debug_children: true,
        initial_break: true,
        symbol_path: None,
        extra_args: Vec::new(),
    });
    assert_eq!(o.executable, "c:/a.exe");
    assert_eq!(o.args, vec!["1".to_string()]);
    assert_eq!(o.cwd.as_deref(), Some("c:/"));
    assert_eq!(o.env, vec![("K".to_string(), "V".to_string())]);
    assert!(o.debug_children);
}

#[test]
fn tool_enums_convert_to_session_enums() {
    assert_eq!(ControlAction::from(DebugControlAction::Continue), ControlAction::Continue);
    assert_eq!(ControlAction::from(DebugControlAction::Break), ControlAction::Break);
    assert_eq!(
        ControlAction::from(DebugControlAction::InterruptCommand),
        ControlAction::InterruptCommand
    );
    assert_eq!(StopMode::from(DebugStopMode::Detach), StopMode::Detach);
    assert_eq!(StopMode::from(DebugStopMode::TerminateTarget), StopMode::TerminateTarget);
    assert_eq!(StopMode::from(DebugStopMode::KillDebugger), StopMode::KillDebugger);
}
