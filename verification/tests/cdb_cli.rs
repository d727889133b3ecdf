use std::path::PathBuf;

use windbgr_mcp::cdb::cli::{attach_argv, launch_argv};
use windbgr_mcp::error::Error;

#[test]
fn attach_basic() {
    let argv = attach_argv(1234, false, true, None, &[]);
    assert_eq!(argv, vec!["-p", "1234"]);
}

#[test]
fn attach_with_symbol_path_and_no_initial_break() {
    let argv = attach_argv(
        42,
        false,
        false,
        Some("srv*c:/sym"),
        &["-srcpath".into(), "X".into()],
    );
    assert_eq!(
        argv,
        vec!["-g", "-p", "42", "-y", "srv*c:/sym", "-srcpath", "X"]
    );
}

#[test]
fn attach_noninvasive() {
    let argv = attach_argv(7, true, true, None, &[]);
    assert_eq!(argv, vec!["-pv", "-p", "7"]);
}

#[test]
fn launch_with_debug_children() {
    let exe = PathBuf::from("notepad.exe");
    let argv = launch_argv(exe.to_str(), &["a.txt".into()], true, true, None, &[]).unwrap();
    assert_eq!(argv, vec!["-o", "notepad.exe", "a.txt"]);
}

#[test]
fn launch_with_no_initial_break_and_symbols() {
    let exe = PathBuf::from("c:/x.exe");
    let argv = launch_argv(exe.to_str(), &[], false, false, Some("srv*c:/sym"), &[]).unwrap();
    assert_eq!(argv, vec!["-g", "-y", "srv*c:/sym", "c:/x.exe"]);
}

#[test]
fn attach_pid_zero_and_max_render_in_decimal() {
    assert_eq!(attach_argv(0, false, true, None, &[]), vec!["-p", "0"]);
    assert_eq!(
        attach_argv(u32::MAX, false, true, None, &[]),
        vec!["-p", "4294967295"]
    );
}

#[test]
fn attach_all_switches_in_order() {
    let argv = attach_argv(9, true, false, Some("s"), &["-z".into()]);
    assert_eq!(argv, vec!["-pv", "-g", "-p", "9", "-y", "s", "-z"]);
}

#[test]
fn launch_extra_args_precede_executable_and_target_args_follow() {
    let argv = launch_argv(
        Some("t.exe"),
        &["1".into(), "2".into()],
        false,
        true,
        None,
        &["-lines".into()],
    )
    .unwrap();
    assert_eq!(argv, vec!["-lines", "t.exe", "1", "2"]);
}

#[test]
fn launch_rejects_non_utf8_executable() {
    let err = launch_argv(None, &[], false, true, None, &[]).unwrap_err();
    assert_eq!(err, Error::Other("non-utf8 executable path".into()));
    assert_eq!(err.to_string(), "non-utf8 executable path");
}
