use windbgr_mcp::platform::windows::modules::ModuleInfo;
use windbgr_mcp::platform::windows::process::ProcessInfo;
use windbgr_mcp::platform::windows::skip::SkipReason;
use windbgr_mcp::process::service::{
    find_processes_by_module, is_pseudo_pid, list_processes, list_processes_result, ProcessProbe,
};

fn info(pid: u32, name: &str) -> ProcessInfo {
    ProcessInfo { pid, image_name: name.into(), parent_pid: 1, threads: 3 }
}

fn module(name: &str, path: &str) -> ModuleInfo {
    ModuleInfo { name: name.into(), path: path.into(), base: 0x1000, size: 0x2000 }
}

fn probe(pid: u32, name: &str, modules: Result<Vec<ModuleInfo>, SkipReason>) -> ProcessProbe {
    ProcessProbe {
        info: info(pid, name),
        modules,
        image_path: Some(format!("C:/apps/{name}")),
    }
}

fn snapshot() -> Vec<ProcessProbe> {
    vec![
        probe(0, "[System Process]", Ok(vec![module("ntdll.dll", "c:/x/ntdll.dll")])),
        probe(4, "System", Err(SkipReason::AccessDenied)),
        probe(
            100,
            "app.exe",
            Ok(vec![
                module("app.exe", "C:/apps/app.exe"),
                module("NTDLL.DLL", "C:/Windows/System32/NTDLL.DLL"),
                module("kernel32.dll", "C:/Windows/System32/kernel32.dll"),
            ]),
        ),
        probe(200, "svc.exe", Err(SkipReason::AccessDenied)),
        probe(300, "tool.exe", Ok(vec![module("tool.exe", "C:/apps/tool.exe")])),
        probe(400, "odd.exe", Err(SkipReason::Other("toolhelp=x; psapi=y".into()))),
    ]
}

#[test]
fn pseudo_pids_are_idle_and_system() {
    assert!(is_pseudo_pid(0));
    assert!(is_pseudo_pid(4));
    assert!(!is_pseudo_pid(8));
}

#[test]
fn find_reports_matches_and_skips_in_snapshot_order() {
    let r = find_processes_by_module(&["ntdll".to_string(), "KERNEL32".to_string()], &snapshot());
    assert_eq!(r.total_processes, 6);
    assert_eq!(r.matches.len(), 1);
    let m = &r.matches[0];
    assert_eq!(m.pid, 100);
    assert_eq!(m.image_name, "app.exe");
    assert_eq!(m.image_path.as_deref(), Some("C:/apps/app.exe"));
    assert_eq!(m.enumeration_status, "ok");
    assert_eq!(m.matched_modules.len(), 2);
    assert_eq!(m.matched_modules[0].name, "NTDLL.DLL");
    assert_eq!(m.matched_modules[0].pattern, "ntdll");
    assert_eq!(m.matched_modules[1].name, "kernel32.dll");
    assert_eq!(m.matched_modules[1].pattern, "KERNEL32");
    assert_eq!(r.skipped_processes.len(), 2);
    assert_eq!(r.skipped_processes[0].pid, 200);
    assert_eq!(r.skipped_processes[0].kind, "access_denied");
    assert_eq!(
        r.skipped_processes[0].reason,
        "access denied \u{2014} kernel-protected target or missing SeDebugPrivilege"
    );
    assert_eq!(r.skipped_processes[1].pid, 400);
    assert_eq!(r.skipped_processes[1].kind, "enumeration_failed");
    assert_eq!(r.skipped_processes[1].reason, "toolhelp=x; psapi=y");
}

#[test]
fn blank_patterns_match_nothing() {
    let r = find_processes_by_module(&[" ".to_string(), String::new()], &snapshot());
    assert_eq!(r.total_processes, 6);
    assert!(r.matches.is_empty());
    assert!(r.skipped_processes.is_empty());
}

#[test]
fn path_substring_pattern_matches() {
    let r = find_processes_by_module(&["apps/tool".to_string()], &snapshot());
    assert_eq!(r.matches.len(), 1);
    assert_eq!(r.matches[0].pid, 300);
    assert_eq!(r.matches[0].matched_modules[0].path, "C:/apps/tool.exe");
}

#[test]
fn list_keeps_every_process_in_order() {
    let procs = vec![info(0, "[System Process]"), info(4, "System"), info(77, "a.exe")];
    let l = list_processes(&procs);
    assert_eq!(l.len(), 3);
    assert_eq!(l[2].pid, 77);
    assert_eq!(l[2].image_name, "a.exe");
    assert_eq!(l[2].parent_pid, 1);
    assert_eq!(l[2].threads, 3);
    let r = list_processes_result(&procs);
    assert_eq!(r.total_processes, 3);
    assert_eq!(r.processes.len(), 3);
    assert_eq!(r.processes[0].image_name, "[System Process]");
}
