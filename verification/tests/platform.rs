use windbgr_mcp::platform::windows::privilege::{
    se_debug_outcome, TokenStep, ERROR_NOT_ALL_ASSIGNED,
};
use windbgr_mcp::error::Error;
use windbgr_mcp::platform::windows::handle::strip_nul;
use windbgr_mcp::platform::windows::modules::{
    classify_error, enum_modules, enum_modules_with_skip, needs_psapi_fallback, EnumOutcome,
    ModuleInfo, ERROR_ACCESS_DENIED,
};
use windbgr_mcp::platform::windows::skip::SkipReason;

fn one_module() -> Vec<ModuleInfo> {
    vec![ModuleInfo { name: "a.dll".into(), path: "c:/a.dll".into(), base: 16, size: 32 }]
}

#[test]
fn strip_nul_cuts_at_first_nul() {
    let buf: [u16; 6] = [97, 98, 0, 99, 0, 0];
    assert_eq!(strip_nul(&buf), &[97u16, 98]);
    let full: [u16; 2] = [1, 2];
    assert_eq!(strip_nul(&full), &[1u16, 2]);
    let empty: [u16; 0] = [];
    assert!(strip_nul(&empty).is_empty());
}

#[test]
fn classify_access_denied_by_code() {
    assert_eq!(ERROR_ACCESS_DENIED, 5);
    assert!(matches!(classify_error(5, "x".into()), EnumOutcome::AccessDenied));
    match classify_error(6, "handle".into()) {
        EnumOutcome::Failed(m) => assert_eq!(m, "handle"),
        other => panic!("unexpected {other:?}"),
    }
}

#[test]
fn fallback_only_after_other_failure() {
    assert!(!needs_psapi_fallback(&Ok(Vec::new())));
    assert!(!needs_psapi_fallback(&Err(EnumOutcome::AccessDenied)));
    assert!(needs_psapi_fallback(&Err(EnumOutcome::Failed("e".into()))));
}

#[test]
fn skip_reasons_combine_both_attempts() {
    let r = enum_modules_with_skip(Ok(one_module()), None).unwrap();
    assert_eq!(r[0].name, "a.dll");
    assert!(matches!(
        enum_modules_with_skip(Err(EnumOutcome::AccessDenied), None),
        Err(SkipReason::AccessDenied)
    ));
    let r = enum_modules_with_skip(Err(EnumOutcome::Failed("t".into())), Some(Ok(one_module())));
    assert_eq!(r.unwrap().len(), 1);
    assert!(matches!(
        enum_modules_with_skip(
            Err(EnumOutcome::Failed("t".into())),
            Some(Err(EnumOutcome::AccessDenied))
        ),
        Err(SkipReason::AccessDenied)
    ));
    match enum_modules_with_skip(
        Err(EnumOutcome::Failed("t1".into())),
        Some(Err(EnumOutcome::Failed("p2".into()))),
    ) {
        Err(SkipReason::Other(m)) => assert_eq!(m, "toolhelp=t1; psapi=p2"),
        other => panic!("unexpected {other:?}"),
    }
}

#[test]
fn enum_modules_reports_skips_as_windows_errors() {
    match enum_modules(Err(EnumOutcome::AccessDenied), None) {
        Err(Error::WindowsApi(m)) => assert_eq!(
            m,
            "access denied \u{2014} kernel-protected target or missing SeDebugPrivilege"
        ),
        other => panic!("unexpected {other:?}"),
    }
    assert_eq!(enum_modules(Ok(one_module()), None).unwrap().len(), 1);
}

#[test]
fn skip_reason_kinds() {
    assert_eq!(SkipReason::AccessDenied.kind(), "access_denied");
    assert_eq!(SkipReason::Other("boom".into()).kind(), "enumeration_failed");
    assert_eq!(SkipReason::Other("boom".into()).to_string(), "boom");
}

#[test]
fn debug_privilege_outcomes() {
    assert_eq!(se_debug_outcome(None, 0), Ok(true));
    assert_eq!(se_debug_outcome(None, ERROR_NOT_ALL_ASSIGNED), Ok(false));
    assert_eq!(
        se_debug_outcome(Some((TokenStep::OpenProcessToken, 5)), 0),
        Err(Error::WindowsApi("OpenProcessToken failed: 5".into()))
    );
    assert_eq!(
        se_debug_outcome(Some((TokenStep::LookupPrivilegeValue, 1313)), 0),
        Err(Error::WindowsApi("LookupPrivilegeValueW(SeDebugPrivilege) failed: 1313".into()))
    );
    assert_eq!(
        se_debug_outcome(Some((TokenStep::AdjustTokenPrivileges, 6)), 0),
        Err(Error::WindowsApi("AdjustTokenPrivileges failed: 6".into()))
    );
}
