use windbgr_mcp::process::matcher::{ModuleMatcher, ModulePattern};

#[test]
fn empty_input_yields_empty_matcher() {
    let m = ModuleMatcher::from_raw(&["", "  "]);
    assert!(m.is_empty());
}

#[test]
fn matches_exact_name_case_insensitive() {
    let m = ModuleMatcher::from_raw(&["NTDLL.DLL"]);
    assert!(m
        .first_match("ntdll.dll", "c:/windows/system32/ntdll.dll")
        .is_some());
}

#[test]
fn matches_path_suffix() {
    let m = ModuleMatcher::from_raw(&["system32/ntdll.dll"]);
    assert!(m
        .first_match("ntdll.dll", "c:/windows/system32/ntdll.dll")
        .is_some());
}

#[test]
fn returns_first_matching_pattern() {
    let m = ModuleMatcher::from_raw(&["ntdll", "kernelbase"]);
    let hit = m
        .first_match("ntdll.dll", "c:/windows/system32/ntdll.dll")
        .unwrap();
    assert_eq!(hit.original, "ntdll");
}

#[test]
fn no_match_returns_none() {
    let m = ModuleMatcher::from_raw(&["foobar"]);
    assert!(m.first_match("ntdll.dll", "c:/x/ntdll.dll").is_none());
}

#[test]
fn parse_trims_and_lowercases() {
    let p = ModulePattern::parse("  KernelBase.DLL ").unwrap();
    assert_eq!(p.original, "KernelBase.DLL");
    assert_eq!(p.needle, "kernelbase.dll");
    assert!(ModulePattern::parse(" \t ").is_none());
}

#[test]
fn pattern_matches_name_substring_and_path_containment() {
    let p = ModulePattern::parse("NTDLL").unwrap();
    assert!(p.matches_name("ntdll.dll"));
    assert!(!p.matches_name("kernel32.dll"));
    assert!(p.matches_path("c:/windows/system32/ntdll.dll"));
    assert!(!p.matches_path("c:/windows/system32/kernel32.dll"));
}

#[test]
fn later_pattern_matches_when_first_does_not() {
    let m = ModuleMatcher::from_raw(&["foobar", "", "KERNEL32"]);
    let hit = m
        .first_match("kernel32.dll", "c:/windows/system32/kernel32.dll")
        .unwrap();
    assert_eq!(hit.original, "KERNEL32");
    assert_eq!(hit.needle, "kernel32");
}
