use windbgr_mcp::error::Error;
use windbgr_mcp::privilege::{detect_privilege, PrivilegeLevel};

#[test]
fn display_user() {
    assert_eq!(PrivilegeLevel::User.to_string(), "user");
}

#[test]
fn display_admin() {
    assert_eq!(PrivilegeLevel::Admin.to_string(), "admin");
}

#[test]
fn is_admin() {
    assert!(!PrivilegeLevel::User.is_admin());
    assert!(PrivilegeLevel::Admin.is_admin());
}

#[test]
fn description_not_empty() {
    assert!(!PrivilegeLevel::User.description().is_empty());
    assert!(!PrivilegeLevel::Admin.description().is_empty());
}

#[test]
fn descriptions_are_exact() {
    assert_eq!(
        PrivilegeLevel::User.description(),
        "normal user \u{2014} can debug own processes only"
    );
    assert_eq!(
        PrivilegeLevel::Admin.description(),
        "elevated administrator \u{2014} can debug services and other users\u{2019} processes"
    );
}

#[test]
fn admin_only_when_debug_privilege_enabled() {
    assert_eq!(detect_privilege(Ok(true)), PrivilegeLevel::Admin);
    assert_eq!(detect_privilege(Ok(false)), PrivilegeLevel::User);
    assert_eq!(
        detect_privilege(Err(Error::WindowsApi("OpenProcessToken failed: 5".into()))),
        PrivilegeLevel::User
    );
}
