//! Runtime privilege-level classification.
//!
//! Windows processes running non-elevated can only debug processes owned by
//! the same user session. Elevated Administrator processes with
//! `SeDebugPrivilege` can additionally debug system services, other users'
//! processes, etc. The level is decided once at startup from the attempt to
//! enable `SeDebugPrivilege` and never changes afterwards.

use vstd::prelude::*;

use crate::error::Error;

verus! {

/// Describes what the server process is allowed to debug.
#[derive(Debug, Clone, Copy, PartialEq, Eq, Structural)]
pub enum PrivilegeLevel {
    /// Normal (non-elevated) user. Can debug processes owned by the same
    /// user in the same session.
    User,
    /// Elevated Administrator with `SeDebugPrivilege`. Can debug nearly any
    /// user-mode process including system services.
    Admin,
}

/// Text a privilege level displays as.
pub open spec fn privilege_name(p: PrivilegeLevel) -> Seq<char> {
    match p {
        PrivilegeLevel::User => "user"@,
        PrivilegeLevel::Admin => "admin"@,
    }
}

/// Human-readable description of a privilege level.
pub open spec fn privilege_description(p: PrivilegeLevel) -> Seq<char> {
    match p {
        PrivilegeLevel::User => "normal user \u{2014} can debug own processes only"@,
        PrivilegeLevel::Admin =>
            "elevated administrator \u{2014} can debug services and other users\u{2019} processes"@,
    }
}

impl PrivilegeLevel {
    pub fn is_admin(self) -> (r: bool)
        ensures
            r == (self == PrivilegeLevel::Admin),
    {
        self == PrivilegeLevel::Admin
    }

    pub fn description(self) -> (r: &'static str)
        ensures
            r@ == privilege_description(self),
    {
        match self {
            PrivilegeLevel::User => "normal user \u{2014} can debug own processes only",
            PrivilegeLevel::Admin =>
                "elevated administrator \u{2014} can debug services and other users\u{2019} processes",
        }
    }

    /// The level's display text (`user` / `admin`).
    pub fn to_string(self) -> (r: String)
        ensures
            r@ == privilege_name(self),
    {
        match self {
            PrivilegeLevel::User => "user".to_string(),
            PrivilegeLevel::Admin => "admin".to_string(),
        }
    }
}

/// Classify the process from the outcome of enabling `SeDebugPrivilege`:
/// [`PrivilegeLevel::Admin`] only when the privilege was enabled.
pub fn detect_privilege(se_debug: Result<bool, Error>) -> (r: PrivilegeLevel)
    ensures
        r == (if se_debug matches Ok(true) {
            PrivilegeLevel::Admin
        } else {
            PrivilegeLevel::User
        }),
{
    match se_debug {
        Ok(true) => PrivilegeLevel::Admin,
        _ => PrivilegeLevel::User,
    }
}

} // verus!
