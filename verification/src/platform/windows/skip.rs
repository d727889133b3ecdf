//! Reasons a particular PID could not be inspected by the discovery service.
//!
//! There is intentionally no separate "protected" classification. Kernel
//! minimal processes and PPL services all surface as
//! [`SkipReason::AccessDenied`] when opening them fails, which is the same
//! actionable signal a normal permission failure would produce.

use vstd::prelude::*;

verus! {

#[derive(Debug, Clone)]
pub enum SkipReason {
    /// Opening the process (or a later enumeration call) was denied.
    AccessDenied,
    /// Other Win32 error returned by toolhelp / psapi.
    Other(String),
}

/// Stable `kind` token of a skip reason.
pub open spec fn skip_kind(r: SkipReason) -> Seq<char> {
    match r {
        SkipReason::AccessDenied => "access_denied"@,
        SkipReason::Other(_) => "enumeration_failed"@,
    }
}

/// Display text of a skip reason.
pub open spec fn skip_message(r: SkipReason) -> Seq<char> {
    match r {
        SkipReason::AccessDenied =>
            "access denied \u{2014} kernel-protected target or missing SeDebugPrivilege"@,
        SkipReason::Other(s) => s@,
    }
}

impl SkipReason {
    /// Stable `kind` token surfaced to MCP clients.
    pub fn kind(&self) -> (r: &'static str)
        ensures
            r@ == skip_kind(*self),
    {
        match self {
            SkipReason::AccessDenied => "access_denied",
            SkipReason::Other(_) => "enumeration_failed",
        }
    }

    /// The reason's display text.
    pub fn to_string(&self) -> (r: String)
        ensures
            r@ == skip_message(*self),
    {
        match self {
            SkipReason::AccessDenied => {
                "access denied \u{2014} kernel-protected target or missing SeDebugPrivilege".to_string()
            },
            SkipReason::Other(s) => s.clone(),
        }
    }
}

} // verus!
