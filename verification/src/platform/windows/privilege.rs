//! Interpreting the attempt to enable `SeDebugPrivilege` on the process
//! token. The Win32 calls are made by the application; their outcome is
//! decided here.

use vstd::prelude::*;

use crate::error::Error;
use crate::text::{decimal, push_decimal, push_str};

verus! {

/// `AdjustTokenPrivileges` succeeds even when the privilege was not held;
/// `GetLastError` then reports `ERROR_NOT_ALL_ASSIGNED`.
pub const ERROR_NOT_ALL_ASSIGNED: u32 = 1300;

/// The Win32 call of the attempt that failed.
#[derive(Debug, Clone, Copy, PartialEq, Eq, Structural)]
pub enum TokenStep {
    OpenProcessToken,
    LookupPrivilegeValue,
    AdjustTokenPrivileges,
}

/// How a failed step is named in its error.
pub open spec fn step_text(s: TokenStep) -> Seq<char> {
    match s {
        TokenStep::OpenProcessToken => "OpenProcessToken"@,
        TokenStep::LookupPrivilegeValue => "LookupPrivilegeValueW(SeDebugPrivilege)"@,
        TokenStep::AdjustTokenPrivileges => "AdjustTokenPrivileges"@,
    }
}

/// The outcome of enabling `SeDebugPrivilege`: the step that failed with
/// its `GetLastError()` code, if any, and otherwise the `GetLastError()`
/// code read after `AdjustTokenPrivileges`. `Ok(true)` when the privilege
/// is now enabled, `Ok(false)` when the token does not hold it.
pub fn se_debug_outcome(failed: Option<(TokenStep, u32)>, last_error: u32) -> (r: Result<bool, Error>)
    ensures
        match failed {
            Some((step, code)) => r matches Err(Error::WindowsApi(m)) && m@ == step_text(step)
                + " failed: "@ + decimal(code as nat),
            None => r == Ok::<bool, Error>(last_error != ERROR_NOT_ALL_ASSIGNED),
        },
{
    match failed {
        Some((step, code)) => {
            let mut m = String::new();
            match step {
                TokenStep::OpenProcessToken => push_str(&mut m, "OpenProcessToken"),
                TokenStep::LookupPrivilegeValue => push_str(
                    &mut m,
                    "LookupPrivilegeValueW(SeDebugPrivilege)",
                ),
                TokenStep::AdjustTokenPrivileges => push_str(&mut m, "AdjustTokenPrivileges"),
            }
            push_str(&mut m, " failed: ");
            push_decimal(&mut m, code as u64);
            Err(Error::WindowsApi(m))
        },
        None => Ok(last_error != ERROR_NOT_ALL_ASSIGNED),
    }
}

} // verus!
