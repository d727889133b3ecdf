//! Module enumeration outcomes. The toolhelp snapshot is tried first and
//! `EnumProcessModulesEx` + `GetModuleFileNameExW` (psapi) is the fallback.
//!
//! Failure cases are normalised by the underlying Win32 error code (in
//! particular `ERROR_ACCESS_DENIED`), not by parsing error messages.

use vstd::prelude::*;

use crate::error::Error;
use crate::platform::windows::skip::{skip_message, SkipReason};
use crate::text::push_str;

verus! {

/// One module loaded by a process.
#[derive(Debug, Clone)]
pub struct ModuleInfo {
    pub name: String,
    /// Text of the module's file path.
    pub path: String,
    pub base: usize,
    pub size: usize,
}

/// How one enumeration strategy failed.
#[derive(Debug, Clone)]
pub enum EnumOutcome {
    AccessDenied,
    Failed(String),
}

/// Win32 `ERROR_ACCESS_DENIED`.
pub const ERROR_ACCESS_DENIED: u32 = 5;

/// Classify a Win32 error code: access denied, or a failure with `msg`.
pub fn classify_error(code: u32, msg: String) -> (r: EnumOutcome)
    ensures
        code == ERROR_ACCESS_DENIED ==> r is AccessDenied,
        code != ERROR_ACCESS_DENIED ==> r == EnumOutcome::Failed(msg),
{
    if code == ERROR_ACCESS_DENIED {
        EnumOutcome::AccessDenied
    } else {
        EnumOutcome::Failed(msg)
    }
}

/// The toolhelp attempt failed for a reason other than access denial, so
/// psapi must be tried.
pub open spec fn fallback_needed(toolhelp: Result<Vec<ModuleInfo>, EnumOutcome>) -> bool {
    toolhelp matches Err(EnumOutcome::Failed(_))
}

pub fn needs_psapi_fallback(toolhelp: &Result<Vec<ModuleInfo>, EnumOutcome>) -> (r: bool)
    ensures
        r == fallback_needed(*toolhelp),
{
    match toolhelp {
        Err(EnumOutcome::Failed(_)) => true,
        _ => false,
    }
}

/// The modules of a process, or why it was skipped, from the toolhelp
/// outcome and (when toolhelp failed otherwise than by access denial) the
/// psapi outcome.
pub open spec fn modules_or_skip(
    toolhelp: Result<Vec<ModuleInfo>, EnumOutcome>,
    psapi: Option<Result<Vec<ModuleInfo>, EnumOutcome>>,
    r: Result<Vec<ModuleInfo>, SkipReason>,
) -> bool {
    match toolhelp {
        Ok(list) => r == Ok::<Vec<ModuleInfo>, SkipReason>(list),
        Err(EnumOutcome::AccessDenied) => r matches Err(SkipReason::AccessDenied),
        Err(EnumOutcome::Failed(first)) => match psapi {
            Some(Ok(list)) => r == Ok::<Vec<ModuleInfo>, SkipReason>(list),
            Some(Err(EnumOutcome::AccessDenied)) => r matches Err(SkipReason::AccessDenied),
            Some(Err(EnumOutcome::Failed(second))) => r matches Err(SkipReason::Other(m)) && m@
                == "toolhelp="@ + first@ + "; psapi="@ + second@,
            None => false,
        },
    }
}

/// Same as [`enum_modules`] but returns a structured [`SkipReason`] when the
/// process cannot be inspected.
pub fn enum_modules_with_skip(
    toolhelp: Result<Vec<ModuleInfo>, EnumOutcome>,
    psapi: Option<Result<Vec<ModuleInfo>, EnumOutcome>>,
) -> (r: Result<Vec<ModuleInfo>, SkipReason>)
    requires
        fallback_needed(toolhelp) ==> psapi is Some,
    ensures
        modules_or_skip(toolhelp, psapi, r),
{
    match toolhelp {
        Ok(list) => Ok(list),
        Err(EnumOutcome::AccessDenied) => Err(SkipReason::AccessDenied),
        Err(EnumOutcome::Failed(first)) => match psapi {
            Some(Ok(list)) => Ok(list),
            Some(Err(EnumOutcome::AccessDenied)) => Err(SkipReason::AccessDenied),
            Some(Err(EnumOutcome::Failed(second))) => {
                let mut m = String::new();
                push_str(&mut m, "toolhelp=");
                push_str(&mut m, first.as_str());
                push_str(&mut m, "; psapi=");
                push_str(&mut m, second.as_str());
                Err(SkipReason::Other(m))
            },
            None => Err(SkipReason::Other(first)),
        },
    }
}

/// Enumerate the modules of a process, for callers that don't need the
/// structured skip reason: a skipped process is a `WindowsApi` error.
pub fn enum_modules(
    toolhelp: Result<Vec<ModuleInfo>, EnumOutcome>,
    psapi: Option<Result<Vec<ModuleInfo>, EnumOutcome>>,
) -> (r: Result<Vec<ModuleInfo>, Error>)
    requires
        fallback_needed(toolhelp) ==> psapi is Some,
    ensures
        exists|s: Result<Vec<ModuleInfo>, SkipReason>|
            #[trigger] modules_or_skip(toolhelp, psapi, s) && match s {
                Ok(list) => r == Ok::<Vec<ModuleInfo>, Error>(list),
                Err(reason) => r matches Err(Error::WindowsApi(m)) && m@ == skip_message(reason),
            },
{
    match enum_modules_with_skip(toolhelp, psapi) {
        Ok(list) => Ok(list),
        Err(reason) => Err(Error::WindowsApi(reason.to_string())),
    }
}

} // verus!
