//! Response shapes of the process-discovery service.

use vstd::prelude::*;

verus! {

#[derive(Debug, Clone)]
pub struct ProcessMatch {
    pub pid: u32,
    pub parent_pid: u32,
    pub image_name: String,
    /// Text of the executable's full path, when it could be queried.
    pub image_path: Option<String>,
    pub threads: u32,
    pub matched_modules: Vec<ModuleMatch>,
    /// One of: `ok`, `partial`. Failure cases live in
    /// [`FindResult::skipped_processes`] instead.
    pub enumeration_status: String,
}

#[derive(Debug, Clone)]
pub struct ModuleMatch {
    pub name: String,
    pub path: String,
    pub base: usize,
    pub size: usize,
    pub pattern: String,
}

#[derive(Debug, Clone)]
pub struct FindResult {
    pub matches: Vec<ProcessMatch>,
    pub total_processes: usize,
    pub skipped_processes: Vec<SkippedProcess>,
}

#[derive(Debug, Clone)]
pub struct SkippedProcess {
    pub pid: u32,
    pub image_name: String,
    pub reason: String,
    /// One of: `access_denied`, `enumeration_failed`.
    pub kind: String,
}

#[derive(Debug, Clone)]
pub struct ProcessSummary {
    pub pid: u32,
    pub image_name: String,
    pub parent_pid: u32,
    pub threads: u32,
}

/// Response wrapper for `process_list`: the snapshot together with its
/// size.
#[derive(Debug, Clone)]
pub struct ProcessListResult {
    pub processes: Vec<ProcessSummary>,
    pub total_processes: usize,
}

} // verus!
