//! Typed parameters of every MCP tool.

use vstd::prelude::*;

use crate::cdb::session::{ControlAction, StopMode};

verus! {

#[derive(Debug, Clone)]
pub struct ProcessFindByModuleArgs {
    /// One or more module patterns. Matching is case-insensitive and accepts
    /// either the module file name (e.g. `ntdll.dll`) or a substring of the
    /// full module path.
    pub modules: Vec<String>,
}

/// Arguments for `process_list`. Currently parameterless.
#[derive(Debug, Clone, Default)]
pub struct ProcessListArgs {}

/// Arguments for `debug_list_sessions`. Currently parameterless.
#[derive(Debug, Clone, Default)]
pub struct DebugListSessionsArgs {}

#[derive(Debug, Clone)]
pub struct DebugAttachArgs {
    pub pid: u32,
    pub noninvasive: bool,
    pub initial_break: bool,
    pub symbol_path: Option<String>,
    pub extra_args: Vec<String>,
}

#[derive(Debug, Clone)]
pub struct DebugLaunchArgs {
    /// Text of the executable's path.
    pub executable: String,
    pub args: Vec<String>,
    pub cwd: Option<String>,
    pub env: Vec<(String, String)>,
    pub debug_children: bool,
    pub initial_break: bool,
    pub symbol_path: Option<String>,
    pub extra_args: Vec<String>,
}

#[derive(Debug, Clone)]
pub struct DebugCommandArgs {
    pub session_id: String,
    pub command: String,
    /// Maximum time to wait for a cdb prompt. `0` uses the server's
    /// `debugger.command_timeout_ms` setting.
    pub timeout_ms: u64,
}

#[derive(Debug, Clone, Copy, PartialEq, Eq, Structural)]
pub enum DebugControlAction {
    Continue,
    Break,
    InterruptCommand,
}

/// The session control action a tool action stands for.
pub open spec fn control_action_of(v: DebugControlAction) -> ControlAction {
    match v {
        DebugControlAction::Continue => ControlAction::Continue,
        DebugControlAction::Break => ControlAction::Break,
        DebugControlAction::InterruptCommand => ControlAction::InterruptCommand,
    }
}

impl From<DebugControlAction> for ControlAction {
    fn from(v: DebugControlAction) -> (r: Self) {
        match v {
            DebugControlAction::Continue => ControlAction::Continue,
            DebugControlAction::Break => ControlAction::Break,
            DebugControlAction::InterruptCommand => ControlAction::InterruptCommand,
        }
    }
}

impl vstd::std_specs::convert::FromSpecImpl<DebugControlAction> for ControlAction {
    open spec fn obeys_from_spec() -> bool {
        true
    }

    open spec fn from_spec(v: DebugControlAction) -> ControlAction {
        control_action_of(v)
    }
}

#[derive(Debug, Clone)]
pub struct DebugControlArgs {
    pub session_id: String,
    pub action: DebugControlAction,
}

#[derive(Debug, Clone, Copy, PartialEq, Eq, Structural)]
pub enum DebugStopMode {
    Detach,
    TerminateTarget,
    KillDebugger,
}

/// The session stop mode a tool mode stands for.
pub open spec fn stop_mode_of(v: DebugStopMode) -> StopMode {
    match v {
        DebugStopMode::Detach => StopMode::Detach,
        DebugStopMode::TerminateTarget => StopMode::TerminateTarget,
        DebugStopMode::KillDebugger => StopMode::KillDebugger,
    }
}

impl From<DebugStopMode> for StopMode {
    fn from(v: DebugStopMode) -> (r: Self) {
        match v {
            DebugStopMode::Detach => StopMode::Detach,
            DebugStopMode::TerminateTarget => StopMode::TerminateTarget,
            DebugStopMode::KillDebugger => StopMode::KillDebugger,
        }
    }
}

impl vstd::std_specs::convert::FromSpecImpl<DebugStopMode> for StopMode {
    open spec fn obeys_from_spec() -> bool {
        true
    }

    open spec fn from_spec(v: DebugStopMode) -> StopMode {
        stop_mode_of(v)
    }
}

#[derive(Debug, Clone)]
pub struct DebugStopArgs {
    pub session_id: String,
    pub mode: DebugStopMode,
}

#[derive(Debug, Clone)]
pub struct DebugStatusArgs {
    pub session_id: String,
}

#[derive(Debug, Clone)]
pub struct DebugWaitBreakArgs {
    pub session_id: String,
    /// Maximum time to wait for the next break (breakpoint hit, exception,
    /// CTRL+BREAK, target exit). Defaults to 60 000 ms.
    pub timeout_ms: u64,
}

/// Default wait for `debug_wait_break`.
pub fn default_wait_timeout() -> (r: u64)
    ensures
        r == 60_000,
{
    60_000
}

#[derive(Debug, Clone)]
pub struct DebugOutputArgs {
    pub session_id: String,
    pub since_offset: u64,
    pub max_bytes: usize,
}

/// Default page size for `debug_output`.
pub fn default_output_bytes() -> (r: usize)
    ensures
        r == 16 * 1024,
{
    16 * 1024
}

} // verus!
