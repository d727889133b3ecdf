//! Single source of truth for the MCP tools exposed by this server.
//!
//! Both the catalog sent over the wire and the dispatcher consult
//! [`ToolName`], so adding or renaming a tool touches exactly one place.

use vstd::prelude::*;

use crate::text::{chars_eq, chars_of};

verus! {

/// The tools this server offers.
#[derive(Debug, Clone, Copy, PartialEq, Eq, Structural)]
pub enum ToolName {
    ProcessFindByModule,
    ProcessList,
    DebugAttach,
    DebugLaunch,
    DebugCommand,
    DebugControl,
    DebugOutput,
    DebugStatus,
    DebugListSessions,
    DebugWaitBreak,
    DebugStop,
}

/// Stable wire-level name of a tool.
pub open spec fn tool_name(t: ToolName) -> Seq<char> {
    match t {
        ToolName::ProcessFindByModule => "process_find_by_module"@,
        ToolName::ProcessList => "process_list"@,
        ToolName::DebugAttach => "debug_attach"@,
        ToolName::DebugLaunch => "debug_launch"@,
        ToolName::DebugCommand => "debug_command"@,
        ToolName::DebugControl => "debug_control"@,
        ToolName::DebugOutput => "debug_output"@,
        ToolName::DebugStatus => "debug_status"@,
        ToolName::DebugListSessions => "debug_list_sessions"@,
        ToolName::DebugWaitBreak => "debug_wait_break"@,
        ToolName::DebugStop => "debug_stop"@,
    }
}

/// What a tool does, as the catalog describes it to clients.
pub open spec fn tool_description(t: ToolName) -> Seq<char> {
    match t {
        ToolName::ProcessFindByModule =>
            "Enumerate processes and modules via Windows APIs and return matches whose loaded modules contain any of the requested name patterns (case-insensitive substring match on module name or path)."@,
        ToolName::ProcessList =>
            "Enumerate every running Windows process via toolhelp32 and return `pid`, `image_name`, `parent_pid`, and thread count. Lighter weight than `process_find_by_module` because it does not open each process to inspect modules; use this tool for fast `pid` discovery before calling `debug_attach`."@,
        ToolName::DebugAttach =>
            "Attach cdb.exe to an existing Windows process by PID and create a new debugging session. Returns a `session_id` to use with the other `debug_*` tools."@,
        ToolName::DebugLaunch =>
            "Launch a new process under cdb.exe and create a new debugging session. Use for spawning Windows executables with full debug control. Returns a `session_id`."@,
        ToolName::DebugCommand =>
            "Send a cdb command to a session whose target is stopped at a debugger prompt. Collects output until the next prompt or until `timeout_ms` elapses. Do not use while the session is Running; use `debug_control` with `break` first."@,
        ToolName::DebugControl =>
            "Control a debugging session: `continue` resumes target execution (equivalent to `g`); `break` and `interrupt_command` fire CTRL+BREAK at the cdb process group to stop target/command."@,
        ToolName::DebugOutput =>
            "Read buffered cdb stdout/stderr for a session starting at `since_offset`. Use this for paginating long command output."@,
        ToolName::DebugStatus =>
            "Return the current state of a debugging session."@,
        ToolName::DebugListSessions =>
            "List every currently active debugging session managed by this server. Sessions in `Stopped` or `Failed` state are pruned before the list is returned, so only ids that can still accept `debug_*` calls are reported. No automatic idle timeout: use `debug_stop` to release a session."@,
        ToolName::DebugWaitBreak =>
            "Block until the session returns to the debugger prompt (breakpoint hit, exception, CTRL+BREAK or target exit). Use after `debug_control(continue)` to wait for a breakpoint to fire before issuing further `debug_command` calls."@,
        ToolName::DebugStop =>
            "Stop a debugging session. `detach` sends `qd` (leaves target running); `terminate_target` sends `q` (kills target); `kill_debugger` only kills the cdb child as a last-resort cleanup."@,
    }
}

/// The tool a wire-level name denotes.
pub open spec fn tool_of_name(s: Seq<char>) -> Option<ToolName> {
    if s == "process_find_by_module"@ {
        Some(ToolName::ProcessFindByModule)
    } else if s == "process_list"@ {
        Some(ToolName::ProcessList)
    } else if s == "debug_attach"@ {
        Some(ToolName::DebugAttach)
    } else if s == "debug_launch"@ {
        Some(ToolName::DebugLaunch)
    } else if s == "debug_command"@ {
        Some(ToolName::DebugCommand)
    } else if s == "debug_control"@ {
        Some(ToolName::DebugControl)
    } else if s == "debug_output"@ {
        Some(ToolName::DebugOutput)
    } else if s == "debug_status"@ {
        Some(ToolName::DebugStatus)
    } else if s == "debug_list_sessions"@ {
        Some(ToolName::DebugListSessions)
    } else if s == "debug_wait_break"@ {
        Some(ToolName::DebugWaitBreak)
    } else if s == "debug_stop"@ {
        Some(ToolName::DebugStop)
    } else {
        None
    }
}

/// Tools that only read state.
pub open spec fn tool_read_only(t: ToolName) -> bool {
    match t {
        ToolName::ProcessFindByModule | ToolName::ProcessList | ToolName::DebugOutput
        | ToolName::DebugStatus | ToolName::DebugListSessions | ToolName::DebugWaitBreak => true,
        _ => false,
    }
}

/// Every tool, in catalog order.
pub open spec fn all_tools() -> Seq<ToolName> {
    seq![
        ToolName::ProcessFindByModule,
        ToolName::ProcessList,
        ToolName::DebugAttach,
        ToolName::DebugLaunch,
        ToolName::DebugCommand,
        ToolName::DebugControl,
        ToolName::DebugOutput,
        ToolName::DebugStatus,
        ToolName::DebugListSessions,
        ToolName::DebugWaitBreak,
        ToolName::DebugStop,
    ]
}

fn is_name(c: &Vec<char>, name: &str) -> (r: bool)
    ensures
        r == (c@ == name@),
{
    let n = chars_of(name);
    chars_eq(c.as_slice(), n.as_slice())
}

impl ToolName {
    /// The tool's wire-level name.
    pub fn as_str(self) -> (r: &'static str)
        ensures
            r@ == tool_name(self),
    {
        match self {
            ToolName::ProcessFindByModule => "process_find_by_module",
            ToolName::ProcessList => "process_list",
            ToolName::DebugAttach => "debug_attach",
            ToolName::DebugLaunch => "debug_launch",
            ToolName::DebugCommand => "debug_command",
            ToolName::DebugControl => "debug_control",
            ToolName::DebugOutput => "debug_output",
            ToolName::DebugStatus => "debug_status",
            ToolName::DebugListSessions => "debug_list_sessions",
            ToolName::DebugWaitBreak => "debug_wait_break",
            ToolName::DebugStop => "debug_stop",
        }
    }

    /// What the tool does, as the catalog describes it to clients.
    pub fn description(self) -> (r: &'static str)
        ensures
            r@ == tool_description(self),
    {
        match self {
            ToolName::ProcessFindByModule =>
                "Enumerate processes and modules via Windows APIs and return matches whose loaded modules contain any of the requested name patterns (case-insensitive substring match on module name or path).",
            ToolName::ProcessList =>
                "Enumerate every running Windows process via toolhelp32 and return `pid`, `image_name`, `parent_pid`, and thread count. Lighter weight than `process_find_by_module` because it does not open each process to inspect modules; use this tool for fast `pid` discovery before calling `debug_attach`.",
            ToolName::DebugAttach =>
                "Attach cdb.exe to an existing Windows process by PID and create a new debugging session. Returns a `session_id` to use with the other `debug_*` tools.",
            ToolName::DebugLaunch =>
                "Launch a new process under cdb.exe and create a new debugging session. Use for spawning Windows executables with full debug control. Returns a `session_id`.",
            ToolName::DebugCommand =>
                "Send a cdb command to a session whose target is stopped at a debugger prompt. Collects output until the next prompt or until `timeout_ms` elapses. Do not use while the session is Running; use `debug_control` with `break` first.",
            ToolName::DebugControl =>
                "Control a debugging session: `continue` resumes target execution (equivalent to `g`); `break` and `interrupt_command` fire CTRL+BREAK at the cdb process group to stop target/command.",
            ToolName::DebugOutput =>
                "Read buffered cdb stdout/stderr for a session starting at `since_offset`. Use this for paginating long command output.",
            ToolName::DebugStatus =>
                "Return the current state of a debugging session.",
            ToolName::DebugListSessions =>
                "List every currently active debugging session managed by this server. Sessions in `Stopped` or `Failed` state are pruned before the list is returned, so only ids that can still accept `debug_*` calls are reported. No automatic idle timeout: use `debug_stop` to release a session.",
            ToolName::DebugWaitBreak =>
                "Block until the session returns to the debugger prompt (breakpoint hit, exception, CTRL+BREAK or target exit). Use after `debug_control(continue)` to wait for a breakpoint to fire before issuing further `debug_command` calls.",
            ToolName::DebugStop =>
                "Stop a debugging session. `detach` sends `qd` (leaves target running); `terminate_target` sends `q` (kills target); `kill_debugger` only kills the cdb child as a last-resort cleanup.",
        }
    }

    /// The tool with this wire-level name, if any.
    pub fn parse(name: &str) -> (r: Option<ToolName>)
        ensures
            r == tool_of_name(name@),
    {
        let c = chars_of(name);
        if is_name(&c, "process_find_by_module") {
            Some(ToolName::ProcessFindByModule)
        } else if is_name(&c, "process_list") {
            Some(ToolName::ProcessList)
        } else if is_name(&c, "debug_attach") {
            Some(ToolName::DebugAttach)
        } else if is_name(&c, "debug_launch") {
            Some(ToolName::DebugLaunch)
        } else if is_name(&c, "debug_command") {
            Some(ToolName::DebugCommand)
        } else if is_name(&c, "debug_control") {
            Some(ToolName::DebugControl)
        } else if is_name(&c, "debug_output") {
            Some(ToolName::DebugOutput)
        } else if is_name(&c, "debug_status") {
            Some(ToolName::DebugStatus)
        } else if is_name(&c, "debug_list_sessions") {
            Some(ToolName::DebugListSessions)
        } else if is_name(&c, "debug_wait_break") {
            Some(ToolName::DebugWaitBreak)
        } else if is_name(&c, "debug_stop") {
            Some(ToolName::DebugStop)
        } else {
            None
        }
    }

    /// The tool only reads state (it is annotated read-only and
    /// non-destructive; every other tool is destructive).
    pub fn read_only(self) -> (r: bool)
        ensures
            r == tool_read_only(self),
    {
        match self {
            ToolName::ProcessFindByModule | ToolName::ProcessList | ToolName::DebugOutput
            | ToolName::DebugStatus | ToolName::DebugListSessions | ToolName::DebugWaitBreak => true,
            _ => false,
        }
    }

    /// Every tool, in catalog order.
    pub fn all() -> (r: Vec<ToolName>)
        ensures
            r@ == all_tools(),
    {
        let r = vec![
            ToolName::ProcessFindByModule,
            ToolName::ProcessList,
            ToolName::DebugAttach,
            ToolName::DebugLaunch,
            ToolName::DebugCommand,
            ToolName::DebugControl,
            ToolName::DebugOutput,
            ToolName::DebugStatus,
            ToolName::DebugListSessions,
            ToolName::DebugWaitBreak,
            ToolName::DebugStop,
        ];
        assert(r@ =~= all_tools());
        r
    }
}

/// Reading back a tool's name gives the tool: names identify tools, so no
/// two tools share a name.
pub proof fn law_tool_name_roundtrip(t: ToolName)
    ensures
        tool_of_name(tool_name(t)) == Some(t),
{
    reveal_strlit("process_find_by_module");
    reveal_strlit("process_list");
    reveal_strlit("debug_attach");
    reveal_strlit("debug_launch");
    reveal_strlit("debug_command");
    reveal_strlit("debug_control");
    reveal_strlit("debug_output");
    reveal_strlit("debug_status");
    reveal_strlit("debug_list_sessions");
    reveal_strlit("debug_wait_break");
    reveal_strlit("debug_stop");
    assert("process_find_by_module"@.len() == 22 && "process_find_by_module"@[0] == 'p' && "process_find_by_module"@[6] == 's' && "process_find_by_module"@[8] == 'f');
    assert("process_list"@.len() == 12 && "process_list"@[0] == 'p' && "process_list"@[6] == 's' && "process_list"@[8] == 'l');
    assert("debug_attach"@.len() == 12 && "debug_attach"@[0] == 'd' && "debug_attach"@[6] == 'a' && "debug_attach"@[8] == 't');
    assert("debug_launch"@.len() == 12 && "debug_launch"@[0] == 'd' && "debug_launch"@[6] == 'l' && "debug_launch"@[8] == 'u');
    assert("debug_command"@.len() == 13 && "debug_command"@[0] == 'd' && "debug_command"@[6] == 'c' && "debug_command"@[8] == 'm');
    assert("debug_control"@.len() == 13 && "debug_control"@[0] == 'd' && "debug_control"@[6] == 'c' && "debug_control"@[8] == 'n');
    assert("debug_output"@.len() == 12 && "debug_output"@[0] == 'd' && "debug_output"@[6] == 'o' && "debug_output"@[8] == 't');
    assert("debug_status"@.len() == 12 && "debug_status"@[0] == 'd' && "debug_status"@[6] == 's' && "debug_status"@[8] == 'a');
    assert("debug_list_sessions"@.len() == 19 && "debug_list_sessions"@[0] == 'd' && "debug_list_sessions"@[6] == 'l' && "debug_list_sessions"@[8] == 's');
    assert("debug_wait_break"@.len() == 16 && "debug_wait_break"@[0] == 'd' && "debug_wait_break"@[6] == 'w' && "debug_wait_break"@[8] == 'i');
    assert("debug_stop"@.len() == 10 && "debug_stop"@[0] == 'd' && "debug_stop"@[6] == 's' && "debug_stop"@[8] == 'o');
}

/// The catalog lists every tool exactly once.
pub proof fn law_catalog_complete_and_unique(t: ToolName)
    ensures
        all_tools().contains(t),
        forall|i: int, j: int|
            0 <= i < j < all_tools().len() ==> #[trigger] all_tools()[i] != #[trigger] all_tools()[j],
{
    let a = all_tools();
    match t {
        ToolName::ProcessFindByModule => assert(a[0] == t),
        ToolName::ProcessList => assert(a[1] == t),
        ToolName::DebugAttach => assert(a[2] == t),
        ToolName::DebugLaunch => assert(a[3] == t),
        ToolName::DebugCommand => assert(a[4] == t),
        ToolName::DebugControl => assert(a[5] == t),
        ToolName::DebugOutput => assert(a[6] == t),
        ToolName::DebugStatus => assert(a[7] == t),
        ToolName::DebugListSessions => assert(a[8] == t),
        ToolName::DebugWaitBreak => assert(a[9] == t),
        ToolName::DebugStop => assert(a[10] == t),
    }
}

} // verus!
