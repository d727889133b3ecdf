//! Decisions of the MCP tool dispatcher: which timeout a command runs
//! with, how tool arguments become session options, and how attach
//! failures are explained to an unprivileged user.

use vstd::prelude::*;

use crate::cdb::session::{AttachOptions, LaunchOptions};
use crate::error::{error_message, Error};
use crate::mcp::tools::{DebugAttachArgs, DebugLaunchArgs};
use crate::privilege::PrivilegeLevel;
use crate::text::push_str;

verus! {

/// The timeout a `debug_command` runs with: the requested one, or the
/// configured default when zero was requested.
pub fn effective_command_timeout(requested_ms: u64, configured_ms: u64) -> (r: u64)
    ensures
        r == if requested_ms == 0 {
            configured_ms
        } else {
            requested_ms
        },
{
    if requested_ms == 0 {
        configured_ms
    } else {
        requested_ms
    }
}

/// The session options a `debug_attach` call asks for.
pub fn attach_options(args: DebugAttachArgs) -> (o: AttachOptions)
    ensures
        o.pid == args.pid,
        o.noninvasive == args.noninvasive,
        o.initial_break == args.initial_break,
        o.symbol_path == args.symbol_path,
        o.extra_args == args.extra_args,
{
    AttachOptions {
        pid: args.pid,
        noninvasive: args.noninvasive,
        initial_break: args.initial_break,
        symbol_path: args.symbol_path,
        extra_args: args.extra_args,
    }
}

/// The session options a `debug_launch` call asks for.
pub fn launch_options(args: DebugLaunchArgs) -> (o: LaunchOptions)
    ensures
        o.executable == args.executable,
        o.args == args.args,
        o.cwd == args.cwd,
        o.env == args.env,
        o.debug_children == args.debug_children,
        o.initial_break == args.initial_break,
        o.symbol_path == args.symbol_path,
        o.extra_args == args.extra_args,
{
    LaunchOptions {
        executable: args.executable,
        args: args.args,
        cwd: args.cwd,
        env: args.env,
        debug_children: args.debug_children,
        initial_break: args.initial_break,
        symbol_path: args.symbol_path,
        extra_args: args.extra_args,
    }
}

/// The hint appended to attach failures that look like missing privilege.
pub open spec fn elevation_hint() -> Seq<char> {
    ". This process likely requires elevated privileges. Re-launch windbgr-mcp from an elevated Administrator prompt."@
}

/// Attach failures reported to a non-elevated user: `WindowsApi` and
/// `Timeout` errors (the variants privilege problems surface as) get an
/// actionable hint; everything else is passed through.
pub fn enrich_attach_error(privilege: PrivilegeLevel, err: Error) -> (r: Error)
    ensures
        (privilege == PrivilegeLevel::User && (err is WindowsApi || err is Timeout)) ==> (
        r matches Error::Other(m) && m@ == error_message(err) + elevation_hint()),
        !(privilege == PrivilegeLevel::User && (err is WindowsApi || err is Timeout)) ==> r == err,
{
    if privilege.is_admin() {
        return err;
    }
    let actionable = match &err {
        Error::WindowsApi(_) | Error::Timeout(_) => true,
        _ => false,
    };
    if actionable {
        let mut m = err.to_string();
        push_str(
            &mut m,
            ". This process likely requires elevated privileges. Re-launch windbgr-mcp from an elevated Administrator prompt.",
        );
        Error::Other(m)
    } else {
        err
    }
}

} // verus!
