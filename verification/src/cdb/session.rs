//! Public shapes of a cdb debugging session: its kind and state, the
//! options it is spawned with, the reports it produces, how a spawn is
//! planned, and when a caller waiting for the prompt is done waiting.

use vstd::prelude::*;

use crate::cdb::cli::{
    attach_argv, attach_argv_spec, launch_argv, launch_argv_spec, opt_view,
    strings_view,
};
use crate::error::Error;

verus! {

#[derive(Debug, Clone, Copy, PartialEq, Eq, Structural)]
pub enum SessionKind {
    Attach,
    Launch,
}

#[derive(Debug, Clone, Copy, PartialEq, Eq, Structural)]
pub enum SessionState {
    Starting,
    Idle,
    Executing,
    Running,
    Breaking,
    Stopped,
    Failed,
}

/// The name a state prints under (its `Debug` text).
pub open spec fn state_name(s: SessionState) -> Seq<char> {
    match s {
        SessionState::Starting => "Starting"@,
        SessionState::Idle => "Idle"@,
        SessionState::Executing => "Executing"@,
        SessionState::Running => "Running"@,
        SessionState::Breaking => "Breaking"@,
        SessionState::Stopped => "Stopped"@,
        SessionState::Failed => "Failed"@,
    }
}

/// A session still owns a live cdb child.
pub open spec fn state_is_active(s: SessionState) -> bool {
    !(s == SessionState::Stopped || s == SessionState::Failed)
}

impl SessionState {
    /// True when the session still owns a live cdb child and can be
    /// driven by `debug_*` tools. `Stopped` and `Failed` are inactive
    /// because the underlying child process has exited (or been killed)
    /// and the session id can no longer service requests.
    pub fn is_active(self) -> (r: bool)
        ensures
            r == state_is_active(self),
    {
        !(self == SessionState::Stopped || self == SessionState::Failed)
    }

    /// The state's name, as `{:?}` prints it.
    pub fn name(self) -> (r: String)
        ensures
            r@ == state_name(self),
    {
        match self {
            SessionState::Starting => "Starting".to_string(),
            SessionState::Idle => "Idle".to_string(),
            SessionState::Executing => "Executing".to_string(),
            SessionState::Running => "Running".to_string(),
            SessionState::Breaking => "Breaking".to_string(),
            SessionState::Stopped => "Stopped".to_string(),
            SessionState::Failed => "Failed".to_string(),
        }
    }
}

/// `e` reports that `action` is not allowed in state `st`.
pub open spec fn is_invalid_state(e: Error, st: SessionState, action: Seq<char>) -> bool {
    e matches Error::InvalidState { current, action: a } && current@ == state_name(st) && a@
        == action
}

/// The error for an action refused in the given state.
pub fn invalid_state(st: SessionState, action: &str) -> (e: Error)
    ensures
        is_invalid_state(e, st, action@),
{
    Error::InvalidState { current: st.name(), action: action.to_string() }
}

#[derive(Debug, Clone)]
pub struct SessionStatus {
    pub session_id: String,
    pub kind: SessionKind,
    pub state: SessionState,
    pub target_pid: Option<u32>,
    pub cdb_pid: u32,
    pub started_at: String,
    pub last_activity_at: String,
    pub output_total_bytes: u64,
    pub output_earliest_offset: u64,
    pub last_error: Option<String>,
    pub exit_status: Option<String>,
}

/// Lightweight session view used by `debug_list_sessions`.
#[derive(Debug, Clone)]
pub struct SessionSummary {
    pub session_id: String,
    pub kind: SessionKind,
    pub state: SessionState,
    pub target_pid: Option<u32>,
    pub cdb_pid: u32,
    pub started_at: String,
    pub last_error: Option<String>,
    pub exit_status: Option<String>,
}

/// The default `true` shared by every "do XYZ by default" flag.
pub fn default_true() -> (r: bool)
    ensures
        r,
{
    true
}

#[derive(Debug, Clone)]
pub struct AttachOptions {
    pub pid: u32,
    pub noninvasive: bool,
    pub initial_break: bool,
    pub symbol_path: Option<String>,
    pub extra_args: Vec<String>,
}

#[derive(Debug, Clone)]
pub struct LaunchOptions {
    /// Text of the executable's path.
    pub executable: String,
    pub args: Vec<String>,
    pub cwd: Option<String>,
    pub env: Vec<(String, String)>,
    pub debug_children: bool,
    pub initial_break: bool,
    pub symbol_path: Option<String>,
    pub extra_args: Vec<String>,
}

#[derive(Debug, Clone, Copy, PartialEq, Eq, Structural)]
pub enum ControlAction {
    Continue,
    Break,
    InterruptCommand,
}

#[derive(Debug, Clone, Copy, PartialEq, Eq, Structural)]
pub enum StopMode {
    /// `qd` — detach from target, leave target running.
    Detach,
    /// `q` — terminate target and debugger.
    TerminateTarget,
    /// Kill the cdb child process without sending a cdb command.
    KillDebugger,
}

#[derive(Debug, Clone)]
pub struct CommandOutcome {
    pub state: SessionState,
    pub command: String,
    pub output: String,
    pub output_start_offset: u64,
    pub output_end_offset: u64,
    pub truncated: bool,
    pub duration_ms: u128,
}

#[derive(Debug, Clone)]
pub struct OutputPage {
    pub bytes: String,
    pub next_offset: u64,
    pub earliest_offset: u64,
    pub total_written: u64,
    pub truncated_from_start: bool,
}

/// Settings every spawned session shares.
#[derive(Debug, Clone)]
pub struct SpawnConfig {
    pub cdb_path: String,
    pub symbol_path: Option<String>,
    pub output_ring_bytes: usize,
    pub attach_timeout_ms: u64,
    pub launch_timeout_ms: u64,
}

/// Everything needed to start one cdb child.
#[derive(Debug, Clone)]
pub struct SpawnPlan {
    pub kind: SessionKind,
    pub target_pid: Option<u32>,
    pub argv: Vec<String>,
    pub wait_timeout_ms: u64,
    pub cwd: Option<String>,
    pub env: Vec<(String, String)>,
}

/// The view of an optional string.
pub open spec fn opt_string_view(o: Option<String>) -> Option<Seq<char>> {
    match o {
        Some(s) => Some(s@),
        None => None,
    }
}

/// The session's own symbol path, or else the configured one.
pub open spec fn effective_symbol_path(own: Option<String>, configured: Option<String>) -> Option<
    Seq<char>,
> {
    match own {
        Some(s) => Some(s@),
        None => opt_string_view(configured),
    }
}

fn pick_symbol_path<'a>(own: &'a Option<String>, configured: &'a Option<String>) -> (r: Option<
    &'a str,
>)
    ensures
        opt_view(r) == effective_symbol_path(*own, *configured),
{
    match own {
        Some(s) => Some(s.as_str()),
        None => match configured {
            Some(s) => Some(s.as_str()),
            None => None,
        },
    }
}

/// How to spawn an attach session.
pub fn attach_plan(cfg: &SpawnConfig, opts: &AttachOptions) -> (p: SpawnPlan)
    ensures
        p.kind == SessionKind::Attach,
        p.target_pid == Some(opts.pid),
        strings_view(p.argv@) == attach_argv_spec(
            opts.pid,
            opts.noninvasive,
            opts.initial_break,
            effective_symbol_path(opts.symbol_path, cfg.symbol_path),
            strings_view(opts.extra_args@),
        ),
        p.wait_timeout_ms == cfg.attach_timeout_ms,
        p.cwd is None,
        p.env@.len() == 0,
{
    let symbol_path = pick_symbol_path(&opts.symbol_path, &cfg.symbol_path);
    let argv = attach_argv(
        opts.pid,
        opts.noninvasive,
        opts.initial_break,
        symbol_path,
        opts.extra_args.as_slice(),
    );
    SpawnPlan {
        kind: SessionKind::Attach,
        target_pid: Some(opts.pid),
        argv,
        wait_timeout_ms: cfg.attach_timeout_ms,
        cwd: None,
        env: Vec::new(),
    }
}

/// How to spawn a launch session.
pub fn launch_plan(cfg: &SpawnConfig, opts: &LaunchOptions) -> (r: Result<SpawnPlan, Error>)
    ensures
        r matches Ok(p) && p.kind == SessionKind::Launch && p.target_pid is None && strings_view(
            p.argv@,
        ) == launch_argv_spec(
            opts.executable@,
            strings_view(opts.args@),
            opts.debug_children,
            opts.initial_break,
            effective_symbol_path(opts.symbol_path, cfg.symbol_path),
            strings_view(opts.extra_args@),
        ) && p.wait_timeout_ms == cfg.launch_timeout_ms && p.cwd == opts.cwd && p.env@ == opts.env@,
{
    let symbol_path = pick_symbol_path(&opts.symbol_path, &cfg.symbol_path);
    let argv = launch_argv(
        Some(opts.executable.as_str()),
        opts.args.as_slice(),
        opts.debug_children,
        opts.initial_break,
        symbol_path,
        opts.extra_args.as_slice(),
    )?;
    Ok(
        SpawnPlan {
            kind: SessionKind::Launch,
            target_pid: None,
            argv,
            wait_timeout_ms: cfg.launch_timeout_ms,
            cwd: clone_opt_string(&opts.cwd),
            env: clone_env(&opts.env),
        },
    )
}

/// A copy of an optional string.
pub fn clone_opt_string(o: &Option<String>) -> (r: Option<String>)
    ensures
        r == *o,
{
    match o {
        Some(s) => Some(s.clone()),
        None => None,
    }
}

/// A copy of a list of environment assignments.
pub fn clone_env(env: &Vec<(String, String)>) -> (r: Vec<(String, String)>)
    ensures
        r@ == env@,
{
    let mut r: Vec<(String, String)> = Vec::new();
    let n = env.len();
    for i in 0..n
        invariant
            n == env@.len(),
            r@ == env@.take(i as int),
    {
        let (k, v) = &env[i];
        r.push((k.clone(), v.clone()));
        assert(env@.take(i + 1) == env@.take(i as int).push(env@[i as int]));
    }
    assert(env@.take(n as int) == env@);
    r
}

/// Outcome of one look at a session that a caller waits on.
#[derive(Debug)]
pub enum ReadyCheck {
    /// The session is at its prompt.
    Ready,
    /// Waiting is over with this error.
    Failed(Error),
    /// Look again after a poll interval.
    Wait,
}

/// What `ready_check` decides.
pub open spec fn ready_check_spec(
    state: SessionState,
    last_error: Option<String>,
    now_ms: u64,
    deadline_ms: u64,
    within_ms: u64,
    r: ReadyCheck,
) -> bool {
    match state {
        SessionState::Idle => r is Ready,
        SessionState::Failed | SessionState::Stopped => r matches ReadyCheck::Failed(
            Error::CdbExited(m),
        ) && m@ == match last_error {
            Some(e) => e@,
            None => "cdb exited before ready"@,
        },
        _ => if now_ms >= deadline_ms {
            r matches ReadyCheck::Failed(Error::Timeout(ms)) && ms == within_ms
        } else {
            r is Wait
        },
    }
}

/// Block-until-`Idle` decision, used both for "wait for initial attach
/// prompt" and "wait for the next break": the session is ready at its
/// prompt, has exited, has run out of time, or is still to be polled.
pub fn ready_check(
    state: SessionState,
    last_error: &Option<String>,
    now_ms: u64,
    deadline_ms: u64,
    within_ms: u64,
) -> (r: ReadyCheck)
    ensures
        ready_check_spec(state, *last_error, now_ms, deadline_ms, within_ms, r),
{
    match state {
        SessionState::Idle => ReadyCheck::Ready,
        SessionState::Failed | SessionState::Stopped => {
            let msg = match last_error {
                Some(e) => e.clone(),
                None => "cdb exited before ready".to_string(),
            };
            ReadyCheck::Failed(Error::CdbExited(msg))
        },
        _ => {
            if now_ms >= deadline_ms {
                ReadyCheck::Failed(Error::Timeout(within_ms))
            } else {
                ReadyCheck::Wait
            }
        },
    }
}


/// Waiting ends exactly as a waiter expects: `Ready` only at the prompt;
/// a live session (starting, executing, running or being interrupted)
/// keeps being polled until the deadline and then times out after
/// `within_ms`; only a stopped or failed session ends the wait with
/// `CdbExited`, carrying its last error when it has one.
pub proof fn law_ready_check_decisions(
    state: SessionState,
    last_error: Option<String>,
    now_ms: u64,
    deadline_ms: u64,
    within_ms: u64,
    r: ReadyCheck,
)
    requires
        ready_check_spec(state, last_error, now_ms, deadline_ms, within_ms, r),
    ensures
        r is Ready <==> state == SessionState::Idle,
        (state_is_active(state) && state != SessionState::Idle && now_ms < deadline_ms) ==> r is Wait,
        (state_is_active(state) && state != SessionState::Idle && now_ms >= deadline_ms) ==> (
        r matches ReadyCheck::Failed(Error::Timeout(ms)) && ms == within_ms),
        (r matches ReadyCheck::Failed(Error::CdbExited(_))) <==> !state_is_active(state),
        (!state_is_active(state) && last_error is Some) ==> (r matches ReadyCheck::Failed(
            Error::CdbExited(m),
        ) && m@ == last_error->0@),
        r is Wait ==> now_ms < deadline_ms,
{
}

} // verus!
