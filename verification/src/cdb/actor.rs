//! The decisions of a cdb session actor.
//!
//! The actor owns the cdb child, its stdio and timers; every time something
//! happens (output arrives, a request comes in, the child exits, a timer
//! fires) it hands the event to [`SessionCore`], which updates the session
//! state and says what to do next: which reply to send, what to write to
//! cdb's stdin, whether to fire CTRL+BREAK. The state, last error and exit
//! status live in [`SharedState`] because other tasks read them too.

use vstd::prelude::*;

use crate::cdb::cli::{GO, QUIT_DETACH, QUIT_TERMINATE};
use crate::cdb::constants::{EXIT_TAIL_BYTES, PROMPT_TAIL_BYTES};
use crate::cdb::prompt::{clean_command_output, cleaned_output, find_prompt, first_prompt};
use crate::cdb::ring::{
    earliest_of, law_pages_continue, law_read_reaches_total, push_model, read_since_model,
    read_start, retained, tail_model, total_of, RingBuffer, RingModel,
};
use crate::cdb::session::{
    clone_opt_string, invalid_state, is_invalid_state, CommandOutcome, ControlAction, OutputPage,
    SessionKind, SessionState, SessionStatus, StopMode, state_is_active,
};
use crate::error::{error_message, Error};
use crate::text::{
    chars_of, decimal, lossy_utf8, push_chars, push_decimal, push_str, trim, trim_chars,
    trim_end, trim_end_chars, decoded_text,
};

verus! {

/// A command sent to cdb whose prompt has not come back yet.
pub struct PendingCommand {
    pub command: String,
    /// Output offset at which the command was sent.
    pub start_offset: u64,
    pub started_ms: u64,
    pub deadline_ms: Option<u64>,
}

/// Session status that other tasks read and write.
pub struct SharedState {
    pub state: SessionState,
    pub last_error: Option<String>,
    pub exit_status: Option<String>,
}

/// The actor's own state.
pub struct SessionCore {
    pub id: String,
    pub kind: SessionKind,
    pub cdb_pid: u32,
    pub target_pid: Option<u32>,
    pub started_at: String,
    pub ring: RingBuffer,
    pub executing: Option<PendingCommand>,
    pub last_activity_ms: u64,
}

/// What to do with a control request.
pub enum ControlDecision {
    /// Answer the caller right away.
    Reply(Result<SessionState, Error>),
    /// Write this text to cdb's stdin, then report with `continue_written`.
    Write(String),
    /// Fire CTRL+BREAK at cdb's process group, then report with
    /// `break_sent`.
    CtrlBreak,
}

/// First step of a stop request.
pub enum StopAction {
    /// Write this text to cdb's stdin.
    Write(String),
    /// Kill the cdb child.
    Kill,
}

/// How waiting for the child after a stop request ended.
pub enum StopWait {
    /// The child exited with this status text.
    Exited(String),
    /// Waiting failed with this message.
    WaitFailed(String),
    /// The child did not exit in time.
    TimedOut,
}

/// Why a running command is being interrupted.
#[derive(Debug, Clone, Copy, PartialEq, Eq, Structural)]
pub enum InterruptReason {
    TimedOut,
    CallerDropped,
}

/// Text of an interrupt reason.
pub open spec fn reason_text(r: InterruptReason) -> Seq<char> {
    match r {
        InterruptReason::TimedOut => "debug_command timed out"@,
        InterruptReason::CallerDropped => "debug_command caller was dropped"@,
    }
}

/// Milliseconds from `since` to `now` (zero if the clock went backwards).
pub open spec fn elapsed(now: u64, since: u64) -> u64 {
    if now >= since {
        (now - since) as u64
    } else {
        0
    }
}

/// The decoded last `max` retained bytes.
pub open spec fn tail_text(m: RingModel, max: nat) -> Seq<char> {
    if retained(m).len() == 0 {
        Seq::empty()
    } else {
        decoded_text(tail_model(m, max))
    }
}

/// The end of the buffered output shows a cdb prompt.
pub open spec fn prompt_seen(m: RingModel) -> bool {
    first_prompt(tail_text(m, PROMPT_TAIL_BYTES as nat)) is Some
}

/// The trimmed output tail reported when cdb exits.
pub open spec fn exit_tail(m: RingModel) -> Seq<char> {
    trim(tail_text(m, EXIT_TAIL_BYTES as nat))
}

/// `o` is the successful result of pending command `p` once the output
/// reads `m` at time `now`.
pub open spec fn outcome_of(o: CommandOutcome, p: PendingCommand, m: RingModel, now: u64) -> bool {
    let read = read_since_model(m, p.start_offset);
    &&& o.state == SessionState::Idle
    &&& o.command == p.command
    &&& o.output@ == cleaned_output(decoded_text(read.0), p.command@)
    &&& o.output_start_offset == p.start_offset
    &&& o.output_end_offset == total_of(m)
    &&& o.truncated == read.2
    &&& o.duration_ms == elapsed(now, p.started_ms) as u128
}

/// State, pending command and reply after output arrived, given the state
/// and pending command before and the output buffer after.
pub open spec fn after_output(
    st: SessionState,
    pending: Option<PendingCommand>,
    m: RingModel,
    now: u64,
    new_st: SessionState,
    new_pending: Option<PendingCommand>,
    r: Option<CommandOutcome>,
) -> bool {
    if prompt_seen(m) {
        match st {
            SessionState::Starting | SessionState::Running => new_st == SessionState::Idle
                && new_pending == pending && r is None,
            SessionState::Executing | SessionState::Breaking => new_st == SessionState::Idle
                && new_pending is None && match pending {
                Some(p) => r matches Some(o) && outcome_of(o, p, m, now),
                None => r is None,
            },
            _ => new_st == st && new_pending == pending && r is None,
        }
    } else {
        new_st == st && new_pending == pending && r is None
    }
}

/// State after an interrupt check: nothing to interrupt, the prompt is
/// already back, or CTRL+BREAK is needed.
pub open spec fn after_interrupt_check(
    st: SessionState,
    m: RingModel,
    new_st: SessionState,
    send_break: bool,
) -> bool {
    if st == SessionState::Idle || st == SessionState::Breaking || st == SessionState::Stopped
        || st == SessionState::Failed {
        new_st == st && !send_break
    } else if prompt_seen(m) {
        new_st == SessionState::Idle && !send_break
    } else {
        new_st == st && send_break
    }
}

/// The error a command gets when cdb exits under it.
pub open spec fn exited_during_command(tail: Seq<char>) -> Seq<char> {
    if tail.len() == 0 {
        "cdb exited during command"@
    } else {
        "cdb exited during command. Last output:\n"@ + tail
    }
}

/// The view of an optional string.
pub open spec fn opt_view(o: Option<String>) -> Option<Seq<char>> {
    match o {
        Some(s) => Some(s@),
        None => None,
    }
}

/// A command is pending only while it runs: in `Executing`, or in
/// `Breaking` once CTRL+BREAK was fired at it.
pub open spec fn pending_consistent(st: SessionState, pending: Option<PendingCommand>) -> bool {
    pending is Some ==> (st == SessionState::Executing || st == SessionState::Breaking)
}

/// Output never breaks that: a prompt ends the pending command together
/// with the `Executing` / `Breaking` state, and anything else changes
/// neither.
pub proof fn law_output_keeps_pending_consistent(
    st: SessionState,
    pending: Option<PendingCommand>,
    m: RingModel,
    now: u64,
    new_st: SessionState,
    new_pending: Option<PendingCommand>,
    r: Option<CommandOutcome>,
)
    requires
        pending_consistent(st, pending),
        after_output(st, pending, m, now, new_st, new_pending, r),
    ensures
        pending_consistent(new_st, new_pending),
{
}

/// A stopped or failed session stays so: neither output nor an interrupt
/// check revives it, and no CTRL+BREAK is sent to it.
pub proof fn law_inactive_session_stays_inactive(
    st: SessionState,
    pending: Option<PendingCommand>,
    m: RingModel,
    now: u64,
    new_st: SessionState,
    new_pending: Option<PendingCommand>,
    r: Option<CommandOutcome>,
    send_break: bool,
)
    requires
        !state_is_active(st),
    ensures
        after_output(st, pending, m, now, new_st, new_pending, r) ==> new_st == st && r is None,
        after_interrupt_check(st, m, new_st, send_break) ==> new_st == st && !send_break,
{
}

/// A command completes exactly when the output ends in a prompt: its
/// reply reports the output from the command's start offset to the
/// current end, and the session is back at its prompt.
pub proof fn law_command_completes_at_prompt(
    p: PendingCommand,
    m: RingModel,
    now: u64,
    new_st: SessionState,
    new_pending: Option<PendingCommand>,
    r: Option<CommandOutcome>,
)
    requires
        after_output(SessionState::Executing, Some(p), m, now, new_st, new_pending, r),
    ensures
        prompt_seen(m) <==> r is Some,
        prompt_seen(m) ==> new_st == SessionState::Idle && new_pending is None && (r matches Some(o)
            && o.output_start_offset == p.start_offset && o.output_end_offset == total_of(m)),
        !prompt_seen(m) ==> new_st == SessionState::Executing && new_pending == Some(p),
{
}

/// Whenever the buffered output ends in a prompt, a session that was
/// starting, running, executing a command or being interrupted is back at
/// its prompt (`Idle`), whether or not a command was pending; with no
/// prompt the state does not change. Output never completes a command
/// that was not pending, and a pending command is completed exactly when
/// the session leaves `Executing` or `Breaking` for `Idle`.
pub proof fn law_prompt_brings_session_to_idle(
    st: SessionState,
    pending: Option<PendingCommand>,
    m: RingModel,
    now: u64,
    new_st: SessionState,
    new_pending: Option<PendingCommand>,
    r: Option<CommandOutcome>,
)
    requires
        after_output(st, pending, m, now, new_st, new_pending, r),
    ensures
        prompt_seen(m) && (st == SessionState::Starting || st == SessionState::Running || st
            == SessionState::Executing || st == SessionState::Breaking) ==> new_st
            == SessionState::Idle,
        !prompt_seen(m) ==> new_st == st && new_pending == pending && r is None,
        pending is None ==> r is None,
        r matches Some(o) ==> (pending matches Some(p) && o.command == p.command && o.state
            == SessionState::Idle && new_st == SessionState::Idle && new_pending is None),
        (pending is Some && prompt_seen(m) && (st == SessionState::Executing || st
            == SessionState::Breaking)) ==> r is Some,
{
}

/// CTRL+BREAK is sent only to a live session that is away from its
/// prompt (starting, executing or running) and whose output does not
/// already end in a prompt; if the prompt is already there the session
/// is simply back at it; an idle, interrupted, stopped or failed session
/// is left as it is.
pub proof fn law_interrupt_only_when_needed(
    st: SessionState,
    m: RingModel,
    new_st: SessionState,
    send_break: bool,
)
    requires
        after_interrupt_check(st, m, new_st, send_break),
    ensures
        send_break <==> (st == SessionState::Starting || st == SessionState::Executing || st
            == SessionState::Running) && !prompt_seen(m),
        send_break ==> new_st == st,
        (!send_break && new_st != st) ==> new_st == SessionState::Idle && prompt_seen(m),
        (st == SessionState::Idle || st == SessionState::Breaking || !state_is_active(st)) ==> new_st
            == st,
{
}

fn tail_has_prompt(ring: &RingBuffer) -> (r: bool)
    requires
        ring.wf(),
    ensures
        r == prompt_seen(ring@),
{
    let tail = ring.snapshot_tail(PROMPT_TAIL_BYTES);
    find_prompt(tail.as_str()).is_some()
}

/// Record how the cdb child exited, as the actor's wait on the child
/// reports it.
pub fn record_child_exit(shared: &mut SharedState, status: Result<String, String>)
    ensures
        final(shared).state == old(shared).state,
        match status {
            Ok(s) => final(shared).exit_status == Some(s) && final(shared).last_error == old(shared).last_error,
            Err(e) => final(shared).last_error == Some(e) && final(shared).exit_status == old(shared).exit_status,
        },
{
    match status {
        Ok(s) => shared.exit_status = Some(s),
        Err(e) => shared.last_error = Some(e),
    }
}

/// A spawn whose first prompt never came: the session is failed and
/// carries the error's message.
pub fn spawn_failed(shared: &mut SharedState, err: &Error)
    ensures
        final(shared).state == SessionState::Failed,
        final(shared).last_error matches Some(m) && m@ == error_message(*err),
        final(shared).exit_status == old(shared).exit_status,
{
    shared.state = SessionState::Failed;
    shared.last_error = Some(err.to_string());
}

/// Result of a `continue` once `g` was written (or failed to be).
pub fn continue_written(shared: &mut SharedState, write: Result<(), String>) -> (r: Result<
    SessionState,
    Error,
>)
    ensures
        final(shared).last_error == old(shared).last_error,
        final(shared).exit_status == old(shared).exit_status,
        match write {
            Ok(()) => final(shared).state == SessionState::Running && r == Ok::<
                SessionState,
                Error,
            >(SessionState::Running),
            Err(e) => final(shared).state == old(shared).state && (r matches Err(Error::Io(m))
                && m == e),
        },
{
    match write {
        Ok(()) => {
            shared.state = SessionState::Running;
            Ok(SessionState::Running)
        },
        Err(e) => Err(Error::Io(e)),
    }
}

/// Result of a `break` once CTRL+BREAK was fired (or failed).
pub fn break_sent(shared: &mut SharedState, result: Result<(), Error>) -> (r: Result<
    SessionState,
    Error,
>)
    ensures
        final(shared).last_error == old(shared).last_error,
        final(shared).exit_status == old(shared).exit_status,
        match result {
            Ok(()) => final(shared).state == SessionState::Breaking && r == Ok::<
                SessionState,
                Error,
            >(SessionState::Breaking),
            Err(e) => final(shared).state == old(shared).state && r == Err::<SessionState, Error>(
                e,
            ),
        },
{
    match result {
        Ok(()) => {
            shared.state = SessionState::Breaking;
            Ok(SessionState::Breaking)
        },
        Err(e) => Err(e),
    }
}

/// Record the outcome of a CTRL+BREAK fired to interrupt a command.
pub fn interrupt_result(shared: &mut SharedState, reason: InterruptReason, result: Result<(), Error>)
    ensures
        final(shared).exit_status == old(shared).exit_status,
        match result {
            Ok(()) => final(shared).state == SessionState::Breaking && final(shared).last_error
                == old(shared).last_error,
            Err(e) => final(shared).state == old(shared).state && (final(shared).last_error matches Some(
                m,
            ) && m@ == "failed to interrupt cdb command after "@ + reason_text(reason) + ": "@
                + error_message(e)),
        },
{
    match result {
        Ok(()) => {
            shared.state = SessionState::Breaking;
        },
        Err(e) => {
            let mut m = String::new();
            push_str(&mut m, "failed to interrupt cdb command after ");
            match reason {
                InterruptReason::TimedOut => push_str(&mut m, "debug_command timed out"),
                InterruptReason::CallerDropped => push_str(
                    &mut m,
                    "debug_command caller was dropped",
                ),
            }
            push_str(&mut m, ": ");
            let text = e.to_string();
            push_str(&mut m, text.as_str());
            shared.last_error = Some(m);
        },
    }
}

/// The first step of a stop request.
pub fn stop_action(mode: StopMode) -> (a: StopAction)
    ensures
        match mode {
            StopMode::Detach => a matches StopAction::Write(t) && t@ == QUIT_DETACH@,
            StopMode::TerminateTarget => a matches StopAction::Write(t) && t@ == QUIT_TERMINATE@,
            StopMode::KillDebugger => a is Kill,
        },
{
    match mode {
        StopMode::Detach => StopAction::Write(QUIT_DETACH.to_string()),
        StopMode::TerminateTarget => StopAction::Write(QUIT_TERMINATE.to_string()),
        StopMode::KillDebugger => StopAction::Kill,
    }
}

impl SessionCore {
    /// The output buffer's abstract state.
    pub closed spec fn output(&self) -> RingModel {
        self.ring@
    }

    /// The output buffer is consistent.
    pub closed spec fn wf(&self) -> bool {
        self.ring.wf()
    }

    pub fn new(
        id: String,
        kind: SessionKind,
        cdb_pid: u32,
        target_pid: Option<u32>,
        started_at: String,
        output_ring_bytes: usize,
        now_ms: u64,
    ) -> (c: SessionCore)
        ensures
            c.wf(),
            c.output() == (RingModel { capacity: output_ring_bytes as nat, stream: Seq::empty() }),
            c.id == id,
            c.kind == kind,
            c.cdb_pid == cdb_pid,
            c.target_pid == target_pid,
            c.started_at == started_at,
            c.executing is None,
            c.last_activity_ms == now_ms,
    {
        SessionCore {
            id,
            kind,
            cdb_pid,
            target_pid,
            started_at,
            ring: RingBuffer::new(output_ring_bytes),
            executing: None,
            last_activity_ms: now_ms,
        }
    }

    /// The deadline of the running command, if it has one.
    pub fn next_deadline(&self) -> (d: Option<u64>)
        ensures
            d == match self.executing {
                Some(p) => p.deadline_ms,
                None => None,
            },
    {
        match &self.executing {
            Some(p) => p.deadline_ms,
            None => None,
        }
    }

    /// cdb printed `bytes`: buffer them and, when the output now ends in a
    /// prompt, move to `Idle`, completing the pending command.
    pub fn on_output(&mut self, shared: &mut SharedState, bytes: &[u8], now_ms: u64) -> (r: Option<
        CommandOutcome,
    >)
        requires
            old(self).wf(),
        ensures
            final(self).wf(),
            final(self).output() == push_model(old(self).output(), bytes@),
            final(self).last_activity_ms == now_ms,
            final(self).id == old(self).id && final(self).kind == old(self).kind,
            final(self).cdb_pid == old(self).cdb_pid,
            final(self).target_pid == old(self).target_pid,
            final(self).started_at == old(self).started_at,
            final(shared).last_error == old(shared).last_error,
            final(shared).exit_status == old(shared).exit_status,
            after_output(
                old(shared).state,
                old(self).executing,
                final(self).output(),
                now_ms,
                final(shared).state,
                final(self).executing,
                r,
            ),
    {
        self.ring.push(bytes);
        self.last_activity_ms = now_ms;
        let current = shared.state;
        if !tail_has_prompt(&self.ring) {
            return None;
        }
        match current {
            SessionState::Starting | SessionState::Running => {
                shared.state = SessionState::Idle;
                None
            },
            SessionState::Executing | SessionState::Breaking => {
                let taken = self.executing.take();
                shared.state = SessionState::Idle;
                match taken {
                    Some(p) => Some(self.complete(p, now_ms)),
                    None => None,
                }
            },
            _ => None,
        }
    }

    /// The successful outcome of `p` from the buffered output.
    fn complete(&self, p: PendingCommand, now_ms: u64) -> (o: CommandOutcome)
        requires
            self.wf(),
        ensures
            outcome_of(o, p, self.output(), now_ms),
    {
        let start = p.start_offset;
        let total = self.ring.total_written();
        let (bytes, _next, truncated) = self.ring.read_since(start);
        let text = lossy_utf8(bytes.as_slice());
        let cleaned = clean_command_output(text.as_str(), p.command.as_str());
        let duration: u64 = if now_ms >= p.started_ms {
            now_ms - p.started_ms
        } else {
            0
        };
        CommandOutcome {
            state: SessionState::Idle,
            command: p.command,
            output: cleaned,
            output_start_offset: start,
            output_end_offset: total,
            truncated,
            duration_ms: duration as u128,
        }
    }

    /// The cdb child is gone: the session is stopped, its last output is
    /// kept as the last error when none was recorded, and a pending command
    /// fails.
    pub fn on_child_exit(&mut self, shared: &mut SharedState) -> (r: Option<Error>)
        requires
            old(self).wf(),
        ensures
            final(self).wf(),
            final(self).output() == old(self).output(),
            final(self).last_activity_ms == old(self).last_activity_ms,
            final(self).executing is None,
            final(shared).state == SessionState::Stopped,
            final(shared).exit_status == old(shared).exit_status,
            ({
                let t = exit_tail(old(self).output());
                &&& if t.len() > 0 && old(shared).last_error is None {
                    final(shared).last_error matches Some(m) && m@ == "cdb output: "@ + t
                } else {
                    final(shared).last_error == old(shared).last_error
                }
                &&& match old(self).executing {
                    Some(_) => r matches Some(Error::CdbExited(m)) && m@ == exited_during_command(
                        t,
                    ),
                    None => r is None,
                }
            }),
    {
        shared.state = SessionState::Stopped;
        let tail = self.ring.snapshot_tail(EXIT_TAIL_BYTES);
        let tail_chars = chars_of(tail.as_str());
        let trimmed = trim_chars(tail_chars.as_slice());
        if trimmed.len() > 0 && shared.last_error.is_none() {
            let mut m = String::new();
            push_str(&mut m, "cdb output: ");
            push_chars(&mut m, trimmed.as_slice());
            shared.last_error = Some(m);
        }
        match self.executing.take() {
            Some(_p) => {
                let mut msg = String::new();
                if trimmed.len() == 0 {
                    push_str(&mut msg, "cdb exited during command");
                } else {
                    push_str(&mut msg, "cdb exited during command. Last output:\n");
                    push_chars(&mut msg, trimmed.as_slice());
                }
                Some(Error::CdbExited(msg))
            },
            None => None,
        }
    }

    /// First step of a command request: refused unless the session is at
    /// its prompt; otherwise the line to write to cdb's stdin (the command
    /// without trailing white space, then a newline).
    pub fn begin_command(&self, shared: &SharedState, command: &str) -> (r: Result<String, Error>)
        ensures
            shared.state == SessionState::Idle ==> (r matches Ok(line) && line@ == trim_end(
                command@,
            ).push('\n')),
            shared.state != SessionState::Idle ==> (r matches Err(e) && is_invalid_state(
                e,
                shared.state,
                "debug_command"@,
            )),
    {
        if shared.state != SessionState::Idle {
            return Err(invalid_state(shared.state, "debug_command"));
        }
        let chars = chars_of(command);
        let kept = trim_end_chars(chars.as_slice());
        let mut line = String::new();
        push_chars(&mut line, kept.as_slice());
        push_str(&mut line, "\n");
        proof {
            reveal_strlit("\n");
        }
        assert(line@ =~= trim_end(command@).push('\n'));
        Ok(line)
    }

    /// Second step of a command request, once its line was written (or
    /// failed to be): the command is now pending, with its output starting
    /// at the current offset and its deadline `timeout_ms` from now (none
    /// for zero).
    pub fn command_written(
        &mut self,
        shared: &mut SharedState,
        command: String,
        timeout_ms: u64,
        now_ms: u64,
        write: Result<(), String>,
    ) -> (r: Option<Error>)
        requires
            old(self).wf(),
        ensures
            final(self).wf(),
            final(self).output() == old(self).output(),
            final(self).last_activity_ms == old(self).last_activity_ms,
            final(shared).last_error == old(shared).last_error,
            final(shared).exit_status == old(shared).exit_status,
            match write {
                Ok(()) => r is None && final(shared).state == SessionState::Executing && final(self).executing == Some(
                    PendingCommand {
                        command,
                        start_offset: total_of(old(self).output()),
                        started_ms: now_ms,
                        deadline_ms: if timeout_ms == 0 {
                            None
                        } else {
                            Some(now_ms.saturating_add(timeout_ms))
                        },
                    },
                ),
                Err(e) => r matches Some(Error::Io(m)) && m == e && final(shared).state == old(shared).state && final(self).executing == old(self).executing,
            },
    {
        match write {
            Err(e) => Some(Error::Io(e)),
            Ok(()) => {
                let start_offset = self.ring.total_written();
                shared.state = SessionState::Executing;
                let deadline_ms = if timeout_ms == 0 {
                    None
                } else {
                    Some(now_ms.saturating_add(timeout_ms))
                };
                self.executing = Some(
                    PendingCommand { command, start_offset, started_ms: now_ms, deadline_ms },
                );
                None
            },
        }
    }

    /// First step of a control request.
    pub fn control_request(&self, shared: &SharedState, action: ControlAction) -> (d:
        ControlDecision)
        ensures
            match action {
                ControlAction::Continue => if shared.state != SessionState::Idle {
                    d matches ControlDecision::Reply(Err(e)) && is_invalid_state(
                        e,
                        shared.state,
                        "continue"@,
                    )
                } else {
                    d matches ControlDecision::Write(t) && t@ == GO@
                },
                ControlAction::Break | ControlAction::InterruptCommand => if shared.state
                    == SessionState::Stopped || shared.state == SessionState::Failed {
                    d matches ControlDecision::Reply(Err(e)) && is_invalid_state(
                        e,
                        shared.state,
                        "break"@,
                    )
                } else if shared.state == SessionState::Idle {
                    d matches ControlDecision::Reply(Ok(s)) && s == SessionState::Idle
                } else {
                    d is CtrlBreak
                },
            },
    {
        let state = shared.state;
        match action {
            ControlAction::Continue => {
                if state != SessionState::Idle {
                    ControlDecision::Reply(Err(invalid_state(state, "continue")))
                } else {
                    ControlDecision::Write(GO.to_string())
                }
            },
            ControlAction::Break | ControlAction::InterruptCommand => {
                if state == SessionState::Stopped || state == SessionState::Failed {
                    ControlDecision::Reply(Err(invalid_state(state, "break")))
                } else if state == SessionState::Idle {
                    // Nothing to interrupt at the prompt: CTRL+BREAK would
                    // produce no output and leave the session in Breaking.
                    ControlDecision::Reply(Ok(SessionState::Idle))
                } else {
                    ControlDecision::CtrlBreak
                }
            },
        }
    }

    /// Whether a running command must be interrupted with CTRL+BREAK; if
    /// its prompt is already buffered the session simply returns to `Idle`.
    pub fn interrupt_check(&self, shared: &mut SharedState) -> (send_break: bool)
        requires
            self.wf(),
        ensures
            final(shared).last_error == old(shared).last_error,
            final(shared).exit_status == old(shared).exit_status,
            after_interrupt_check(old(shared).state, self.output(), final(shared).state, send_break),
    {
        let state = shared.state;
        if state == SessionState::Idle || state == SessionState::Breaking || state
            == SessionState::Stopped || state == SessionState::Failed {
            return false;
        }
        if tail_has_prompt(&self.ring) {
            shared.state = SessionState::Idle;
            return false;
        }
        true
    }

    /// The pending command's deadline passed: it fails with a timeout and
    /// cdb is interrupted if needed.
    pub fn deadline_expired(&mut self, shared: &mut SharedState, now_ms: u64) -> (r: (
        Option<Error>,
        bool,
    ))
        requires
            old(self).wf(),
        ensures
            final(self).wf(),
            final(self).output() == old(self).output(),
            final(self).last_activity_ms == old(self).last_activity_ms,
            final(self).executing is None,
            final(shared).last_error == old(shared).last_error,
            final(shared).exit_status == old(shared).exit_status,
            match old(self).executing {
                Some(p) => r.0 matches Some(Error::Timeout(ms)) && ms == elapsed(
                    now_ms,
                    p.started_ms,
                ) && after_interrupt_check(
                    old(shared).state,
                    old(self).output(),
                    final(shared).state,
                    r.1,
                ),
                None => r.0 is None && !r.1 && final(shared).state == old(shared).state,
            },
    {
        match self.executing.take() {
            Some(p) => {
                let ms: u64 = if now_ms >= p.started_ms {
                    now_ms - p.started_ms
                } else {
                    0
                };
                let send = self.interrupt_check(shared);
                (Some(Error::Timeout(ms)), send)
            },
            None => (None, false),
        }
    }

    /// The caller of the pending command went away: the command is
    /// dropped and cdb is interrupted if needed.
    pub fn caller_dropped(&mut self, shared: &mut SharedState) -> (send_break: bool)
        requires
            old(self).wf(),
        ensures
            final(self).wf(),
            final(self).output() == old(self).output(),
            final(self).last_activity_ms == old(self).last_activity_ms,
            final(self).executing is None,
            final(shared).last_error == old(shared).last_error,
            final(shared).exit_status == old(shared).exit_status,
            match old(self).executing {
                Some(_) => after_interrupt_check(
                    old(shared).state,
                    old(self).output(),
                    final(shared).state,
                    send_break,
                ),
                None => !send_break && final(shared).state == old(shared).state,
            },
    {
        match self.executing.take() {
            Some(_p) => self.interrupt_check(shared),
            None => false,
        }
    }

    /// The wait after a stop request ended: the session is stopped, any
    /// pending command is dropped, and the child must be force-killed when
    /// it did not exit in time.
    pub fn stop_finished(&mut self, shared: &mut SharedState, wait: StopWait) -> (force_kill: bool)
        requires
            old(self).wf(),
        ensures
            final(self).wf(),
            final(self).output() == old(self).output(),
            final(self).executing is None,
            final(shared).state == SessionState::Stopped,
            final(shared).last_error == old(shared).last_error,
            match wait {
                StopWait::Exited(s) => final(shared).exit_status == Some(s) && !force_kill,
                StopWait::WaitFailed(_) => final(shared).exit_status == old(shared).exit_status
                    && !force_kill,
                StopWait::TimedOut => final(shared).exit_status == old(shared).exit_status
                    && force_kill,
            },
    {
        let force = match wait {
            StopWait::Exited(s) => {
                shared.exit_status = Some(s);
                false
            },
            StopWait::WaitFailed(_) => false,
            StopWait::TimedOut => true,
        };
        shared.state = SessionState::Stopped;
        self.executing = None;
        force
    }

    /// The session's status report.
    pub fn status(&self, shared: &SharedState, now_ms: u64) -> (s: SessionStatus)
        requires
            self.wf(),
        ensures
            s.session_id == self.id,
            s.kind == self.kind,
            s.state == shared.state,
            s.target_pid == self.target_pid,
            s.cdb_pid == self.cdb_pid,
            s.started_at == self.started_at,
            s.last_activity_at@ == decimal(elapsed(now_ms, self.last_activity_ms) as nat) + "ms ago"@,
            s.output_total_bytes == total_of(self.output()),
            s.output_earliest_offset == earliest_of(self.output()),
            s.last_error == shared.last_error,
            s.exit_status == shared.exit_status,
    {
        let idle: u64 = if now_ms >= self.last_activity_ms {
            now_ms - self.last_activity_ms
        } else {
            0
        };
        let mut ago = String::new();
        push_decimal(&mut ago, idle);
        push_str(&mut ago, "ms ago");
        assert(ago@ =~= decimal(idle as nat) + "ms ago"@);
        SessionStatus {
            session_id: self.id.clone(),
            kind: self.kind,
            state: shared.state,
            target_pid: self.target_pid,
            cdb_pid: self.cdb_pid,
            started_at: self.started_at.clone(),
            last_activity_at: ago,
            output_total_bytes: self.ring.total_written(),
            output_earliest_offset: self.ring.earliest_offset(),
            last_error: clone_opt_string(&shared.last_error),
            exit_status: clone_opt_string(&shared.exit_status),
        }
    }

    /// A page of buffered output: the bytes from `since_offset` on (from the
    /// earliest retained byte when older ones were dropped), at most
    /// `max_bytes` of them when `max_bytes` is non-zero, and the offset
    /// where the page ended, from which the next page is read.
    pub fn read_output(&self, since_offset: u64, max_bytes: usize) -> (page: OutputPage)
        requires
            self.wf(),
        ensures
            ({
                let read = read_since_model(self.output(), since_offset);
                let k = page_len(read.0.len(), max_bytes);
                &&& page.bytes@ == decoded_text(read.0.take(k as int))
                &&& page.next_offset == if k > 0 {
                    (read_start(self.output(), since_offset) + k) as u64
                } else {
                    read.1
                }
                &&& page.earliest_offset == earliest_of(self.output())
                &&& page.total_written == total_of(self.output())
                &&& page.truncated_from_start == read.2
            }),
    {
        let (bytes, next, truncated) = self.ring.read_since(since_offset);
        let earliest = self.ring.earliest_offset();
        let n = bytes.len();
        let k = if max_bytes > 0 && n > max_bytes {
            max_bytes
        } else {
            n
        };
        let mut slice: Vec<u8> = Vec::new();
        for i in 0..k
            invariant
                k <= n == bytes@.len(),
                slice@ == bytes@.take(i as int),
        {
            slice.push(bytes[i]);
            assert(bytes@.take(i + 1) == bytes@.take(i as int).push(bytes@[i as int]));
        }
        let next_offset = if k > 0 {
            let start = if since_offset < earliest {
                earliest
            } else {
                since_offset
            };
            proof {
                self.ring.lemma_capacity_fits();
                law_read_reaches_total(self.output(), since_offset);
            }
            start + k as u64
        } else {
            next
        };
        OutputPage {
            bytes: lossy_utf8(slice.as_slice()),
            next_offset,
            earliest_offset: earliest,
            total_written: self.ring.total_written(),
            truncated_from_start: truncated,
        }
    }
}

/// Number of bytes a page holds: all `available` ones, or `max_bytes` of
/// them when that is non-zero and smaller.
pub open spec fn page_len(available: nat, max_bytes: usize) -> nat {
    if max_bytes > 0 && available > max_bytes {
        max_bytes as nat
    } else {
        available
    }
}

/// Reading the next page from where a page ended continues the same
/// read: its bytes are the rest of that read, with nothing skipped and
/// nothing repeated.
pub proof fn law_output_pages_continue(m: RingModel, since: u64, max_bytes: usize)
    requires
        m.capacity <= u64::MAX,
        page_len(read_since_model(m, since).0.len(), max_bytes) > 0,
    ensures
        ({
            let read = read_since_model(m, since).0;
            let k = page_len(read.len(), max_bytes);
            let next = (read_start(m, since) + k) as u64;
            &&& read_since_model(m, next).0 == read.skip(k as int)
            &&& read.take(k as int) + read_since_model(m, next).0 == read
        }),
{
    let read = read_since_model(m, since).0;
    let k = page_len(read.len(), max_bytes);
    law_pages_continue(m, since, k);
    assert(read.take(k as int) + read.skip(k as int) =~= read);
}

} // verus!
