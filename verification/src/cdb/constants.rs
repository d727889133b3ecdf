//! Internal tunables for the cdb session actor.
//!
//! Centralised so that they can be adjusted in one place and tested against
//! known values. Durations are in milliseconds.

use vstd::prelude::*;

verus! {

/// Bytes of buffered stdout/stderr inspected when looking for the next
/// prompt or for end-of-stream context.
pub const PROMPT_TAIL_BYTES: usize = 16 * 1024;

/// Bytes of buffered output reported in the "cdb exited" diagnostic.
pub const EXIT_TAIL_BYTES: usize = 8 * 1024;

/// Read buffer used by the stdout/stderr forwarder tasks.
pub const STREAM_READ_BUF_BYTES: usize = 4096;

/// Polling interval for waiting on the next prompt.
pub const WAIT_READY_POLL_MS: u64 = 50;

/// Periodic tick used by the actor loop to detect callers dropping their
/// command future.
pub const ACTOR_CANCEL_TICK_MS: u64 = 250;

/// Fallback pseudo-deadline when no per-command deadline is set.
pub const ACTOR_IDLE_BLOCK_MS: u64 = 60 * 60 * 1000;

/// Maximum time to wait for the cdb child to exit after a stop request
/// before falling back to a forced kill.
pub const STOP_WAIT_MS: u64 = 10 * 1000;

/// Maximum time a manager shutdown waits for an individual session to
/// terminate.
pub const SHUTDOWN_PER_SESSION_MS: u64 = 5 * 1000;

} // verus!
