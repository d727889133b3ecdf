//! Default values and well-known constants for the configuration.

use vstd::prelude::*;

verus! {

/// Environment variable consulted before scanning the known cdb locations.
pub const CDB_ENV_VAR: &'static str = "WINDBG_CDB_PATH";

/// Wildcard bind address — has no specific host to add to the allow list.
pub const WILDCARD_BIND: &'static str = "0.0.0.0";

/// Loopback hosts always permitted by the Streamable HTTP transport so the
/// MCP spec's DNS-rebinding protection is satisfied.
pub open spec fn loopback_hosts() -> Seq<Seq<char>> {
    seq!["localhost"@, "127.0.0.1"@, "::1"@]
}

pub fn default_bind() -> (r: String)
    ensures
        r@ == "127.0.0.1:8765"@,
{
    "127.0.0.1:8765".to_string()
}

pub fn default_max_sessions() -> (r: usize)
    ensures
        r == 4,
{
    4
}

pub fn default_idle_secs() -> (r: u64)
    ensures
        r == 900,
{
    900
}

pub fn default_attach_timeout() -> (r: u64)
    ensures
        r == 15_000,
{
    15_000
}

pub fn default_command_timeout() -> (r: u64)
    ensures
        r == 30_000,
{
    30_000
}

pub fn default_output_ring_bytes() -> (r: usize)
    ensures
        r == 512 * 1024,
{
    512 * 1024
}

} // verus!
