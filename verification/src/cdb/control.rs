//! Break control for a spawned cdb.exe child.
//!
//! cdb needs a CTRL+BREAK to interrupt a running target; it is spawned in a
//! new process group and `GenerateConsoleCtrlEvent(CTRL_BREAK_EVENT,
//! group_pid)` is fired at it. The call is made by the application; its
//! result is interpreted here.

use vstd::prelude::*;

use crate::error::Error;
use crate::text::{decimal, push_decimal, push_str};

verus! {

/// The error of a failed CTRL+BREAK.
pub open spec fn ctrl_break_error(pid: u32, last_error: u32) -> Seq<char> {
    "GenerateConsoleCtrlEvent(CTRL_BREAK, pid="@ + decimal(pid as nat) + ") failed: "@ + decimal(
        last_error as nat,
    )
}

/// Interpret `GenerateConsoleCtrlEvent(CTRL_BREAK_EVENT, pid)`: its return
/// value `api_result` (zero on failure) and the `GetLastError()` code read
/// after it.
pub fn generate_ctrl_break(pid: u32, api_result: i32, last_error: u32) -> (r: Result<(), Error>)
    ensures
        api_result != 0 ==> r is Ok,
        api_result == 0 ==> (r matches Err(Error::WindowsApi(m)) && m@ == ctrl_break_error(
            pid,
            last_error,
        )),
{
    if api_result != 0 {
        return Ok(());
    }
    let mut m = String::new();
    push_str(&mut m, "GenerateConsoleCtrlEvent(CTRL_BREAK, pid=");
    push_decimal(&mut m, pid as u64);
    push_str(&mut m, ") failed: ");
    push_decimal(&mut m, last_error as u64);
    Err(Error::WindowsApi(m))
}

} // verus!
