//! Classification of Win32 outcomes: module enumeration, the privilege
//! attempt, and wide-string results.

pub mod handle;
pub mod modules;
pub mod privilege;
pub mod process;
pub mod skip;
