//! One process as the toolhelp snapshot reports it.

use vstd::prelude::*;

verus! {

#[derive(Debug, Clone)]
pub struct ProcessInfo {
    pub pid: u32,
    pub image_name: String,
    pub parent_pid: u32,
    pub threads: u32,
}

} // verus!
