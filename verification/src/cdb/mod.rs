//! cdb.exe integration layer: output buffering, prompt recognition, argv
//! assembly and the per-session state machine.

pub mod actor;
pub mod cli;
pub mod constants;
pub mod control;
pub mod manager;
pub mod prompt;
pub mod ring;
pub mod session;
