//! Platform process-inspection logic. The Win32 calls themselves are made by
//! the application; their outcomes are classified and combined here.

pub mod windows;
