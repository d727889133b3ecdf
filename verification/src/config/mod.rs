//! Runtime configuration. Composed from a TOML file plus environment
//! overrides. The defaults are intentionally restrictive (loopback bind,
//! Bearer required for HTTP) so an out-of-the-box install is safe.

pub mod defaults;
pub mod model;
