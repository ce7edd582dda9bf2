//! The script runtime: script states, bytecode handling and compatibility checks.

pub mod scm;
pub mod bytes;
pub mod runtime;
pub mod js;
