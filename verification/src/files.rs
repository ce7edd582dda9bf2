//! CLEO's files: the resources in CLEO's folder and the game files they
//! replace.

pub mod loader;
pub mod res;
pub mod stream;
