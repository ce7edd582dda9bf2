//! Sound effect packages.

pub mod osw;
