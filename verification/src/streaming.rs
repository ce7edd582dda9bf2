//! Streaming system: resource positions, stream queues and replacement mapping.

pub mod game;
pub mod load;
pub mod replacements;
