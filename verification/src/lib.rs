//! Verified core logic of CLEO iOS: script bytecode decoding, archive and
//! resource bookkeeping, settings, menus and the other decisions that the
//! game hooks make.

pub mod chars;
pub mod cheats;
pub mod controller;
pub mod files;
pub mod github;
pub mod hook;
pub mod logging;
pub mod meta;
pub mod scripts;
pub mod settings;
pub mod sound;
pub mod streaming;
pub mod text;
