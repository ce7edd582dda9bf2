//! CLEO's own systems added to the game: languages and user settings.

pub mod language;
pub mod menu;
pub mod settings;
pub mod touch;
