//! The older settings system: six on/off flags stored as a small JSON file,
//! with a dirty flag so that unchanged settings are not written again.

use crate::meta::settings::Colour;
use vstd::prelude::*;

verus! {

/// The flags as they are stored on disk.
#[derive(Clone, Copy, PartialEq, Eq, Structural, Debug)]
pub struct StoredSettings {
    pub sixty_fps: bool,
    pub show_fps: bool,
    pub save_cheats: bool,
    pub no_ceiling: bool,
    pub interrupt_loops: bool,
    pub alpha_updates: bool,
}

/// The flags in use, with a record of whether they changed since the last
/// save.
#[derive(Clone, Copy, PartialEq, Eq, Structural, Debug)]
pub struct Settings {
    pub sixty_fps: bool,
    pub show_fps: bool,
    pub save_cheats: bool,
    pub no_ceiling: bool,
    pub interrupt_loops: bool,
    pub alpha_updates: bool,
    /// Whether the flags changed since they were last saved.
    pub dirty: bool,
}

/// One of the flags that the options menu shows.
#[derive(Clone, Copy, PartialEq, Eq, Structural, Debug)]
pub enum Flag {
    SixtyFps,
    SaveCheats,
    ShowFps,
    InterruptLoops,
    AlphaUpdates,
}

/// The stored form of the defaults: 60 FPS, no FPS counter, cheats not
/// saved, no ceiling, loops interrupted, no alpha updates.
pub open spec fn default_stored() -> StoredSettings {
    StoredSettings {
        sixty_fps: true,
        show_fps: false,
        save_cheats: false,
        no_ceiling: true,
        interrupt_loops: true,
        alpha_updates: false,
    }
}

/// The value of `flag` in `s`.
pub open spec fn spec_flag(s: Settings, flag: Flag) -> bool {
    match flag {
        Flag::SixtyFps => s.sixty_fps,
        Flag::SaveCheats => s.save_cheats,
        Flag::ShowFps => s.show_fps,
        Flag::InterruptLoops => s.interrupt_loops,
        Flag::AlphaUpdates => s.alpha_updates,
    }
}

impl Default for StoredSettings {
    fn default() -> (s: StoredSettings)
        ensures
            s == default_stored(),
    {
        StoredSettings {
            sixty_fps: true,
            show_fps: false,
            save_cheats: false,
            no_ceiling: true,
            interrupt_loops: true,
            alpha_updates: false,
        }
    }
}

impl StoredSettings {
    /// The settings for these stored flags. They count as changed, so that
    /// the first save writes them.
    pub fn into_settings(self) -> (s: Settings)
        ensures
            s.is_dirty(),
            StoredSettings::from_settings_spec(s) == self,
    {
        Settings {
            sixty_fps: self.sixty_fps,
            show_fps: self.show_fps,
            save_cheats: self.save_cheats,
            no_ceiling: self.no_ceiling,
            interrupt_loops: self.interrupt_loops,
            alpha_updates: self.alpha_updates,
            dirty: true,
        }
    }

    /// The stored form of the flags of `s`.
    pub open spec fn from_settings_spec(s: Settings) -> StoredSettings {
        StoredSettings {
            sixty_fps: s.sixty_fps,
            show_fps: s.show_fps,
            save_cheats: s.save_cheats,
            no_ceiling: s.no_ceiling,
            interrupt_loops: s.interrupt_loops,
            alpha_updates: s.alpha_updates,
        }
    }

    /// Returns the stored form of the flags of `settings`.
    pub fn from_settings(settings: &Settings) -> (s: StoredSettings)
        ensures
            s == StoredSettings::from_settings_spec(*settings),
    {
        StoredSettings {
            sixty_fps: settings.sixty_fps,
            show_fps: settings.show_fps,
            save_cheats: settings.save_cheats,
            no_ceiling: settings.no_ceiling,
            interrupt_loops: settings.interrupt_loops,
            alpha_updates: settings.alpha_updates,
        }
    }
}

impl Settings {
    /// Whether the flags changed since they were last saved.
    pub open spec fn is_dirty(self) -> bool {
        self.dirty
    }

    /// The settings to use: those read from the settings file, or the
    /// defaults if it could not be read.
    pub fn load(stored: Option<StoredSettings>) -> (s: Settings)
        ensures
            s.is_dirty(),
            StoredSettings::from_settings_spec(s) == match stored {
                Some(st) => st,
                None => default_stored(),
            },
    {
        match stored {
            Some(st) => st.into_settings(),
            None => StoredSettings::default().into_settings(),
        }
    }

    /// Marks the settings as changed.
    pub fn set_dirty(&mut self)
        ensures
            final(self).is_dirty(),
            StoredSettings::from_settings_spec(*final(self)) == StoredSettings::from_settings_spec(
                *old(self),
            ),
    {
        self.dirty = true;
    }

    /// Returns the flags to write to the settings file, or `None` if they
    /// have not changed since the last save. Afterwards they count as saved.
    pub fn save(&mut self) -> (to_write: Option<StoredSettings>)
        ensures
            !final(self).is_dirty(),
            StoredSettings::from_settings_spec(*final(self)) == StoredSettings::from_settings_spec(
                *old(self),
            ),
            to_write == if old(self).is_dirty() {
                Some(StoredSettings::from_settings_spec(*old(self)))
            } else {
                None
            },
    {
        if !self.dirty {
            return None;
        }
        self.dirty = false;
        Some(StoredSettings::from_settings(self))
    }

    /// Returns the value of `flag`.
    pub fn flag(&self, flag: Flag) -> (v: bool)
        ensures
            v == spec_flag(*self, flag),
    {
        match flag {
            Flag::SixtyFps => self.sixty_fps,
            Flag::SaveCheats => self.save_cheats,
            Flag::ShowFps => self.show_fps,
            Flag::InterruptLoops => self.interrupt_loops,
            Flag::AlphaUpdates => self.alpha_updates,
        }
    }
}

/// A row of the options menu: one flag with its title and description.
#[derive(Clone, Copy, Debug)]
pub struct OptionInfo {
    pub title: &'static str,
    pub desc: &'static str,
    pub flag: Flag,
}

impl OptionInfo {
    /// Creates a row for `flag`.
    pub fn new(title: &'static str, desc: &'static str, flag: Flag) -> (info: OptionInfo)
        ensures
            info == (OptionInfo { title, desc, flag }),
    {
        OptionInfo { title, desc, flag }
    }

    /// The value shown for the row: "On" or "Off".
    pub fn value(&self, settings: &Settings) -> (v: &'static str)
        ensures
            v@ == if spec_flag(*settings, self.flag) {
                "On"@
            } else {
                "Off"@
            },
    {
        if settings.flag(self.flag) {
            "On"
        } else {
            "Off"
        }
    }

    /// The tint of the row's value: green when the flag is on.
    pub fn tint(&self, settings: &Settings) -> (t: Option<Colour>)
        ensures
            t == if spec_flag(*settings, self.flag) {
                Some(Colour::Green)
            } else {
                None
            },
    {
        if settings.flag(self.flag) {
            Some(Colour::Green)
        } else {
            None
        }
    }

    /// Handles a tap on the row: the flag is switched and the settings
    /// count as changed. Returns `true`: the menu reloads its rows.
    pub fn handle_tap(&self, settings: &mut Settings) -> (reload: bool)
        ensures
            reload,
            final(settings).is_dirty(),
            spec_flag(*final(settings), self.flag) == !spec_flag(*old(settings), self.flag),
            forall|other: Flag|
                other != self.flag ==> spec_flag(*final(settings), other) == spec_flag(
                    *old(settings),
                    other,
                ),
            final(settings).no_ceiling == old(settings).no_ceiling,
    {
        match self.flag {
            Flag::SixtyFps => settings.sixty_fps = !settings.sixty_fps,
            Flag::SaveCheats => settings.save_cheats = !settings.save_cheats,
            Flag::ShowFps => settings.show_fps = !settings.show_fps,
            Flag::InterruptLoops => settings.interrupt_loops = !settings.interrupt_loops,
            Flag::AlphaUpdates => settings.alpha_updates = !settings.alpha_updates,
        }
        settings.set_dirty();
        true
    }
}

/// The options tab: its name, its warning and its rows.
#[derive(Clone, Debug)]
pub struct OptionsTab {
    pub name: &'static str,
    pub warning: Option<&'static str>,
    pub rows: Vec<OptionInfo>,
}

/// Returns the options tab: named "Options", without a warning, and with
/// one row per flag, in the order the menu shows them. Each row shows "On"
/// or "Off" for its flag (see `OptionInfo::value`).
pub fn tab_data() -> (tab: OptionsTab)
    ensures
        tab.name@ == "Options"@,
        tab.warning is None,
        tab.rows@.len() == 5,
        tab.rows@[0].flag == Flag::SixtyFps,
        tab.rows@[0].title@ == "60 FPS"@,
        tab.rows@[0].desc@ == "Increase the framerate limit from 30 FPS to 60. Default is On."@,
        tab.rows@[1].flag == Flag::SaveCheats,
        tab.rows@[1].title@ == "Save Cheat States"@,
        tab.rows@[1].desc@
            == "Preserve the states of toggleable cheats between game loads/launches. Default is Off."@,
        tab.rows@[2].flag == Flag::ShowFps,
        tab.rows@[2].title@ == "Show FPS"@,
        tab.rows@[2].desc@ == "Display the current framerate at the top of the screen. Default is Off."@,
        tab.rows@[3].flag == Flag::InterruptLoops,
        tab.rows@[3].title@ == "Interrupt Script Loops"@,
        tab.rows@[3].desc@
            == "Reduce lag by detecting and interrupting long loops in scripts. Default is On."@,
        tab.rows@[4].flag == Flag::AlphaUpdates,
        tab.rows@[4].title@ == "Receive Alpha Updates"@,
        tab.rows@[4].desc@
            == "Receive an update prompt when a new alpha version of CLEO is available. Default is Off."@,
{
    let mut rows: Vec<OptionInfo> = Vec::new();
    rows.push(
        OptionInfo::new(
            "60 FPS",
            "Increase the framerate limit from 30 FPS to 60. Default is On.",
            Flag::SixtyFps,
        ),
    );
    rows.push(
        OptionInfo::new(
            "Save Cheat States",
            "Preserve the states of toggleable cheats between game loads/launches. Default is Off.",
            Flag::SaveCheats,
        ),
    );
    rows.push(
        OptionInfo::new(
            "Show FPS",
            "Display the current framerate at the top of the screen. Default is Off.",
            Flag::ShowFps,
        ),
    );
    rows.push(
        OptionInfo::new(
            "Interrupt Script Loops",
            "Reduce lag by detecting and interrupting long loops in scripts. Default is On.",
            Flag::InterruptLoops,
        ),
    );
    rows.push(
        OptionInfo::new(
            "Receive Alpha Updates",
            "Receive an update prompt when a new alpha version of CLEO is available. Default is Off.",
            Flag::AlphaUpdates,
        ),
    );
    OptionsTab { name: "Options", warning: None, rows }
}

} // verus!
