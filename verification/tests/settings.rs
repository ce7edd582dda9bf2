use cleo::meta::settings::Colour;
use cleo::settings::{tab_data, Flag, OptionInfo, Settings, StoredSettings};

#[test]
fn defaults_and_loading() {
    let d = StoredSettings::default();
    assert!(d.sixty_fps && !d.show_fps && !d.save_cheats && d.no_ceiling && d.interrupt_loops && !d.alpha_updates);
    let s = Settings::load(None);
    assert!(s.dirty);
    assert_eq!(StoredSettings::from_settings(&s), d);
    let stored = StoredSettings { show_fps: true, ..d };
    assert_eq!(StoredSettings::from_settings(&stored.into_settings()), stored);
}

#[test]
fn save_only_when_changed() {
    let mut s = Settings::load(None);
    assert_eq!(s.save(), Some(StoredSettings::default()));
    assert_eq!(s.save(), None);
    s.set_dirty();
    assert!(s.save().is_some());
}

#[test]
fn rows_toggle_flags() {
    let mut s = Settings::load(None);
    s.save();
    let tab = tab_data();
    assert_eq!(tab.name, "Options");
    assert_eq!(tab.warning, None);
    let rows = tab.rows;
    assert_eq!(rows.len(), 5);
    assert_eq!(rows[1].title, "Save Cheat States");
    assert_eq!(rows[0].title, "60 FPS");
    assert_eq!(rows[4].flag, Flag::AlphaUpdates);
    let fps = rows[0];
    assert_eq!(fps.value(&s), "On");
    assert_eq!(fps.tint(&s), Some(Colour::Green));
    assert!(fps.handle_tap(&mut s));
    assert_eq!(fps.value(&s), "Off");
    assert_eq!(fps.tint(&s), None);
    assert!(s.dirty);
    assert!(!s.sixty_fps);
    assert!(s.interrupt_loops);
    let info = OptionInfo::new("t", "d", Flag::ShowFps);
    assert_eq!(info.value(&s), "Off");
}
