use cleo::meta::touch::Zone;
use cleo::meta::language::{self, Font, Language, Loader, MessageKey};
use cleo::meta::menu::{
    get_module_tab_data, menu_action, row_hit, selected_flags, ButtonTag, MenuAction, MenuMessage,
    MenuSender,
    ModuleTab, PauseState,
};
use cleo::meta::settings::{
    tab_data, BreakMode, CheatTransience, Colour, FpsLock, FpsVisibility, LanguageMode, OptionRow,
    Options, ReleaseChannel, Setting,
};

#[test]
fn language_identifiers() {
    assert_eq!(Language::from_id("en"), Some(Language::English));
    assert_eq!(Language::from_id("zh"), Some(Language::Chinese));
    assert_eq!(Language::from_id("mc"), Some(Language::Galactic));
    assert_eq!(Language::from_id("ru"), Some(Language::Russian));
    assert_eq!(Language::from_id("de"), None);
    assert_eq!(Language::from_id("eng"), None);
    assert_eq!(Language::from_id(""), None);
    assert_eq!(Language::English.lang_code(), ('e', 'n'));
    assert_eq!(Language::Russian.lang_code(), ('r', 'u'));
}

#[test]
fn every_language_found_from_its_code() {
    let all = [
        Language::Arabic, Language::Chinese, Language::Czech, Language::Dutch, Language::English,
        Language::Galactic, Language::Khmer, Language::Russian, Language::Slovak, Language::Spanish, Language::Thai,
        Language::Turkish, Language::Vietnamese,
    ];
    for l in all {
        let (a, b) = l.lang_code();
        let code: String = [a, b].iter().collect();
        assert_eq!(Language::from_id(&code), Some(l));
    }
}

#[test]
fn speaker_order_visits_all_languages() {
    let mut seen = vec![Language::English];
    let mut current = Language::English;
    while let Some(next) = current.next_most_spoken() {
        assert!(!seen.contains(&next));
        seen.push(next);
        current = next;
    }
    assert_eq!(seen.len(), 13);
    assert_eq!(seen[1], Language::Chinese);
    assert_eq!(*seen.last().unwrap(), Language::Galactic);
}

#[test]
fn fonts_and_direction() {
    let en = Language::English.font_set();
    assert_eq!(en.title_font, Font::Pricedown);
    assert_eq!(en.subtitle_size, 19);
    assert_eq!(en.title_size, 25);
    let zh = Language::Chinese.font_set();
    assert_eq!(zh.text_font, Font::PingFangLight);
    assert_eq!(zh.subtitle_size, 17);
    assert_eq!(Language::Khmer.font_set().small_font, Font::KhmerSangam);
    assert!(Language::Arabic.is_rtl());
    assert!(!Language::English.is_rtl());
}

#[test]
fn current_language_follows_set() {
    let mut loader = Loader::new_empty();
    assert_eq!(language::current(&loader), Language::English);
    loader.find_auto_language(Some(Language::Dutch));
    assert_eq!(language::current(&loader), Language::Dutch);
    language::set(&mut loader, Some(Language::Thai));
    assert_eq!(language::current(&loader), Language::Thai);
    language::set(&mut loader, None);
    assert_eq!(language::current(&loader), Language::Dutch);
    let started = language::init(Some(Language::Czech), None);
    assert_eq!(language::current(&started), Language::Czech);
    assert_eq!(started.auto_language, Language::English);
}

#[test]
fn system_language_takes_first_known() {
    let codes = vec!["fr-FR".to_string(), "nl-GB".to_string(), "en".to_string()];
    assert_eq!(language::system_language(&codes), Some(Language::Dutch));
    let unknown = vec!["fr".to_string(), "de-DE".to_string()];
    assert_eq!(language::system_language(&unknown), None);
}

#[test]
fn fps_and_defaults() {
    assert_eq!(FpsLock::Thirty.fps(), 30);
    assert_eq!(FpsLock::Sixty.fps(), 60);
    let o = Options::default();
    assert_eq!(o.fps_lock, FpsLock::Thirty);
    assert_eq!(o.fps_visibility, FpsVisibility::Hidden);
    assert_eq!(o.cheat_transience, CheatTransience::Transient);
    assert_eq!(o.loop_break, BreakMode::Break);
    assert_eq!(o.release_channel, ReleaseChannel::Stable);
    assert_eq!(o.language_mode, LanguageMode::Automatic);
    assert_eq!(LanguageMode::Explicit(Language::Thai).language(), Some(Language::Thai));
    assert_eq!(LanguageMode::Automatic.language(), None);
    assert_eq!(Options::load(None), o);
}

#[test]
fn taps_cycle_settings() {
    let mut o = Options::default();
    let mut loader = Loader::new_empty();
    assert!(o.tap(OptionRow::FpsLock, &mut loader));
    assert_eq!(o.fps_lock, FpsLock::Sixty);
    o.tap(OptionRow::FpsLock, &mut loader);
    assert_eq!(o, Options::default());
    o.tap(OptionRow::ReleaseChannel, &mut loader);
    assert_eq!(o.release_channel, ReleaseChannel::Alpha);
    o.tap(OptionRow::ReleaseChannel, &mut loader);
    assert_eq!(o.release_channel, ReleaseChannel::Disabled);
    o.tap(OptionRow::ReleaseChannel, &mut loader);
    assert_eq!(o, Options::default());
}

#[test]
fn language_taps_offer_every_language_then_automatic() {
    let mut o = Options::default();
    let mut loader = Loader::new_empty();
    o.tap(OptionRow::Language, &mut loader);
    assert_eq!(o.language_mode, LanguageMode::Explicit(Language::English));
    assert_eq!(loader.language_override, Some(Language::English));
    o.tap(OptionRow::Language, &mut loader);
    assert_eq!(o.language_mode, LanguageMode::Explicit(Language::Chinese));
    for _ in 0..12 {
        o.tap(OptionRow::Language, &mut loader);
    }
    assert_eq!(o.language_mode, LanguageMode::Automatic);
    assert_eq!(loader.language_override, None);
}

#[test]
fn setting_messages_and_colours() {
    assert_eq!(FpsLock::Thirty.to_str(), MessageKey::FpsLockOpt30);
    assert_eq!(FpsVisibility::Visible.to_str(), MessageKey::FpsCounterOptEnabled);
    assert_eq!(ReleaseChannel::Disabled.status_colour(), Some(Colour::Red));
    assert_eq!(ReleaseChannel::Alpha.status_colour(), Some(Colour::Orange));
    assert_eq!(BreakMode::Break.status_colour(), None);
    assert_eq!(LanguageMode::Automatic.to_str(), MessageKey::LanguageAutoName);
    assert_eq!(CheatTransience::Transient.title(), MessageKey::CheatTransienceOptTitle);
}

#[test]
fn options_tab_rows_in_order() {
    let tab = tab_data(&Options::default());
    assert_eq!(tab.name, MessageKey::MenuOptionsTabTitle);
    assert!(tab.warning.is_none());
    assert_eq!(tab.rows.len(), 6);
    assert_eq!(tab.rows[0].title, MessageKey::FpsLockOptTitle);
    assert_eq!(tab.rows[0].value, MessageKey::FpsLockOpt30);
    assert_eq!(tab.rows[4].title, MessageKey::LanguageOptTitle);
    assert_eq!(tab.rows[5].value, MessageKey::UpdateReleaseChannelOptStable);
    assert_eq!(tab.rows[5].tint, Some(Colour::Green));
}

#[test]
fn old_settings_file_converted() {
    let flags = vec![
        ("sixty_fps".to_string(), false),
        ("show_fps".to_string(), true),
        ("unrelated".to_string(), true),
        ("show_fps".to_string(), false),
    ];
    let o = Options::from_old_flags(&flags);
    assert_eq!(o.fps_lock, FpsLock::Thirty);
    assert_eq!(o.fps_visibility, FpsVisibility::Hidden);
    assert_eq!(o.cheat_transience, CheatTransience::Transient);
    assert_eq!(o.loop_break, BreakMode::Break);
    let o = Options::from_old_flags(&vec![("save_cheats".to_string(), false), ("interrupt_loops".to_string(), false)]);
    assert_eq!(o.cheat_transience, CheatTransience::Transient);
    assert_eq!(o.loop_break, BreakMode::DontBreak);
    assert_eq!(o.fps_lock, FpsLock::Thirty);
}

#[test]
fn button_tags_send_their_messages() {
    assert_eq!(ButtonTag::new_tab(3).message(), Some(MenuMessage::SelectTab(3)));
    assert_eq!(ButtonTag::new_row(2, 41).message(), Some(MenuMessage::HitRow(2, 41)));
    assert_eq!(ButtonTag::new_close().message(), Some(MenuMessage::Hide));
    let odd = ButtonTag { row: 0, tab: -1, is_close: false };
    assert_eq!(odd.message(), None);
    let t = ButtonTag::new_row(5, 1000);
    assert_eq!(ButtonTag::from_bits(t.to_bits()), t);
    assert_eq!(ButtonTag::new_close().to_bits(), 0x0000_01ff_ffff_ffff);
    let c = ButtonTag::new_close();
    assert_eq!(ButtonTag::from_bits(c.to_bits()), c);
}

#[test]
fn menu_actions() {
    assert_eq!(menu_action(MenuMessage::Show, false), MenuAction::Create);
    assert_eq!(menu_action(MenuMessage::Show, true), MenuAction::WarnAlreadyShown);
    assert_eq!(menu_action(MenuMessage::Hide, true), MenuAction::Remove);
    assert_eq!(menu_action(MenuMessage::Hide, false), MenuAction::Ignore);
    assert_eq!(menu_action(MenuMessage::ReloadRows, true), MenuAction::Reload);
    assert_eq!(menu_action(MenuMessage::SelectTab(2), true), MenuAction::Select(2));
    assert_eq!(menu_action(MenuMessage::HitRow(1, 4), false), MenuAction::WarnNoMenu);
    assert_eq!(selected_flags(3, 1), vec![false, true, false]);
    assert_eq!(selected_flags(2, 5), vec![false, false]);
}

#[test]
fn module_tabs_depend_on_game_state() {
    assert_eq!(
        get_module_tab_data(9),
        vec![ModuleTab::InvokedScripts, ModuleTab::RunningScripts, ModuleTab::Cheats, ModuleTab::Settings]
    );
    assert_eq!(get_module_tab_data(2), vec![ModuleTab::Settings]);
}

#[test]
fn closing_menu_keeps_game_pause() {
    let mut p = PauseState { paused_already: false };
    assert_eq!(p.set_game_timer_paused(true, false), Some(true));
    assert_eq!(p.set_game_timer_paused(false, true), Some(false));
    let mut q = PauseState { paused_already: false };
    assert_eq!(q.set_game_timer_paused(true, true), None);
    assert_eq!(q.set_game_timer_paused(false, true), None);
}

#[test]
fn messages_reach_the_receiver() {
    let (tx, rx) = std::sync::mpsc::channel();
    let mut sender = MenuSender::new(tx);
    MenuMessage::Show.send_with_sender(&mut sender);
    let mut shared = Some(sender);
    MenuMessage::HitRow(1, 2).send(&mut shared);
    let mut missing: Option<MenuSender> = None;
    MenuMessage::Hide.send(&mut missing);
    assert!(missing.is_none());
    assert_eq!(rx.try_recv().unwrap(), MenuMessage::Show);
    assert_eq!(rx.try_recv().unwrap(), MenuMessage::HitRow(1, 2));
    assert!(rx.try_recv().is_err());
    drop(rx);
    let mut sender = shared.unwrap();
    MenuMessage::Show.send_with_sender(&mut sender);
}

#[test]
fn zones_by_script_number() {
    assert_eq!(Zone::by_number(0), None);
    assert_eq!(Zone::by_number(1), Some(Zone::TopLeft));
    assert_eq!(Zone::by_number(2), Some(Zone::MiddleLeft));
    assert_eq!(Zone::by_number(4), Some(Zone::TopMiddle));
    assert_eq!(Zone::by_number(5), Some(Zone::Middle));
    assert_eq!(Zone::by_number(9), Some(Zone::BottomRight));
    assert_eq!(Zone::by_number(10), None);
}

#[test]
fn tapped_rows_reload_when_asked() {
    let (tx, rx) = std::sync::mpsc::channel();
    let mut sender = Some(MenuSender::new(tx));
    row_hit(false, &mut sender);
    assert!(rx.try_recv().is_err());
    row_hit(true, &mut sender);
    assert_eq!(rx.try_recv().unwrap(), MenuMessage::ReloadRows);
    assert!(rx.try_recv().is_err());
    let mut none: Option<MenuSender> = None;
    row_hit(true, &mut none);
    assert!(none.is_none());
}
