//! The user's CLEO settings: each option's values, how a tap on its menu row
//! cycles them, the defaults, and the conversion of the old settings file.

use crate::meta::language::{
    spec_current_language, spec_next_most_spoken, Language, Loader, MessageKey,
};
use crate::chars::same_text;
use vstd::prelude::*;

verus! {

/// Colours that a setting's value can be tinted with in the menu.
#[derive(Clone, Copy, PartialEq, Eq, Structural, Debug)]
pub enum Colour {
    Red,
    Green,
    Orange,
    Blue,
}

/// FPS lock modes.
#[derive(Clone, Copy, PartialEq, Eq, Structural, Debug)]
pub enum FpsLock {
    /// 30 FPS. This is the default mode.
    Thirty,
    /// 60 FPS.
    Sixty,
}

/// The visibility of the FPS counter.
#[derive(Clone, Copy, PartialEq, Eq, Structural, Debug)]
pub enum FpsVisibility {
    /// Not visible. This is the default.
    Hidden,
    /// Visible.
    Visible,
}

/// The behaviour of the cheat system across game restarts.
#[derive(Clone, Copy, PartialEq, Eq, Structural, Debug)]
pub enum CheatTransience {
    /// Cheats will not be saved across game restarts. This is the default.
    Transient,
    /// Cheats will be saved across game restarts.
    Persistent,
}

/// Modes for handling long script loops.
#[derive(Clone, Copy, PartialEq, Eq, Structural, Debug)]
pub enum BreakMode {
    /// Loops will be allowed to run, even if it causes the game to lag.
    DontBreak,
    /// Loops will be broken and continued later. This is the default.
    Break,
}

/// Which set of updates the user receives.
#[derive(Clone, Copy, PartialEq, Eq, Structural, Debug)]
pub enum ReleaseChannel {
    /// No release channel. The user won't receive any updates.
    Disabled,
    /// Stable release channel. This is the default.
    Stable,
    /// Alpha release channel: stable releases and alpha releases.
    Alpha,
}

/// How the language CLEO uses is chosen.
#[derive(Clone, Copy, PartialEq, Eq, Structural, Debug)]
pub enum LanguageMode {
    /// Matches the CLEO language to the device/game settings. This is the default.
    Automatic,
    /// Forces CLEO to use a specific language.
    Explicit(Language),
}

/// The user's CLEO settings.
#[derive(Clone, Copy, PartialEq, Eq, Structural, Debug)]
pub struct Options {
    /// The FPS value that the game locks to.
    pub fps_lock: FpsLock,
    /// Whether or not the current FPS will be shown on the screen.
    pub fps_visibility: FpsVisibility,
    /// How cheats persist across game restarts.
    pub cheat_transience: CheatTransience,
    /// How long loops are handled in order to reduce lag.
    pub loop_break: BreakMode,
    /// Controls when the user is prompted to update their game.
    pub release_channel: ReleaseChannel,
    /// Determines which language CLEO will use.
    pub language_mode: LanguageMode,
}

/// The settings a new user starts with.
pub open spec fn default_options() -> Options {
    Options {
        fps_lock: FpsLock::Thirty,
        fps_visibility: FpsVisibility::Hidden,
        cheat_transience: CheatTransience::Transient,
        loop_break: BreakMode::Break,
        release_channel: ReleaseChannel::Stable,
        language_mode: LanguageMode::Automatic,
    }
}

impl FpsLock {
    /// Returns the FPS lock as a number.
    pub fn fps(self) -> (fps: u32)
        ensures
            fps == match self {
                FpsLock::Thirty => 30u32,
                FpsLock::Sixty => 60u32,
            },
    {
        match self {
            FpsLock::Thirty => 30,
            FpsLock::Sixty => 60,
        }
    }
}

/// The language that the mode `m` fixes, if any.
pub open spec fn spec_mode_language(m: LanguageMode) -> Option<Language> {
    match m {
        LanguageMode::Automatic => None,
        LanguageMode::Explicit(language) => Some(language),
    }
}

impl LanguageMode {
    /// Returns the language that this mode represents, or `None` if the
    /// language should be chosen automatically.
    pub fn language(self) -> (l: Option<Language>)
        ensures
            l == spec_mode_language(self),
    {
        match self {
            LanguageMode::Automatic => None,
            LanguageMode::Explicit(language) => Some(language),
        }
    }
}

impl Default for FpsLock {
    fn default() -> (v: FpsLock)
        ensures
            v == FpsLock::Thirty,
    {
        FpsLock::Thirty
    }
}

impl Default for FpsVisibility {
    fn default() -> (v: FpsVisibility)
        ensures
            v == FpsVisibility::Hidden,
    {
        FpsVisibility::Hidden
    }
}

impl Default for CheatTransience {
    fn default() -> (v: CheatTransience)
        ensures
            v == CheatTransience::Transient,
    {
        CheatTransience::Transient
    }
}

impl Default for BreakMode {
    fn default() -> (v: BreakMode)
        ensures
            v == BreakMode::Break,
    {
        BreakMode::Break
    }
}

impl Default for ReleaseChannel {
    fn default() -> (v: ReleaseChannel)
        ensures
            v == ReleaseChannel::Stable,
    {
        ReleaseChannel::Stable
    }
}

impl Default for LanguageMode {
    fn default() -> (v: LanguageMode)
        ensures
            v == LanguageMode::Automatic,
    {
        LanguageMode::Automatic
    }
}

impl Default for Options {
    fn default() -> (v: Options)
        ensures
            v == default_options(),
    {
        Options {
            fps_lock: FpsLock::Thirty,
            fps_visibility: FpsVisibility::Hidden,
            cheat_transience: CheatTransience::Transient,
            loop_break: BreakMode::Break,
            release_channel: ReleaseChannel::Stable,
            language_mode: LanguageMode::Automatic,
        }
    }
}

/// The value that follows `v` when the user taps the FPS lock row.
pub open spec fn spec_cycle_fps_lock(v: FpsLock) -> FpsLock {
    match v {
        FpsLock::Thirty => FpsLock::Sixty,
        FpsLock::Sixty => FpsLock::Thirty,
    }
}

/// The value that follows `v` when the user taps the FPS counter row.
pub open spec fn spec_cycle_fps_visibility(v: FpsVisibility) -> FpsVisibility {
    match v {
        FpsVisibility::Hidden => FpsVisibility::Visible,
        FpsVisibility::Visible => FpsVisibility::Hidden,
    }
}

/// The value that follows `v` when the user taps the cheat transience row.
pub open spec fn spec_cycle_cheat_transience(v: CheatTransience) -> CheatTransience {
    match v {
        CheatTransience::Transient => CheatTransience::Persistent,
        CheatTransience::Persistent => CheatTransience::Transient,
    }
}

/// The value that follows `v` when the user taps the loop break row.
pub open spec fn spec_cycle_break_mode(v: BreakMode) -> BreakMode {
    match v {
        BreakMode::DontBreak => BreakMode::Break,
        BreakMode::Break => BreakMode::DontBreak,
    }
}

/// The value that follows `v` when the user taps the release channel row.
pub open spec fn spec_cycle_release_channel(v: ReleaseChannel) -> ReleaseChannel {
    match v {
        ReleaseChannel::Disabled => ReleaseChannel::Stable,
        ReleaseChannel::Stable => ReleaseChannel::Alpha,
        ReleaseChannel::Alpha => ReleaseChannel::Disabled,
    }
}

/// The value that follows `v` when the user taps the language row: English
/// first, then each language in speaker order, then automatic again.
pub open spec fn spec_cycle_language_mode(v: LanguageMode) -> LanguageMode {
    match v {
        LanguageMode::Automatic => LanguageMode::Explicit(Language::English),
        LanguageMode::Explicit(current) => match spec_next_most_spoken(current) {
            Some(next) => LanguageMode::Explicit(next),
            None => LanguageMode::Automatic,
        },
    }
}

/// An option value that has a row in the options menu.
pub trait Setting: Sized {
    /// The title of the setting. This is shown in the menu.
    fn title(&self) -> MessageKey;

    /// The description of the setting. This is shown in the menu.
    fn description(&self) -> MessageKey;

    /// Sets this setting's value in `options` (and, for the language, in the
    /// language choice).
    fn apply(&self, options: &mut Options, loader: &mut Loader);

    /// Changes to the next value in the cycle, as a tap on the row does.
    fn cycle_value(&mut self);

    /// The colour that represents this setting's value in the menu, if any.
    fn status_colour(&self) -> Option<Colour>;

    /// The message that describes the value.
    fn to_str(&self) -> MessageKey;
}

impl Setting for FpsLock {
    fn title(&self) -> (k: MessageKey)
        ensures
            k == MessageKey::FpsLockOptTitle,
    {
        MessageKey::FpsLockOptTitle
    }

    fn description(&self) -> (k: MessageKey)
        ensures
            k == MessageKey::FpsLockOptDesc,
    {
        MessageKey::FpsLockOptDesc
    }

    fn apply(&self, options: &mut Options, loader: &mut Loader)
        ensures
            *final(options) == (Options { fps_lock: *self, ..*old(options) }),
            *final(loader) == *old(loader),
    {
        options.fps_lock = *self;
    }

    fn cycle_value(&mut self)
        ensures
            *final(self) == spec_cycle_fps_lock(*old(self)),
    {
        *self = match *self {
            FpsLock::Thirty => FpsLock::Sixty,
            FpsLock::Sixty => FpsLock::Thirty,
        };
    }

    fn status_colour(&self) -> (c: Option<Colour>)
        ensures
            c == None::<Colour>,
    {
        None
    }

    fn to_str(&self) -> (k: MessageKey)
        ensures
            k == match *self {
                FpsLock::Thirty => MessageKey::FpsLockOpt30,
                FpsLock::Sixty => MessageKey::FpsLockOpt60,
            },
    {
        match *self {
            FpsLock::Thirty => MessageKey::FpsLockOpt30,
            FpsLock::Sixty => MessageKey::FpsLockOpt60,
        }
    }
}

impl Setting for FpsVisibility {
    fn title(&self) -> (k: MessageKey)
        ensures
            k == MessageKey::FpsCounterOptTitle,
    {
        MessageKey::FpsCounterOptTitle
    }

    fn description(&self) -> (k: MessageKey)
        ensures
            k == MessageKey::FpsCounterOptDesc,
    {
        MessageKey::FpsCounterOptDesc
    }

    fn apply(&self, options: &mut Options, loader: &mut Loader)
        ensures
            *final(options) == (Options { fps_visibility: *self, ..*old(options) }),
            *final(loader) == *old(loader),
    {
        options.fps_visibility = *self;
    }

    fn cycle_value(&mut self)
        ensures
            *final(self) == spec_cycle_fps_visibility(*old(self)),
    {
        *self = match *self {
            FpsVisibility::Hidden => FpsVisibility::Visible,
            FpsVisibility::Visible => FpsVisibility::Hidden,
        };
    }

    fn status_colour(&self) -> (c: Option<Colour>)
        ensures
            c == None::<Colour>,
    {
        None
    }

    fn to_str(&self) -> (k: MessageKey)
        ensures
            k == match *self {
                FpsVisibility::Hidden => MessageKey::FpsCounterOptHidden,
                FpsVisibility::Visible => MessageKey::FpsCounterOptEnabled,
            },
    {
        match *self {
            FpsVisibility::Hidden => MessageKey::FpsCounterOptHidden,
            FpsVisibility::Visible => MessageKey::FpsCounterOptEnabled,
        }
    }
}

impl Setting for CheatTransience {
    fn title(&self) -> (k: MessageKey)
        ensures
            k == MessageKey::CheatTransienceOptTitle,
    {
        MessageKey::CheatTransienceOptTitle
    }

    fn description(&self) -> (k: MessageKey)
        ensures
            k == MessageKey::CheatTransienceOptDesc,
    {
        MessageKey::CheatTransienceOptDesc
    }

    fn apply(&self, options: &mut Options, loader: &mut Loader)
        ensures
            *final(options) == (Options { cheat_transience: *self, ..*old(options) }),
            *final(loader) == *old(loader),
    {
        options.cheat_transience = *self;
    }

    fn cycle_value(&mut self)
        ensures
            *final(self) == spec_cycle_cheat_transience(*old(self)),
    {
        *self = match *self {
            CheatTransience::Transient => CheatTransience::Persistent,
            CheatTransience::Persistent => CheatTransience::Transient,
        };
    }

    fn status_colour(&self) -> (c: Option<Colour>)
        ensures
            c == None::<Colour>,
    {
        None
    }

    fn to_str(&self) -> (k: MessageKey)
        ensures
            k == match *self {
                CheatTransience::Transient => MessageKey::CheatTransienceOptTransient,
                CheatTransience::Persistent => MessageKey::CheatTransienceOptPersistent,
            },
    {
        match *self {
            CheatTransience::Transient => MessageKey::CheatTransienceOptTransient,
            CheatTransience::Persistent => MessageKey::CheatTransienceOptPersistent,
        }
    }
}

impl Setting for BreakMode {
    fn title(&self) -> (k: MessageKey)
        ensures
            k == MessageKey::ScriptModeOptTitle,
    {
        MessageKey::ScriptModeOptTitle
    }

    fn description(&self) -> (k: MessageKey)
        ensures
            k == MessageKey::ScriptModeOptDesc,
    {
        MessageKey::ScriptModeOptDesc
    }

    fn apply(&self, options: &mut Options, loader: &mut Loader)
        ensures
            *final(options) == (Options { loop_break: *self, ..*old(options) }),
            *final(loader) == *old(loader),
    {
        options.loop_break = *self;
    }

    fn cycle_value(&mut self)
        ensures
            *final(self) == spec_cycle_break_mode(*old(self)),
    {
        *self = match *self {
            BreakMode::DontBreak => BreakMode::Break,
            BreakMode::Break => BreakMode::DontBreak,
        };
    }

    fn status_colour(&self) -> (c: Option<Colour>)
        ensures
            c == None::<Colour>,
    {
        None
    }

    fn to_str(&self) -> (k: MessageKey)
        ensures
            k == match *self {
                BreakMode::DontBreak => MessageKey::ScriptModeOptDontBreak,
                BreakMode::Break => MessageKey::ScriptModeOptBreak,
            },
    {
        match *self {
            BreakMode::DontBreak => MessageKey::ScriptModeOptDontBreak,
            BreakMode::Break => MessageKey::ScriptModeOptBreak,
        }
    }
}

impl Setting for ReleaseChannel {
    fn title(&self) -> (k: MessageKey)
        ensures
            k == MessageKey::UpdateReleaseChannelOptTitle,
    {
        MessageKey::UpdateReleaseChannelOptTitle
    }

    fn description(&self) -> (k: MessageKey)
        ensures
            k == MessageKey::UpdateReleaseChannelOptDesc,
    {
        MessageKey::UpdateReleaseChannelOptDesc
    }

    fn apply(&self, options: &mut Options, loader: &mut Loader)
        ensures
            *final(options) == (Options { release_channel: *self, ..*old(options) }),
            *final(loader) == *old(loader),
    {
        options.release_channel = *self;
    }

    fn cycle_value(&mut self)
        ensures
            *final(self) == spec_cycle_release_channel(*old(self)),
    {
        *self = match *self {
            ReleaseChannel::Disabled => ReleaseChannel::Stable,
            ReleaseChannel::Stable => ReleaseChannel::Alpha,
            ReleaseChannel::Alpha => ReleaseChannel::Disabled,
        };
    }

    fn status_colour(&self) -> (c: Option<Colour>)
        ensures
            c == Some(
                match *self {
                    ReleaseChannel::Disabled => Colour::Red,
                    ReleaseChannel::Stable => Colour::Green,
                    ReleaseChannel::Alpha => Colour::Orange,
                },
            ),
    {
        match *self {
            ReleaseChannel::Disabled => Some(Colour::Red),
            ReleaseChannel::Stable => Some(Colour::Green),
            ReleaseChannel::Alpha => Some(Colour::Orange),
        }
    }

    fn to_str(&self) -> (k: MessageKey)
        ensures
            k == match *self {
                ReleaseChannel::Disabled => MessageKey::UpdateReleaseChannelOptDisabled,
                ReleaseChannel::Stable => MessageKey::UpdateReleaseChannelOptStable,
                ReleaseChannel::Alpha => MessageKey::UpdateReleaseChannelOptAlpha,
            },
    {
        match *self {
            ReleaseChannel::Disabled => MessageKey::UpdateReleaseChannelOptDisabled,
            ReleaseChannel::Stable => MessageKey::UpdateReleaseChannelOptStable,
            ReleaseChannel::Alpha => MessageKey::UpdateReleaseChannelOptAlpha,
        }
    }
}

impl Setting for LanguageMode {
    fn title(&self) -> (k: MessageKey)
        ensures
            k == MessageKey::LanguageOptTitle,
    {
        MessageKey::LanguageOptTitle
    }

    fn description(&self) -> (k: MessageKey)
        ensures
            k == MessageKey::LanguageOptDesc,
    {
        MessageKey::LanguageOptDesc
    }

    fn apply(&self, options: &mut Options, loader: &mut Loader)
        ensures
            *final(options) == (Options { language_mode: *self, ..*old(options) }),
            final(loader).auto_language == old(loader).auto_language,
            final(loader).language_override == spec_mode_language(*self),
    {
        options.language_mode = *self;
        crate::meta::language::set(loader, self.language());
    }

    fn cycle_value(&mut self)
        ensures
            *final(self) == spec_cycle_language_mode(*old(self)),
    {
        *self = match *self {
            LanguageMode::Automatic => LanguageMode::Explicit(Language::English),
            LanguageMode::Explicit(current) => match current.next_most_spoken() {
                Some(next) => LanguageMode::Explicit(next),
                None => LanguageMode::Automatic,
            },
        };
    }

    fn status_colour(&self) -> (c: Option<Colour>)
        ensures
            c == None::<Colour>,
    {
        None
    }

    fn to_str(&self) -> (k: MessageKey)
        ensures
            k == match *self {
                LanguageMode::Automatic => MessageKey::LanguageAutoName,
                LanguageMode::Explicit(_) => MessageKey::LanguageName,
            },
    {
        match *self {
            LanguageMode::Automatic => MessageKey::LanguageAutoName,
            LanguageMode::Explicit(_) => MessageKey::LanguageName,
        }
    }
}

/// A two-valued setting returns to where it started after two taps; the
/// release channel after three.
pub proof fn lemma_cycles_return(
    a: FpsLock,
    b: FpsVisibility,
    c: CheatTransience,
    d: BreakMode,
    e: ReleaseChannel,
)
    ensures
        spec_cycle_fps_lock(spec_cycle_fps_lock(a)) == a,
        spec_cycle_fps_visibility(spec_cycle_fps_visibility(b)) == b,
        spec_cycle_cheat_transience(spec_cycle_cheat_transience(c)) == c,
        spec_cycle_break_mode(spec_cycle_break_mode(d)) == d,
        spec_cycle_release_channel(spec_cycle_release_channel(spec_cycle_release_channel(e))) == e,
        spec_cycle_release_channel(e) != e,
        spec_cycle_release_channel(spec_cycle_release_channel(e)) != e,
{
}

/// The language mode reached from `m` after `n` taps.
pub open spec fn language_mode_after_taps(m: LanguageMode, n: nat) -> LanguageMode
    decreases n,
{
    if n == 0 {
        m
    } else {
        spec_cycle_language_mode(language_mode_after_taps(m, (n - 1) as nat))
    }
}

/// Tapping the language row from automatic mode offers every language once,
/// in speaker order (English after the first tap), and returns to automatic
/// mode after one tap more than there are languages.
pub proof fn lemma_language_taps_visit_all(l: Language)
    ensures
        language_mode_after_taps(
            LanguageMode::Automatic,
            crate::meta::language::speaker_rank(l) + 1,
        ) == LanguageMode::Explicit(l),
        language_mode_after_taps(
            LanguageMode::Automatic,
            crate::meta::language::language_count() + 1,
        ) == LanguageMode::Automatic,
{
    let a = LanguageMode::Automatic;
    assert(language_mode_after_taps(a, 0) == a);
    assert(language_mode_after_taps(a, 1) == LanguageMode::Explicit(Language::English));
    assert(language_mode_after_taps(a, 2) == LanguageMode::Explicit(Language::Chinese));
    assert(language_mode_after_taps(a, 3) == LanguageMode::Explicit(Language::Spanish));
    assert(language_mode_after_taps(a, 4) == LanguageMode::Explicit(Language::Arabic));
    assert(language_mode_after_taps(a, 5) == LanguageMode::Explicit(Language::Russian));
    assert(language_mode_after_taps(a, 6) == LanguageMode::Explicit(Language::Turkish));
    assert(language_mode_after_taps(a, 7) == LanguageMode::Explicit(Language::Vietnamese));
    assert(language_mode_after_taps(a, 8) == LanguageMode::Explicit(Language::Thai));
    assert(language_mode_after_taps(a, 9) == LanguageMode::Explicit(Language::Dutch));
    assert(language_mode_after_taps(a, 10) == LanguageMode::Explicit(Language::Khmer));
    assert(language_mode_after_taps(a, 11) == LanguageMode::Explicit(Language::Czech));
    assert(language_mode_after_taps(a, 12) == LanguageMode::Explicit(Language::Slovak));
    assert(language_mode_after_taps(a, 13) == LanguageMode::Explicit(Language::Galactic));
    assert(language_mode_after_taps(a, 14) == LanguageMode::Automatic);
}

/// The rows of the options menu, in the order in which the menu shows them.
#[derive(Clone, Copy, PartialEq, Eq, Structural, Debug)]
pub enum OptionRow {
    FpsLock,
    FpsVisibility,
    CheatTransience,
    LoopBreak,
    Language,
    ReleaseChannel,
}

/// What the options menu shows in one row.
#[derive(Clone, Copy, PartialEq, Eq, Structural, Debug)]
pub struct SettingRow {
    /// The title of the setting.
    pub title: MessageKey,
    /// The description shown beneath the row.
    pub description: MessageKey,
    /// The current value.
    pub value: MessageKey,
    /// The colour that the value is tinted with, if any.
    pub tint: Option<Colour>,
}

/// The contents of the options tab.
#[derive(Clone, Debug)]
pub struct TabData {
    /// The title of the tab.
    pub name: MessageKey,
    /// A warning shown above the rows, if any.
    pub warning: Option<MessageKey>,
    /// The rows, in order.
    pub rows: Vec<SettingRow>,
}

/// What the menu row `row` shows for `options`.
pub open spec fn spec_setting_row(options: Options, row: OptionRow) -> SettingRow {
    match row {
        OptionRow::FpsLock => SettingRow {
            title: MessageKey::FpsLockOptTitle,
            description: MessageKey::FpsLockOptDesc,
            value: match options.fps_lock {
                FpsLock::Thirty => MessageKey::FpsLockOpt30,
                FpsLock::Sixty => MessageKey::FpsLockOpt60,
            },
            tint: None,
        },
        OptionRow::FpsVisibility => SettingRow {
            title: MessageKey::FpsCounterOptTitle,
            description: MessageKey::FpsCounterOptDesc,
            value: match options.fps_visibility {
                FpsVisibility::Hidden => MessageKey::FpsCounterOptHidden,
                FpsVisibility::Visible => MessageKey::FpsCounterOptEnabled,
            },
            tint: None,
        },
        OptionRow::CheatTransience => SettingRow {
            title: MessageKey::CheatTransienceOptTitle,
            description: MessageKey::CheatTransienceOptDesc,
            value: match options.cheat_transience {
                CheatTransience::Transient => MessageKey::CheatTransienceOptTransient,
                CheatTransience::Persistent => MessageKey::CheatTransienceOptPersistent,
            },
            tint: None,
        },
        OptionRow::LoopBreak => SettingRow {
            title: MessageKey::ScriptModeOptTitle,
            description: MessageKey::ScriptModeOptDesc,
            value: match options.loop_break {
                BreakMode::DontBreak => MessageKey::ScriptModeOptDontBreak,
                BreakMode::Break => MessageKey::ScriptModeOptBreak,
            },
            tint: None,
        },
        OptionRow::Language => SettingRow {
            title: MessageKey::LanguageOptTitle,
            description: MessageKey::LanguageOptDesc,
            value: match options.language_mode {
                LanguageMode::Automatic => MessageKey::LanguageAutoName,
                LanguageMode::Explicit(_) => MessageKey::LanguageName,
            },
            tint: None,
        },
        OptionRow::ReleaseChannel => SettingRow {
            title: MessageKey::UpdateReleaseChannelOptTitle,
            description: MessageKey::UpdateReleaseChannelOptDesc,
            value: match options.release_channel {
                ReleaseChannel::Disabled => MessageKey::UpdateReleaseChannelOptDisabled,
                ReleaseChannel::Stable => MessageKey::UpdateReleaseChannelOptStable,
                ReleaseChannel::Alpha => MessageKey::UpdateReleaseChannelOptAlpha,
            },
            tint: Some(
                match options.release_channel {
                    ReleaseChannel::Disabled => Colour::Red,
                    ReleaseChannel::Stable => Colour::Green,
                    ReleaseChannel::Alpha => Colour::Orange,
                },
            ),
        },
    }
}

/// The options after the user taps the row `row`: that setting moves to its
/// next value and every other setting stays.
pub open spec fn spec_tap(o: Options, row: OptionRow) -> Options {
    match row {
        OptionRow::FpsLock => Options { fps_lock: spec_cycle_fps_lock(o.fps_lock), ..o },
        OptionRow::FpsVisibility => Options {
            fps_visibility: spec_cycle_fps_visibility(o.fps_visibility),
            ..o
        },
        OptionRow::CheatTransience => Options {
            cheat_transience: spec_cycle_cheat_transience(o.cheat_transience),
            ..o
        },
        OptionRow::LoopBreak => Options { loop_break: spec_cycle_break_mode(o.loop_break), ..o },
        OptionRow::Language => Options {
            language_mode: spec_cycle_language_mode(o.language_mode),
            ..o
        },
        OptionRow::ReleaseChannel => Options {
            release_channel: spec_cycle_release_channel(o.release_channel),
            ..o
        },
    }
}

/// Returns the tab data for the options menu: one row per setting, in the
/// order of `OptionRow`.
pub fn tab_data(options: &Options) -> (tab: TabData)
    ensures
        tab.name == MessageKey::MenuOptionsTabTitle,
        tab.warning == None::<MessageKey>,
        tab.rows@ == seq![
            spec_setting_row(*options, OptionRow::FpsLock),
            spec_setting_row(*options, OptionRow::FpsVisibility),
            spec_setting_row(*options, OptionRow::CheatTransience),
            spec_setting_row(*options, OptionRow::LoopBreak),
            spec_setting_row(*options, OptionRow::Language),
            spec_setting_row(*options, OptionRow::ReleaseChannel),
        ],
{
    let mut rows: Vec<SettingRow> = Vec::new();
    let o = *options;
    rows.push(
        SettingRow {
            title: o.fps_lock.title(),
            description: o.fps_lock.description(),
            value: o.fps_lock.to_str(),
            tint: o.fps_lock.status_colour(),
        },
    );
    rows.push(
        SettingRow {
            title: o.fps_visibility.title(),
            description: o.fps_visibility.description(),
            value: o.fps_visibility.to_str(),
            tint: o.fps_visibility.status_colour(),
        },
    );
    rows.push(
        SettingRow {
            title: o.cheat_transience.title(),
            description: o.cheat_transience.description(),
            value: o.cheat_transience.to_str(),
            tint: o.cheat_transience.status_colour(),
        },
    );
    rows.push(
        SettingRow {
            title: o.loop_break.title(),
            description: o.loop_break.description(),
            value: o.loop_break.to_str(),
            tint: o.loop_break.status_colour(),
        },
    );
    rows.push(
        SettingRow {
            title: o.language_mode.title(),
            description: o.language_mode.description(),
            value: o.language_mode.to_str(),
            tint: o.language_mode.status_colour(),
        },
    );
    rows.push(
        SettingRow {
            title: o.release_channel.title(),
            description: o.release_channel.description(),
            value: o.release_channel.to_str(),
            tint: o.release_channel.status_colour(),
        },
    );
    TabData { name: MessageKey::MenuOptionsTabTitle, warning: None, rows }
}

impl Options {
    /// Handles a tap on the row `row` of the options menu: the setting moves
    /// to its next value and is stored in the options (the language also in
    /// the language choice). Returns `true`: the menu reloads its rows.
    pub fn tap(&mut self, row: OptionRow, loader: &mut Loader) -> (reload: bool)
        ensures
            reload,
            *final(self) == spec_tap(*old(self), row),
            final(loader).auto_language == old(loader).auto_language,
            row == OptionRow::Language ==> final(loader).language_override
                == spec_mode_language(final(self).language_mode),
            row != OptionRow::Language ==> *final(loader) == *old(loader),
    {
        match row {
            OptionRow::FpsLock => {
                let mut v = self.fps_lock;
                v.cycle_value();
                v.apply(self, loader);
            },
            OptionRow::FpsVisibility => {
                let mut v = self.fps_visibility;
                v.cycle_value();
                v.apply(self, loader);
            },
            OptionRow::CheatTransience => {
                let mut v = self.cheat_transience;
                v.cycle_value();
                v.apply(self, loader);
            },
            OptionRow::LoopBreak => {
                let mut v = self.loop_break;
                v.cycle_value();
                v.apply(self, loader);
            },
            OptionRow::Language => {
                let mut v = self.language_mode;
                v.cycle_value();
                v.apply(self, loader);
            },
            OptionRow::ReleaseChannel => {
                let mut v = self.release_channel;
                v.cycle_value();
                v.apply(self, loader);
            },
        }
        true
    }

    /// The loaded settings, or the defaults when no settings file was found
    /// or it could not be read.
    pub fn load(found: Option<Options>) -> (o: Options)
        ensures
            o == match found {
                Some(f) => f,
                None => default_options(),
            },
    {
        match found {
            Some(f) => f,
            None => Options::default(),
        }
    }
}

/// A tap changes only the tapped setting; tapping a two-valued setting twice,
/// or the release channel three times, gives back the options there were.
pub proof fn lemma_taps_return(o: Options, row: OptionRow)
    ensures
        row != OptionRow::FpsLock ==> spec_tap(o, row).fps_lock == o.fps_lock,
        row != OptionRow::FpsVisibility ==> spec_tap(o, row).fps_visibility == o.fps_visibility,
        row != OptionRow::CheatTransience ==> spec_tap(o, row).cheat_transience
            == o.cheat_transience,
        row != OptionRow::LoopBreak ==> spec_tap(o, row).loop_break == o.loop_break,
        row != OptionRow::Language ==> spec_tap(o, row).language_mode == o.language_mode,
        row != OptionRow::ReleaseChannel ==> spec_tap(o, row).release_channel
            == o.release_channel,
        row != OptionRow::Language && row != OptionRow::ReleaseChannel ==> spec_tap(
            spec_tap(o, row),
            row,
        ) == o,
        row == OptionRow::ReleaseChannel ==> spec_tap(spec_tap(spec_tap(o, row), row), row) == o,
{
}

/// The value that the old settings file gave `key`: that of its last entry
/// for `key` (a later entry replaces an earlier one), or `None`.
pub open spec fn spec_old_flag(flags: Seq<(String, bool)>, key: Seq<char>) -> Option<bool>
    decreases flags.len(),
{
    if flags.len() == 0 {
        None
    } else if flags.last().0@ == key {
        Some(flags.last().1)
    } else {
        spec_old_flag(flags.drop_last(), key)
    }
}

/// Returns the value that the old settings file gave `key`, if any.
fn old_flag(flags: &Vec<(String, bool)>, key: &str) -> (v: Option<bool>)
    ensures
        v == spec_old_flag(flags@, key@),
{
    let mut found: Option<bool> = None;
    let mut i: usize = 0;
    while i < flags.len()
        invariant
            0 <= i <= flags@.len(),
            found == spec_old_flag(flags@.take(i as int), key@),
        decreases flags@.len() - i,
    {
        proof {
            assert(flags@.take(i + 1).drop_last() =~= flags@.take(i as int));
        }
        if same_text(flags[i].0.as_str(), key) {
            found = Some(flags[i].1);
        }
        i = i + 1;
    }
    proof {
        assert(flags@.take(flags@.len() as int) =~= flags@);
    }
    found
}

/// The setting given by an old Boolean flag: `on` if it was set, `off` if
/// it was cleared, and `default` if the old file did not have it.
pub open spec fn spec_flag_setting<T>(flag: Option<bool>, on: T, off: T, default: T) -> T {
    match flag {
        Some(true) => on,
        Some(false) => off,
        None => default,
    }
}

/// The old file's flag `key` made into a setting.
fn flag_setting<T: Copy>(flag: Option<bool>, on: T, off: T, default: T) -> (v: T)
    ensures
        v == spec_flag_setting(flag, on, off, default),
{
    match flag {
        Some(true) => on,
        Some(false) => off,
        None => default,
    }
}

/// The settings that the old-style settings file's flags stand for. The old
/// file had no release channel or language, so those take their defaults.
pub open spec fn spec_options_from_old_flags(flags: Seq<(String, bool)>) -> Options {
    Options {
        fps_lock: spec_flag_setting(
            spec_old_flag(flags, "sixty_fps"@),
            FpsLock::Sixty,
            FpsLock::Thirty,
            FpsLock::Thirty,
        ),
        fps_visibility: spec_flag_setting(
            spec_old_flag(flags, "show_fps"@),
            FpsVisibility::Visible,
            FpsVisibility::Hidden,
            FpsVisibility::Hidden,
        ),
        cheat_transience: spec_flag_setting(
            spec_old_flag(flags, "save_cheats"@),
            CheatTransience::Persistent,
            CheatTransience::Transient,
            CheatTransience::Transient,
        ),
        loop_break: spec_flag_setting(
            spec_old_flag(flags, "interrupt_loops"@),
            BreakMode::Break,
            BreakMode::DontBreak,
            BreakMode::Break,
        ),
        release_channel: ReleaseChannel::Stable,
        language_mode: LanguageMode::Automatic,
    }
}

impl Options {
    /// Converts the key/value pairs of an old-style settings file into
    /// settings.
    pub fn from_old_flags(flags: &Vec<(String, bool)>) -> (o: Options)
        ensures
            o == spec_options_from_old_flags(flags@),
    {
        Options {
            fps_lock: flag_setting(
                old_flag(flags, "sixty_fps"),
                FpsLock::Sixty,
                FpsLock::Thirty,
                FpsLock::default(),
            ),
            fps_visibility: flag_setting(
                old_flag(flags, "show_fps"),
                FpsVisibility::Visible,
                FpsVisibility::Hidden,
                FpsVisibility::default(),
            ),
            cheat_transience: flag_setting(
                old_flag(flags, "save_cheats"),
                CheatTransience::Persistent,
                CheatTransience::Transient,
                CheatTransience::default(),
            ),
            loop_break: flag_setting(
                old_flag(flags, "interrupt_loops"),
                BreakMode::Break,
                BreakMode::DontBreak,
                BreakMode::default(),
            ),
            release_channel: ReleaseChannel::default(),
            language_mode: LanguageMode::default(),
        }
    }
}

} // verus!
