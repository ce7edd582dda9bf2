//! CLEO's languages: their identifiers, fonts and speaker order, and the
//! choice of the language in use.

use vstd::prelude::*;

verus! {

/// Languages that CLEO supports.
#[derive(Clone, Copy, PartialEq, Eq, Structural, Debug, Hash)]
pub enum Language {
    Arabic,
    Chinese,
    Czech,
    Dutch,
    English,
    Galactic,
    Khmer,
    Russian,
    Slovak,
    Spanish,
    Thai,
    Turkish,
    Vietnamese,
}

/// The language named by the two-character identifier `c0 c1`, among those
/// that `Language::from_id` recognises.
pub open spec fn spec_id_language(c0: char, c1: char) -> Option<Language> {
    if c0 == 'a' && c1 == 'r' {
        Some(Language::Arabic)
    } else if c0 == 'z' && c1 == 'h' {
        Some(Language::Chinese)
    } else if c0 == 'c' && c1 == 'z' {
        Some(Language::Czech)
    } else if c0 == 'n' && c1 == 'l' {
        Some(Language::Dutch)
    } else if c0 == 'e' && c1 == 'n' {
        Some(Language::English)
    } else if c0 == 'm' && c1 == 'c' {
        Some(Language::Galactic)
    } else if c0 == 'k' && c1 == 'm' {
        Some(Language::Khmer)
    } else if c0 == 'r' && c1 == 'u' {
        Some(Language::Russian)
    } else if c0 == 's' && c1 == 'k' {
        Some(Language::Slovak)
    } else if c0 == 'e' && c1 == 's' {
        Some(Language::Spanish)
    } else if c0 == 't' && c1 == 'h' {
        Some(Language::Thai)
    } else if c0 == 't' && c1 == 'r' {
        Some(Language::Turkish)
    } else if c0 == 'v' && c1 == 'i' {
        Some(Language::Vietnamese)
    } else {
        None
    }
}

/// The language that the identifier `id` names, if CLEO has it.
pub open spec fn spec_from_id(id: Seq<char>) -> Option<Language> {
    if id.len() == 2 {
        spec_id_language(id[0], id[1])
    } else {
        None
    }
}

/// The Unicode language identifier of each language, as two characters.
pub open spec fn spec_lang_code(l: Language) -> (char, char) {
    match l {
        Language::Arabic => ('a', 'r'),
        Language::Chinese => ('z', 'h'),
        Language::Czech => ('c', 'z'),
        Language::Dutch => ('n', 'l'),
        Language::English => ('e', 'n'),
        Language::Galactic => ('m', 'c'),
        Language::Khmer => ('k', 'm'),
        Language::Russian => ('r', 'u'),
        Language::Slovak => ('s', 'k'),
        Language::Spanish => ('e', 's'),
        Language::Thai => ('t', 'h'),
        Language::Turkish => ('t', 'r'),
        Language::Vietnamese => ('v', 'i'),
    }
}

/// Position of each language when the languages are ordered from the most
/// spoken (English, 0) to the least spoken (Galactic, 12).
pub open spec fn speaker_rank(l: Language) -> nat {
    match l {
        Language::English => 0,
        Language::Chinese => 1,
        Language::Spanish => 2,
        Language::Arabic => 3,
        Language::Russian => 4,
        Language::Turkish => 5,
        Language::Vietnamese => 6,
        Language::Thai => 7,
        Language::Dutch => 8,
        Language::Khmer => 9,
        Language::Czech => 10,
        Language::Slovak => 11,
        Language::Galactic => 12,
    }
}

/// The number of languages that CLEO supports.
pub open spec fn language_count() -> nat {
    13
}

/// The language that follows `l` in speaker order, if any.
pub open spec fn spec_next_most_spoken(l: Language) -> Option<Language> {
    match l {
        Language::English => Some(Language::Chinese),
        Language::Chinese => Some(Language::Spanish),
        Language::Spanish => Some(Language::Arabic),
        Language::Arabic => Some(Language::Russian),
        Language::Russian => Some(Language::Turkish),
        Language::Turkish => Some(Language::Vietnamese),
        Language::Vietnamese => Some(Language::Thai),
        Language::Thai => Some(Language::Dutch),
        Language::Dutch => Some(Language::Khmer),
        Language::Khmer => Some(Language::Czech),
        Language::Czech => Some(Language::Slovak),
        Language::Slovak => Some(Language::Galactic),
        Language::Galactic => None,
    }
}

/// Fonts that the menus use.
#[derive(Clone, Copy, PartialEq, Eq, Structural, Debug)]
pub enum Font {
    AvenirNextHeavy,
    AvenirNextMedium,
    AvenirNextCondensed,
    PingFangSemibold,
    PingFangMedium,
    PingFangLight,
    Pricedown,
    ChaletComprime,
    KhmerSangam,
}

/// The fonts and point sizes used to draw text in one language.
#[derive(Clone, Copy, PartialEq, Eq, Structural, Debug)]
pub struct FontSet {
    pub title_font: Font,
    pub title_size: u32,
    pub small_font: Font,
    pub small_size: u32,
    pub text_font: Font,
    pub text_size: u32,
    pub subtitle_font: Font,
    pub subtitle_size: u32,
}

/// Standard title size, in points.
pub const STD_TITLE: u32 = 25;

/// Standard size of small text, in points.
pub const STD_SMALL: u32 = 10;

/// Standard size of body text, in points.
pub const STD_TEXT: u32 = 15;

/// Standard subtitle size, in points.
pub const STD_SUBTITLE: u32 = 17;

/// A font set that uses `title` for titles, `small` for small text, `text`
/// for body text and subtitles, at the standard sizes (the subtitle `extra`
/// points larger).
pub open spec fn font_set_of(title: Font, small: Font, text: Font, subtitle: Font, extra: u32) -> FontSet {
    FontSet {
        title_font: title,
        title_size: STD_TITLE,
        small_font: small,
        small_size: STD_SMALL,
        text_font: text,
        text_size: STD_TEXT,
        subtitle_font: subtitle,
        subtitle_size: (STD_SUBTITLE + extra) as u32,
    }
}

/// The fonts that each language is drawn with.
pub open spec fn spec_font_set(l: Language) -> FontSet {
    match l {
        Language::Arabic | Language::Czech | Language::Slovak => font_set_of(
            Font::AvenirNextHeavy,
            Font::AvenirNextMedium,
            Font::AvenirNextCondensed,
            Font::AvenirNextCondensed,
            0,
        ),
        Language::Chinese => font_set_of(
            Font::PingFangSemibold,
            Font::PingFangMedium,
            Font::PingFangLight,
            Font::PingFangMedium,
            0,
        ),
        Language::Dutch | Language::English | Language::Galactic | Language::Russian
        | Language::Spanish | Language::Turkish => font_set_of(
            Font::Pricedown,
            Font::AvenirNextMedium,
            Font::ChaletComprime,
            Font::ChaletComprime,
            2,
        ),
        Language::Khmer => font_set_of(
            Font::KhmerSangam,
            Font::KhmerSangam,
            Font::KhmerSangam,
            Font::KhmerSangam,
            0,
        ),
        Language::Thai | Language::Vietnamese => font_set_of(
            Font::AvenirNextMedium,
            Font::AvenirNextMedium,
            Font::AvenirNextCondensed,
            Font::AvenirNextCondensed,
            0,
        ),
    }
}

/// The language with identifier `c0 c1`, if CLEO has it.
fn language_for_pair(c0: char, c1: char) -> (l: Option<Language>)
    ensures
        l == spec_id_language(c0, c1),
{
    if c0 == 'a' && c1 == 'r' {
        Some(Language::Arabic)
    } else if c0 == 'z' && c1 == 'h' {
        Some(Language::Chinese)
    } else if c0 == 'c' && c1 == 'z' {
        Some(Language::Czech)
    } else if c0 == 'n' && c1 == 'l' {
        Some(Language::Dutch)
    } else if c0 == 'e' && c1 == 'n' {
        Some(Language::English)
    } else if c0 == 'm' && c1 == 'c' {
        Some(Language::Galactic)
    } else if c0 == 'k' && c1 == 'm' {
        Some(Language::Khmer)
    } else if c0 == 'r' && c1 == 'u' {
        Some(Language::Russian)
    } else if c0 == 's' && c1 == 'k' {
        Some(Language::Slovak)
    } else if c0 == 'e' && c1 == 's' {
        Some(Language::Spanish)
    } else if c0 == 't' && c1 == 'h' {
        Some(Language::Thai)
    } else if c0 == 't' && c1 == 'r' {
        Some(Language::Turkish)
    } else if c0 == 'v' && c1 == 'i' {
        Some(Language::Vietnamese)
    } else {
        None
    }
}

impl Language {
    /// Returns the language matching the identifier `id`, or `None` if CLEO
    /// has no such language.
    pub fn from_id(id: &str) -> (l: Option<Language>)
        ensures
            l == spec_from_id(id@),
    {
        if id.unicode_len() != 2 {
            return None;
        }
        let c0 = id.get_char(0);
        let c1 = id.get_char(1);
        language_for_pair(c0, c1)
    }

    /// Returns the two characters of this language's Unicode identifier.
    pub fn lang_code(self) -> (code: (char, char))
        ensures
            code == spec_lang_code(self),
    {
        match self {
            Language::Arabic => ('a', 'r'),
            Language::Chinese => ('z', 'h'),
            Language::Czech => ('c', 'z'),
            Language::Dutch => ('n', 'l'),
            Language::English => ('e', 'n'),
            Language::Galactic => ('m', 'c'),
            Language::Khmer => ('k', 'm'),
            Language::Russian => ('r', 'u'),
            Language::Slovak => ('s', 'k'),
            Language::Spanish => ('e', 's'),
            Language::Thai => ('t', 'h'),
            Language::Turkish => ('t', 'r'),
            Language::Vietnamese => ('v', 'i'),
        }
    }

    /// Returns the set of fonts that should be used for this language.
    pub fn font_set(self) -> (fonts: FontSet)
        ensures
            fonts == spec_font_set(self),
    {
        match self {
            Language::Arabic | Language::Czech | Language::Slovak => FontSet {
                title_font: Font::AvenirNextHeavy,
                title_size: STD_TITLE,
                small_font: Font::AvenirNextMedium,
                small_size: STD_SMALL,
                text_font: Font::AvenirNextCondensed,
                text_size: STD_TEXT,
                subtitle_font: Font::AvenirNextCondensed,
                subtitle_size: STD_SUBTITLE,
            },
            Language::Chinese => FontSet {
                title_font: Font::PingFangSemibold,
                title_size: STD_TITLE,
                small_font: Font::PingFangMedium,
                small_size: STD_SMALL,
                text_font: Font::PingFangLight,
                text_size: STD_TEXT,
                subtitle_font: Font::PingFangMedium,
                subtitle_size: STD_SUBTITLE,
            },
            Language::Dutch | Language::English | Language::Galactic | Language::Russian
            | Language::Spanish | Language::Turkish => FontSet {
                title_font: Font::Pricedown,
                title_size: STD_TITLE,
                small_font: Font::AvenirNextMedium,
                small_size: STD_SMALL,
                text_font: Font::ChaletComprime,
                text_size: STD_TEXT,
                subtitle_font: Font::ChaletComprime,
                subtitle_size: STD_SUBTITLE + 2,
            },
            Language::Khmer => FontSet {
                title_font: Font::KhmerSangam,
                title_size: STD_TITLE,
                small_font: Font::KhmerSangam,
                small_size: STD_SMALL,
                text_font: Font::KhmerSangam,
                text_size: STD_TEXT,
                subtitle_font: Font::KhmerSangam,
                subtitle_size: STD_SUBTITLE,
            },
            Language::Thai | Language::Vietnamese => FontSet {
                title_font: Font::AvenirNextMedium,
                title_size: STD_TITLE,
                small_font: Font::AvenirNextMedium,
                small_size: STD_SMALL,
                text_font: Font::AvenirNextCondensed,
                text_size: STD_TEXT,
                subtitle_font: Font::AvenirNextCondensed,
                subtitle_size: STD_SUBTITLE,
            },
        }
    }

    /// Returns `true` if this language is read right-to-left.
    pub fn is_rtl(self) -> (rtl: bool)
        ensures
            rtl == (self == Language::Arabic),
    {
        match self {
            Language::Arabic => true,
            _ => false,
        }
    }

    /// Returns the next most-spoken language after this one, or `None` if
    /// this is the least-spoken language that CLEO supports.
    pub fn next_most_spoken(self) -> (next: Option<Language>)
        ensures
            next == spec_next_most_spoken(self),
            match next {
                Some(m) => speaker_rank(m) == speaker_rank(self) + 1,
                None => speaker_rank(self) + 1 == language_count(),
            },
    {
        match self {
            Language::English => Some(Language::Chinese),
            Language::Chinese => Some(Language::Spanish),
            Language::Spanish => Some(Language::Arabic),
            Language::Arabic => Some(Language::Russian),
            Language::Russian => Some(Language::Turkish),
            Language::Turkish => Some(Language::Vietnamese),
            Language::Vietnamese => Some(Language::Thai),
            Language::Thai => Some(Language::Dutch),
            Language::Dutch => Some(Language::Khmer),
            Language::Khmer => Some(Language::Czech),
            Language::Czech => Some(Language::Slovak),
            Language::Slovak => Some(Language::Galactic),
            Language::Galactic => None,
        }
    }
}

/// The language reached after `n` steps of `next_most_spoken` from English.
pub open spec fn nth_most_spoken(n: nat) -> Option<Language>
    decreases n,
{
    if n == 0 {
        Some(Language::English)
    } else {
        match nth_most_spoken((n - 1) as nat) {
            Some(l) => spec_next_most_spoken(l),
            None => None,
        }
    }
}

/// Speaker order is a total order on the languages: no two languages share a
/// rank, and every rank below the number of languages is taken.
pub proof fn lemma_speaker_rank_bijective(a: Language, b: Language)
    ensures
        speaker_rank(a) < language_count(),
        speaker_rank(a) == speaker_rank(b) ==> a == b,
{
}

/// Starting from English and following `next_most_spoken` visits every
/// language exactly once, in speaker order, and then stops.
pub proof fn lemma_next_most_spoken_visits_all(l: Language)
    ensures
        nth_most_spoken(speaker_rank(l)) == Some(l),
        nth_most_spoken(language_count()) == None::<Language>,
{
    assert(nth_most_spoken(0) == Some(Language::English));
    assert(nth_most_spoken(1) == Some(Language::Chinese));
    assert(nth_most_spoken(2) == Some(Language::Spanish));
    assert(nth_most_spoken(3) == Some(Language::Arabic));
    assert(nth_most_spoken(4) == Some(Language::Russian));
    assert(nth_most_spoken(5) == Some(Language::Turkish));
    assert(nth_most_spoken(6) == Some(Language::Vietnamese));
    assert(nth_most_spoken(7) == Some(Language::Thai));
    assert(nth_most_spoken(8) == Some(Language::Dutch));
    assert(nth_most_spoken(9) == Some(Language::Khmer));
    assert(nth_most_spoken(10) == Some(Language::Czech));
    assert(nth_most_spoken(11) == Some(Language::Slovak));
    assert(nth_most_spoken(12) == Some(Language::Galactic));
    assert(nth_most_spoken(13) == None::<Language>);
}

/// Each language's identifier is its ISO 639-1 code (Czech keeps CLEO's
/// "cz", Galactic has CLEO's own "mc"), and `from_id` finds each language
/// from that code.
pub proof fn lemma_language_codes()
    ensures
        spec_lang_code(Language::Arabic) == ('a', 'r'),
        spec_lang_code(Language::Chinese) == ('z', 'h'),
        spec_lang_code(Language::Czech) == ('c', 'z'),
        spec_lang_code(Language::Dutch) == ('n', 'l'),
        spec_lang_code(Language::English) == ('e', 'n'),
        spec_lang_code(Language::Galactic) == ('m', 'c'),
        spec_lang_code(Language::Khmer) == ('k', 'm'),
        spec_lang_code(Language::Russian) == ('r', 'u'),
        spec_lang_code(Language::Slovak) == ('s', 'k'),
        spec_lang_code(Language::Spanish) == ('e', 's'),
        spec_lang_code(Language::Thai) == ('t', 'h'),
        spec_lang_code(Language::Turkish) == ('t', 'r'),
        spec_lang_code(Language::Vietnamese) == ('v', 'i'),
        spec_from_id(seq!['a', 'r']) == Some(Language::Arabic),
        spec_from_id(seq!['z', 'h']) == Some(Language::Chinese),
        spec_from_id(seq!['c', 'z']) == Some(Language::Czech),
        spec_from_id(seq!['n', 'l']) == Some(Language::Dutch),
        spec_from_id(seq!['e', 'n']) == Some(Language::English),
        spec_from_id(seq!['m', 'c']) == Some(Language::Galactic),
        spec_from_id(seq!['k', 'm']) == Some(Language::Khmer),
        spec_from_id(seq!['r', 'u']) == Some(Language::Russian),
        spec_from_id(seq!['s', 'k']) == Some(Language::Slovak),
        spec_from_id(seq!['e', 's']) == Some(Language::Spanish),
        spec_from_id(seq!['t', 'h']) == Some(Language::Thai),
        spec_from_id(seq!['t', 'r']) == Some(Language::Turkish),
        spec_from_id(seq!['v', 'i']) == Some(Language::Vietnamese),
{
}

/// Only the thirteen codes name a language: an identifier that is not two
/// characters long, or is no language's code, names none.
pub proof fn lemma_from_id_only_codes(id: Seq<char>)
    ensures
        spec_from_id(id) matches Some(l) ==> id == seq![spec_lang_code(l).0, spec_lang_code(l).1],
{
    if id.len() == 2 {
        assert(id =~= seq![id[0], id[1]]);
    }
}

/// Every language is found again from its own identifier.
pub proof fn lemma_from_id_of_lang_code(l: Language)
    ensures
        spec_from_id(seq![spec_lang_code(l).0, spec_lang_code(l).1]) == Some(l),
{
}

/// The choice of language: the user's explicit choice, if any, and the
/// language picked automatically otherwise.
#[derive(Clone, Copy, PartialEq, Eq, Structural, Debug)]
pub struct Loader {
    /// The language set by the user. If this is `None`, `auto_language` is used.
    pub language_override: Option<Language>,
    /// The language to use if the user doesn't set one explicitly.
    pub auto_language: Language,
}

/// The language that `loader` says is in use.
pub open spec fn spec_current_language(loader: Loader) -> Language {
    match loader.language_override {
        Some(l) => l,
        None => loader.auto_language,
    }
}

/// The first language among `codes` (by their first two characters) that
/// CLEO has, if any.
pub open spec fn spec_first_known(codes: Seq<Seq<char>>) -> Option<Language>
    decreases codes.len(),
{
    if codes.len() == 0 {
        None
    } else {
        match spec_from_id(codes[0].take(2)) {
            Some(l) => Some(l),
            None => spec_first_known(codes.drop_first()),
        }
    }
}

impl Loader {
    /// Creates a loader with no explicit choice, defaulting to English.
    pub fn new_empty() -> (loader: Loader)
        ensures
            loader.language_override == None::<Language>,
            loader.auto_language == Language::English,
    {
        Loader { language_override: None, auto_language: Language::English }
    }

    /// Returns the language currently in use.
    pub fn current_language(&self) -> (l: Language)
        ensures
            l == spec_current_language(*self),
    {
        match self.language_override {
            Some(language) => language,
            None => self.auto_language,
        }
    }

    /// Sets the automatic language to the system language if CLEO has it,
    /// and to English otherwise.
    pub fn find_auto_language(&mut self, system: Option<Language>)
        ensures
            final(self).language_override == old(self).language_override,
            final(self).auto_language == match system {
                Some(l) => l,
                None => Language::English,
            },
    {
        self.auto_language = match system {
            Some(l) => l,
            None => Language::English,
        };
    }
}

/// Returns the current language.
pub fn current(loader: &Loader) -> (l: Language)
    ensures
        l == spec_current_language(*loader),
{
    loader.current_language()
}

/// Sets the current language to `language`, or lets it be chosen
/// automatically if `language` is `None`.
pub fn set(loader: &mut Loader, language: Option<Language>)
    ensures
        final(loader).language_override == language,
        final(loader).auto_language == old(loader).auto_language,
{
    loader.language_override = language;
}

/// What `current` gives back after `set`: the language set, or the
/// automatic language when none was set.
pub proof fn lemma_current_after_set(loader: Loader, language: Option<Language>)
    ensures
        spec_current_language(Loader { language_override: language, ..loader }) == match language {
            Some(l) => l,
            None => loader.auto_language,
        },
{
}

/// Returns the first of the user's preferred language codes (each taken by
/// its first two characters, without the region) that CLEO has, or `None`.
pub fn system_language(preferred: &Vec<String>) -> (l: Option<Language>)
    requires
        forall|i: int| 0 <= i < preferred@.len() ==> #[trigger] preferred@[i]@.len() >= 2,
    ensures
        l == spec_first_known(preferred@.map_values(|s: String| s@)),
{
    let ghost codes = preferred@.map_values(|s: String| s@);
    proof {
        assert(codes.subrange(0, codes.len() as int) =~= codes);
    }
    let mut i: usize = 0;
    while i < preferred.len()
        invariant
            0 <= i <= preferred@.len(),
            codes == preferred@.map_values(|s: String| s@),
            forall|j: int| 0 <= j < preferred@.len() ==> #[trigger] preferred@[j]@.len() >= 2,
            spec_first_known(codes) == spec_first_known(codes.subrange(i as int, codes.len() as int)),
        decreases preferred@.len() - i,
    {
        let code = preferred[i].as_str();
        let c0 = code.get_char(0);
        let c1 = code.get_char(1);
        let found = language_for_pair(c0, c1);
        let ghost rest = codes.subrange(i as int, codes.len() as int);
        proof {
            assert(rest[0] == code@);
            assert(rest[0].take(2) =~= seq![c0, c1]);
            assert(rest.drop_first() =~= codes.subrange(i + 1, codes.len() as int));
        }
        if found.is_some() {
            return found;
        }
        i = i + 1;
    }
    proof {
        assert(codes.subrange(i as int, codes.len() as int) =~= Seq::<Seq<char>>::empty());
    }
    None
}

/// Sets up the choice of language when CLEO starts: the user's explicit
/// choice from the settings (`choice`, `None` for automatic), and the
/// system's language (`system`, if CLEO has it) as the automatic language,
/// English otherwise.
pub fn init(choice: Option<Language>, system: Option<Language>) -> (loader: Loader)
    ensures
        loader.language_override == choice,
        loader.auto_language == match system {
            Some(l) => l,
            None => Language::English,
        },
{
    let mut loader = Loader::new_empty();
    set(&mut loader, choice);
    loader.find_auto_language(system);
    loader
}

/// Identifies a translated message.
#[derive(Clone, Copy, PartialEq, Eq, Structural, Debug, Hash)]
pub enum MessageKey {
    LanguageOptTitle,
    LanguageOptDesc,
    LanguageName,
    LanguageAutoName,
    SplashLegal,
    SplashFun,
    UpdatePromptTitle,
    UpdatePromptMessage,
    UpdateReleaseChannelOptTitle,
    UpdateReleaseChannelOptDesc,
    UpdateReleaseChannelOptDisabled,
    UpdateReleaseChannelOptStable,
    UpdateReleaseChannelOptAlpha,
    MenuClose,
    MenuOptionsTabTitle,
    MenuGestureOptTitle,
    MenuGestureOptDesc,
    MenuGestureOptOneFingerSwipe,
    MenuGestureOptTwoFingerSwipe,
    MenuGestureOptTwoFingerTap,
    MenuGestureOptThreeFingerTap,
    MenuScriptWarningOverview,
    MenuScriptSeeBelow,
    MenuScriptCsaTabTitle,
    MenuScriptCsiTabTitle,
    ScriptUnimplementedInCleo,
    ScriptImpossibleOnIos,
    ScriptDuplicate,
    ScriptCheckFailed,
    ScriptNoProblems,
    ScriptCsaRowTitle,
    ScriptCsiRowTitle,
    ScriptRunning,
    ScriptNotRunning,
    ScriptCsaForcedRunning,
    ScriptModeOptTitle,
    ScriptModeOptDesc,
    ScriptModeOptDontBreak,
    ScriptModeOptBreak,
    FpsLockOptTitle,
    FpsLockOptDesc,
    FpsLockOpt30,
    FpsLockOpt60,
    FpsCounterOptTitle,
    FpsCounterOptDesc,
    FpsCounterOptHidden,
    FpsCounterOptEnabled,
    CheatTabTitle,
    CheatMenuWarning,
    CheatOn,
    CheatOff,
    CheatQueuedOn,
    CheatQueuedOff,
    CheatCodeRowTitle,
    CheatNoCodeTitle,
    CheatTransienceOptTitle,
    CheatTransienceOptDesc,
    CheatTransienceOptTransient,
    CheatTransienceOptPersistent,
    CheatThugsArmoury,
    CheatProfessionalsKit,
    CheatNuttersToys,
    CheatWeapons4,
    CheatDebugMappings,
    CheatDebugTapToTarget,
    CheatDebugTargeting,
    CheatINeedSomeHelp,
    CheatSkipMission,
    CheatFullInvincibility,
    CheatStingLikeABee,
    CheatIAmNeverHungry,
    CheatKangaroo,
    CheatNooneCanHurtMe,
    CheatManFromAtlantis,
    CheatWorshipMe,
    CheatHelloLadies,
    CheatWhoAteAllThePies,
    CheatBuffMeUp,
    CheatMaxGambling,
    CheatLeanAndMean,
    CheatICanGoAllNight,
    CheatProfessionalKiller,
    CheatNaturalTalent,
    CheatTurnUpTheHeat,
    CheatTurnDownTheHeat,
    CheatIDoAsIPlease,
    CheatBringItOn,
    CheatPleasantlyWarm,
    CheatTooDamnHot,
    CheatDullDullDay,
    CheatStayInAndWatchTv,
    CheatCantSeeWhereImGoing,
    CheatScottishSummer,
    CheatSandInMyEars,
    CheatClockForward,
    CheatTimeJustFliesBy,
    CheatSpeedItUp,
    CheatSlowItDown,
    CheatNightProwler,
    CheatDontBringOnTheNight,
    CheatLetsGoBaseJumping,
    CheatRocketman,
    CheatTimeToKickAss,
    CheatOldSpeedDemon,
    CheatTintedRancher,
    CheatNotForPublicRoads,
    CheatJustTryAndStopMe,
    CheatWheresTheFuneral,
    CheatCelebrityStatus,
    CheatTrueGrime,
    Cheat18Holes,
    CheatJumpJet,
    CheatIWantToHover,
    CheatOhDude,
    CheatFourWheelFun,
    CheatHitTheRoadJack,
    CheatItsAllBull,
    CheatFlyingToStunt,
    CheatMonsterMash,
    CheatWannaBeInMyGang,
    CheatNooneCanStopUs,
    CheatRocketMayhem,
    CheatAllDriversAreCriminals,
    CheatPinkIsTheNewCool,
    CheatSoLongAsItsBlack,
    CheatEveryoneIsPoor,
    CheatEveryoneIsRich,
    CheatRoughNeighbourhood,
    CheatStopPickingOnMe,
    CheatSurroundedByNutters,
    CheatBlueSuedeShoes,
    CheatAttackOfTheVillagePeople,
    CheatOnlyHomiesAllowed,
    CheatBetterStayIndoors,
    CheatStateOfEmergency,
    CheatGhostTown,
    CheatNinjaTown,
    CheatLoveConquersAll,
    CheatLifesABeach,
    CheatHicksville,
    CheatCrazyTown,
    CheatAllCarsGoBoom,
    CheatWheelsOnlyPlease,
    CheatSidewaysWheels,
    CheatSpeedFreak,
    CheatCoolTaxis,
    CheatChittyChittyBangBang,
    CheatCjPhoneHome,
    CheatTouchMyCarYouDie,
    CheatBubbleCars,
    CheatStickLikeGlue,
    CheatDontTryAndStopMe,
    CheatFlyingFish,
    CheatFullClip,
    CheatIWannaDriveby,
    CheatGoodbyeCruelWorld,
    CheatTakeAChillPill,
    CheatProstitutesPay,
    CheatXboxHelper,
    CheatSlotMelee,
    CheatSlotHandgun,
    CheatSlotSmg,
    CheatSlotShotgun,
    CheatSlotAssaultRifle,
    CheatSlotLongRifle,
    CheatSlotThrown,
    CheatSlotHeavy,
    CheatSlotEquipment,
    CheatSlotOther,
    CheatPredator,
}

} // verus!
