//! CLEO's cheat menu: the game's cheats, the queue of cheats waiting to be
//! switched, what each row of the menu shows, and the saved cheat states.

use crate::chars::name_order;
use crate::meta::language::MessageKey;
use crate::meta::settings::{CheatTransience, Colour};
use vstd::prelude::*;

verus! {

/// One of the game's cheats: its position in the game's cheat table, its
/// code (empty for cheats that have none) and its description.
#[derive(Clone, Copy, Debug)]
pub struct Cheat {
    pub index: usize,
    pub code: &'static str,
    pub description: MessageKey,
}

/// The number of cheats in the game.
pub const CHEAT_COUNT: usize = 111;

impl Cheat {
    /// A cheat from its table position, code and description.
    pub fn new(index: usize, code: &'static str, description: MessageKey) -> (c: Cheat)
        ensures
            c.index == index,
            c.code == code,
            c.description == description,
    {
        Cheat { index, code, description }
    }

    /// Returns `true` if this cheat is waiting in `waiting` to be switched.
    pub fn is_in_queue(&self, waiting: &Vec<usize>) -> (queued: bool)
        ensures
            queued == waiting@.contains(self.index),
    {
        let mut i: usize = 0;
        while i < waiting.len()
            invariant
                0 <= i <= waiting@.len(),
                forall|j: int| 0 <= j < i ==> waiting@[j] != self.index,
            decreases waiting@.len() - i,
        {
            if waiting[i] == self.index {
                return true;
            }
            i = i + 1;
        }
        false
    }

    /// Puts this cheat at the end of the queue `waiting`.
    pub fn queue(&self, waiting: &mut Vec<usize>)
        ensures
            final(waiting)@ == old(waiting)@.push(self.index),
    {
        waiting.push(self.index);
    }

    /// Takes this cheat out of the queue `waiting`, keeping the order of the
    /// other entries.
    pub fn cancel(&self, waiting: &mut Vec<usize>)
        ensures
            final(waiting)@ == old(waiting)@.filter(|c: usize| c != self.index),
    {
        let ghost orig = waiting@;
        let mut kept: Vec<usize> = Vec::new();
        let mut i: usize = 0;
        while i < waiting.len()
            invariant
                0 <= i <= waiting@.len(),
                waiting@ == orig,
                kept@ == orig.take(i as int).filter(|c: usize| c != self.index),
            decreases waiting@.len() - i,
        {
            proof {
                assert(orig.take(i + 1) =~= orig.take(i as int).push(orig[i as int]));
                orig.take(i as int).lemma_filter_push(orig[i as int], |c: usize| c != self.index);
            }
            let c = waiting[i];
            if c != self.index {
                kept.push(c);
            }
            i = i + 1;
        }
        proof {
            assert(orig.take(orig.len() as int) =~= orig);
        }
        *waiting = kept;
    }

    /// Runs the cheat: a cheat with a function of its own is run by calling
    /// it (this returns `true` and leaves `active` alone); any other cheat
    /// is switched on or off in `active`.
    pub fn run(&self, has_function: bool, active: &mut Vec<bool>) -> (call_function: bool)
        requires
            self.index < old(active)@.len(),
        ensures
            call_function == has_function,
            has_function ==> final(active)@ == old(active)@,
            !has_function ==> final(active)@ == old(active)@.update(
                self.index as int,
                !old(active)@[self.index as int],
            ),
    {
        if has_function {
            return true;
        }
        let a = active[self.index];
        active.set(self.index, !a);
        false
    }
}

/// Returns the cheat at position `i` of the game's cheat table.
pub fn cheat_at(i: usize) -> (c: Cheat)
    requires
        i < CHEAT_COUNT,
    ensures
        c.index == i,
{
    match i {
        0 => Cheat::new(0, "THUGSARMOURY", MessageKey::CheatThugsArmoury),
        1 => Cheat::new(1, "PROFESSIONALSKIT", MessageKey::CheatProfessionalsKit),
        2 => Cheat::new(2, "NUTTERSTOYS", MessageKey::CheatNuttersToys),
        3 => Cheat::new(3, "", MessageKey::CheatWeapons4),
        4 => Cheat::new(4, "", MessageKey::CheatClockForward),
        5 => Cheat::new(5, "", MessageKey::CheatSkipMission),
        6 => Cheat::new(6, "", MessageKey::CheatDebugMappings),
        7 => Cheat::new(7, "", MessageKey::CheatFullInvincibility),
        8 => Cheat::new(8, "", MessageKey::CheatDebugTapToTarget),
        9 => Cheat::new(9, "", MessageKey::CheatDebugTargeting),
        10 => Cheat::new(10, "INEEDSOMEHELP", MessageKey::CheatINeedSomeHelp),
        11 => Cheat::new(11, "TURNUPTHEHEAT", MessageKey::CheatTurnUpTheHeat),
        12 => Cheat::new(12, "TURNDOWNTHEHEAT", MessageKey::CheatTurnDownTheHeat),
        13 => Cheat::new(13, "PLEASANTLYWARM", MessageKey::CheatPleasantlyWarm),
        14 => Cheat::new(14, "TOODAMNHOT", MessageKey::CheatTooDamnHot),
        15 => Cheat::new(15, "DULLDULLDAY", MessageKey::CheatDullDullDay),
        16 => Cheat::new(16, "STAYINANDWATCHTV", MessageKey::CheatStayInAndWatchTv),
        17 => Cheat::new(17, "CANTSEEWHEREIMGOING", MessageKey::CheatCantSeeWhereImGoing),
        18 => Cheat::new(18, "TIMEJUSTFLIESBY", MessageKey::CheatTimeJustFliesBy),
        19 => Cheat::new(19, "SPEEDITUP", MessageKey::CheatSpeedItUp),
        20 => Cheat::new(20, "SLOWITDOWN", MessageKey::CheatSlowItDown),
        21 => Cheat::new(21, "ROUGHNEIGHBOURHOOD", MessageKey::CheatRoughNeighbourhood),
        22 => Cheat::new(22, "STOPPICKINGONME", MessageKey::CheatStopPickingOnMe),
        23 => Cheat::new(23, "SURROUNDEDBYNUTTERS", MessageKey::CheatSurroundedByNutters),
        24 => Cheat::new(24, "TIMETOKICKASS", MessageKey::CheatTimeToKickAss),
        25 => Cheat::new(25, "OLDSPEEDDEMON", MessageKey::CheatOldSpeedDemon),
        26 => Cheat::new(26, "", MessageKey::CheatTintedRancher),
        27 => Cheat::new(27, "NOTFORPUBLICROADS", MessageKey::CheatNotForPublicRoads),
        28 => Cheat::new(28, "JUSTTRYANDSTOPME", MessageKey::CheatJustTryAndStopMe),
        29 => Cheat::new(29, "WHERESTHEFUNERAL", MessageKey::CheatWheresTheFuneral),
        30 => Cheat::new(30, "CELEBRITYSTATUS", MessageKey::CheatCelebrityStatus),
        31 => Cheat::new(31, "TRUEGRIME", MessageKey::CheatTrueGrime),
        32 => Cheat::new(32, "18HOLES", MessageKey::Cheat18Holes),
        33 => Cheat::new(33, "ALLCARSGOBOOM", MessageKey::CheatAllCarsGoBoom),
        34 => Cheat::new(34, "WHEELSONLYPLEASE", MessageKey::CheatWheelsOnlyPlease),
        35 => Cheat::new(35, "STICKLIKEGLUE", MessageKey::CheatStickLikeGlue),
        36 => Cheat::new(36, "GOODBYECRUELWORLD", MessageKey::CheatGoodbyeCruelWorld),
        37 => Cheat::new(37, "DONTTRYANDSTOPME", MessageKey::CheatDontTryAndStopMe),
        38 => Cheat::new(38, "ALLDRIVERSARECRIMINALS", MessageKey::CheatAllDriversAreCriminals),
        39 => Cheat::new(39, "PINKISTHENEWCOOL", MessageKey::CheatPinkIsTheNewCool),
        40 => Cheat::new(40, "SOLONGASITSBLACK", MessageKey::CheatSoLongAsItsBlack),
        41 => Cheat::new(41, "", MessageKey::CheatSidewaysWheels),
        42 => Cheat::new(42, "FLYINGFISH", MessageKey::CheatFlyingFish),
        43 => Cheat::new(43, "WHOATEALLTHEPIES", MessageKey::CheatWhoAteAllThePies),
        44 => Cheat::new(44, "BUFFMEUP", MessageKey::CheatBuffMeUp),
        45 => Cheat::new(45, "", MessageKey::CheatMaxGambling),
        46 => Cheat::new(46, "LEANANDMEAN", MessageKey::CheatLeanAndMean),
        47 => Cheat::new(47, "BLUESUEDESHOES", MessageKey::CheatBlueSuedeShoes),
        48 => Cheat::new(48, "ATTACKOFTHEVILLAGEPEOPLE", MessageKey::CheatAttackOfTheVillagePeople),
        49 => Cheat::new(49, "LIFESABEACH", MessageKey::CheatLifesABeach),
        50 => Cheat::new(50, "ONLYHOMIESALLOWED", MessageKey::CheatOnlyHomiesAllowed),
        51 => Cheat::new(51, "BETTERSTAYINDOORS", MessageKey::CheatBetterStayIndoors),
        52 => Cheat::new(52, "NINJATOWN", MessageKey::CheatNinjaTown),
        53 => Cheat::new(53, "LOVECONQUERSALL", MessageKey::CheatLoveConquersAll),
        54 => Cheat::new(54, "EVERYONEISPOOR", MessageKey::CheatEveryoneIsPoor),
        55 => Cheat::new(55, "EVERYONEISRICH", MessageKey::CheatEveryoneIsRich),
        56 => Cheat::new(56, "CHITTYCHITTYBANGBANG", MessageKey::CheatChittyChittyBangBang),
        57 => Cheat::new(57, "CJPHONEHOME", MessageKey::CheatCjPhoneHome),
        58 => Cheat::new(58, "JUMPJET", MessageKey::CheatJumpJet),
        59 => Cheat::new(59, "IWANTTOHOVER", MessageKey::CheatIWantToHover),
        60 => Cheat::new(60, "TOUCHMYCARYOUDIE", MessageKey::CheatTouchMyCarYouDie),
        61 => Cheat::new(61, "SPEEDFREAK", MessageKey::CheatSpeedFreak),
        62 => Cheat::new(62, "BUBBLECARS", MessageKey::CheatBubbleCars),
        63 => Cheat::new(63, "NIGHTPROWLER", MessageKey::CheatNightProwler),
        64 => Cheat::new(64, "DONTBRINGONTHENIGHT", MessageKey::CheatDontBringOnTheNight),
        65 => Cheat::new(65, "SCOTTISHSUMMER", MessageKey::CheatScottishSummer),
        66 => Cheat::new(66, "SANDINMYEARS", MessageKey::CheatSandInMyEars),
        67 => Cheat::new(67, "", MessageKey::CheatPredator),
        68 => Cheat::new(68, "KANGAROO", MessageKey::CheatKangaroo),
        69 => Cheat::new(69, "NOONECANHURTME", MessageKey::CheatNooneCanHurtMe),
        70 => Cheat::new(70, "MANFROMATLANTIS", MessageKey::CheatManFromAtlantis),
        71 => Cheat::new(71, "LETSGOBASEJUMPING", MessageKey::CheatLetsGoBaseJumping),
        72 => Cheat::new(72, "ROCKETMAN", MessageKey::CheatRocketman),
        73 => Cheat::new(73, "IDOASIPLEASE", MessageKey::CheatIDoAsIPlease),
        74 => Cheat::new(74, "BRINGITON", MessageKey::CheatBringItOn),
        75 => Cheat::new(75, "STINGLIKEABEE", MessageKey::CheatStingLikeABee),
        76 => Cheat::new(76, "IAMNEVERHUNGRY", MessageKey::CheatIAmNeverHungry),
        77 => Cheat::new(77, "STATEOFEMERGENCY", MessageKey::CheatStateOfEmergency),
        78 => Cheat::new(78, "CRAZYTOWN", MessageKey::CheatCrazyTown),
        79 => Cheat::new(79, "TAKEACHILLPILL", MessageKey::CheatTakeAChillPill),
        80 => Cheat::new(80, "FULLCLIP", MessageKey::CheatFullClip),
        81 => Cheat::new(81, "IWANNADRIVEBY", MessageKey::CheatIWannaDriveby),
        82 => Cheat::new(82, "GHOSTTOWN", MessageKey::CheatGhostTown),
        83 => Cheat::new(83, "HICKSVILLE", MessageKey::CheatHicksville),
        84 => Cheat::new(84, "WANNABEINMYGANG", MessageKey::CheatWannaBeInMyGang),
        85 => Cheat::new(85, "NOONECANSTOPUS", MessageKey::CheatNooneCanStopUs),
        86 => Cheat::new(86, "ROCKETMAYHEM", MessageKey::CheatRocketMayhem),
        87 => Cheat::new(87, "WORSHIPME", MessageKey::CheatWorshipMe),
        88 => Cheat::new(88, "HELLOLADIES", MessageKey::CheatHelloLadies),
        89 => Cheat::new(89, "ICANGOALLNIGHT", MessageKey::CheatICanGoAllNight),
        90 => Cheat::new(90, "PROFESSIONALKILLER", MessageKey::CheatProfessionalKiller),
        91 => Cheat::new(91, "NATURALTALENT", MessageKey::CheatNaturalTalent),
        92 => Cheat::new(92, "OHDUDE", MessageKey::CheatOhDude),
        93 => Cheat::new(93, "FOURWHEELFUN", MessageKey::CheatFourWheelFun),
        94 => Cheat::new(94, "HITTHEROADJACK", MessageKey::CheatHitTheRoadJack),
        95 => Cheat::new(95, "ITSALLBULL", MessageKey::CheatItsAllBull),
        96 => Cheat::new(96, "FLYINGTOSTUNT", MessageKey::CheatFlyingToStunt),
        97 => Cheat::new(97, "MONSTERMASH", MessageKey::CheatMonsterMash),
        98 => Cheat::new(98, "", MessageKey::CheatProstitutesPay),
        99 => Cheat::new(99, "", MessageKey::CheatCoolTaxis),
        100 => Cheat::new(100, "", MessageKey::CheatSlotMelee),
        101 => Cheat::new(101, "", MessageKey::CheatSlotHandgun),
        102 => Cheat::new(102, "", MessageKey::CheatSlotSmg),
        103 => Cheat::new(103, "", MessageKey::CheatSlotShotgun),
        104 => Cheat::new(104, "", MessageKey::CheatSlotAssaultRifle),
        105 => Cheat::new(105, "", MessageKey::CheatSlotLongRifle),
        106 => Cheat::new(106, "", MessageKey::CheatSlotThrown),
        107 => Cheat::new(107, "", MessageKey::CheatSlotHeavy),
        108 => Cheat::new(108, "", MessageKey::CheatSlotEquipment),
        109 => Cheat::new(109, "", MessageKey::CheatSlotOther),
        _ => Cheat::new(110, "", MessageKey::CheatXboxHelper),
    }
}

/// Returns every cheat of the game, in the order of the game's cheat table.
pub fn all_cheats() -> (cheats: Vec<Cheat>)
    ensures
        cheats@.len() == CHEAT_COUNT,
        forall|i: int| 0 <= i < CHEAT_COUNT ==> (#[trigger] cheats@[i]).index == i,
{
    let mut v: Vec<Cheat> = Vec::new();
    let mut i: usize = 0;
    while i < CHEAT_COUNT
        invariant
            0 <= i <= CHEAT_COUNT,
            v@.len() == i,
            forall|k: int| 0 <= k < i ==> (#[trigger] v@[k]).index == k,
        decreases CHEAT_COUNT - i,
    {
        v.push(cheat_at(i));
        i = i + 1;
    }
    v
}

/// Guards the saving of cheat states: a save is requested when a cheat's
/// state may change, and only one save runs at a time.
#[derive(Clone, Copy, PartialEq, Eq, Structural, Debug)]
pub struct SaveFlags {
    /// No save is running.
    pub ready: bool,
    /// A save has been asked for.
    pub requested: bool,
}

impl SaveFlags {
    /// No save running and none asked for.
    pub fn new() -> (f: SaveFlags)
        ensures
            f == (SaveFlags { ready: true, requested: false }),
    {
        SaveFlags { ready: true, requested: false }
    }

    /// Asks for the cheat states to be saved.
    pub fn request(&mut self)
        ensures
            *final(self) == (SaveFlags { requested: true, ..*old(self) }),
    {
        self.requested = true;
    }

    /// Returns `true` if a save should start now (one was asked for and none
    /// is running); the save then counts as running.
    pub fn begin_save(&mut self) -> (start: bool)
        ensures
            start == (old(self).ready && old(self).requested),
            *final(self) == if start {
                SaveFlags { ready: false, ..*old(self) }
            } else {
                *old(self)
            },
    {
        if self.ready && self.requested {
            self.ready = false;
            true
        } else {
            false
        }
    }

    /// Records that the running save has finished.
    pub fn finish_save(&mut self)
        ensures
            *final(self) == SaveFlags::new_spec(),
    {
        self.requested = false;
        self.ready = true;
    }

    /// The flags with no save running and none asked for.
    pub open spec fn new_spec() -> SaveFlags {
        SaveFlags { ready: true, requested: false }
    }
}

/// The effect of running the queued cheats `waiting`, in order, on the
/// cheats' states `active`: each cheat without a function of its own
/// (`has_function`) switches.
pub open spec fn spec_run_queue(active: Seq<bool>, waiting: Seq<usize>, has_function: Seq<bool>) -> Seq<
    bool,
>
    decreases waiting.len(),
{
    if waiting.len() == 0 {
        active
    } else {
        let before = spec_run_queue(active, waiting.drop_last(), has_function);
        let c = waiting.last() as int;
        if has_function[c] {
            before
        } else {
            before.update(c, !before[c])
        }
    }
}

/// Runs the queued cheats in order and empties the queue. Cheats without a
/// function of their own switch in `active`; returns the cheats whose
/// functions the caller must call, in order.
pub fn do_cheats(waiting: &mut Vec<usize>, has_function: &Vec<bool>, active: &mut Vec<bool>) -> (calls:
    Vec<usize>)
    requires
        old(active)@.len() == has_function@.len(),
        forall|i: int| 0 <= i < old(waiting)@.len() ==> old(waiting)@[i] < has_function@.len(),
    ensures
        final(waiting)@.len() == 0,
        final(active)@ == spec_run_queue(old(active)@, old(waiting)@, has_function@),
        calls@ == old(waiting)@.filter(|c: usize| has_function@[c as int]),
{
    let ghost start = active@;
    let mut calls: Vec<usize> = Vec::new();
    let mut i: usize = 0;
    while i < waiting.len()
        invariant
            0 <= i <= waiting@.len(),
            waiting@ == old(waiting)@,
            active@.len() == has_function@.len(),
            start == old(active)@,
            forall|k: int| 0 <= k < waiting@.len() ==> waiting@[k] < has_function@.len(),
            active@ == spec_run_queue(start, waiting@.take(i as int), has_function@),
            calls@ == waiting@.take(i as int).filter(|c: usize| has_function@[c as int]),
        decreases waiting@.len() - i,
    {
        let c = waiting[i];
        proof {
            assert(waiting@.take(i + 1) =~= waiting@.take(i as int).push(c));
            assert(waiting@.take(i + 1).drop_last() =~= waiting@.take(i as int));
            waiting@.take(i as int).lemma_filter_push(c, |c: usize| has_function@[c as int]);
        }
        let cheat = cheat_index(c);
        if cheat.run(has_function[c], active) {
            calls.push(c);
        }
        i = i + 1;
    }
    proof {
        assert(waiting@.take(waiting@.len() as int) =~= waiting@);
    }
    waiting.clear();
    calls
}

/// A cheat that stands for position `index` of the cheat table, for running.
fn cheat_index(index: usize) -> (c: Cheat)
    ensures
        c.index == index,
{
    Cheat { index, code: "", description: MessageKey::CheatNoCodeTitle }
}

/// The saved form of the cheats' states: one byte per cheat, 1 for on and
/// 0 for off.
pub open spec fn spec_state_bytes(active: Seq<bool>) -> Seq<u8> {
    active.map_values(|a: bool| if a { 1u8 } else { 0u8 })
}

/// Returns the saved form of the cheats' states.
pub fn cheat_state_bytes(active: &Vec<bool>) -> (bytes: Vec<u8>)
    ensures
        bytes@ == spec_state_bytes(active@),
{
    let mut bytes: Vec<u8> = Vec::new();
    let mut i: usize = 0;
    while i < active.len()
        invariant
            0 <= i <= active@.len(),
            bytes@ == spec_state_bytes(active@.take(i as int)),
        decreases active@.len() - i,
    {
        bytes.push(if active[i] { 1 } else { 0 });
        proof {
            assert(spec_state_bytes(active@.take(i + 1)) =~= spec_state_bytes(
                active@.take(i as int),
            ).push(if active@[i as int] { 1u8 } else { 0u8 }));
        }
        i = i + 1;
    }
    proof {
        assert(active@.take(active@.len() as int) =~= active@);
    }
    bytes
}

/// Why saved cheat states were refused.
#[derive(Clone, Copy, PartialEq, Eq, Structural, Debug)]
pub enum SavedCheatsError {
    /// The number of bytes is not the number of cheats.
    WrongLength,
    /// A byte is neither 0 nor 1.
    NotBoolean,
}

/// The cheats' states that the saved bytes `bytes` hold, or why they are
/// refused.
pub open spec fn spec_load_states(bytes: Seq<u8>) -> Result<Seq<bool>, SavedCheatsError> {
    if bytes.len() != CHEAT_COUNT {
        Err(SavedCheatsError::WrongLength)
    } else if exists|i: int| 0 <= i < bytes.len() && bytes[i] != 0 && bytes[i] != 1 {
        Err(SavedCheatsError::NotBoolean)
    } else {
        Ok(bytes.map_values(|b: u8| b == 1))
    }
}

/// Reads saved cheat states: one byte, 0 or 1, for each cheat.
pub fn load_saved_states(bytes: &[u8]) -> (states: Result<Vec<bool>, SavedCheatsError>)
    ensures
        match states {
            Ok(v) => spec_load_states(bytes@) == Ok::<Seq<bool>, SavedCheatsError>(v@),
            Err(e) => spec_load_states(bytes@) == Err::<Seq<bool>, SavedCheatsError>(e),
        },
{
    if bytes.len() != CHEAT_COUNT {
        return Err(SavedCheatsError::WrongLength);
    }
    let mut i: usize = 0;
    while i < bytes.len()
        invariant
            0 <= i <= bytes@.len(),
            bytes@.len() == CHEAT_COUNT,
            forall|k: int| 0 <= k < i ==> bytes@[k] == 0 || bytes@[k] == 1,
        decreases bytes@.len() - i,
    {
        if bytes[i] != 0 && bytes[i] != 1 {
            proof {
                assert(bytes@[i as int] != 0 && bytes@[i as int] != 1);
            }
            return Err(SavedCheatsError::NotBoolean);
        }
        i = i + 1;
    }
    let mut states: Vec<bool> = Vec::new();
    let mut k: usize = 0;
    while k < bytes.len()
        invariant
            0 <= k <= bytes@.len(),
            bytes@.len() == CHEAT_COUNT,
            forall|j: int| 0 <= j < bytes@.len() ==> bytes@[j] == 0 || bytes@[j] == 1,
            states@ == bytes@.take(k as int).map_values(|b: u8| b == 1),
        decreases bytes@.len() - k,
    {
        states.push(bytes[k] == 1);
        proof {
            assert(bytes@.take(k + 1).map_values(|b: u8| b == 1) =~= bytes@.take(k as int).map_values(
                |b: u8| b == 1,
            ).push(bytes@[k as int] == 1));
        }
        k = k + 1;
    }
    proof {
        assert(bytes@.take(bytes@.len() as int) =~= bytes@);
    }
    Ok(states)
}

/// Saved states load back as they were saved.
pub proof fn lemma_saved_states_roundtrip(active: Seq<bool>)
    requires
        active.len() == CHEAT_COUNT,
    ensures
        spec_load_states(spec_state_bytes(active)) == Ok::<Seq<bool>, SavedCheatsError>(active),
{
    let bytes = spec_state_bytes(active);
    assert(!exists|i: int| 0 <= i < bytes.len() && bytes[i] != 0 && bytes[i] != 1);
    assert(bytes.map_values(|b: u8| b == 1) =~= active);
}

/// Whether saved cheat states are loaded when a game starts: only when
/// cheats persist across restarts.
pub fn loads_saved_states(transience: CheatTransience) -> (load: bool)
    ensures
        load == (transience == CheatTransience::Persistent),
{
    match transience {
        CheatTransience::Persistent => true,
        CheatTransience::Transient => false,
    }
}

/// A row of the cheat menu: a cheat and the state it is queued to switch
/// to, if it is queued.
#[derive(Clone, Copy, Debug)]
pub struct CheatData {
    pub cheat: Cheat,
    pub queued_state: Option<bool>,
}

impl CheatData {
    /// The row for `cheat`, given the queue and the cheats' states.
    pub fn new(cheat: Cheat, waiting: &Vec<usize>, active: &Vec<bool>) -> (d: CheatData)
        requires
            cheat.index < active@.len(),
        ensures
            d.cheat == cheat,
            d.queued_state == if waiting@.contains(cheat.index) {
                Some(!active@[cheat.index as int])
            } else {
                None
            },
    {
        let queued_state = if cheat.is_in_queue(waiting) {
            Some(!active[cheat.index])
        } else {
            None
        };
        CheatData { cheat, queued_state }
    }

    /// Whether the cheat will be on once the queue has run.
    pub fn will_be_active(&self, active: &Vec<bool>) -> (on: bool)
        requires
            self.cheat.index < active@.len(),
        ensures
            on == match self.queued_state {
                Some(q) => q,
                None => active@[self.cheat.index as int],
            },
    {
        match self.queued_state {
            Some(q) => q,
            None => active[self.cheat.index],
        }
    }

    /// The row's title: the cheat's code, or a title for cheats without one.
    pub fn title(&self) -> (t: (MessageKey, Option<&'static str>))
        ensures
            t == if self.cheat.code@.len() == 0 {
                (MessageKey::CheatNoCodeTitle, None)
            } else {
                (MessageKey::CheatCodeRowTitle, Some(self.cheat.code))
            },
    {
        if self.cheat.code.unicode_len() == 0 {
            (MessageKey::CheatNoCodeTitle, None)
        } else {
            (MessageKey::CheatCodeRowTitle, Some(self.cheat.code))
        }
    }

    /// The text under the row: the cheat's description.
    pub fn detail(&self) -> (k: MessageKey)
        ensures
            k == self.cheat.description,
    {
        self.cheat.description
    }

    /// The value shown in the row: queued on or off while queued, and
    /// otherwise on or off.
    pub fn value(&self, waiting: &Vec<usize>, active: &Vec<bool>) -> (k: MessageKey)
        requires
            self.cheat.index < active@.len(),
        ensures
            k == spec_cheat_value(
                waiting@.contains(self.cheat.index),
                match self.queued_state {
                    Some(q) => q,
                    None => active@[self.cheat.index as int],
                },
            ),
    {
        let on = self.will_be_active(active);
        if self.cheat.is_in_queue(waiting) {
            if on {
                MessageKey::CheatQueuedOn
            } else {
                MessageKey::CheatQueuedOff
            }
        } else if on {
            MessageKey::CheatOn
        } else {
            MessageKey::CheatOff
        }
    }

    /// The tint of the row's value: blue when queued on, red when queued off,
    /// green when on, and none when off.
    pub fn tint(&self, waiting: &Vec<usize>, active: &Vec<bool>) -> (t: Option<Colour>)
        requires
            self.cheat.index < active@.len(),
        ensures
            t == spec_cheat_tint(
                waiting@.contains(self.cheat.index),
                match self.queued_state {
                    Some(q) => q,
                    None => active@[self.cheat.index as int],
                },
            ),
    {
        let on = self.will_be_active(active);
        if self.cheat.is_in_queue(waiting) {
            if on {
                Some(Colour::Blue)
            } else {
                Some(Colour::Red)
            }
        } else if on {
            Some(Colour::Green)
        } else {
            None
        }
    }

    /// Handles a tap on the row: a queued cheat leaves the queue, any other
    /// joins it to switch. When cheats persist, a save of their states is
    /// asked for. Returns `true`: the rows are reloaded.
    pub fn handle_tap(
        &mut self,
        waiting: &mut Vec<usize>,
        active: &Vec<bool>,
        transience: CheatTransience,
        flags: &mut SaveFlags,
    ) -> (reload: bool)
        requires
            old(self).cheat.index < active@.len(),
        ensures
            reload,
            final(self).cheat == old(self).cheat,
            match old(self).queued_state {
                Some(_) => final(self).queued_state is None && final(waiting)@ == old(waiting)@.filter(
                    |c: usize| c != old(self).cheat.index,
                ),
                None => final(self).queued_state == Some(!active@[old(self).cheat.index as int])
                    && final(waiting)@ == old(waiting)@.push(old(self).cheat.index),
            },
            *final(flags) == if transience == CheatTransience::Persistent {
                SaveFlags { requested: true, ..*old(flags) }
            } else {
                *old(flags)
            },
    {
        if self.queued_state.is_some() {
            self.cheat.cancel(waiting);
            self.queued_state = None;
        } else {
            self.queued_state = Some(!active[self.cheat.index]);
            self.cheat.queue(waiting);
        }
        match transience {
            CheatTransience::Persistent => flags.request(),
            CheatTransience::Transient => {},
        }
        true
    }
}

/// The value shown for a cheat that is queued (`queued`) or not and will
/// be on (`on`) or off.
pub open spec fn spec_cheat_value(queued: bool, on: bool) -> MessageKey {
    if queued {
        if on {
            MessageKey::CheatQueuedOn
        } else {
            MessageKey::CheatQueuedOff
        }
    } else if on {
        MessageKey::CheatOn
    } else {
        MessageKey::CheatOff
    }
}

/// The tint for a cheat that is queued (`queued`) or not and will be on
/// (`on`) or off.
pub open spec fn spec_cheat_tint(queued: bool, on: bool) -> Option<Colour> {
    if queued {
        if on {
            Some(Colour::Blue)
        } else {
            Some(Colour::Red)
        }
    } else if on {
        Some(Colour::Green)
    } else {
        None
    }
}

/// Tapping a row twice leaves the queue as it was, for a cheat that was not
/// queued.
pub proof fn lemma_tap_twice(waiting: Seq<usize>, index: usize)
    requires
        !waiting.contains(index),
    ensures
        waiting.push(index).filter(|c: usize| c != index) == waiting,
{
    waiting.lemma_filter_push(index, |c: usize| c != index);
    lemma_filter_absent(waiting, index);
}

/// Taking out every `index` from a queue without it leaves the queue as it is.
proof fn lemma_filter_absent(waiting: Seq<usize>, index: usize)
    requires
        !waiting.contains(index),
    ensures
        waiting.filter(|c: usize| c != index) == waiting,
    decreases waiting.len(),
{
    if waiting.len() > 0 {
        let rest = waiting.drop_last();
        assert(!rest.contains(index)) by {
            if rest.contains(index) {
                let k = choose|k: int| 0 <= k < rest.len() && rest[k] == index;
                assert(waiting[k] == index);
            }
        }
        lemma_filter_absent(rest, index);
        assert(waiting =~= rest.push(waiting.last()));
        rest.lemma_filter_push(waiting.last(), |c: usize| c != index);
    } else {
        assert(waiting.filter(|c: usize| c != index) =~= waiting);
    }
}

/// The key that orders the cheat menu: the cheat's code, with cheats that
/// have none last.
pub open spec fn spec_sort_key(code: Seq<char>) -> Seq<char> {
    if code.len() == 0 {
        "ZZZZZ"@
    } else {
        code
    }
}

/// `rows` shows the cheats `cheats` in the order `order` (positions in
/// `cheats`), which sorts them by code, cheats without a code last (under
/// "ZZZZZ"), and cheats of the same code in their order in `cheats`.
pub open spec fn cheat_rows_sorted(cheats: Seq<Cheat>, rows: Seq<CheatData>, order: Seq<usize>) -> bool {
    &&& order.len() == cheats.len()
    &&& rows.len() == cheats.len()
    &&& forall|k: int|
        0 <= k < order.len() ==> #[trigger] order[k] < cheats.len() && rows[k].cheat == cheats[order[k] as int]
    &&& forall|k: int, l: int|
        #![trigger order[k], order[l]]
        0 <= k < l < order.len() ==> {
            let a = spec_sort_key(cheats[order[k] as int].code@);
            let b = spec_sort_key(cheats[order[l] as int].code@);
            crate::chars::text_lt(a, b) || (a == b && order[k] < order[l])
        }
}

/// The contents of the cheat tab.
#[derive(Debug)]
pub struct CheatTab {
    pub name: &'static str,
    pub warning: &'static str,
    pub rows: Vec<CheatData>,
}

/// Returns the contents of the cheat tab: a row per cheat of `cheats`,
/// sorted by code (cheats without a code last, under "ZZZZZ"), with a
/// warning about the risks of cheats.
pub fn tab_data(cheats: &Vec<Cheat>, waiting: &Vec<usize>, active: &Vec<bool>) -> (tab: CheatTab)
    requires
        forall|i: int| 0 <= i < cheats@.len() ==> (#[trigger] cheats@[i]).index < active@.len(),
    ensures
        tab.name@ == "Cheats"@,
        tab.rows@.len() == cheats@.len(),
        exists|order: Seq<usize>| #[trigger] cheat_rows_sorted(cheats@, tab.rows@, order),
{
    let mut keys: Vec<String> = Vec::new();
    let mut i: usize = 0;
    while i < cheats.len()
        invariant
            0 <= i <= cheats@.len(),
            keys@.len() == i,
            forall|k: int| 0 <= k < i ==> (#[trigger] keys@[k])@ == spec_sort_key(cheats@[k].code@),
        decreases cheats@.len() - i,
    {
        let code = cheats[i].code;
        if code.unicode_len() == 0 {
            keys.push("ZZZZZ".to_owned());
        } else {
            keys.push(code.to_owned());
        }
        i = i + 1;
    }
    let order = name_order(&keys);
    let mut rows: Vec<CheatData> = Vec::new();
    let mut k: usize = 0;
    while k < order.len()
        invariant
            0 <= k <= order@.len(),
            order@.len() == cheats@.len(),
            keys@.len() == cheats@.len(),
            forall|j: int| 0 <= j < order@.len() ==> order@[j] < cheats@.len(),
            forall|j: int| 0 <= j < cheats@.len() ==> (#[trigger] cheats@[j]).index < active@.len(),
            rows@.len() == k,
            forall|j: int| 0 <= j < k ==> (#[trigger] rows@[j]).cheat == cheats@[order@[j] as int],
        decreases order@.len() - k,
    {
        let c = cheats[order[k]];
        rows.push(CheatData::new(c, waiting, active));
        k = k + 1;
    }
    proof {
        assert forall|a: int, b: int| #![trigger order@[a], order@[b]] 0 <= a < b < order@.len() implies {
            let x = spec_sort_key(cheats@[order@[a] as int].code@);
            let y = spec_sort_key(cheats@[order@[b] as int].code@);
            crate::chars::text_lt(x, y) || (x == y && order@[a] < order@[b])
        } by {
            assert(crate::chars::row_before(keys@, order@[a] as int, order@[b] as int));
        }
    }
    let tab = CheatTab {
        name: "Cheats",
        warning: "Using cheats can lead to a crash and/or loss of progress.\nIf you don't want to risk breaking your save, back up your progress to a different slot first.",
        rows,
    };
    proof {
        assert(cheat_rows_sorted(cheats@, tab.rows@, order@));
    }
    tab
}

} // verus!
