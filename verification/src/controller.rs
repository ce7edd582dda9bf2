//! Controller input: when the state of the game's pads is handed on to the
//! menu, and when the select button opens it.

use vstd::prelude::*;

verus! {

/// The state of a controller as the game records it, one value per input.
#[derive(Clone, Copy, PartialEq, Eq, Structural, Debug)]
pub struct ControllerState {
    pub left_stick_x: i16,
    pub left_stick_y: i16,
    pub right_stick_x: i16,
    pub right_stick_y: i16,
    pub left_shoulder_1: i16,
    pub left_shoulder_2: i16,
    pub right_shoulder_1: i16,
    pub right_shoulder_2: i16,
    pub dpad_up: i16,
    pub dpad_down: i16,
    pub dpad_left: i16,
    pub dpad_right: i16,
    pub start: i16,
    pub select: i16,
    pub button_square: i16,
    pub button_triangle: i16,
    pub button_cross: i16,
    pub button_circle: i16,
    pub shock_button_l: i16,
    pub shock_button_r: i16,
    pub chat_indicated: i16,
    pub ped_walk: i16,
    pub vehicle_mouse_look: i16,
    pub radio_track_skip: i16,
}

/// The counter value that marks an update the menu asked for.
pub const REQUESTED: u16 = 1000;

/// The number of unchanged updates after which the state is handed on
/// anyway.
pub const REFRESH_AFTER: u16 = 10;

/// Counts the pad updates since the state was last handed on.
#[derive(Clone, Copy, PartialEq, Eq, Structural, Debug)]
pub struct PadUpdater {
    pub counter: u16,
}

/// What a pad update does with the state.
#[derive(Clone, Copy, PartialEq, Eq, Structural, Debug)]
pub enum PadAction {
    /// Nothing: the state has not changed and no refresh is due.
    Skip,
    /// The state goes to the menu; if `toggle_menu`, the menu is opened or
    /// closed first, because select is held.
    Forward { toggle_menu: bool },
}

/// One pad update from the counter `counter`: the next counter and the
/// action. An unchanged state is skipped until ten updates have passed; a
/// changed one, a due refresh or a requested update is handed on and the
/// count starts again. Select toggles the menu unless the menu asked for the
/// update (it is then likely still held from opening the menu).
pub open spec fn spec_pad_update(counter: u16, changed: bool, select: i16) -> (u16, PadAction) {
    if !changed && counter < 10 {
        ((counter + 1) as u16, PadAction::Skip)
    } else {
        (0, PadAction::Forward { toggle_menu: counter != 1000 && select != 0 })
    }
}

impl PadUpdater {
    /// A counter that starts from zero.
    pub fn new() -> (u: PadUpdater)
        ensures
            u.counter == 0,
    {
        PadUpdater { counter: 0 }
    }
}

/// Asks that the next pad update hands the state on to the menu.
pub fn request_update(updater: &mut PadUpdater)
    ensures
        final(updater).counter == REQUESTED,
{
    updater.counter = REQUESTED;
}

/// Marks select as held in `state` where a controller reports it pressed,
/// since the game does not fill that field itself.
pub fn press_select(state: &mut ControllerState, select_pressed: bool)
    ensures
        *final(state) == (if select_pressed {
            ControllerState { select: 255, ..*old(state) }
        } else {
            *old(state)
        }),
{
    if select_pressed {
        state.select = 255;
    }
}

/// Decides what the pad update with the states `previous` and `current`
/// does, and advances the counter.
pub fn update_pads(updater: &mut PadUpdater, previous: &ControllerState, current: &ControllerState) -> (action: PadAction)
    ensures
        (final(updater).counter, action) == spec_pad_update(
            old(updater).counter,
            *previous != *current,
            current.select,
        ),
{
    let counter = updater.counter;
    if *previous != *current || counter >= REFRESH_AFTER {
        updater.counter = 0;
    } else {
        updater.counter = counter + 1;
        return PadAction::Skip;
    }
    PadAction::Forward { toggle_menu: counter != REQUESTED && current.select != 0 }
}

/// An update that the menu asked for hands the state on without toggling
/// the menu, whatever the states.
pub proof fn lemma_requested_update_forwards(changed: bool, select: i16)
    ensures
        spec_pad_update(REQUESTED, changed, select) == (0u16, PadAction::Forward { toggle_menu: false }),
{
}

/// From a fresh count, an unchanged state is skipped ten times and handed on
/// at the eleventh update.
pub proof fn lemma_unchanged_state_refreshes(select: i16)
    ensures
        forall|k: u16| 0 <= k < 10 ==> #[trigger] spec_pad_update(k, false, select) == ((k + 1) as u16, PadAction::Skip),
        spec_pad_update(10, false, select) == (0u16, PadAction::Forward { toggle_menu: select != 0 }),
{
}

} // verus!
