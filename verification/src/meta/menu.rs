//! The CLEO menu's decisions: what its buttons stand for, what each message
//! to the menu does, which tabs it offers, and how it pauses the game.

use std::sync::mpsc::Sender;
use vstd::prelude::*;

verus! {

/// Declares the standard library's channel sender so that messages can be
/// handed to the menu's thread.
#[verifier::external_type_specification]
#[verifier::external_body]
#[verifier::reject_recursive_types(T)]
pub struct ExSender<T>(Sender<T>);

/// The sending end of the menu's channel, with a record of every message
/// handed to it, in order.
pub struct MenuSender {
    pub inner: Sender<MenuMessage>,
    /// The messages handed to the channel so far.
    pub sent: Ghost<Seq<MenuMessage>>,
}

impl MenuSender {
    /// Wraps the sending end of the menu's channel; nothing is sent yet.
    pub fn new(inner: Sender<MenuMessage>) -> (s: MenuSender)
        ensures
            s.sent@ == Seq::<MenuMessage>::empty(),
    {
        MenuSender { inner, sent: Ghost(Seq::empty()) }
    }
}

/// `Sender::send`: hands `message` to the receiving end of the channel, which
/// the record of `sender` notes. Returns `false` if the receiving end is gone
/// (then the message is dropped); whether it is gone is not known here, so
/// nothing is promised of the result.
#[verifier::external_body]
fn channel_send(sender: &mut MenuSender, message: MenuMessage) -> (sent: bool)
    ensures
        final(sender).sent@ == old(sender).sent@.push(message),
{
    sender.inner.send(message).is_ok()
}

/// Messages that the menu's thread acts on.
#[derive(Clone, Copy, PartialEq, Eq, Structural, Debug)]
pub enum MenuMessage {
    Show,
    Hide,
    ReloadRows,
    SelectTab(usize),
    HitRow(usize, usize),
}

impl MenuMessage {
    /// Sends the message with the menu's sender, `sender`, which is `None`
    /// until the menu has started (then the message is dropped).
    pub fn send(self, sender: &mut Option<MenuSender>)
        ensures
            match *old(sender) {
                Some(s) => *final(sender) matches Some(f) && f.sent@ == s.sent@.push(self),
                None => *final(sender) is None,
            },
    {
        match sender {
            Some(s) => self.send_with_sender(s),
            None => {},
        }
    }

    /// Directly sends this message using the specified sender. A message
    /// that cannot be delivered is dropped.
    pub fn send_with_sender(self, sender: &mut MenuSender)
        ensures
            final(sender).sent@ == old(sender).sent@.push(self),
    {
        let _ = channel_send(sender, self);
    }
}

/// The messages sent after a row's tap handler returned `reload`: a
/// request to reload the rows exactly when the handler asked for one.
pub open spec fn spec_after_tap(sent: Seq<MenuMessage>, reload: bool) -> Seq<MenuMessage> {
    if reload {
        sent.push(MenuMessage::ReloadRows)
    } else {
        sent
    }
}

/// Finishes a tap on a row whose handler returned `reload`: asks the menu
/// to reload its rows if the handler wants that.
pub fn row_hit(reload: bool, sender: &mut Option<MenuSender>)
    ensures
        match *old(sender) {
            Some(s) => *final(sender) matches Some(f) && f.sent@ == spec_after_tap(s.sent@, reload),
            None => *final(sender) is None,
        },
{
    if reload {
        MenuMessage::ReloadRows.send(sender);
    }
}

/// A tapped row makes the menu reload exactly when its handler asks for it,
/// and then with one message only.
pub proof fn lemma_tap_reloads_when_asked(sent: Seq<MenuMessage>, reload: bool)
    ensures
        spec_after_tap(sent, reload).len() == sent.len() + if reload { 1int } else { 0int },
        reload ==> spec_after_tap(sent, reload).last() == MenuMessage::ReloadRows,
        spec_after_tap(sent, reload).subrange(0, sent.len() as int) == sent,
{
    assert(spec_after_tap(sent, reload).subrange(0, sent.len() as int) =~= sent);
}

/// What a menu button stands for: a tab button (`row` is -1), a row button,
/// or the close button (`tab` and `row` are -1).
#[derive(Clone, Copy, PartialEq, Eq, Structural, Debug)]
pub struct ButtonTag {
    pub row: i32,
    pub tab: i8,
    pub is_close: bool,
}

/// The message that a press of the button tagged `t` sends, if any.
pub open spec fn spec_tag_message(t: ButtonTag) -> Option<MenuMessage> {
    if t.is_close {
        Some(MenuMessage::Hide)
    } else if t.tab == -1 {
        None
    } else if t.row == -1 {
        Some(MenuMessage::SelectTab(t.tab as usize))
    } else {
        Some(MenuMessage::HitRow(t.tab as usize, t.row as usize))
    }
}

impl ButtonTag {
    /// The tag of the button of tab `index` (kept in 8 bits).
    pub fn new_tab(index: usize) -> (t: ButtonTag)
        ensures
            t == (ButtonTag { tab: index as i8, row: -1i32, is_close: false }),
    {
        ButtonTag { tab: index as i8, row: -1, is_close: false }
    }

    /// The tag of the button of row `row` of tab `tab` (kept in 8 and 32
    /// bits).
    pub fn new_row(tab: usize, row: usize) -> (t: ButtonTag)
        ensures
            t == (ButtonTag { tab: tab as i8, row: row as i32, is_close: false }),
    {
        ButtonTag { tab: tab as i8, row: row as i32, is_close: false }
    }

    /// The tag of the close button.
    pub fn new_close() -> (t: ButtonTag)
        ensures
            t == (ButtonTag { tab: -1i8, row: -1i32, is_close: true }),
    {
        ButtonTag { tab: -1, row: -1, is_close: true }
    }

    /// The message that a press of this button sends: `Hide` for the close
    /// button, `SelectTab` for a tab button and `HitRow` for a row button.
    /// Returns `None` for a tag that names no tab.
    pub fn message(&self) -> (m: Option<MenuMessage>)
        ensures
            m == spec_tag_message(*self),
    {
        if self.is_close {
            Some(MenuMessage::Hide)
        } else if self.tab == -1 {
            None
        } else if self.row == -1 {
            Some(MenuMessage::SelectTab(self.tab as usize))
        } else {
            Some(MenuMessage::HitRow(self.tab as usize, self.row as usize))
        }
    }

    /// The tag as the integer that a button stores: the row in the low 32
    /// bits, then the tab in 8 bits and the close flag in 8 bits.
    pub fn to_bits(&self) -> (bits: u64)
        ensures
            bits == ((self.row as u32) as u64) | (((self.tab as u8) as u64) << 32u64) | ((
            if self.is_close {
                1u64
            } else {
                0u64
            }) << 40u64),
    {
        let close: u64 = if self.is_close {
            1
        } else {
            0
        };
        ((self.row as u32) as u64) | (((self.tab as u8) as u64) << 32u64) | (close << 40u64)
    }

    /// The tag stored as the integer `bits` by `to_bits`.
    pub fn from_bits(bits: u64) -> (t: ButtonTag)
        ensures
            t == (ButtonTag {
                row: ((bits & 0xffff_ffff) as u32) as i32,
                tab: (((bits >> 32u64) & 0xff) as u8) as i8,
                is_close: ((bits >> 40u64) & 0xff) != 0,
            }),
    {
        ButtonTag {
            row: ((bits & 0xffff_ffff) as u32) as i32,
            tab: (((bits >> 32u64) & 0xff) as u8) as i8,
            is_close: ((bits >> 40u64) & 0xff) != 0,
        }
    }
}

/// Reading back a stored tag gives the tag.
pub proof fn lemma_tag_bits_roundtrip(row: i32, tab: i8, close: bool)
    ensures
        ({
            let c: u64 = if close {
                1
            } else {
                0
            };
            let bits = ((row as u32) as u64) | (((tab as u8) as u64) << 32u64) | (c << 40u64);
            &&& ((bits & 0xffff_ffff) as u32) as i32 == row
            &&& (((bits >> 32u64) & 0xff) as u8) as i8 == tab
            &&& (((bits >> 40u64) & 0xff) != 0) == close
        }),
{
    let c: u64 = if close {
        1
    } else {
        0
    };
    assert(((((row as u32) as u64) | (((tab as u8) as u64) << 32u64) | (c << 40u64)) & 0xffff_ffff)
        as u32 as i32 == row) by (bit_vector);
    assert(((((((row as u32) as u64) | (((tab as u8) as u64) << 32u64) | (c << 40u64))
        >> 32u64) & 0xff) as u8) as i8 == tab) by (bit_vector);
    assert(c <= 1 ==> ((((((row as u32) as u64) | (((tab as u8) as u64) << 32u64) | (c << 40u64))
        >> 40u64) & 0xff) != 0) == (c == 1)) by (bit_vector);
}

/// A press of a button sends the message that the button was made for: its
/// tab for a tab button (tabs below 128), its row for a row button (rows
/// below 2^31), and `Hide` for the close button.
pub proof fn lemma_tag_messages(tab: usize, row: usize)
    requires
        tab < 128,
        row < 0x8000_0000,
    ensures
        spec_tag_message(ButtonTag { tab: tab as i8, row: -1i32, is_close: false }) == Some(
            MenuMessage::SelectTab(tab),
        ),
        spec_tag_message(ButtonTag { tab: tab as i8, row: row as i32, is_close: false }) == Some(
            MenuMessage::HitRow(tab, row),
        ),
        spec_tag_message(ButtonTag { tab: -1i8, row: -1i32, is_close: true }) == Some(MenuMessage::Hide),
{
    assert(tab < 128 ==> (tab as i8) as usize == tab && tab as i8 != -1) by (bit_vector);
    assert(row < 0x8000_0000 ==> (row as i32) as usize == row && row as i32 != -1) by (bit_vector);
}

/// Types of interaction that the user can have with a cell.
#[derive(Clone, Copy, PartialEq, Eq, Structural, Debug)]
pub enum InteractionType {
    /// An interaction with no direction, such as a single tap on the screen.
    Undirected,
    /// An interaction in the left direction, such as the left button on a controller dpad.
    Left,
    /// An interaction in the right direction, such as the right button on a controller dpad.
    Right,
}

/// Different types of refresh that the menu can do.
#[derive(Clone, Copy, PartialEq, Eq, Structural, Debug)]
pub enum RefreshScope {
    /// Reloads a single cell.
    Cell,
    /// Reloads a single tab.
    Tab,
    /// Reloads the whole menu.
    Menu,
}

/// The tabs that the menu can show, each filled by a module of CLEO.
#[derive(Clone, Copy, PartialEq, Eq, Structural, Debug)]
pub enum ModuleTab {
    /// Scripts that the user starts by hand.
    InvokedScripts,
    /// Scripts that run on their own.
    RunningScripts,
    Cheats,
    Settings,
}

/// The game state number that means that a game is being played.
pub const IN_GAME_STATE: u32 = 9;

/// The tabs of the menu when the game is in state `game_state`: all of
/// them while a game is being played, and only the settings otherwise.
pub fn get_module_tab_data(game_state: u32) -> (tabs: Vec<ModuleTab>)
    ensures
        tabs@ == if game_state == IN_GAME_STATE {
            seq![
                ModuleTab::InvokedScripts,
                ModuleTab::RunningScripts,
                ModuleTab::Cheats,
                ModuleTab::Settings,
            ]
        } else {
            seq![ModuleTab::Settings]
        },
{
    let mut tabs: Vec<ModuleTab> = Vec::new();
    if game_state == IN_GAME_STATE {
        tabs.push(ModuleTab::InvokedScripts);
        tabs.push(ModuleTab::RunningScripts);
        tabs.push(ModuleTab::Cheats);
    }
    tabs.push(ModuleTab::Settings);
    proof {
        if game_state == IN_GAME_STATE {
            assert(tabs@ =~= seq![
                ModuleTab::InvokedScripts,
                ModuleTab::RunningScripts,
                ModuleTab::Cheats,
                ModuleTab::Settings,
            ]);
        } else {
            assert(tabs@ =~= seq![ModuleTab::Settings]);
        }
    }
    tabs
}

/// What the menu's thread does on a message.
#[derive(Clone, Copy, PartialEq, Eq, Structural, Debug)]
pub enum MenuAction {
    /// Build the menu and put it on screen.
    Create,
    /// Take the menu off the screen.
    Remove,
    /// Reload the contents of every row.
    Reload,
    /// Select the tab with this index and deselect the others.
    Select(usize),
    /// Pass a tap to row `.1` of tab `.0`.
    Hit(usize, usize),
    /// Nothing to do.
    Ignore,
    /// Warn that the menu was asked to show while it is showing.
    WarnAlreadyShown,
    /// Warn that a message for the menu came while it is not showing.
    WarnNoMenu,
}

/// What the menu's thread does on `message` when the menu is showing
/// (`showing`) or not.
pub open spec fn spec_menu_action(message: MenuMessage, showing: bool) -> MenuAction {
    match message {
        MenuMessage::Show => if showing {
            MenuAction::WarnAlreadyShown
        } else {
            MenuAction::Create
        },
        MenuMessage::Hide => if showing {
            MenuAction::Remove
        } else {
            MenuAction::Ignore
        },
        MenuMessage::ReloadRows => if showing {
            MenuAction::Reload
        } else {
            MenuAction::Ignore
        },
        MenuMessage::SelectTab(t) => if showing {
            MenuAction::Select(t)
        } else {
            MenuAction::WarnNoMenu
        },
        MenuMessage::HitRow(t, r) => if showing {
            MenuAction::Hit(t, r)
        } else {
            MenuAction::WarnNoMenu
        },
    }
}

/// Whether the menu is showing after `action`, if it was (`showing`) or not.
pub open spec fn showing_after(action: MenuAction, showing: bool) -> bool {
    match action {
        MenuAction::Create => true,
        MenuAction::Remove => false,
        _ => showing,
    }
}

/// Returns what the menu's thread does on `message` when the menu is
/// showing (`showing`) or not.
pub fn menu_action(message: MenuMessage, showing: bool) -> (action: MenuAction)
    ensures
        action == spec_menu_action(message, showing),
{
    match message {
        MenuMessage::Show => if showing {
            MenuAction::WarnAlreadyShown
        } else {
            MenuAction::Create
        },
        MenuMessage::Hide => if showing {
            MenuAction::Remove
        } else {
            MenuAction::Ignore
        },
        MenuMessage::ReloadRows => if showing {
            MenuAction::Reload
        } else {
            MenuAction::Ignore
        },
        MenuMessage::SelectTab(t) => if showing {
            MenuAction::Select(t)
        } else {
            MenuAction::WarnNoMenu
        },
        MenuMessage::HitRow(t, r) => if showing {
            MenuAction::Hit(t, r)
        } else {
            MenuAction::WarnNoMenu
        },
    }
}

/// Show makes the menu show and Hide takes it away, whatever the state; no
/// other message changes whether it shows, and a menu is never built twice.
pub proof fn lemma_menu_showing(message: MenuMessage, showing: bool)
    ensures
        message == MenuMessage::Show ==> showing_after(spec_menu_action(message, showing), showing),
        message == MenuMessage::Hide ==> !showing_after(
            spec_menu_action(message, showing),
            showing,
        ),
        message != MenuMessage::Show && message != MenuMessage::Hide ==> showing_after(
            spec_menu_action(message, showing),
            showing,
        ) == showing,
        spec_menu_action(message, showing) == MenuAction::Create ==> !showing,
{
}

/// Returns, for each of `count` tabs, whether it is the selected one.
pub fn selected_flags(count: usize, tab_index: usize) -> (flags: Vec<bool>)
    ensures
        flags@.len() == count,
        forall|i: int| 0 <= i < count ==> flags@[i] == (i == tab_index),
{
    let mut flags: Vec<bool> = Vec::new();
    let mut i: usize = 0;
    while i < count
        invariant
            0 <= i <= count,
            flags@.len() == i,
            forall|j: int| 0 <= j < i ==> flags@[j] == (j == tab_index),
        decreases count - i,
    {
        flags.push(i == tab_index);
        i = i + 1;
    }
    flags
}

/// Remembers whether the game was already paused when the menu paused it,
/// so that closing the menu does not unpause a game that the game itself
/// paused.
#[derive(Clone, Copy, PartialEq, Eq, Structural, Debug)]
pub struct PauseState {
    pub paused_already: bool,
}

/// The pause record after a request, and the value to write to the game's
/// pause flag (if any), given whether the game is paused now.
pub open spec fn spec_pause_step(s: PauseState, want_pause: bool, currently_paused: bool) -> (
    PauseState,
    Option<bool>,
) {
    if want_pause {
        if currently_paused {
            (PauseState { paused_already: true }, None)
        } else {
            (PauseState { paused_already: false }, Some(true))
        }
    } else if s.paused_already {
        (s, None)
    } else {
        (s, Some(false))
    }
}

impl PauseState {
    /// Pauses (`want_pause`) or unpauses the game for the menu, given whether
    /// the game is paused now. Returns the value to write to the game's pause
    /// flag, or `None` to leave it.
    pub fn set_game_timer_paused(&mut self, want_pause: bool, currently_paused: bool) -> (write:
        Option<bool>)
        ensures
            (*final(self), write) == spec_pause_step(*old(self), want_pause, currently_paused),
    {
        if want_pause {
            if currently_paused {
                self.paused_already = true;
                return None;
            }
            self.paused_already = false;
            Some(true)
        } else {
            if self.paused_already {
                return None;
            }
            Some(false)
        }
    }
}

/// Opening the menu and closing it again leaves the game paused exactly if
/// it was paused before.
pub proof fn lemma_pause_then_unpause(s: PauseState, paused: bool)
    ensures
        ({
            let (s1, w1) = spec_pause_step(s, true, paused);
            let flag1 = match w1 {
                Some(v) => v,
                None => paused,
            };
            let (_, w2) = spec_pause_step(s1, false, flag1);
            let flag2 = match w2 {
                Some(v) => v,
                None => flag1,
            };
            flag2 == paused
        }),
{
}

} // verus!
