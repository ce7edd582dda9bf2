//! CLEO's own scripts: loading them, whether each runs, the saved states of
//! the scripts that start by themselves, and the detection of long loops.

use crate::chars::{name_order, row_before};
use crate::meta::settings::Colour;
use crate::files::loader::{file_stem_of, path_file_stem};
use crate::scripts::scm::{spec_issue_message, Issue};
use crate::scripts::bytes::{spec_u64_bytes, u64_le_bytes};
use std::collections::hash_map::DefaultHasher;
use std::collections::HashMap;
use std::hash::Hasher;
use vstd::std_specs::hash::DefaultHasherAdditionalSpecFns;
use vstd::prelude::*;

verus! {

broadcast use vstd::std_specs::hash::group_hash_axioms;

/// The state of a script that starts by itself (a CSA script).
#[derive(Clone, Copy, PartialEq, Eq, Structural, Debug)]
pub enum CsaState {
    /// Running, as a script without problems is by default.
    EnabledNormally,
    /// Not running.
    Disabled,
    /// Running although problems were found with it.
    Forced,
}

impl CsaState {
    /// Returns `true` if a script in this state runs.
    pub fn active(&self) -> (on: bool)
        ensures
            on == (*self != CsaState::Disabled),
    {
        match self {
            CsaState::Disabled => false,
            _ => true,
        }
    }
}

/// The state a tap on a CSA script's row moves it to. A script without
/// problems switches between enabled and disabled; one with problems
/// between disabled and forced. A state that does not belong to the script
/// goes to disabled.
pub open spec fn spec_next_csa_state(state: CsaState, has_issue: bool) -> CsaState {
    if !has_issue {
        match state {
            CsaState::EnabledNormally => CsaState::Disabled,
            CsaState::Disabled => CsaState::EnabledNormally,
            CsaState::Forced => CsaState::Disabled,
        }
    } else {
        match state {
            CsaState::EnabledNormally => CsaState::Disabled,
            CsaState::Disabled => CsaState::Forced,
            CsaState::Forced => CsaState::Disabled,
        }
    }
}

/// Returns the state a tap on a CSA script's row moves it to.
pub fn next_csa_state(state: CsaState, has_issue: bool) -> (next: CsaState)
    ensures
        next == spec_next_csa_state(state, has_issue),
{
    if !has_issue {
        match state {
            CsaState::EnabledNormally => CsaState::Disabled,
            CsaState::Disabled => CsaState::EnabledNormally,
            CsaState::Forced => CsaState::Disabled,
        }
    } else {
        match state {
            CsaState::EnabledNormally => CsaState::Disabled,
            CsaState::Disabled => CsaState::Forced,
            CsaState::Forced => CsaState::Disabled,
        }
    }
}

/// Two taps bring a script back to the state it was in, when that state
/// belongs to it; and a script with problems is never simply enabled.
pub proof fn lemma_csa_taps(state: CsaState, has_issue: bool)
    ensures
        (has_issue ==> state != CsaState::EnabledNormally) && (!has_issue ==> state
            != CsaState::Forced) ==> spec_next_csa_state(
            spec_next_csa_state(state, has_issue),
            has_issue,
        ) == state,
        has_issue ==> spec_next_csa_state(state, has_issue) != CsaState::EnabledNormally,
        !has_issue ==> spec_next_csa_state(state, has_issue) != CsaState::Forced,
{
}

/// `issue` marks the script as a duplicate of another.
pub open spec fn is_duplicate(issue: Option<Issue>) -> bool {
    issue matches Some(Issue::Duplicate(_))
}

/// The state a CSA script starts in: its saved state if there is one
/// (but disabled for a duplicate of another script, since duplicates share
/// their saved state), and otherwise disabled if problems were found with
/// it and enabled if not.
pub open spec fn spec_csa_state(saved: Map<u64, CsaState>, hash: u64, issue: Option<Issue>) -> CsaState {
    if saved.contains_key(hash) {
        if is_duplicate(issue) {
            CsaState::Disabled
        } else {
            saved[hash]
        }
    } else if issue is Some {
        CsaState::Disabled
    } else {
        CsaState::EnabledNormally
    }
}

/// Returns the state a CSA script with identity `hash` and problem `issue`
/// starts in, given the saved states `saved`.
pub fn get_csa_state(saved: &HashMap<u64, CsaState>, hash: u64, issue: &Option<Issue>) -> (state:
    CsaState)
    ensures
        state == spec_csa_state(saved@, hash, *issue),
{
    match saved.get(&hash) {
        Some(state) => match issue {
            Some(Issue::Duplicate(_)) => CsaState::Disabled,
            _ => *state,
        },
        None => match issue {
            Some(_) => CsaState::Disabled,
            None => CsaState::EnabledNormally,
        },
    }
}

/// A script of CLEO's, with the state of its game script that CLEO decides.
#[derive(Debug)]
pub struct CleoScript {
    /// The script's bytecode.
    pub bytes: Vec<u8>,
    /// The name shown to the user in the menu.
    pub name: String,
    /// A problem found with the script, if any.
    pub issue: Option<Issue>,
    /// The identity of the script's bytes.
    pub hash: u64,
    /// Whether the script runs.
    pub active: bool,
}

impl CleoScript {
    /// Creates an inactive script from its bytecode and name, with no
    /// problem found yet and `hash` as its identity.
    pub fn new(bytes: Vec<u8>, name: String, hash: u64) -> (s: CleoScript)
        ensures
            s.bytes@ == bytes@,
            s.name@ == name@,
            s.issue is None,
            s.hash == hash,
            !s.active,
    {
        CleoScript { bytes, name, issue: None, hash, active: false }
    }

    /// Returns the script's bytecode, to be changed in place.
    pub fn bytecode_mut(&mut self) -> (b: &mut Vec<u8>)
        ensures
            *b == old(self).bytes,
            final(self).bytes == *final(b),
            final(self).name == old(self).name,
            final(self).issue == old(self).issue,
            final(self).hash == old(self).hash,
            final(self).active == old(self).active,
    {
        &mut self.bytes
    }
}

/// A script of CLEO's, by how it starts.
#[derive(Debug)]
pub enum Script {
    /// Scripts that do not run until the user starts them in the menu (CSI).
    Csi(CleoScript),
    /// Scripts that start when the game has finished loading (CSA).
    Csa { script: CleoScript, state: CsaState },
}

/// The script inside `s`.
pub open spec fn cleo_script_of(s: Script) -> CleoScript {
    match s {
        Script::Csi(c) => c,
        Script::Csa { script, .. } => script,
    }
}

/// Adds a script that starts by itself, from its bytecode and the path of
/// its file: it is named by the file name without its extension and known by
/// the identity of its bytecode. It stays disabled until it has been checked.
pub fn load_running_script(scripts: &mut Vec<Script>, bytes: Vec<u8>, path: &str)
    requires
        path_file_stem(path@) is Some,
    ensures
        final(scripts)@.len() == old(scripts)@.len() + 1,
        forall|i: int| 0 <= i < old(scripts)@.len() ==> final(scripts)@[i] == old(scripts)@[i],
        final(scripts)@.last() matches Script::Csa { script, state } && state == CsaState::Disabled
            && !script.active && script.bytes@ == bytes@ && Some(script.name@) == path_file_stem(
            path@,
        ) && script.hash == spec_script_hash(bytes@) && script.issue is None,
{
    let hash = generate_hash(bytes.as_slice());
    let name = match file_stem_of(path) {
        Some(n) => n,
        None => {
            proof {
                assert(false);
            }
            return ;
        },
    };
    let script = CleoScript::new(bytes, name, hash);
    scripts.push(Script::Csa { script, state: CsaState::Disabled });
}

/// Adds a script that the user starts by hand, from its bytecode and the
/// path of its file: it is named by the file name without its extension and
/// known by the identity of its bytecode.
pub fn load_invoked_script(scripts: &mut Vec<Script>, bytes: Vec<u8>, path: &str)
    requires
        path_file_stem(path@) is Some,
    ensures
        final(scripts)@.len() == old(scripts)@.len() + 1,
        forall|i: int| 0 <= i < old(scripts)@.len() ==> final(scripts)@[i] == old(scripts)@[i],
        final(scripts)@.last() matches Script::Csi(script) && !script.active && script.bytes@
            == bytes@ && Some(script.name@) == path_file_stem(path@) && script.hash
            == spec_script_hash(bytes@) && script.issue is None,
{
    let hash = generate_hash(bytes.as_slice());
    let name = match file_stem_of(path) {
        Some(n) => n,
        None => {
            proof {
                assert(false);
            }
            return ;
        },
    };
    let script = CleoScript::new(bytes, name, hash);
    scripts.push(Script::Csi(script));
}

/// Adds the script read from the file at `path`, one that starts by itself
/// if `running` and one the user starts otherwise (see
/// `load_running_script` and `load_invoked_script`). Returns `false`, and
/// adds nothing, if the path has no file name to name the script by.
pub fn load_script(scripts: &mut Vec<Script>, bytes: Vec<u8>, path: &str, running: bool) -> (loaded:
    bool)
    ensures
        loaded == (path_file_stem(path@) is Some),
        !loaded ==> final(scripts)@ == old(scripts)@,
        loaded ==> final(scripts)@.len() == old(scripts)@.len() + 1 && (forall|i: int|
            0 <= i < old(scripts)@.len() ==> final(scripts)@[i] == old(scripts)@[i]) && if running {
            final(scripts)@.last() matches Script::Csa { script, state } && state
                == CsaState::Disabled && !script.active && script.bytes@ == bytes@ && Some(
                script.name@,
            ) == path_file_stem(path@) && script.hash == spec_script_hash(bytes@)
                && script.issue is None
        } else {
            final(scripts)@.last() matches Script::Csi(script) && !script.active && script.bytes@
                == bytes@ && Some(script.name@) == path_file_stem(path@) && script.hash
                == spec_script_hash(bytes@) && script.issue is None
        },
{
    match file_stem_of(path) {
        None => false,
        Some(_) => {
            if running {
                load_running_script(scripts, bytes, path);
            } else {
                load_invoked_script(scripts, bytes, path);
            }
            true
        },
    }
}

/// The identity of a script with bytecode `bytes`: the standard library's
/// default hash of the bytecode's length (as eight little-endian bytes)
/// followed by the bytecode, as `Hash` feeds a byte vector to the hasher.
pub open spec fn spec_script_hash(bytes: Seq<u8>) -> u64 {
    DefaultHasher::spec_finish(seq![spec_u64_bytes(bytes.len() as int), bytes])
}

/// Returns the identity of a script with bytecode `bytes`.
pub fn generate_hash(bytes: &[u8]) -> (h: u64)
    ensures
        h == spec_script_hash(bytes@),
{
    let mut hasher = DefaultHasher::new();
    let len = u64_le_bytes(bytes.len() as u64);
    hasher.write(&len);
    hasher.write(bytes);
    proof {
        assert(hasher@ =~= seq![spec_u64_bytes(bytes@.len() as int), bytes@]);
    }
    hasher.finish()
}

/// After the scripts are reset for a new game (`reset`) or checked
/// (`!reset`): each CSA script takes the state `spec_csa_state` gives it and
/// runs exactly if that state is active; on a reset each CSI script stops.
pub open spec fn spec_assign_state(s: Script, saved: Map<u64, CsaState>, reset: bool) -> (
    bool,
    Option<CsaState>,
) {
    match s {
        Script::Csi(c) => (if reset {
            false
        } else {
            c.active
        }, None),
        Script::Csa { script, .. } => {
            let st = spec_csa_state(saved, script.hash, script.issue);
            (st != CsaState::Disabled, Some(st))
        },
    }
}

/// Whether the script runs and, for a CSA script, its state.
pub open spec fn run_state(s: Script) -> (bool, Option<CsaState>) {
    match s {
        Script::Csi(c) => (c.active, None),
        Script::Csa { script, state } => (script.active, Some(state)),
    }
}

/// Gives every CSA script the state it starts in (from the saved states
/// `saved` and its problems) and makes it run exactly if that state is
/// active. When `reset` is set (a new game), every CSI script also stops.
pub fn assign_states(scripts: &mut Vec<Script>, saved: &HashMap<u64, CsaState>, reset: bool)
    ensures
        final(scripts)@.len() == old(scripts)@.len(),
        forall|i: int|
            0 <= i < old(scripts)@.len() ==> run_state(#[trigger] final(scripts)@[i])
                == spec_assign_state(old(scripts)@[i], saved@, reset),
        forall|i: int|
            0 <= i < old(scripts)@.len() ==> cleo_script_of(#[trigger] final(scripts)@[i]).hash
                == cleo_script_of(old(scripts)@[i]).hash,
{
    let ghost orig = scripts@;
    let mut i: usize = 0;
    while i < scripts.len()
        invariant
            0 <= i <= scripts@.len(),
            scripts@.len() == orig.len(),
            forall|j: int|
                0 <= j < i ==> run_state(#[trigger] scripts@[j]) == spec_assign_state(
                    orig[j],
                    saved@,
                    reset,
                ),
            forall|j: int| i <= j < scripts@.len() ==> #[trigger] scripts@[j] == orig[j],
            forall|j: int|
                0 <= j < scripts@.len() ==> cleo_script_of(#[trigger] scripts@[j]).hash
                    == cleo_script_of(orig[j]).hash,
        decreases scripts@.len() - i,
    {
        let mut s = scripts.remove(i);
        match &mut s {
            Script::Csi(c) => {
                if reset {
                    c.active = false;
                }
            },
            Script::Csa { script, state } => {
                let st = get_csa_state(saved, script.hash, &script.issue);
                *state = st;
                script.active = st.active();
            },
        }
        scripts.insert(i, s);
        i = i + 1;
    }
}

/// The saved states to store for `scripts`: each CSA script's state under
/// its identity, except for duplicates of other scripts; a later script with
/// the same identity replaces an earlier one.
pub open spec fn spec_states_to_save(scripts: Seq<Script>) -> Map<u64, CsaState>
    decreases scripts.len(),
{
    if scripts.len() == 0 {
        Map::empty()
    } else {
        let rest = spec_states_to_save(scripts.drop_last());
        match scripts.last() {
            Script::Csa { script, state } => if is_duplicate(script.issue) {
                rest
            } else {
                rest.insert(script.hash, state)
            },
            Script::Csi(_) => rest,
        }
    }
}

/// Returns the saved states to store for `scripts`.
pub fn states_to_save(scripts: &Vec<Script>) -> (states: HashMap<u64, CsaState>)
    ensures
        states@ == spec_states_to_save(scripts@),
{
    let mut states: HashMap<u64, CsaState> = HashMap::new();
    let mut i: usize = 0;
    while i < scripts.len()
        invariant
            0 <= i <= scripts@.len(),
            states@ == spec_states_to_save(scripts@.take(i as int)),
        decreases scripts@.len() - i,
    {
        proof {
            assert(scripts@.take(i + 1).drop_last() =~= scripts@.take(i as int));
            assert(scripts@.take(i + 1).last() == scripts@[i as int]);
        }
        match &scripts[i] {
            Script::Csa { script, state } => match &script.issue {
                Some(Issue::Duplicate(_)) => {},
                _ => {
                    states.insert(script.hash, *state);
                },
            },
            Script::Csi(_) => {},
        }
        i = i + 1;
    }
    proof {
        assert(scripts@.take(scripts@.len() as int) =~= scripts@);
    }
    states
}

/// Saving the states and starting again gives every CSA script that is not
/// a duplicate (and whose identity no later CSA script shares) the state it
/// had.
pub proof fn lemma_saved_state_restored(scripts: Seq<Script>, i: int)
    requires
        0 <= i < scripts.len(),
        scripts[i] matches Script::Csa { script, .. } && !is_duplicate(script.issue),
        forall|j: int|
            i < j < scripts.len() ==> !(#[trigger] scripts[j] matches Script::Csa {
                script: other,
                ..
            } && other.hash == cleo_script_of(scripts[i]).hash),
    ensures
        scripts[i] matches Script::Csa { script, state } && spec_csa_state(
            spec_states_to_save(scripts),
            script.hash,
            script.issue,
        ) == state,
    decreases scripts.len(),
{
    if i < scripts.len() - 1 {
        assert(scripts.drop_last()[i] == scripts[i]);
        assert forall|j: int| i < j < scripts.drop_last().len() implies !(
        #[trigger] scripts.drop_last()[j] matches Script::Csa { script: other, .. } && other.hash
            == cleo_script_of(scripts.drop_last()[i]).hash) by {
            assert(scripts.drop_last()[j] == scripts[j]);
        }
        lemma_saved_state_restored(scripts.drop_last(), i);
    }
}

/// Records how often each instruction offset was reached in one update of a
/// script, to find loops that run without waiting.
#[derive(Debug)]
pub struct LoopGuard {
    /// The number of times each offset was reached.
    pub encounters: HashMap<usize, u64>,
    /// The offset reached last.
    pub previous_offset: usize,
}

/// The number of times an offset must be reached, the last time by a jump
/// backwards, before the loop is broken.
pub const LOOP_LIMIT: u64 = 5;

impl LoopGuard {
    /// A guard for a new update: no offset reached yet.
    pub fn new() -> (g: LoopGuard)
        ensures
            g.encounters@ == Map::<usize, u64>::empty(),
            g.previous_offset == 0,
    {
        LoopGuard { encounters: HashMap::new(), previous_offset: 0 }
    }

    /// Records that the script reached `offset`. Returns `true` if the
    /// update should stop here: the offset has now been reached at least
    /// five times and the script just jumped backwards to it.
    pub fn should_break(&mut self, offset: usize) -> (stop: bool)
        ensures
            final(self).previous_offset == offset,
            final(self).encounters@ == old(self).encounters@.insert(
                offset,
                if old(self).encounters@.contains_key(offset) {
                    if old(self).encounters@[offset] == u64::MAX {
                        u64::MAX
                    } else {
                        (old(self).encounters@[offset] + 1) as u64
                    }
                } else {
                    1u64
                },
            ),
            stop == (final(self).encounters@[offset] >= LOOP_LIMIT && offset
                < old(self).previous_offset),
    {
        let jumped_backwards = offset < self.previous_offset;
        self.previous_offset = offset;
        let count: u64 = match self.encounters.get(&offset) {
            Some(c) => if *c == u64::MAX {
                u64::MAX
            } else {
                *c + 1
            },
            None => 1,
        };
        self.encounters.insert(offset, count);
        count >= LOOP_LIMIT && jumped_backwards
    }
}

/// The opcode of an instruction word (its low 15 bits) and whether its
/// result is inverted (its top bit).
pub fn split_opcode(word: u16) -> (parts: (u16, bool))
    ensures
        parts.0 == word & 0x7fff,
        parts.1 == (word & 0x8000 != 0),
        parts.0 < 0x8000,
{
    assert(word & 0x7fff < 0x8000) by (bit_vector);
    (word & 0x7fff, word & 0x8000 != 0)
}

/// What CLEO does itself for an opcode instead of the game's handler.
#[derive(Clone, Copy, PartialEq, Eq, Structural, Debug)]
pub enum Override {
    /// Ends the script: reset and stop it (the game's version would free
    /// CLEO's script data).
    Terminate,
    /// An opcode that cannot work on iOS: the game must exit.
    Unsupported,
    /// Stores a value in one of the shared mutex variables.
    SetMutexVar,
    /// Reads one of the shared mutex variables.
    GetMutexVar,
    /// Sets the condition flag from a touch zone's state.
    TouchZoneFlag,
    /// Stores a touch zone's state as a number.
    TouchZoneValue,
}

/// What CLEO does itself for `opcode`, if anything.
pub open spec fn spec_override(opcode: u16) -> Option<Override> {
    if opcode == 0x004e {
        Some(Override::Terminate)
    } else if (0x0dd0 <= opcode <= 0x0dd4) || opcode == 0x0dde || (0x0dd8 <= opcode <= 0x0dda)
        || opcode == 0x0dd7 {
        Some(Override::Unsupported)
    } else if opcode == 0x0ddc {
        Some(Override::SetMutexVar)
    } else if opcode == 0x0ddd {
        Some(Override::GetMutexVar)
    } else if opcode == 0x00e1 {
        Some(Override::TouchZoneFlag)
    } else if opcode == 0x0de0 {
        Some(Override::TouchZoneValue)
    } else {
        None
    }
}

/// Returns what CLEO does itself for `opcode`, if anything.
pub fn override_for(opcode: u16) -> (o: Option<Override>)
    ensures
        o == spec_override(opcode),
{
    if opcode == 0x004e {
        Some(Override::Terminate)
    } else if (0x0dd0 <= opcode && opcode <= 0x0dd4) || opcode == 0x0dde || (0x0dd8 <= opcode
        && opcode <= 0x0dda) || opcode == 0x0dd7 {
        Some(Override::Unsupported)
    } else if opcode == 0x0ddc {
        Some(Override::SetMutexVar)
    } else if opcode == 0x0ddd {
        Some(Override::GetMutexVar)
    } else if opcode == 0x00e1 {
        Some(Override::TouchZoneFlag)
    } else if opcode == 0x0de0 {
        Some(Override::TouchZoneValue)
    } else {
        None
    }
}

/// The first opcode that the game's single extended handler deals with.
pub const EXTENDED_OPCODES: u16 = 0xa8c;

/// The entry of the game's handler table for `opcode`: each handler covers
/// one hundred opcodes and the table alternates empty entries with
/// handlers. Returns `None` for the opcodes of the extended handler.
pub fn handler_slot(opcode: u16) -> (slot: Option<usize>)
    ensures
        slot == if opcode >= EXTENDED_OPCODES {
            None
        } else {
            Some(((opcode / 100) * 2) as usize)
        },
{
    if opcode >= EXTENDED_OPCODES {
        None
    } else {
        Some((opcode / 100) as usize * 2)
    }
}

/// The shared variables that the mutex opcodes read and write.
#[derive(Debug)]
pub struct MutexVars {
    pub vars: Vec<u32>,
}

/// The number of shared mutex variables.
pub const MUTEX_VAR_COUNT: usize = 32;

impl MutexVars {
    /// All variables zero.
    pub fn new() -> (m: MutexVars)
        ensures
            m.vars@ == Seq::new(MUTEX_VAR_COUNT as nat, |i: int| 0u32),
    {
        let mut vars: Vec<u32> = Vec::new();
        let mut i: usize = 0;
        while i < MUTEX_VAR_COUNT
            invariant
                0 <= i <= MUTEX_VAR_COUNT,
                vars@ == Seq::new(i as nat, |k: int| 0u32),
            decreases MUTEX_VAR_COUNT - i,
        {
            vars.push(0);
            i = i + 1;
            proof {
                assert(vars@ =~= Seq::new(i as nat, |k: int| 0u32));
            }
        }
        MutexVars { vars }
    }

    /// Sets variable `index` to `value`.
    pub fn set(&mut self, index: usize, value: u32)
        requires
            index < old(self).vars@.len(),
        ensures
            final(self).vars@ == old(self).vars@.update(index as int, value),
    {
        self.vars.set(index, value);
    }

    /// Returns variable `index`.
    pub fn get(&self, index: usize) -> (v: u32)
        requires
            index < self.vars@.len(),
        ensures
            v == self.vars@[index as int],
    {
        self.vars[index]
    }
}

/// Whether a script runs in an update at game time `now`: it must be active
/// and its wake-up time must have come.
pub fn is_ready(active: bool, wakeup_time: u32, now: u32) -> (ready: bool)
    ensures
        ready == (active && wakeup_time <= now),
{
    active && wakeup_time <= now
}

/// The words for the numbers one to nine.
pub open spec fn spec_number_word(n: int) -> Seq<char> {
    if n == 1 {
        "one"@
    } else if n == 2 {
        "two"@
    } else if n == 3 {
        "three"@
    } else if n == 4 {
        "four"@
    } else if n == 5 {
        "five"@
    } else if n == 6 {
        "six"@
    } else if n == 7 {
        "seven"@
    } else if n == 8 {
        "eight"@
    } else {
        "nine"@
    }
}

/// The decimal digits of `n`.
pub open spec fn spec_decimal(n: nat) -> Seq<char>
    decreases n,
{
    if n < 10 {
        seq![((n + 48) as u8) as char]
    } else {
        spec_decimal(n / 10).push((((n % 10) + 48) as u8) as char)
    }
}

/// Returns the decimal digits of `n`.
pub fn decimal(n: usize) -> (s: String)
    ensures
        s@ == spec_decimal(n as nat),
    decreases n,
{
    if n < 10 {
        let mut s = String::new();
        crate::scripts::bytes::string_push(&mut s, ((n as u8) + 48) as char);
        proof {
            assert(s@ =~= spec_decimal(n as nat));
        }
        s
    } else {
        let mut s = decimal(n / 10);
        crate::scripts::bytes::string_push(&mut s, (((n % 10) as u8) + 48) as char);
        s
    }
}

/// Returns the word for a number from one to nine.
fn number_word(n: usize) -> (w: &'static str)
    requires
        1 <= n <= 9,
    ensures
        w@ == spec_number_word(n as int),
{
    if n == 1 {
        "one"
    } else if n == 2 {
        "two"
    } else if n == 3 {
        "three"
    } else if n == 4 {
        "four"
    } else if n == 5 {
        "five"
    } else if n == 6 {
        "six"
    } else if n == 7 {
        "seven"
    } else if n == 8 {
        "eight"
    } else {
        "nine"
    }
}

/// The warning above a script tab when problems were found with `count` of
/// its scripts: none for no scripts, otherwise a sentence that gives the
/// number (as a word up to nine) and asks the user to look below.
pub open spec fn spec_warning_string(count: nat) -> Option<Seq<char>> {
    if count == 0 {
        None
    } else {
        Some(
            "Problems identified with "@ + (if count <= 9 {
                spec_number_word(count as int)
            } else {
                spec_decimal(count)
            }) + " script"@ + (if count == 1 {
                ""@
            } else {
                "s"@
            }) + ". "@ + (if count == 1 {
                "This script is"@
            } else {
                "These scripts are"@
            }) + " highlighted in orange.\nSee below for further details."@,
        )
    }
}

/// Returns the warning above a script tab when problems were found with
/// `count` of its scripts, or `None` if there were none.
pub fn gen_warning_string(count: usize) -> (w: Option<String>)
    ensures
        match w {
            Some(s) => spec_warning_string(count as nat) == Some(s@),
            None => spec_warning_string(count as nat) is None,
        },
{
    if count == 0 {
        return None;
    }
    let mut s = "Problems identified with ".to_owned();
    if count <= 9 {
        s.append(number_word(count));
    } else {
        let digits = decimal(count);
        s.append(digits.as_str());
    }
    s.append(" script");
    if count != 1 {
        s.append("s");
    } else {
        s.append("");
    }
    s.append(". ");
    if count == 1 {
        s.append("This script is");
    } else {
        s.append("These scripts are");
    }
    s.append(" highlighted in orange.\nSee below for further details.");
    Some(s)
}

/// The tint of a summary message: that of the most serious issue counted.
#[derive(Clone, Copy, PartialEq, Eq, Structural, Debug)]
pub enum MessageTint {
    Orange,
    Yellow,
}

/// `"s"` where `n` is not one.
pub open spec fn spec_plural(n: nat) -> Seq<char> {
    if n != 1 {
        "s"@
    } else {
        ""@
    }
}

/// The summary above the script list for `severe` scripts with severe
/// issues and `minor` with minor ones: none if there are neither, otherwise
/// a sentence that gives the counts, tinted orange if any issue is severe
/// and yellow if all are minor.
pub open spec fn spec_warning_message(severe: nat, minor: nat) -> Option<(Seq<char>, MessageTint)> {
    if severe == 0 && minor == 0 {
        None
    } else if severe != 0 && minor != 0 {
        Some(
            (
                "Found "@ + spec_decimal(severe) + " script"@ + spec_plural(severe)
                    + " with severe issues and "@ + spec_decimal(minor) + " with minor issues."@,
                MessageTint::Orange,
            ),
        )
    } else if minor != 0 {
        Some(
            (
                "Found "@ + spec_decimal(minor) + " script"@ + spec_plural(minor)
                    + " with minor issues."@,
                MessageTint::Yellow,
            ),
        )
    } else {
        Some(
            (
                "Found "@ + spec_decimal(severe) + " script"@ + spec_plural(severe)
                    + " with severe issues."@,
                MessageTint::Orange,
            ),
        )
    }
}

/// Returns `"s"` where `n` is not one, and `""` where it is.
fn plural(n: usize) -> (s: &'static str)
    ensures
        s@ == spec_plural(n as nat),
{
    if n != 1 {
        "s"
    } else {
        ""
    }
}

/// Returns the summary above the script list for `severe_count` scripts
/// with severe issues and `minor_count` with minor ones, with its tint, or
/// `None` if there are neither.
pub fn warning_message(severe_count: usize, minor_count: usize) -> (m: Option<(String, MessageTint)>)
    ensures
        match m {
            Some((text, tint)) => spec_warning_message(severe_count as nat, minor_count as nat)
                == Some((text@, tint)),
            None => spec_warning_message(severe_count as nat, minor_count as nat) is None,
        },
{
    let found_severe = severe_count != 0;
    let found_minor = minor_count != 0;
    if !found_severe && !found_minor {
        return None;
    }
    let mut text = "Found ".to_owned();
    if found_severe && found_minor {
        text.append(decimal(severe_count).as_str());
        text.append(" script");
        text.append(plural(severe_count));
        text.append(" with severe issues and ");
        text.append(decimal(minor_count).as_str());
        text.append(" with minor issues.");
    } else if found_minor {
        text.append(decimal(minor_count).as_str());
        text.append(" script");
        text.append(plural(minor_count));
        text.append(" with minor issues.");
    } else {
        text.append(decimal(severe_count).as_str());
        text.append(" script");
        text.append(plural(severe_count));
        text.append(" with severe issues.");
    }
    let tint = if found_severe {
        MessageTint::Orange
    } else {
        MessageTint::Yellow
    };
    Some((text, tint))
}

/// The text under a script's row: information, or a warning.
#[derive(Clone, Debug)]
pub enum RowDetail {
    Info(String),
    Warning(String),
}

/// The plain values of a row's detail: whether it is a warning, and its text.
pub open spec fn detail_view(d: RowDetail) -> (bool, Seq<char>) {
    match d {
        RowDetail::Info(s) => (false, s@),
        RowDetail::Warning(s) => (true, s@),
    }
}

/// The text that describes a script's problem, or that there is none.
pub open spec fn spec_issues_text(warning: Option<String>) -> Seq<char> {
    match warning {
        Some(w) => w@,
        None => "No issues detected."@,
    }
}

/// The warning shown for a script with problem `issue`, if any.
pub open spec fn spec_warning_of(issue: Option<Issue>) -> Option<Seq<char>> {
    match issue {
        Some(i) => Some(spec_issue_message(i)),
        None => None,
    }
}

/// Returns the text that describes a script's problem, if it has one.
fn warning_of(issue: &Option<Issue>) -> (w: Option<String>)
    ensures
        match w {
            Some(s) => spec_warning_of(*issue) == Some(s@),
            None => issue is None,
        },
{
    match issue {
        Some(i) => Some(i.message()),
        None => None,
    }
}

/// Returns the text that describes a script's problem, or that it has none.
fn issues_text(warning: &Option<String>) -> (t: String)
    ensures
        t@ == spec_issues_text(*warning),
{
    match warning {
        Some(w) => w.clone(),
        None => "No issues detected.".to_owned(),
    }
}

/// The menu row of a script that the user starts by hand (CSI).
#[derive(Debug)]
pub struct CsiMenuInfo {
    pub name: String,
    /// Whether the script is running.
    pub state: bool,
    pub warning: Option<String>,
}

impl CsiMenuInfo {
    /// The row for `script`, if it is a CSI script.
    pub fn new(script: &Script) -> (info: Option<CsiMenuInfo>)
        ensures
            match *script {
                Script::Csi(c) => info matches Some(i) && i.name@ == c.name@ && i.state == c.active
                    && match i.warning {
                    Some(w) => spec_warning_of(c.issue) == Some(w@),
                    None => c.issue is None,
                },
                Script::Csa { .. } => info is None,
            },
    {
        match script {
            Script::Csi(c) => Some(
                CsiMenuInfo { name: c.name.clone(), state: c.active, warning: warning_of(&c.issue) },
            ),
            Script::Csa { .. } => None,
        }
    }

    /// The text under the row: whether the script runs and its problems (a
    /// warning if it has any).
    pub fn detail(&self) -> (d: RowDetail)
        ensures
            detail_view(d) == (self.warning is Some, (if self.state {
                "Running. "@
            } else {
                "Not running. "@
            }) + spec_issues_text(self.warning)),
    {
        let mut text = if self.state {
            "Running. ".to_owned()
        } else {
            "Not running. ".to_owned()
        };
        let issues = issues_text(&self.warning);
        text.append(issues.as_str());
        if self.warning.is_some() {
            RowDetail::Warning(text)
        } else {
            RowDetail::Info(text)
        }
    }

    /// The value shown in the row.
    pub fn value(&self) -> (v: &'static str)
        ensures
            v@ == if self.state {
                "Running"@
            } else {
                "Not running"@
            },
    {
        if self.state {
            "Running"
        } else {
            "Not running"
        }
    }

    /// The tint of the value: green while the script runs.
    pub fn tint(&self) -> (t: Option<Colour>)
        ensures
            t == if self.state {
                Some(Colour::Green)
            } else {
                None
            },
    {
        if self.state {
            Some(Colour::Green)
        } else {
            None
        }
    }

    /// Starts the first CSI script named like this row, if there is one.
    pub fn activate(&mut self, scripts: &mut Vec<Script>)
        ensures
            final(scripts)@.len() == old(scripts)@.len(),
            final(self).name == old(self).name,
            final(self).warning == old(self).warning,
            match first_csi_named(old(scripts)@, old(self).name@) {
                Some(k) => final(self).state && (forall|i: int|
                    0 <= i < old(scripts)@.len() ==> #[trigger] final(scripts)@[i] == if i == k {
                        started(old(scripts)@[i])
                    } else {
                        old(scripts)@[i]
                    }),
                None => final(self).state == old(self).state && final(scripts)@ == old(scripts)@,
            },
    {
        let mut i: usize = 0;
        while i < scripts.len()
            invariant
                0 <= i <= scripts@.len(),
                scripts@ == old(scripts)@,
                self.name == old(self).name,
                self.state == old(self).state,
                self.warning == old(self).warning,
                forall|j: int| 0 <= j < i ==> !is_csi_named(scripts@[j], self.name@),
            decreases scripts@.len() - i,
        {
            let found = match &scripts[i] {
                Script::Csi(c) => crate::chars::same_text(c.name.as_str(), self.name.as_str()),
                Script::Csa { .. } => false,
            };
            if found {
                let ghost orig = scripts@;
                let mut s = scripts.remove(i);
                match &mut s {
                    Script::Csi(c) => {
                        c.active = true;
                    },
                    Script::Csa { .. } => {},
                }
                scripts.insert(i, s);
                self.state = true;
                proof {
                    lemma_first_csi(orig, self.name@, i as int);
                }
                return;
            }
            i = i + 1;
        }
        proof {
            lemma_no_csi(old(scripts)@, self.name@);
        }
    }

    /// Handles a tap on the row: starts the script. Returns `false`: the
    /// rows are not reloaded (the caller closes the menu instead).
    pub fn handle_tap(&mut self, scripts: &mut Vec<Script>) -> (reload: bool)
        ensures
            !reload,
            final(scripts)@.len() == old(scripts)@.len(),
            final(self).name == old(self).name,
            final(self).warning == old(self).warning,
            match first_csi_named(old(scripts)@, old(self).name@) {
                Some(k) => final(self).state && (forall|i: int|
                    0 <= i < old(scripts)@.len() ==> #[trigger] final(scripts)@[i] == if i == k {
                        started(old(scripts)@[i])
                    } else {
                        old(scripts)@[i]
                    }),
                None => final(self).state == old(self).state && final(scripts)@ == old(scripts)@,
            },
    {
        self.activate(scripts);
        false
    }
}

/// The CSI script `s`, running, with everything else as it was.
pub open spec fn started(s: Script) -> Script {
    match s {
        Script::Csi(c) => Script::Csi(CleoScript { active: true, ..c }),
        Script::Csa { script, state } => Script::Csa { script, state },
    }
}

/// `s` is a CSI script named `name`.
pub open spec fn is_csi_named(s: Script, name: Seq<char>) -> bool {
    s matches Script::Csi(c) && c.name@ == name
}

/// The position of the first CSI script named `name` in `scripts`, if any.
pub open spec fn first_csi_named(scripts: Seq<Script>, name: Seq<char>) -> Option<int> {
    if exists|k: int| 0 <= k < scripts.len() && is_csi_named(scripts[k], name) {
        Some(
            choose|k: int|
                0 <= k < scripts.len() && is_csi_named(scripts[k], name) && forall|j: int|
                    0 <= j < k ==> !is_csi_named(scripts[j], name),
        )
    } else {
        None
    }
}

/// A CSI script named `name` at `k` with none before it is the first one.
proof fn lemma_first_csi(scripts: Seq<Script>, name: Seq<char>, k: int)
    requires
        0 <= k < scripts.len(),
        is_csi_named(scripts[k], name),
        forall|j: int| 0 <= j < k ==> !is_csi_named(scripts[j], name),
    ensures
        first_csi_named(scripts, name) == Some(k),
{
    let c = choose|c: int|
        0 <= c < scripts.len() && is_csi_named(scripts[c], name) && forall|j: int|
            0 <= j < c ==> !is_csi_named(scripts[j], name);
    assert(0 <= c < scripts.len() && is_csi_named(scripts[c], name) && forall|j: int|
        0 <= j < c ==> !is_csi_named(scripts[j], name));
    if c < k {
        assert(!is_csi_named(scripts[c], name));
    } else if k < c {
        assert(!is_csi_named(scripts[k], name));
    }
}

/// Without a CSI script named `name` there is no first one.
proof fn lemma_no_csi(scripts: Seq<Script>, name: Seq<char>)
    requires
        forall|j: int| 0 <= j < scripts.len() ==> !is_csi_named(scripts[j], name),
    ensures
        first_csi_named(scripts, name) is None,
{
}

/// The menu row of a script that starts by itself (CSA).
#[derive(Debug)]
pub struct CsaMenuInfo {
    pub name: String,
    pub state: CsaState,
    pub warning: Option<String>,
}

impl CsaMenuInfo {
    /// The row for `script`, if it is a CSA script.
    pub fn new(script: &Script) -> (info: Option<CsaMenuInfo>)
        ensures
            match *script {
                Script::Csa { script: c, state } => info matches Some(i) && i.name@ == c.name@
                    && i.state == state && match i.warning {
                    Some(w) => spec_warning_of(c.issue) == Some(w@),
                    None => c.issue is None,
                },
                Script::Csi(_) => info is None,
            },
    {
        match script {
            Script::Csa { script: c, state } => Some(
                CsaMenuInfo { name: c.name.clone(), state: *state, warning: warning_of(&c.issue) },
            ),
            Script::Csi(_) => None,
        }
    }

    /// The text under the row: the script's problems (a warning if it has
    /// any).
    pub fn detail(&self) -> (d: RowDetail)
        ensures
            detail_view(d) == (self.warning is Some, spec_issues_text(self.warning)),
    {
        let text = issues_text(&self.warning);
        if self.warning.is_some() {
            RowDetail::Warning(text)
        } else {
            RowDetail::Info(text)
        }
    }

    /// The value shown in the row.
    pub fn value(&self) -> (v: &'static str)
        ensures
            v@ == match self.state {
                CsaState::EnabledNormally => "Enabled"@,
                CsaState::Disabled => "Disabled"@,
                CsaState::Forced => "Forced"@,
            },
    {
        match self.state {
            CsaState::EnabledNormally => "Enabled",
            CsaState::Disabled => "Disabled",
            CsaState::Forced => "Forced",
        }
    }

    /// The tint of the value: green unless the script is disabled.
    pub fn tint(&self) -> (t: Option<Colour>)
        ensures
            t == if self.state == CsaState::Disabled {
                None
            } else {
                Some(Colour::Green)
            },
    {
        match self.state {
            CsaState::Disabled => None,
            _ => Some(Colour::Green),
        }
    }

    /// Handles a tap on the row: the script moves to its next state (see
    /// `next_csa_state`), and every CSA script with this name takes that
    /// state and runs exactly if it is active. Returns `true`: the rows are
    /// reloaded.
    pub fn handle_tap(&mut self, scripts: &mut Vec<Script>) -> (reload: bool)
        ensures
            reload,
            final(self).state == spec_next_csa_state(old(self).state, old(self).warning is Some),
            final(self).name == old(self).name,
            final(self).warning == old(self).warning,
            final(scripts)@.len() == old(scripts)@.len(),
            forall|i: int|
                0 <= i < old(scripts)@.len() ==> #[trigger] final(scripts)@[i] == if (
                old(scripts)@[i] matches Script::Csa { script, .. } && script.name@ == old(
                    self,
                ).name@) {
                    with_csa_state(old(scripts)@[i], final(self).state)
                } else {
                    old(scripts)@[i]
                },
    {
        let new_state = next_csa_state(self.state, self.warning.is_some());
        self.state = new_state;
        let ghost orig = scripts@;
        let mut i: usize = 0;
        while i < scripts.len()
            invariant
                0 <= i <= scripts@.len(),
                scripts@.len() == orig.len(),
                orig == old(scripts)@,
                self.state == new_state,
                self.name == old(self).name,
                self.warning == old(self).warning,
                forall|j: int|
                    0 <= j < i ==> #[trigger] scripts@[j] == if (orig[j] matches Script::Csa {
                        script,
                        ..
                    } && script.name@ == self.name@) {
                        with_csa_state(orig[j], new_state)
                    } else {
                        orig[j]
                    },
                forall|j: int| i <= j < scripts@.len() ==> #[trigger] scripts@[j] == orig[j],
            decreases scripts@.len() - i,
        {
            let mut s = scripts.remove(i);
            match &mut s {
                Script::Csa { script, state } => {
                    if crate::chars::same_text(script.name.as_str(), self.name.as_str()) {
                        *state = new_state;
                        script.active = new_state.active();
                    }
                },
                Script::Csi(_) => {},
            }
            scripts.insert(i, s);
            i = i + 1;
        }
        true
    }
}

/// The CSA script `s` in the state `state`, running exactly if that state
/// is active, with everything else as it was.
pub open spec fn with_csa_state(s: Script, state: CsaState) -> Script {
    match s {
        Script::Csa { script, .. } => Script::Csa {
            script: CleoScript { active: state != CsaState::Disabled, ..script },
            state,
        },
        Script::Csi(c) => Script::Csi(c),
    }
}

/// The contents of a script tab: its title, a warning if problems were
/// found with any of its scripts, and one row per script, sorted by name.
#[derive(Debug)]
pub struct ScriptTab<R> {
    pub name: &'static str,
    pub warning: Option<String>,
    pub rows: Vec<R>,
}

/// The row `r` shows the CSA script `s`.
pub open spec fn describes_csa(r: CsaMenuInfo, s: Script) -> bool {
    s matches Script::Csa { script: c, state } && r.name@ == c.name@ && r.state == state && match r.warning {
        Some(w) => spec_warning_of(c.issue) == Some(w@),
        None => c.issue is None,
    }
}

/// The row `r` shows the CSI script `s`.
pub open spec fn describes_csi(r: CsiMenuInfo, s: Script) -> bool {
    s matches Script::Csi(c) && r.name@ == c.name@ && r.state == c.active && match r.warning {
        Some(w) => spec_warning_of(c.issue) == Some(w@),
        None => c.issue is None,
    }
}

/// `s` is a CSA script (`csa`) or a CSI script (`!csa`).
pub open spec fn is_kind(s: Script, csa: bool) -> bool {
    if csa {
        s is Csa
    } else {
        s is Csi
    }
}

/// The number of scripts of the kind (`csa`) among `scripts` that have a
/// problem.
pub open spec fn count_with_issues(scripts: Seq<Script>, csa: bool) -> nat
    decreases scripts.len(),
{
    if scripts.len() == 0 {
        0
    } else {
        count_with_issues(scripts.drop_last(), csa) + if is_kind(scripts.last(), csa)
            && cleo_script_of(scripts.last()).issue is Some {
            1nat
        } else {
            0nat
        }
    }
}

/// The number of scripts of the kind (`csa`) among `scripts`.
pub open spec fn count_kind(scripts: Seq<Script>, csa: bool) -> nat
    decreases scripts.len(),
{
    if scripts.len() == 0 {
        0
    } else {
        count_kind(scripts.drop_last(), csa) + if is_kind(scripts.last(), csa) {
            1nat
        } else {
            0nat
        }
    }
}

/// `src` lists positions of distinct scripts of the kind (`csa`) in
/// `scripts`, as many as there are, ordered by the scripts' names and then
/// by position.
pub open spec fn sorted_sources(scripts: Seq<Script>, csa: bool, src: Seq<int>) -> bool {
    &&& src.len() == count_kind(scripts, csa)
    &&& forall|k: int| 0 <= k < src.len() ==> 0 <= #[trigger] src[k] < scripts.len() && is_kind(scripts[src[k]], csa)
    &&& forall|k: int, l: int|
        #![trigger src[k], src[l]]
        0 <= k < l < src.len() ==> {
            let a = cleo_script_of(scripts[src[k]]).name@;
            let b = cleo_script_of(scripts[src[l]]).name@;
            crate::chars::text_lt(a, b) || (a == b && src[k] < src[l])
        }
}

/// The positions of the scripts of the kind (`csa`), their names, and the
/// number of them with problems.
fn positions_of_kind(scripts: &Vec<Script>, csa: bool) -> (res: (Vec<usize>, Vec<String>, usize))
    ensures
        res.0@.len() == res.1@.len(),
        res.0@.len() == count_kind(scripts@, csa),
        res.2 == count_with_issues(scripts@, csa),
        forall|k: int| 0 <= k < res.0@.len() ==> (#[trigger] res.0@[k]) < scripts@.len() && is_kind(scripts@[res.0@[k] as int], csa)
            && res.1@[k]@ == cleo_script_of(scripts@[res.0@[k] as int]).name@,
        forall|k: int, l: int| 0 <= k < l < res.0@.len() ==> res.0@[k] < res.0@[l],
{
    let mut pos: Vec<usize> = Vec::new();
    let mut names: Vec<String> = Vec::new();
    let mut errs: usize = 0;
    let mut i: usize = 0;
    while i < scripts.len()
        invariant
            0 <= i <= scripts@.len(),
            pos@.len() == names@.len(),
            pos@.len() == count_kind(scripts@.take(i as int), csa),
            errs == count_with_issues(scripts@.take(i as int), csa),
            errs <= i,
            forall|k: int| 0 <= k < pos@.len() ==> (#[trigger] pos@[k]) < i && is_kind(scripts@[pos@[k] as int], csa)
                && names@[k]@ == cleo_script_of(scripts@[pos@[k] as int]).name@,
            forall|k: int, l: int| 0 <= k < l < pos@.len() ==> pos@[k] < pos@[l],
        decreases scripts@.len() - i,
    {
        proof {
            assert(scripts@.take(i + 1).drop_last() =~= scripts@.take(i as int));
            assert(scripts@.take(i + 1).last() == scripts@[i as int]);
        }
        let (kind_matches, c) = match &scripts[i] {
            Script::Csa { script, .. } => (csa, script),
            Script::Csi(script) => (!csa, script),
        };
        if kind_matches {
            pos.push(i);
            names.push(c.name.clone());
            if c.issue.is_some() {
                errs = errs + 1;
            }
        }
        i = i + 1;
    }
    proof {
        assert(scripts@.take(scripts@.len() as int) =~= scripts@);
    }
    (pos, names, errs)
}

/// Returns the contents of the tab of scripts that start by themselves.
pub fn tab_data_csa(scripts: &Vec<Script>) -> (tab: ScriptTab<CsaMenuInfo>)
    ensures
        tab.name@ == "CSA"@,
        match tab.warning {
            Some(w) => spec_warning_string(count_with_issues(scripts@, true)) == Some(w@),
            None => spec_warning_string(count_with_issues(scripts@, true)) is None,
        },
        exists|src: Seq<int>|
            sorted_sources(scripts@, true, src) && src.len() == tab.rows@.len() && forall|k: int|
                0 <= k < src.len() ==> describes_csa(#[trigger] tab.rows@[k], scripts@[src[k]]),
{
    let (pos, names, errs) = positions_of_kind(scripts, true);
    let order = name_order(&names);
    let mut rows: Vec<CsaMenuInfo> = Vec::new();
    let ghost src: Seq<int> = Seq::new(order@.len(), |k: int| pos@[order@[k] as int] as int);
    let mut k: usize = 0;
    while k < order.len()
        invariant
            0 <= k <= order@.len(),
            order@.len() == names@.len(),
            pos@.len() == names@.len(),
            src == Seq::new(order@.len(), |j: int| pos@[order@[j] as int] as int),
            forall|j: int| 0 <= j < order@.len() ==> order@[j] < names@.len(),
            forall|j: int| 0 <= j < pos@.len() ==> (#[trigger] pos@[j]) < scripts@.len() && is_kind(scripts@[pos@[j] as int], true),
            rows@.len() == k,
            forall|j: int| 0 <= j < k ==> describes_csa(#[trigger] rows@[j], scripts@[src[j]]),
        decreases order@.len() - k,
    {
        let p = pos[order[k]];
        let info = CsaMenuInfo::new(&scripts[p]);
        match info {
            Some(r) => rows.push(r),
            None => {},
        }
        k = k + 1;
    }
    proof {
        assert forall|a: int, b: int| #![trigger src[a], src[b]] 0 <= a < b < src.len() implies {
            let x = cleo_script_of(scripts@[src[a]]).name@;
            let y = cleo_script_of(scripts@[src[b]]).name@;
            crate::chars::text_lt(x, y) || (x == y && src[a] < src[b])
        } by {
            assert(row_before(names@, order@[a] as int, order@[b] as int));
            let ia = order@[a] as int;
            let ib = order@[b] as int;
            if ia < ib {
                assert(pos@[ia] < pos@[ib]);
            } else if ib < ia {
                assert(pos@[ib] < pos@[ia]);
            }
        }
        assert(sorted_sources(scripts@, true, src));
    }
    ScriptTab { name: "CSA", warning: gen_warning_string(errs), rows }
}

/// Returns the contents of the tab of scripts that the user starts by hand.
pub fn tab_data_csi(scripts: &Vec<Script>) -> (tab: ScriptTab<CsiMenuInfo>)
    ensures
        tab.name@ == "CSI"@,
        match tab.warning {
            Some(w) => spec_warning_string(count_with_issues(scripts@, false)) == Some(w@),
            None => spec_warning_string(count_with_issues(scripts@, false)) is None,
        },
        exists|src: Seq<int>|
            sorted_sources(scripts@, false, src) && src.len() == tab.rows@.len() && forall|k: int|
                0 <= k < src.len() ==> describes_csi(#[trigger] tab.rows@[k], scripts@[src[k]]),
{
    let (pos, names, errs) = positions_of_kind(scripts, false);
    let order = name_order(&names);
    let mut rows: Vec<CsiMenuInfo> = Vec::new();
    let ghost src: Seq<int> = Seq::new(order@.len(), |k: int| pos@[order@[k] as int] as int);
    let mut k: usize = 0;
    while k < order.len()
        invariant
            0 <= k <= order@.len(),
            order@.len() == names@.len(),
            pos@.len() == names@.len(),
            src == Seq::new(order@.len(), |j: int| pos@[order@[j] as int] as int),
            forall|j: int| 0 <= j < order@.len() ==> order@[j] < names@.len(),
            forall|j: int| 0 <= j < pos@.len() ==> (#[trigger] pos@[j]) < scripts@.len() && is_kind(scripts@[pos@[j] as int], false),
            rows@.len() == k,
            forall|j: int| 0 <= j < k ==> describes_csi(#[trigger] rows@[j], scripts@[src[j]]),
        decreases order@.len() - k,
    {
        let p = pos[order[k]];
        let info = CsiMenuInfo::new(&scripts[p]);
        match info {
            Some(r) => rows.push(r),
            None => {},
        }
        k = k + 1;
    }
    proof {
        assert forall|a: int, b: int| #![trigger src[a], src[b]] 0 <= a < b < src.len() implies {
            let x = cleo_script_of(scripts@[src[a]]).name@;
            let y = cleo_script_of(scripts@[src[b]]).name@;
            crate::chars::text_lt(x, y) || (x == y && src[a] < src[b])
        } by {
            assert(row_before(names@, order@[a] as int, order@[b] as int));
            let ia = order@[a] as int;
            let ib = order@[b] as int;
            if ia < ib {
                assert(pos@[ia] < pos@[ib]);
            } else if ib < ia {
                assert(pos@[ib] < pos@[ia]);
            }
        }
        assert(sorted_sources(scripts@, false, src));
    }
    ScriptTab { name: "CSI", warning: gen_warning_string(errs), rows }
}

} // verus!
