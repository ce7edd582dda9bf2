//! CLEO's own game texts: the strings that replace the game's text entries,
//! loaded from FXT files, and the custom number plates.

use crate::chars::same_text;
use vstd::prelude::*;

pub mod fxt;

verus! {

/// The UTF-16 code units of the character `c`.
pub open spec fn spec_char_utf16(c: char) -> Seq<u16> {
    let cp = c as int;
    if cp < 0x10000 {
        seq![cp as u16]
    } else {
        let v = cp - 0x10000;
        seq![(0xD800 + v / 0x400) as u16, (0xDC00 + v % 0x400) as u16]
    }
}

/// The UTF-16 encoding of `s`.
pub open spec fn spec_utf16(s: Seq<char>) -> Seq<u16>
    decreases s.len(),
{
    if s.len() == 0 {
        Seq::empty()
    } else {
        spec_utf16(s.drop_last()) + spec_char_utf16(s.last())
    }
}

/// Returns the UTF-16 encoding of `s` followed by a zero unit, as the game
/// expects its strings.
pub fn utf16_with_nul(s: &str) -> (units: Vec<u16>)
    ensures
        units@ == spec_utf16(s@).push(0),
{
    let n = s.unicode_len();
    let mut units: Vec<u16> = Vec::new();
    let mut i: usize = 0;
    while i < n
        invariant
            n == s@.len(),
            0 <= i <= n,
            units@ == spec_utf16(s@.take(i as int)),
        decreases n - i,
    {
        let c = s.get_char(i);
        let cp = c as u32;
        proof {
            assert(s@.take(i + 1).drop_last() =~= s@.take(i as int));
            assert(s@.take(i + 1).last() == c);
        }
        let ghost before = units@;
        if cp < 0x10000 {
            units.push(cp as u16);
            proof {
                assert(units@ =~= before + spec_char_utf16(c));
            }
        } else {
            let v = cp - 0x10000;
            units.push((0xD800 + v / 0x400) as u16);
            units.push((0xDC00 + v % 0x400) as u16);
            proof {
                assert(units@ =~= before + spec_char_utf16(c));
            }
        }
        i = i + 1;
    }
    proof {
        assert(s@.take(n as int) =~= s@);
    }
    units.push(0);
    units
}

/// The custom strings that replace game text entries, by key; no key occurs
/// twice.
#[derive(Debug)]
pub struct CustomStrings {
    pub entries: Vec<(String, Vec<u16>)>,
}

/// The string stored under `key` in `entries`, if any.
pub open spec fn spec_text_lookup(entries: Seq<(String, Vec<u16>)>, key: Seq<char>) -> Option<
    Seq<u16>,
>
    decreases entries.len(),
{
    if entries.len() == 0 {
        None
    } else if entries.last().0@ == key {
        Some(entries.last().1@)
    } else {
        spec_text_lookup(entries.drop_last(), key)
    }
}

impl CustomStrings {
    /// No strings.
    pub fn new() -> (c: CustomStrings)
        ensures
            c.entries@.len() == 0,
    {
        CustomStrings { entries: Vec::new() }
    }

    /// No key occurs twice.
    pub open spec fn wf(&self) -> bool {
        forall|i: int, j: int|
            0 <= i < j < self.entries@.len() ==> self.entries@[i].0@ != self.entries@[j].0@
    }

    /// The strings as a map from keys to their code units.
    pub open spec fn view_map(&self) -> Map<Seq<char>, Seq<u16>> {
        Map::new(
            |k: Seq<char>| spec_text_lookup(self.entries@, k) is Some,
            |k: Seq<char>| spec_text_lookup(self.entries@, k).unwrap(),
        )
    }

    /// Returns the position of `key`, if it has a string.
    pub fn find(&self, key: &str) -> (found: Option<usize>)
        ensures
            match found {
                Some(i) => i < self.entries@.len() && self.entries@[i as int].0@ == key@,
                None => forall|i: int| 0 <= i < self.entries@.len() ==> self.entries@[i].0@ != key@,
            },
    {
        let mut i: usize = 0;
        while i < self.entries.len()
            invariant
                0 <= i <= self.entries@.len(),
                forall|j: int| 0 <= j < i ==> self.entries@[j].0@ != key@,
            decreases self.entries@.len() - i,
        {
            if same_text(self.entries[i].0.as_str(), key) {
                return Some(i);
            }
            i = i + 1;
        }
        None
    }

    /// Returns the string stored under `key`, if any.
    pub fn get(&self, key: &str) -> (value: Option<&Vec<u16>>)
        requires
            self.wf(),
        ensures
            match value {
                Some(v) => self.view_map().contains_key(key@) && v@ == self.view_map()[key@],
                None => !self.view_map().contains_key(key@),
            },
    {
        match self.find(key) {
            Some(i) => {
                proof {
                    lemma_text_lookup_unique(self.entries@, i as int);
                }
                Some(&self.entries[i].1)
            },
            None => {
                proof {
                    lemma_text_lookup_absent(self.entries@, key@);
                }
                None
            },
        }
    }
}

/// Stores `value` (as zero-terminated UTF-16) under `key`, replacing
/// any string the key had. Returns `true` if the key already had one.
pub fn set_kv(strings: &mut CustomStrings, key: &str, value: &str) -> (replaced: bool)
    requires
        old(strings).wf(),
    ensures
        final(strings).wf(),
        replaced == old(strings).view_map().contains_key(key@),
        final(strings).view_map() == old(strings).view_map().insert(
            key@,
            spec_utf16(value@).push(0),
        ),
{
    let units = utf16_with_nul(value);
    let ghost old_entries = strings.entries@;
    match strings.find(key) {
        Some(i) => {
            proof {
                lemma_text_lookup_unique(old_entries, i as int);
            }
            let k = strings.entries[i].0.clone();
            strings.entries.set(i, (k, units));
            proof {
                let new_entries = strings.entries@;
                assert forall|a: int, b: int| 0 <= a < b < new_entries.len() implies new_entries[a].0@
                    != new_entries[b].0@ by {
                    assert(new_entries[a].0@ == old_entries[a].0@);
                    assert(new_entries[b].0@ == old_entries[b].0@);
                }
                assert forall|q: Seq<char>| #![auto] spec_text_lookup(new_entries, q) == if q == key@ {
                    Some(units@)
                } else {
                    spec_text_lookup(old_entries, q)
                } by {
                    lemma_text_lookup_set(old_entries, i as int, units, q);
                }
                assert(strings.view_map() =~= old(strings).view_map().insert(key@, units@));
            }
            true
        },
        None => {
            proof {
                lemma_text_lookup_absent(old_entries, key@);
            }
            strings.entries.push((key.to_owned(), units));
            proof {
                let new_entries = strings.entries@;
                assert(new_entries.drop_last() =~= old_entries);
                assert(strings.view_map() =~= old(strings).view_map().insert(key@, units@));
            }
            false
        },
    }
}

/// With no key twice, the string found for a key is the one stored under it.
proof fn lemma_text_lookup_unique(entries: Seq<(String, Vec<u16>)>, i: int)
    requires
        0 <= i < entries.len(),
        forall|a: int, b: int| 0 <= a < b < entries.len() ==> entries[a].0@ != entries[b].0@,
    ensures
        spec_text_lookup(entries, entries[i].0@) == Some(entries[i].1@),
    decreases entries.len(),
{
    if i < entries.len() - 1 {
        assert(entries.drop_last()[i] == entries[i]);
        lemma_text_lookup_unique(entries.drop_last(), i);
    }
}

/// A key that no entry has is found nowhere.
proof fn lemma_text_lookup_absent(entries: Seq<(String, Vec<u16>)>, key: Seq<char>)
    requires
        forall|i: int| 0 <= i < entries.len() ==> entries[i].0@ != key,
    ensures
        spec_text_lookup(entries, key) is None,
    decreases entries.len(),
{
    if entries.len() > 0 {
        lemma_text_lookup_absent(entries.drop_last(), key);
    }
}

/// Replacing the string of entry `i` changes what its key finds and nothing
/// else.
proof fn lemma_text_lookup_set(
    entries: Seq<(String, Vec<u16>)>,
    i: int,
    units: Vec<u16>,
    q: Seq<char>,
)
    requires
        0 <= i < entries.len(),
        forall|a: int, b: int| 0 <= a < b < entries.len() ==> entries[a].0@ != entries[b].0@,
    ensures
        spec_text_lookup(entries.update(i, (entries[i].0, units)), q) == if q == entries[i].0@ {
            Some(units@)
        } else {
            spec_text_lookup(entries, q)
        },
    decreases entries.len(),
{
    let e2 = entries.update(i, (entries[i].0, units));
    if i < entries.len() - 1 {
        assert(e2.drop_last() =~= entries.drop_last().update(i, (entries[i].0, units)));
        assert(entries.drop_last()[i] == entries[i]);
        lemma_text_lookup_set(entries.drop_last(), i, units, q);
    } else {
        assert(e2.drop_last() =~= entries.drop_last());
        if q == entries[i].0@ {
        } else {
        }
    }
}

/// Counts the number plates the game makes, to give some of them custom
/// texts.
#[derive(Clone, Copy, PartialEq, Eq, Structural, Debug)]
pub struct PlateTick {
    pub tick: u8,
}

/// The tick after `t`: it counts up to five and starts again at zero.
pub open spec fn spec_next_tick(t: u8) -> u8 {
    if t + 1 > 5 {
        0
    } else {
        (t + 1) as u8
    }
}

impl PlateTick {
    /// Moves on to the next number plate. Returns the custom text for it (at
    /// the third and fifth plate of every six, for plates of eight
    /// characters), or `None` if the game should make it as usual.
    pub fn generate_numberplate(&mut self, length: i32) -> (custom: Option<&'static str>)
        requires
            old(self).tick < 255,
        ensures
            final(self).tick == spec_next_tick(old(self).tick),
            custom is Some <==> ((final(self).tick == 3 || final(self).tick == 5) && length == 8),
            custom matches Some(c) ==> c@ == if final(self).tick == 3 {
                "CLEO IOS"@
            } else {
                "SQUI DDY"@
            },
    {
        self.tick = self.tick + 1;
        if self.tick > 5 {
            self.tick = 0;
        }
        if (self.tick == 3 || self.tick == 5) && length == 8 {
            if self.tick == 3 {
                Some("CLEO IOS")
            } else {
                Some("SQUI DDY")
            }
        } else {
            None
        }
    }
}

/// The tick reached from `t` after `n` plates.
pub open spec fn tick_after(t: u8, n: nat) -> u8
    decreases n,
{
    if n == 0 {
        t
    } else {
        spec_next_tick(tick_after(t, (n - 1) as nat))
    }
}

/// The tick repeats every six plates, so two of every six plates of eight
/// characters get a custom text.
pub proof fn lemma_plate_cycle(t: u8)
    requires
        t <= 5,
    ensures
        tick_after(t, 6) == t,
{
    assert(tick_after(t, 0) == t);
    assert(tick_after(t, 1) == spec_next_tick(t));
    assert(tick_after(t, 2) == spec_next_tick(tick_after(t, 1)));
    assert(tick_after(t, 3) == spec_next_tick(tick_after(t, 2)));
    assert(tick_after(t, 4) == spec_next_tick(tick_after(t, 3)));
    assert(tick_after(t, 5) == spec_next_tick(tick_after(t, 4)));
    assert(tick_after(t, 6) == spec_next_tick(tick_after(t, 5)));
}

} // verus!
