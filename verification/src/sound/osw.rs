//! OSW sound effect packages: reading a package's index of named regions,
//! and the checks made before reading a region's data.

use crate::chars::utf8_text;
use crate::scripts::bytes::{read_u16_le, read_u32_le, spec_u16_le, spec_u32_le};
use crate::streaming::replacements::{case_key, ci_contents, ci_get, ci_insert, ci_new};
use case_insensitive_hashmap::CaseInsensitiveHashMap;
use std::collections::hash_map::RandomState;
use vstd::prelude::*;
use vstd::utf8::{decode_utf8, valid_utf8};

verus! {

/// An area within an OSW file.
#[derive(Clone, Copy, PartialEq, Eq, Structural, Debug)]
pub struct OswRegion {
    /// The offset of this region from the beginning of the file in bytes.
    pub offset: u32,
    /// The size of this region in bytes.
    pub size: u32,
}

/// Refers to an entry in an OSW file.
#[derive(Debug)]
pub struct OswEntry {
    /// The name of this entry.
    pub name: String,
    /// The area of the OSW file that contains this entry's data.
    pub region: OswRegion,
}

/// Why an OSW index could not be read.
#[derive(Clone, Copy, PartialEq, Eq, Structural, Debug)]
pub enum OswError {
    /// The index ends before an entry or the entry count does.
    UnexpectedEof,
    /// An entry's name is not valid UTF-8.
    InvalidName,
}

/// An entry as plain values: its name and region.
pub open spec fn osw_entry_view(e: OswEntry) -> (Seq<char>, OswRegion) {
    (e.name@, e.region)
}

/// The entry at `pos` in `b` and the position after it: offset and size (32
/// bits each, little-endian), the name's length (16 bits) and the name
/// (UTF-8).
pub open spec fn spec_osw_entry(b: Seq<u8>, pos: int) -> Result<((Seq<char>, OswRegion), int), OswError> {
    if pos < 0 || pos + 10 > b.len() {
        Err(OswError::UnexpectedEof)
    } else {
        let len = spec_u16_le(b, pos + 8);
        if pos + 10 + len > b.len() {
            Err(OswError::UnexpectedEof)
        } else {
            let name = b.subrange(pos + 10, pos + 10 + len);
            if valid_utf8(name) {
                Ok(
                    (
                        (
                            decode_utf8(name),
                            OswRegion {
                                offset: spec_u32_le(b, pos) as u32,
                                size: spec_u32_le(b, pos + 4) as u32,
                            },
                        ),
                        pos + 10 + len,
                    ),
                )
            } else {
                Err(OswError::InvalidName)
            }
        }
    }
}

/// The `n` entries laid out from `pos` in `b`, and the position after them;
/// the first entry that cannot be read makes the whole read fail.
pub open spec fn spec_osw_entries(b: Seq<u8>, pos: int, n: nat) -> Result<
    (Seq<(Seq<char>, OswRegion)>, int),
    OswError,
>
    decreases n,
{
    if n == 0 {
        Ok((Seq::empty(), pos))
    } else {
        match spec_osw_entry(b, pos) {
            Err(e) => Err(e),
            Ok((e, next)) => match spec_osw_entries(b, next, (n - 1) as nat) {
                Err(err) => Err(err),
                Ok((es, end)) => Ok((seq![e] + es, end)),
            },
        }
    }
}

/// The entries of the OSW index `b`: a 32-bit little-endian entry count and
/// that many entries.
pub open spec fn spec_osw_index(b: Seq<u8>) -> Result<Seq<(Seq<char>, OswRegion)>, OswError> {
    if b.len() < 4 {
        Err(OswError::UnexpectedEof)
    } else {
        match spec_osw_entries(b, 4, spec_u32_le(b, 0) as nat) {
            Ok((es, _)) => Ok(es),
            Err(e) => Err(e),
        }
    }
}

/// `acc` in front of what reading the rest gives.
pub open spec fn prepend_entries(
    acc: Seq<(Seq<char>, OswRegion)>,
    rest: Result<(Seq<(Seq<char>, OswRegion)>, int), OswError>,
) -> Result<(Seq<(Seq<char>, OswRegion)>, int), OswError> {
    match rest {
        Ok((es, end)) => Ok((acc + es, end)),
        Err(e) => Err(e),
    }
}

impl OswEntry {
    /// Reads the entry at `pos` in `bytes`, with the position after it.
    pub fn read(bytes: &[u8], pos: usize) -> (res: Result<(OswEntry, usize), OswError>)
        ensures
            match res {
                Ok((e, next)) => spec_osw_entry(bytes@, pos as int) == Ok::<
                    ((Seq<char>, OswRegion), int),
                    OswError,
                >((osw_entry_view(e), next as int)),
                Err(err) => spec_osw_entry(bytes@, pos as int) == Err::<
                    ((Seq<char>, OswRegion), int),
                    OswError,
                >(err),
            },
    {
        if bytes.len() < 10 || pos > bytes.len() - 10 {
            return Err(OswError::UnexpectedEof);
        }
        let offset = read_u32_le(&bytes[pos..pos + 4]);
        let size = read_u32_le(&bytes[pos + 4..pos + 8]);
        let len = read_u16_le(&bytes[pos + 8..pos + 10]) as usize;
        proof {
            assert(spec_u32_le(bytes@.subrange(pos as int, pos + 4), 0) == spec_u32_le(
                bytes@,
                pos as int,
            ));
            assert(spec_u32_le(bytes@.subrange(pos + 4, pos + 8), 0) == spec_u32_le(
                bytes@,
                pos + 4,
            ));
            assert(spec_u16_le(bytes@.subrange(pos + 8, pos + 10), 0) == spec_u16_le(
                bytes@,
                pos + 8,
            ));
        }
        if len > bytes.len() - (pos + 10) {
            return Err(OswError::UnexpectedEof);
        }
        let name = match utf8_text(&bytes[pos + 10..pos + 10 + len]) {
            Some(n) => n,
            None => return Err(OswError::InvalidName),
        };
        Ok((OswEntry { name, region: OswRegion { offset, size } }, pos + 10 + len))
    }

    /// Destructures the entry into its name and data region.
    pub fn into_pair(self) -> (pair: (String, OswRegion))
        ensures
            pair.0 == self.name,
            pair.1 == self.region,
    {
        (self.name, self.region)
    }
}

/// Reads the entries of an OSW index file (`.osw.idx`) from its bytes.
pub fn read_osw_index(bytes: &[u8]) -> (res: Result<Vec<OswEntry>, OswError>)
    ensures
        match res {
            Ok(es) => spec_osw_index(bytes@) == Ok::<Seq<(Seq<char>, OswRegion)>, OswError>(
                es@.map_values(|e: OswEntry| osw_entry_view(e)),
            ),
            Err(e) => spec_osw_index(bytes@) == Err::<Seq<(Seq<char>, OswRegion)>, OswError>(e),
        },
{
    if bytes.len() < 4 {
        return Err(OswError::UnexpectedEof);
    }
    let count = read_u32_le(&bytes[0..4]);
    proof {
        assert(spec_u32_le(bytes@.subrange(0, 4), 0) == spec_u32_le(bytes@, 0));
    }
    let mut entries: Vec<OswEntry> = Vec::new();
    let mut pos: usize = 4;
    let mut i: u32 = 0;
    while i < count
        invariant
            0 <= i <= count,
            count == spec_u32_le(bytes@, 0),
            bytes@.len() >= 4,
            spec_osw_entries(bytes@, 4, count as nat) == prepend_entries(
                entries@.map_values(|e: OswEntry| osw_entry_view(e)),
                spec_osw_entries(bytes@, pos as int, (count - i) as nat),
            ),
        decreases count - i,
    {
        let ghost acc = entries@.map_values(|e: OswEntry| osw_entry_view(e));
        match OswEntry::read(bytes, pos) {
            Ok((e, next)) => {
                let ghost ev = osw_entry_view(e);
                entries.push(e);
                proof {
                    assert(entries@.map_values(|e: OswEntry| osw_entry_view(e)) =~= acc.push(ev));
                    let rest = spec_osw_entries(bytes@, next as int, (count - i - 1) as nat);
                    match rest {
                        Ok((es, end)) => {
                            assert(acc + (seq![ev] + es) =~= acc.push(ev) + es);
                        },
                        Err(_) => {},
                    }
                }
                pos = next;
            },
            Err(err) => {
                return Err(err);
            },
        }
        i = i + 1;
    }
    proof {
        assert(entries@.map_values(|e: OswEntry| osw_entry_view(e)) + Seq::empty() =~= entries@.map_values(
            |e: OswEntry| osw_entry_view(e),
        ));
    }
    Ok(entries)
}

/// Returns `true` if a buffer of `buf_len` bytes can take the data of
/// `region`.
pub fn region_fits(buf_len: usize, region: OswRegion) -> (fits: bool)
    ensures
        fits == (region.size <= buf_len),
{
    (region.size as usize) <= buf_len
}

/// Returns the size of the largest of `regions`, or `None` if there are
/// none.
pub fn max_region_size(regions: &Vec<OswRegion>) -> (max: Option<u32>)
    ensures
        match max {
            Some(m) => regions@.len() > 0 && (forall|i: int|
                0 <= i < regions@.len() ==> regions@[i].size <= m) && (exists|i: int|
                0 <= i < regions@.len() && regions@[i].size == m),
            None => regions@.len() == 0,
        },
{
    if regions.len() == 0 {
        return None;
    }
    let mut m = regions[0].size;
    let mut i: usize = 1;
    while i < regions.len()
        invariant
            1 <= i <= regions@.len(),
            forall|k: int| 0 <= k < i ==> regions@[k].size <= m,
            exists|k: int| 0 <= k < i && regions@[k].size == m,
        decreases regions@.len() - i,
    {
        if regions[i].size > m {
            m = regions[i].size;
        }
        i = i + 1;
    }
    Some(m)
}

/// The region of the last of the entries `es` whose name has the case key
/// `k`: later entries replace earlier ones of the same name, whatever its
/// case.
pub open spec fn spec_osw_last(es: Seq<(Seq<char>, OswRegion)>, k: Seq<char>) -> Option<OswRegion>
    decreases es.len(),
{
    if es.len() == 0 {
        None
    } else if case_key(es.last().0) == k {
        Some(es.last().1)
    } else {
        spec_osw_last(es.drop_last(), k)
    }
}

/// The entries of an OSW file, found by name whatever its case.
pub struct OswIndex {
    /// The position of each name's entry, by case key.
    pub positions: CaseInsensitiveHashMap<usize, RandomState>,
    /// The name under which each position was first filed.
    pub names: Vec<String>,
    /// The region of each position.
    pub regions: Vec<OswRegion>,
}

impl OswIndex {
    /// Every filed name has a position, and every position the name it was
    /// filed under.
    pub open spec fn wf(&self) -> bool {
        &&& self.names@.len() == self.regions@.len()
        &&& forall|k: Seq<char>| #[trigger]
            ci_contents(self.positions).contains_key(k) ==> ci_contents(self.positions)[k]
                < self.names@.len() && case_key(self.names@[ci_contents(self.positions)[k] as int]@)
                == k
        &&& forall|i: int|
            0 <= i < self.names@.len() ==> ci_contents(self.positions).contains_key(
                case_key(#[trigger] self.names@[i]@),
            ) && ci_contents(self.positions)[case_key(self.names@[i]@)] == i
    }

    /// The region filed under the case key `k`, if any.
    pub open spec fn lookup(&self, k: Seq<char>) -> Option<OswRegion> {
        if ci_contents(self.positions).contains_key(k) {
            Some(self.regions@[ci_contents(self.positions)[k] as int])
        } else {
            None
        }
    }

    /// Files the entries `entries`, in order: an entry whose name (whatever
    /// its case) was filed before replaces that entry's region.
    pub fn from_entries(entries: Vec<OswEntry>) -> (index: OswIndex)
        ensures
            index.wf(),
            forall|k: Seq<char>|
                #[trigger] index.lookup(k) == spec_osw_last(
                    entries@.map_values(|e: OswEntry| osw_entry_view(e)),
                    k,
                ),
    {
        let ghost all = entries@.map_values(|e: OswEntry| osw_entry_view(e));
        let mut index = OswIndex { positions: ci_new(), names: Vec::new(), regions: Vec::new() };
        let mut i: usize = 0;
        while i < entries.len()
            invariant
                0 <= i <= entries@.len(),
                all == entries@.map_values(|e: OswEntry| osw_entry_view(e)),
                index.wf(),
                forall|k: Seq<char>| #[trigger] index.lookup(k) == spec_osw_last(all.take(i as int), k),
            decreases entries@.len() - i,
        {
            proof {
                assert(all.take(i + 1).drop_last() =~= all.take(i as int));
                assert(all.take(i + 1).last() == (entries@[i as int].name@, entries@[i as int].region));
            }
            let ghost before = index;
            let name = &entries[i].name;
            let region = entries[i].region;
            let ghost key = case_key(name@);
            match ci_get(&index.positions, name.as_str()) {
                Some(j) => {
                    index.regions.set(j, region);
                    proof {
                        assert forall|k: Seq<char>| #[trigger]
                            index.lookup(k) == spec_osw_last(all.take(i + 1), k) by {
                            if ci_contents(index.positions).contains_key(k) && k != key {
                                assert(ci_contents(index.positions)[k] != j);
                            }
                            assert(before.lookup(k) == spec_osw_last(all.take(i as int), k));
                        }
                    }
                },
                None => {
                    let j = index.names.len();
                    index.names.push(name.clone());
                    index.regions.push(region);
                    ci_insert(&mut index.positions, name.clone(), j);
                    proof {
                        assert forall|m: int| 0 <= m < index.names@.len() implies ci_contents(
                            index.positions,
                        ).contains_key(case_key(#[trigger] index.names@[m]@)) && ci_contents(
                            index.positions,
                        )[case_key(index.names@[m]@)] == m by {
                            if m < j {
                                assert(before.names@[m] == index.names@[m]);
                                assert(case_key(index.names@[m]@) != key);
                            }
                        }
                        assert forall|k: Seq<char>| #[trigger]
                            index.lookup(k) == spec_osw_last(all.take(i + 1), k) by {
                            assert(before.lookup(k) == spec_osw_last(all.take(i as int), k));
                            if k != key && ci_contents(before.positions).contains_key(k) {
                                assert(index.regions@[ci_contents(before.positions)[k] as int]
                                    == before.regions@[ci_contents(before.positions)[k] as int]);
                            }
                        }
                    }
                },
            }
            i = i + 1;
        }
        proof {
            assert(all.take(entries@.len() as int) =~= all);
        }
        index
    }

    /// Returns the region of the entry named `name`, whatever its case.
    pub fn region(&self, name: &str) -> (r: Option<OswRegion>)
        requires
            self.wf(),
        ensures
            r == self.lookup(case_key(name@)),
    {
        match ci_get(&self.positions, name) {
            Some(j) => Some(self.regions[j]),
            None => None,
        }
    }
}

} // verus!
