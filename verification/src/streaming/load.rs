//! Resource replacement for the game's CD images: reading an image's
//! directory, matching replacement files to the resources they replace, and
//! the resource sizes the game must then expect.

use crate::chars::{same_text, str_lowercase, to_lowercase, utf8_text};
use crate::scripts::bytes::{lemma_until_nul_prefix, read_u32_le, spec_u32_le, spec_until_nul};
use crate::streaming::game::{ImageRegion, SECTOR_SIZE};
use std::collections::HashMap;
use vstd::prelude::*;
use vstd::utf8::{decode_utf8, valid_utf8};

verus! {

broadcast use vstd::std_specs::hash::group_hash_axioms;

/// The size in bytes of one directory entry in an image.
pub const ENTRY_SIZE: usize = 32;

/// The size in bytes of the name field of a directory entry.
pub const NAME_SIZE: usize = 24;

/// Describes an individual file within an archive.
#[derive(Debug)]
pub struct DirectoryEntry {
    /// The name of the file, in lowercase.
    pub name: String,
    /// The region of the parent image containing the file's data.
    pub region: ImageRegion,
}

/// Why a directory entry could not be read.
#[derive(Clone, Copy, PartialEq, Eq, Structural, Debug)]
pub enum EntryError {
    /// The directory ends before the entry does.
    UnexpectedEof,
    /// The entry's name is not valid UTF-8.
    InvalidName,
}

/// Why an image's directory could not be read.
#[derive(Clone, Copy, PartialEq, Eq, Structural, Debug)]
pub enum ArchiveError {
    /// The image ends before its header does.
    UnexpectedEof,
    /// The image does not start with "VER2".
    BadIdentifier,
}

/// A directory entry as plain values: name, offset and size in sectors.
pub struct SpecEntry {
    pub name: Seq<char>,
    pub offset: int,
    pub size: int,
}

/// The directory entry at `pos` in `b`: two little-endian 32-bit numbers
/// (offset and size, in sectors) and a 24-byte name that ends at its first
/// zero byte (or fills the field), which must be UTF-8 and is lowercased.
pub open spec fn spec_read_entry(b: Seq<u8>, pos: int) -> Result<SpecEntry, EntryError> {
    if pos < 0 || pos + 32 > b.len() {
        Err(EntryError::UnexpectedEof)
    } else {
        let name_bytes = spec_until_nul(b.subrange(pos + 8, pos + 32));
        if valid_utf8(name_bytes) {
            Ok(
                SpecEntry {
                    name: str_lowercase(decode_utf8(name_bytes)),
                    offset: spec_u32_le(b, pos),
                    size: spec_u32_le(b, pos + 4),
                },
            )
        } else {
            Err(EntryError::InvalidName)
        }
    }
}

/// The entries that can be read among the first `n` of those laid out from
/// `pos` in `b`, in order (unreadable entries are skipped).
pub open spec fn spec_read_entries(b: Seq<u8>, pos: int, n: nat) -> Seq<SpecEntry>
    decreases n,
{
    if n == 0 {
        Seq::empty()
    } else {
        let rest = spec_read_entries(b, pos, (n - 1) as nat);
        match spec_read_entry(b, pos + 32 * (n - 1)) {
            Ok(e) => rest.push(e),
            Err(_) => rest,
        }
    }
}

/// The plain values of a directory entry.
pub open spec fn entry_view(e: DirectoryEntry) -> SpecEntry {
    SpecEntry {
        name: e.name@,
        offset: e.region.offset_sectors as int,
        size: e.region.size_sectors as int,
    }
}

/// The plain values of directory entries.
pub open spec fn entries_view(es: Seq<DirectoryEntry>) -> Seq<SpecEntry> {
    es.map_values(|e: DirectoryEntry| entry_view(e))
}

/// Returns the end of `bytes[start..end]` up to its first zero byte.
pub(crate) fn until_nul_end(bytes: &[u8], start: usize, end: usize) -> (stop: usize)
    requires
        start <= end <= bytes@.len(),
    ensures
        start <= stop <= end,
        bytes@.subrange(start as int, stop as int) == spec_until_nul(
            bytes@.subrange(start as int, end as int),
        ),
{
    let mut i = start;
    while i < end && bytes[i] != 0
        invariant
            start <= i <= end <= bytes@.len(),
            forall|j: int| start <= j < i ==> bytes@[j] != 0,
        decreases end - i,
    {
        i = i + 1;
    }
    proof {
        let p = bytes@.subrange(start as int, i as int);
        let q = bytes@.subrange(i as int, end as int);
        assert(bytes@.subrange(start as int, end as int) =~= p + q);
        lemma_until_nul_prefix(p, q);
        assert(spec_until_nul(q) =~= Seq::<u8>::empty());
        assert(p + Seq::<u8>::empty() =~= p);
    }
    i
}

impl DirectoryEntry {
    /// Reads the directory entry at `pos` in `bytes`.
    pub fn read(bytes: &[u8], pos: usize) -> (entry: Result<DirectoryEntry, EntryError>)
        ensures
            match entry {
                Ok(e) => spec_read_entry(bytes@, pos as int) matches Ok(s) && entry_view(e) == s,
                Err(err) => spec_read_entry(bytes@, pos as int) == Err::<SpecEntry, EntryError>(
                    err,
                ),
            },
    {
        if bytes.len() < ENTRY_SIZE || pos > bytes.len() - ENTRY_SIZE {
            return Err(EntryError::UnexpectedEof);
        }
        let offset = read_u32_le(&bytes[pos..pos + 4]);
        let size = read_u32_le(&bytes[pos + 4..pos + 8]);
        proof {
            assert(bytes@.subrange(pos as int, pos + 4) =~= bytes@.subrange(pos as int, pos + 4));
        }
        let stop = until_nul_end(bytes, pos + 8, pos + 32);
        let name = match utf8_text(&bytes[pos + 8..stop]) {
            Some(text) => to_lowercase(text.as_str()),
            None => return Err(EntryError::InvalidName),
        };
        proof {
            assert(spec_u32_le(bytes@.subrange(pos as int, pos + 4), 0) == spec_u32_le(
                bytes@,
                pos as int,
            ));
            assert(spec_u32_le(bytes@.subrange(pos + 4, pos + 8), 0) == spec_u32_le(
                bytes@,
                pos + 4,
            ));
        }
        Ok(
            DirectoryEntry {
                name,
                region: ImageRegion { offset_sectors: offset as usize, size_sectors: size as usize },
            },
        )
    }
}

/// Entries that start past the end of the directory cannot be read, so
/// asking for more of them finds no more entries.
proof fn lemma_entries_past_end(b: Seq<u8>, pos: int, i: nat, n: nat)
    requires
        0 <= pos,
        i <= n,
        pos + 32 * i + 32 > b.len(),
    ensures
        spec_read_entries(b, pos, n) == spec_read_entries(b, pos, i),
    decreases n - i,
{
    if n > i {
        lemma_entries_past_end(b, pos, i, (n - 1) as nat);
        assert(pos + 32 * (n - 1) + 32 > b.len());
    }
}

/// Reads `count` directory entries laid out from `pos` in `bytes`. Returns
/// those that could be read, in order, and the number that could not.
pub fn read_entries(count: usize, bytes: &[u8], pos: usize) -> (res: (Vec<DirectoryEntry>, usize))
    ensures
        entries_view(res.0@) == spec_read_entries(bytes@, pos as int, count as nat),
        res.1 == count - res.0@.len(),
{
    let mut entries: Vec<DirectoryEntry> = Vec::new();
    let mut i: usize = 0;
    let mut q: usize = pos;
    while i < count
        invariant
            0 <= i <= count,
            q == pos + 32 * i,
            entries_view(entries@) == spec_read_entries(bytes@, pos as int, i as nat),
            entries@.len() <= i,
        decreases count - i,
    {
        if bytes.len() < ENTRY_SIZE || q > bytes.len() - ENTRY_SIZE {
            proof {
                lemma_entries_past_end(bytes@, pos as int, i as nat, count as nat);
            }
            let failed = count - entries.len();
            return (entries, failed);
        }
        let ghost before = entries@;
        match DirectoryEntry::read(bytes, q) {
            Ok(e) => {
                entries.push(e);
                proof {
                    assert(entries_view(entries@) =~= entries_view(before).push(entry_view(e)));
                }
            },
            Err(_) => {},
        }
        i = i + 1;
        q = q + ENTRY_SIZE;
    }
    let failed = count - entries.len();
    (entries, failed)
}

/// The identifier that starts every image file.
pub open spec fn ver2() -> Seq<u8> {
    seq![0x56u8, 0x45u8, 0x52u8, 0x32u8]
}

/// The directory of the image `b`: "VER2", a little-endian 32-bit entry
/// count, and that many entries (those that can be read, with the number
/// that cannot).
pub open spec fn spec_parse_directory(b: Seq<u8>) -> Result<(Seq<SpecEntry>, int), ArchiveError> {
    if b.len() < 4 {
        Err(ArchiveError::UnexpectedEof)
    } else if b.take(4) != ver2() {
        Err(ArchiveError::BadIdentifier)
    } else if b.len() < 8 {
        Err(ArchiveError::UnexpectedEof)
    } else {
        let n = spec_u32_le(b, 4);
        let found = spec_read_entries(b, 8, n as nat);
        Ok((found, n - found.len()))
    }
}

/// Reads the directory of an image from its first bytes: the entries that
/// can be read, and the number that cannot.
pub fn parse_directory(bytes: &[u8]) -> (res: Result<(Vec<DirectoryEntry>, usize), ArchiveError>)
    ensures
        match res {
            Ok((entries, failed)) => spec_parse_directory(bytes@) == Ok::<
                (Seq<SpecEntry>, int),
                ArchiveError,
            >((entries_view(entries@), failed as int)),
            Err(e) => spec_parse_directory(bytes@) == Err::<(Seq<SpecEntry>, int), ArchiveError>(
                e,
            ),
        },
{
    if bytes.len() < 4 {
        return Err(ArchiveError::UnexpectedEof);
    }
    let is_ver2 = bytes[0] == 0x56 && bytes[1] == 0x45 && bytes[2] == 0x52 && bytes[3] == 0x32;
    proof {
        if is_ver2 {
            assert(bytes@.take(4) =~= ver2());
        } else {
            if bytes@.take(4) == ver2() {
                assert(bytes@.take(4)[0] == 0x56u8);
                assert(bytes@.take(4)[1] == 0x45u8);
                assert(bytes@.take(4)[2] == 0x52u8);
                assert(bytes@.take(4)[3] == 0x32u8);
            }
        }
    }
    if !is_ver2 {
        return Err(ArchiveError::BadIdentifier);
    }
    if bytes.len() < 8 {
        return Err(ArchiveError::UnexpectedEof);
    }
    let count = read_u32_le(&bytes[4..8]);
    proof {
        assert(spec_u32_le(bytes@.subrange(4, 8), 0) == spec_u32_le(bytes@, 4));
    }
    let (entries, failed) = read_entries(count as usize, bytes, 8);
    Ok((entries, failed))
}

/// A problem with one of the files offered as replacements.
#[derive(Clone, Debug)]
pub enum MapError {
    /// The path has no file name that is valid UTF-8.
    NoFileName(String),
    /// A replacement for the resource with this name was already registered.
    Duplicate(String),
}

/// A `MapError` as plain values: `true` for a path without a file name,
/// `false` for a duplicate, with the path or name.
pub open spec fn map_error_view(e: MapError) -> (bool, Seq<char>) {
    match e {
        MapError::NoFileName(p) => (true, p@),
        MapError::Duplicate(n) => (false, n@),
    }
}

/// Stores information about the resource replacements for an individual
/// image.
#[derive(Debug)]
pub struct ImageMapper {
    /// The replacement file path for each resource name (in lowercase); no
    /// name occurs twice.
    pub replacements_by_name: Vec<(String, String)>,
    /// The replacement file path for each region of the image, by its offset
    /// in sectors.
    pub replacements_by_region: HashMap<usize, String>,
}

/// No resource name occurs twice in `names`.
pub open spec fn names_unique(names: Seq<(String, String)>) -> bool {
    forall|i: int, j: int| 0 <= i < j < names.len() ==> names[i].0@ != names[j].0@
}

/// `names` has a replacement for the resource `key`.
pub open spec fn has_name(names: Seq<(String, String)>, key: Seq<char>) -> bool {
    exists|i: int| 0 <= i < names.len() && names[i].0@ == key
}

/// The replacement path that `names` gives the resource `key`, if any.
pub open spec fn spec_lookup(names: Seq<(String, String)>, key: Seq<char>) -> Option<String>
    decreases names.len(),
{
    if names.len() == 0 {
        None
    } else if names.last().0@ == key {
        Some(names.last().1)
    } else {
        spec_lookup(names.drop_last(), key)
    }
}

/// The names and replacement paths as plain values.
pub open spec fn names_view(names: Seq<(String, String)>) -> Seq<(Seq<char>, Seq<char>)> {
    names.map_values(|p: (String, String)| (p.0@, p.1@))
}

/// Paths with their file names (where they have one), as plain values.
pub open spec fn paths_view(paths: Seq<(String, Option<String>)>) -> Seq<
    (Seq<char>, Option<Seq<char>>),
> {
    paths.map_values(
        |p: (String, Option<String>)|
            (
                p.0@,
                match p.1 {
                    Some(n) => Some(n@),
                    None => None,
                },
            ),
    )
}

/// The effect of registering `paths` (each a path with its file name, if it
/// has one) on the replacements `names`: each named path is added under the
/// lowercase form of its name, unless that name already has a replacement,
/// which makes it a duplicate. Returns the new replacements and the names of
/// the duplicates, in order.
pub open spec fn spec_register(
    names: Seq<(Seq<char>, Seq<char>)>,
    paths: Seq<(Seq<char>, Option<Seq<char>>)>,
) -> (Seq<(Seq<char>, Seq<char>)>, Seq<Seq<char>>)
    decreases paths.len(),
{
    if paths.len() == 0 {
        (names, Seq::empty())
    } else {
        let (ns, dups) = spec_register(names, paths.drop_last());
        match paths.last().1 {
            None => (ns, dups),
            Some(n) => {
                let key = str_lowercase(n);
                if exists|i: int| 0 <= i < ns.len() && ns[i].0 == key {
                    (ns, dups.push(key))
                } else {
                    (ns.push((key, paths.last().0)), dups)
                }
            },
        }
    }
}

/// The paths among `paths` that have no file name, in order.
pub open spec fn spec_nameless(paths: Seq<(Seq<char>, Option<Seq<char>>)>) -> Seq<Seq<char>>
    decreases paths.len(),
{
    if paths.len() == 0 {
        Seq::empty()
    } else {
        let rest = spec_nameless(paths.drop_last());
        if paths.last().1 is None {
            rest.push(paths.last().0)
        } else {
            rest
        }
    }
}

/// The errors of registering `paths` on `names`: a path without a file name
/// for each such path, then a duplicate for each name already taken.
pub open spec fn spec_register_errors(
    names: Seq<(Seq<char>, Seq<char>)>,
    paths: Seq<(Seq<char>, Option<Seq<char>>)>,
) -> Seq<(bool, Seq<char>)> {
    spec_nameless(paths).map_values(|p: Seq<char>| (true, p)) + spec_register(
        names,
        paths,
    ).1.map_values(|n: Seq<char>| (false, n))
}

/// The replacement paths after mapping the entries `es` onto `m`: each entry
/// whose name has a replacement in `names` maps its region's offset to that
/// replacement.
pub open spec fn spec_map_entries(
    m: Map<usize, String>,
    names: Seq<(String, String)>,
    es: Seq<DirectoryEntry>,
) -> Map<usize, String>
    decreases es.len(),
{
    if es.len() == 0 {
        m
    } else {
        let m2 = spec_map_entries(m, names, es.drop_last());
        match spec_lookup(names, es.last().name@) {
            Some(p) => m2.insert(es.last().region.offset_sectors, p),
            None => m2,
        }
    }
}

/// The replacement paths in `names` whose resource has no entry in `es`,
/// in order.
pub open spec fn spec_unmapped(names: Seq<(String, String)>, es: Seq<DirectoryEntry>) -> Seq<
    Seq<char>,
>
    decreases names.len(),
{
    if names.len() == 0 {
        Seq::empty()
    } else {
        let rest = spec_unmapped(names.drop_last(), es);
        if exists|j: int| 0 <= j < es.len() && es[j].name@ == names.last().0@ {
            rest
        } else {
            rest.push(names.last().1@)
        }
    }
}

/// The replacements that remain and the size of each region after
/// `ImageMapper::update_sizes` on `regions` with replacement lengths `lens`.
pub open spec fn spec_update_sizes(
    m: Map<usize, String>,
    regions: Seq<ImageRegion>,
    lens: Seq<Option<usize>>,
) -> (Map<usize, String>, Seq<Option<usize>>)
    decreases regions.len(),
{
    if regions.len() == 0 || lens.len() == 0 {
        (m, Seq::empty())
    } else {
        let (m2, sizes) = spec_update_sizes(m, regions.drop_last(), lens.drop_last());
        let r = regions.last();
        if !m2.contains_key(r.offset_sectors) {
            (m2, sizes.push(Some(r.size_sectors)))
        } else {
            match lens.last() {
                Some(len) => (m2, sizes.push(Some(sectors_for(len as int) as usize))),
                None => (m2.remove(r.offset_sectors), sizes.push(None)),
            }
        }
    }
}

/// The largest of the known sizes in `sizes`, or 0.
pub open spec fn spec_max_size(sizes: Seq<Option<usize>>) -> usize
    decreases sizes.len(),
{
    if sizes.len() == 0 {
        0
    } else {
        let rest = spec_max_size(sizes.drop_last());
        match sizes.last() {
            Some(c) => if c > rest {
                c
            } else {
                rest
            },
            None => rest,
        }
    }
}

/// The number of sectors that `len` bytes of data fill, the last one maybe
/// partly.
pub open spec fn sectors_for(len: int) -> int {
    (len + 2047) / 2048
}

/// With no name twice, the replacement found for a resource is the one
/// stored under its name.
proof fn lemma_lookup_unique(names: Seq<(String, String)>, i: int)
    requires
        names_unique(names),
        0 <= i < names.len(),
    ensures
        spec_lookup(names, names[i].0@) == Some(names[i].1),
    decreases names.len(),
{
    if i < names.len() - 1 {
        assert(names.last().0@ != names[i].0@);
        assert(names.drop_last()[i] == names[i]);
        lemma_lookup_unique(names.drop_last(), i);
    }
}

/// A resource without a replacement is found nowhere.
proof fn lemma_lookup_absent(names: Seq<(String, String)>, key: Seq<char>)
    requires
        forall|i: int| 0 <= i < names.len() ==> names[i].0@ != key,
    ensures
        spec_lookup(names, key) == None::<String>,
    decreases names.len(),
{
    if names.len() > 0 {
        assert(names.last().0@ != key);
        lemma_lookup_absent(names.drop_last(), key);
    }
}

/// Returns the position in `names` of the replacement for `key`, if any.
fn find_name(names: &Vec<(String, String)>, key: &str) -> (found: Option<usize>)
    ensures
        match found {
            Some(i) => i < names@.len() && names@[i as int].0@ == key@,
            None => forall|i: int| 0 <= i < names@.len() ==> names@[i].0@ != key@,
        },
{
    let mut i: usize = 0;
    while i < names.len()
        invariant
            0 <= i <= names@.len(),
            forall|j: int| 0 <= j < i ==> names@[j].0@ != key@,
        decreases names@.len() - i,
    {
        if same_text(names[i].0.as_str(), key) {
            return Some(i);
        }
        i = i + 1;
    }
    None
}

impl ImageMapper {
    /// Creates a mapper with no replacements.
    pub fn new() -> (mapper: ImageMapper)
        ensures
            mapper.replacements_by_name@.len() == 0,
            mapper.replacements_by_region@ == Map::<usize, String>::empty(),
    {
        ImageMapper { replacements_by_name: Vec::new(), replacements_by_region: HashMap::new() }
    }

    /// The mapper's invariant: no resource name has two replacements.
    pub open spec fn wf(&self) -> bool {
        names_unique(self.replacements_by_name@)
    }

    /// Registers `paths` (each a path with its file name, if it has a valid
    /// one) as replacement files for this image, under the lowercase form of
    /// their file names. Problems do not stop the registration: every path
    /// without a file name, then every name that already had a replacement,
    /// comes back as an error.
    pub fn register_paths(&mut self, paths: &Vec<(String, Option<String>)>) -> (res: Result<
        (),
        Vec<MapError>,
    >)
        requires
            old(self).wf(),
        ensures
            final(self).wf(),
            final(self).replacements_by_region@ == old(self).replacements_by_region@,
            names_view(final(self).replacements_by_name@) == spec_register(
                names_view(old(self).replacements_by_name@),
                paths_view(paths@),
            ).0,
            match res {
                Ok(()) => spec_register_errors(names_view(old(self).replacements_by_name@), paths_view(paths@))
                    .len() == 0,
                Err(errors) => errors@.len() > 0 && errors@.map_values(|e: MapError| map_error_view(e))
                    == spec_register_errors(names_view(old(self).replacements_by_name@), paths_view(paths@)),
            },
    {
        let ghost start = names_view(self.replacements_by_name@);
        let mut nameless: Vec<MapError> = Vec::new();
        let mut duplicates: Vec<MapError> = Vec::new();
        let mut i: usize = 0;
        while i < paths.len()
            invariant
                0 <= i <= paths@.len(),
                names_unique(self.replacements_by_name@),
                self.replacements_by_region@ == old(self).replacements_by_region@,
                start == names_view(old(self).replacements_by_name@),
                names_view(self.replacements_by_name@) == spec_register(start, paths_view(paths@).take(i as int)).0,
                duplicates@.map_values(|e: MapError| map_error_view(e)) == spec_register(
                    start,
                    paths_view(paths@).take(i as int),
                ).1.map_values(|n: Seq<char>| (false, n)),
                nameless@.map_values(|e: MapError| map_error_view(e)) == spec_nameless(
                    paths_view(paths@).take(i as int),
                ).map_values(|p: Seq<char>| (true, p)),
            decreases paths@.len() - i,
        {
            let ghost names_before = self.replacements_by_name@;
            let ghost dups_before = duplicates@;
            let ghost nameless_before = nameless@;
            proof {
                assert(paths_view(paths@).take(i + 1).drop_last() =~= paths_view(paths@).take(i as int));
                assert(paths_view(paths@).take(i + 1).last() == paths_view(paths@)[i as int]);
            }
            match &paths[i].1 {
                None => {
                    nameless.push(MapError::NoFileName(paths[i].0.clone()));
                    proof {
                        assert(nameless@.map_values(|e: MapError| map_error_view(e))
                            =~= nameless_before.map_values(|e: MapError| map_error_view(e)).push(
                            (true, paths@[i as int].0@),
                        ));
                        assert(spec_nameless(paths_view(paths@).take(i + 1)).map_values(
                            |p: Seq<char>| (true, p),
                        ) =~= spec_nameless(paths_view(paths@).take(i as int)).map_values(
                            |p: Seq<char>| (true, p),
                        ).push((true, paths@[i as int].0@)));
                    }
                },
                Some(name) => {
                    let key = to_lowercase(name.as_str());
                    let ghost nv = names_view(names_before);
                    match find_name(&self.replacements_by_name, key.as_str()) {
                        Some(j) => {
                            proof {
                                assert(nv[j as int].0 == key@);
                            }
                            duplicates.push(MapError::Duplicate(key));
                            proof {
                                assert(duplicates@.map_values(|e: MapError| map_error_view(e))
                                    =~= dups_before.map_values(|e: MapError| map_error_view(e)).push(
                                    (false, key@),
                                ));
                                assert(spec_register(start, paths_view(paths@).take(i + 1)).1.map_values(
                                    |n: Seq<char>| (false, n),
                                ) =~= spec_register(start, paths_view(paths@).take(i as int)).1.map_values(
                                    |n: Seq<char>| (false, n),
                                ).push((false, key@)));
                            }
                        },
                        None => {
                            proof {
                                assert forall|k: int| 0 <= k < nv.len() implies nv[k].0 != key@ by {
                                    assert(nv[k].0 == names_before[k].0@);
                                }
                            }
                            self.replacements_by_name.push((key, paths[i].0.clone()));
                            proof {
                                assert(names_view(self.replacements_by_name@) =~= nv.push(
                                    (key@, paths@[i as int].0@),
                                ));
                            }
                        },
                    }
                },
            }
            i = i + 1;
        }
        proof {
            assert(paths_view(paths@).take(paths@.len() as int) =~= paths_view(paths@));
        }
        let has_errors = nameless.len() > 0 || duplicates.len() > 0;
        let ghost n1 = nameless@;
        let ghost d1 = duplicates@;
        nameless.append(&mut duplicates);
        proof {
            assert(nameless@.map_values(|e: MapError| map_error_view(e)) =~= n1.map_values(
                |e: MapError| map_error_view(e),
            ) + d1.map_values(|e: MapError| map_error_view(e)));
        }
        if has_errors {
            Err(nameless)
        } else {
            Ok(())
        }
    }

    /// Uses the image's directory entries `entries` to find the regions that
    /// the registered replacements replace. Every entry whose name has a
    /// replacement maps its region to that replacement. Returns the
    /// replacement paths whose resource has no entry, if there are any.
    pub fn register_entries(&mut self, entries: &Vec<DirectoryEntry>) -> (res: Result<
        (),
        Vec<String>,
    >)
        requires
            old(self).wf(),
        ensures
            final(self).wf(),
            final(self).replacements_by_name@ == old(self).replacements_by_name@,
            final(self).replacements_by_region@ == spec_map_entries(
                old(self).replacements_by_region@,
                old(self).replacements_by_name@,
                entries@,
            ),
            match res {
                Ok(()) => spec_unmapped(old(self).replacements_by_name@, entries@).len() == 0,
                Err(paths) => paths@.len() > 0 && paths@.map_values(|p: String| p@) == spec_unmapped(
                    old(self).replacements_by_name@,
                    entries@,
                ),
            },
    {
        let ghost names = self.replacements_by_name@;
        let mut i: usize = 0;
        while i < entries.len()
            invariant
                0 <= i <= entries@.len(),
                self.replacements_by_name@ == names,
                names == old(self).replacements_by_name@,
                names_unique(names),
                self.replacements_by_region@ == spec_map_entries(
                    old(self).replacements_by_region@,
                    names,
                    entries@.take(i as int),
                ),
            decreases entries@.len() - i,
        {
            proof {
                assert(entries@.take(i + 1).drop_last() =~= entries@.take(i as int));
                assert(entries@.take(i + 1).last() == entries@[i as int]);
            }
            match find_name(&self.replacements_by_name, entries[i].name.as_str()) {
                Some(j) => {
                    proof {
                        lemma_lookup_unique(names, j as int);
                    }
                    let path = self.replacements_by_name[j].1.clone();
                    self.replacements_by_region.insert(entries[i].region.offset_sectors, path);
                },
                None => {
                    proof {
                        lemma_lookup_absent(names, entries@[i as int].name@);
                    }
                },
            }
            i = i + 1;
        }
        proof {
            assert(entries@.take(entries@.len() as int) =~= entries@);
        }
        let mut unmapped: Vec<String> = Vec::new();
        let mut k: usize = 0;
        while k < self.replacements_by_name.len()
            invariant
                0 <= k <= names.len(),
                self.replacements_by_name@ == names,
                unmapped@.map_values(|p: String| p@) == spec_unmapped(names.take(k as int), entries@),
            decreases names.len() - k,
        {
            proof {
                assert(names.take(k + 1).drop_last() =~= names.take(k as int));
                assert(names.take(k + 1).last() == names[k as int]);
            }
            let mut found = false;
            let mut j: usize = 0;
            while j < entries.len()
                invariant
                    0 <= j <= entries@.len(),
                    0 <= k < names.len(),
                    self.replacements_by_name@ == names,
                    found == exists|e: int| 0 <= e < j && entries@[e].name@ == names[k as int].0@,
                decreases entries@.len() - j,
            {
                if same_text(entries[j].name.as_str(), self.replacements_by_name[k].0.as_str()) {
                    found = true;
                }
                j = j + 1;
            }
            if !found {
                let ghost before = unmapped@;
                unmapped.push(self.replacements_by_name[k].1.clone());
                proof {
                    assert(unmapped@.map_values(|p: String| p@) =~= before.map_values(
                        |p: String| p@,
                    ).push(names[k as int].1@));
                }
            }
            k = k + 1;
        }
        proof {
            assert(names.take(names.len() as int) =~= names);
        }
        if unmapped.len() > 0 {
            Err(unmapped)
        } else {
            Ok(())
        }
    }

    /// Returns the path to the file that replaces `region`, or `None` if the
    /// region has no replacement.
    pub fn replacement_path(&self, region: ImageRegion) -> (path: Option<&String>)
        ensures
            match path {
                Some(p) => self.replacements_by_region@.contains_key(region.offset_sectors)
                    && *p == self.replacements_by_region@[region.offset_sectors],
                None => !self.replacements_by_region@.contains_key(region.offset_sectors),
            },
    {
        self.replacements_by_region.get(&region.offset_sectors)
    }

    /// Returns the number of sectors of data that will be loaded for
    /// `region`: its own size if it has no replacement, and otherwise the
    /// size of the replacement file, `replacement_len` bytes, rounded up to
    /// whole sectors. Returns `None` if the region has a replacement whose
    /// size could not be found (`replacement_len` is `None`).
    pub fn real_segment_count(&self, region: ImageRegion, replacement_len: Option<usize>) -> (count:
        Option<usize>)
        requires
            match replacement_len {
                Some(len) => len + 2047 <= usize::MAX,
                None => true,
            },
        ensures
            count == if !self.replacements_by_region@.contains_key(region.offset_sectors) {
                Some(region.size_sectors)
            } else {
                match replacement_len {
                    Some(len) => Some(sectors_for(len as int) as usize),
                    None => None,
                }
            },
    {
        match self.replacement_path(region) {
            None => Some(region.size_sectors),
            Some(_) => match replacement_len {
                Some(len) => Some((len + 2047) / 2048),
                None => None,
            },
        }
    }

    /// Removes the replacement mapped for `region`, if there is one.
    pub fn remove_replacement(&mut self, region: ImageRegion)
        requires
            old(self).wf(),
        ensures
            final(self).wf(),
            final(self).replacements_by_name@ == old(self).replacements_by_name@,
            final(self).replacements_by_region@ == old(self).replacements_by_region@.remove(
                region.offset_sectors,
            ),
    {
        self.replacements_by_region.remove(&region.offset_sectors);
    }


    /// Works out the sizes that the game must expect for the resources in
    /// `regions`, given `lens[i]`, the length in bytes of the replacement
    /// file of `regions[i]` (`None` if it could not be found; unused for
    /// regions without a replacement). A region whose replacement's length is
    /// unknown loses its replacement, so that the game never loads more data
    /// than it expects, and keeps its size (`None` in the result). Returns
    /// the new size of each region and the largest of them (0 if none).
    pub fn update_sizes(&mut self, regions: &Vec<ImageRegion>, lens: &Vec<Option<usize>>) -> (res: (
        Vec<Option<usize>>,
        usize,
    ))
        requires
            old(self).wf(),
            regions@.len() == lens@.len(),
            forall|i: int|
                0 <= i < lens@.len() ==> match #[trigger] lens@[i] {
                    Some(len) => len + 2047 <= usize::MAX,
                    None => true,
                },
        ensures
            final(self).wf(),
            final(self).replacements_by_name@ == old(self).replacements_by_name@,
            (final(self).replacements_by_region@, res.0@) == spec_update_sizes(
                old(self).replacements_by_region@,
                regions@,
                lens@,
            ),
            res.1 == spec_max_size(res.0@),
    {
        let mut sizes: Vec<Option<usize>> = Vec::new();
        let mut max: usize = 0;
        let mut i: usize = 0;
        while i < regions.len()
            invariant
                0 <= i <= regions@.len(),
                regions@.len() == lens@.len(),
                forall|k: int|
                    0 <= k < lens@.len() ==> match #[trigger] lens@[k] {
                        Some(len) => len + 2047 <= usize::MAX,
                        None => true,
                    },
                self.wf(),
                self.replacements_by_name@ == old(self).replacements_by_name@,
                (self.replacements_by_region@, sizes@) == spec_update_sizes(
                    old(self).replacements_by_region@,
                    regions@.take(i as int),
                    lens@.take(i as int),
                ),
                max == spec_max_size(sizes@),
            decreases regions@.len() - i,
        {
            proof {
                assert(regions@.take(i + 1).drop_last() =~= regions@.take(i as int));
                assert(lens@.take(i + 1).drop_last() =~= lens@.take(i as int));
                assert(regions@.take(i + 1).last() == regions@[i as int]);
                assert(lens@.take(i + 1).last() == lens@[i as int]);
            }
            let ghost before = sizes@;
            let region = regions[i];
            assert(match lens@[i as int] { Some(len) => len + 2047 <= usize::MAX, None => true });
            match self.real_segment_count(region, lens[i]) {
                Some(count) => {
                    sizes.push(Some(count));
                    if count > max {
                        max = count;
                    }
                },
                None => {
                    self.remove_replacement(region);
                    sizes.push(None);
                },
            }
            proof {
                assert(sizes@.drop_last() =~= before);
            }
            i = i + 1;
        }
        proof {
            assert(regions@.take(regions@.len() as int) =~= regions@);
            assert(lens@.take(lens@.len() as int) =~= lens@);
        }
        (sizes, max)
    }

}

/// The game's record of one streamed resource.
#[derive(Clone, Copy, PartialEq, Eq, Structural, Debug)]
pub struct StreamingInfo {
    pub next_index: i16,
    pub prev_index: i16,
    pub next_index_on_cd: i16,
    pub flags: u8,
    pub img_id: u8,
    pub cd_pos: u32,
    pub cd_size: u32,
    pub load_state: u8,
}

impl StreamingInfo {
    /// Returns the positions in `infos` of the records for the image
    /// `image_id`, in order.
    pub fn for_image_id(infos: &Vec<StreamingInfo>, image_id: u8) -> (found: Vec<usize>)
        ensures
            forall|k: int| 0 <= k < found@.len() ==> found@[k] < infos@.len() && infos@[found@[k] as int].img_id == image_id,
            forall|k: int, l: int| 0 <= k < l < found@.len() ==> found@[k] < found@[l],
            forall|i: int|
                0 <= i < infos@.len() && infos@[i].img_id == image_id ==> found@.contains(i as usize),
    {
        let mut found: Vec<usize> = Vec::new();
        let mut i: usize = 0;
        while i < infos.len()
            invariant
                0 <= i <= infos@.len(),
                forall|k: int| 0 <= k < found@.len() ==> found@[k] < i && infos@[found@[k] as int].img_id == image_id,
                forall|k: int, l: int| 0 <= k < l < found@.len() ==> found@[k] < found@[l],
                forall|j: int| 0 <= j < i && infos@[j].img_id == image_id ==> found@.contains(j as usize),
            decreases infos@.len() - i,
        {
            if infos[i].image_id() == image_id {
                let ghost before = found@;
                found.push(i);
                proof {
                    assert(found@[found@.len() - 1] == i);
                    assert forall|j: int| 0 <= j <= i && infos@[j].img_id == image_id implies found@.contains(j as usize) by {
                        if j < i {
                            let k = choose|k: int| 0 <= k < before.len() && before[k] == j as usize;
                            assert(found@[k] == j as usize);
                        } else {
                            assert(found@[found@.len() - 1] == j as usize);
                        }
                    }
                }
            }
            i = i + 1;
        }
        found
    }

    /// Sets the size that this record reports, in sectors (keeping the low
    /// 32 bits, as the game's field holds).
    pub fn set_size_segments(&mut self, segments: usize)
        ensures
            *final(self) == (StreamingInfo { cd_size: segments as u32, ..*old(self) }),
    {
        self.cd_size = segments as u32;
    }

    /// Returns the ID of the image that this record is for.
    pub fn image_id(&self) -> (id: u8)
        ensures
            id == self.img_id,
    {
        self.img_id
    }

    /// Returns the region of its image that this record refers to.
    pub fn region(&self) -> (r: ImageRegion)
        ensures
            r.offset_sectors == self.cd_pos,
            r.size_sectors == self.cd_size,
    {
        ImageRegion { offset_sectors: self.cd_pos as usize, size_sectors: self.cd_size as usize }
    }
}

} // verus!
