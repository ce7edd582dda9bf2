//! The streams that read resources out of archives: which resources of an
//! archive are swapped for files, and how a resource's location is packed.

use crate::chars::{same_text, str_lowercase, to_lowercase};
use crate::files::loader::{file_name_of, path_file_name};
use crate::files::res::ModRes;
use crate::scripts::bytes::{read_u32_le, spec_u32_le, spec_until_nul};
use crate::streaming::load::until_nul_end;
use vstd::prelude::*;
use vstd::utf8::{decode_utf8, valid_utf8};

verus! {

/// What `String::from_utf8_lossy` makes of `bytes`.
pub uninterp spec fn utf8_lossy(bytes: Seq<u8>) -> Seq<char>;

/// `String::from_utf8_lossy`: the text that `bytes` encode, with each
/// invalid sequence replaced by U+FFFD; valid UTF-8 is decoded as it is.
#[verifier::external_body]
fn lossy_text(bytes: &[u8]) -> (text: String)
    ensures
        text@ == utf8_lossy(bytes@),
        valid_utf8(bytes@) ==> text@ == decode_utf8(bytes@),
{
    String::from_utf8_lossy(bytes).into_owned()
}

/// The location of a resource across all streams: the index of its image in
/// the upper 8 bits and its offset in sectors in the lower 24.
#[derive(Clone, Copy, PartialEq, Eq, Structural, Debug)]
pub struct ResLoc(pub u32);

impl ResLoc {
    /// Packs an image index and a sector offset.
    pub fn new(image_index: u8, sector_offset: u32) -> (loc: ResLoc)
        ensures
            loc.0 == ((image_index as u32) << 24u32) | sector_offset,
    {
        ResLoc(((image_index as u32) << 24u32) | sector_offset)
    }

    /// The index of the image that the resource is in.
    pub fn image_index(&self) -> (index: u8)
        ensures
            index == self.0 >> 24u32,
    {
        let v = self.0;
        assert(v >> 24u32 < 256) by (bit_vector);
        (v >> 24u32) as u8
    }

    /// The offset of the resource in its image, in sectors.
    pub fn offset(&self) -> (sectors: u32)
        ensures
            sectors == self.0 & 0xff_ffffu32,
    {
        self.0 & 0xff_ffffu32
    }
}

/// A location made of an index and an offset that fits in 24 bits gives both
/// back; as a number it is `index * 2^24 + offset`.
pub proof fn lemma_res_loc_roundtrip(image_index: u8, sector_offset: u32)
    requires
        sector_offset < 0x100_0000,
    ensures
        ((image_index as u32) << 24u32) | sector_offset == image_index * 0x100_0000 + sector_offset,
        (((image_index as u32) << 24u32) | sector_offset) >> 24u32 == image_index,
        (((image_index as u32) << 24u32) | sector_offset) & 0xff_ffffu32 == sector_offset,
{
    let i = image_index as u32;
    assert(((i << 24u32) | sector_offset) == i * 0x100_0000 + sector_offset) by (bit_vector)
        requires
            i < 256,
            sector_offset < 0x100_0000,
    ;
    assert(((i << 24u32) | sector_offset) >> 24u32 == i) by (bit_vector)
        requires
            i < 256,
            sector_offset < 0x100_0000,
    ;
    assert(((i << 24u32) | sector_offset) & 0xff_ffffu32 == sector_offset) by (bit_vector)
        requires
            i < 256,
            sector_offset < 0x100_0000,
    ;
}

/// The name a stream goes by: the file name of its archive, lowercased, or
/// "unknown" where the path has none.
pub open spec fn spec_stream_name(archive_path: Seq<char>) -> Seq<char> {
    match path_file_name(archive_path) {
        Some(n) => str_lowercase(n),
        None => "unknown"@,
    }
}

/// Returns the name that the stream of the archive at `archive_path` goes by.
pub fn stream_name(archive_path: &str) -> (name: String)
    ensures
        name@ == spec_stream_name(archive_path@),
{
    match file_name_of(archive_path) {
        Some(n) => to_lowercase(n.as_str()),
        None => {
            proof {
                reveal_strlit("unknown");
            }
            "unknown".to_owned()
        },
    }
}

/// The files that replace resources of the archive named `archive`, in the
/// order of `res`: the lowercased file name of each and its path.
pub open spec fn spec_swapped_names(res: Seq<ModRes>, archive: Seq<char>) -> Seq<
    (Seq<char>, Seq<char>),
>
    decreases res.len(),
{
    if res.len() == 0 {
        Seq::empty()
    } else {
        let rest = spec_swapped_names(res.drop_last(), archive);
        match res.last() {
            ModRes::ArchSwap(img, path) => if img@ == archive {
                match path_file_name(path@) {
                    Some(n) => rest.push((str_lowercase(n), path@)),
                    None => rest,
                }
            } else {
                rest
            },
            _ => rest,
        }
    }
}

/// The path that `names` gives for `key`; where it gives several, the last
/// one, as a map filled from `names` in order keeps it.
pub open spec fn spec_lookup(names: Seq<(Seq<char>, Seq<char>)>, key: Seq<char>) -> Option<
    Seq<char>,
>
    decreases names.len(),
{
    if names.len() == 0 {
        None
    } else if names.last().0 == key {
        Some(names.last().1)
    } else {
        spec_lookup(names.drop_last(), key)
    }
}

/// The plain values of a name list.
pub open spec fn names_view(names: Seq<(String, String)>) -> Seq<(Seq<char>, Seq<char>)> {
    names.map_values(|p: (String, String)| (p.0@, p.1@))
}

/// Returns the files among `resources` that replace resources of the
/// archive named `archive`, each as its lowercased file name and its path.
pub fn swapped_names(resources: &Vec<ModRes>, archive: &str) -> (names: Vec<(String, String)>)
    ensures
        names_view(names@) == spec_swapped_names(resources@, archive@),
{
    let mut names: Vec<(String, String)> = Vec::new();
    let mut i: usize = 0;
    while i < resources.len()
        invariant
            0 <= i <= resources@.len(),
            names_view(names@) == spec_swapped_names(resources@.take(i as int), archive@),
        decreases resources@.len() - i,
    {
        proof {
            assert(resources@.take(i + 1).drop_last() =~= resources@.take(i as int));
            assert(resources@.take(i + 1).last() == resources@[i as int]);
        }
        let ghost before = names@;
        match &resources[i] {
            ModRes::ArchSwap(img, path) => {
                if same_text(img.as_str(), archive) {
                    match file_name_of(path.as_str()) {
                        Some(n) => {
                            let key = to_lowercase(n.as_str());
                            names.push((key, path.clone()));
                            proof {
                                assert(names_view(names@) =~= names_view(before).push(
                                    (key@, path@),
                                ));
                            }
                        },
                        None => {},
                    }
                }
            },
            _ => {},
        }
        i = i + 1;
    }
    proof {
        assert(resources@.take(resources@.len() as int) =~= resources@);
    }
    names
}

/// Returns the path that `names` gives for `key`, the last where it gives
/// several.
pub fn lookup(names: &Vec<(String, String)>, key: &str) -> (path: Option<String>)
    ensures
        match path {
            Some(p) => spec_lookup(names_view(names@), key@) == Some(p@),
            None => spec_lookup(names_view(names@), key@) is None,
        },
{
    let mut i: usize = names.len();
    proof {
        assert(names@.take(i as int) =~= names@);
    }
    while i > 0
        invariant
            i <= names@.len(),
            spec_lookup(names_view(names@), key@) == spec_lookup(
                names_view(names@.take(i as int)),
                key@,
            ),
        decreases i,
    {
        proof {
            assert(names_view(names@.take(i as int)).drop_last() =~= names_view(
                names@.take(i - 1),
            ));
            assert(names_view(names@.take(i as int)).last() == (
                names@[i - 1].0@,
                names@[i - 1].1@,
            ));
        }
        if same_text(names[i - 1].0.as_str(), key) {
            return Some(names[i - 1].1.clone());
        }
        i = i - 1;
    }
    proof {
        assert(names_view(names@.take(0)) =~= Seq::<(Seq<char>, Seq<char>)>::empty());
    }
    None
}

/// A resource of an archive that is read from a file in its place.
#[derive(Debug)]
pub struct Swap {
    /// The offset of the resource in the archive, in sectors.
    pub offset: u32,
    /// The resource's name in the archive, lowercased.
    pub name: String,
    /// The path of the file that replaces it.
    pub path: String,
}

/// The plain values of a swap.
pub open spec fn swap_view(s: Swap) -> (int, Seq<char>, Seq<char>) {
    (s.offset as int, s.name@, s.path@)
}

/// The name of the directory entry at `pos` in `b`: its 24-byte name field
/// up to the first zero byte, decoded leniently and lowercased.
pub open spec fn spec_entry_name(b: Seq<u8>, pos: int) -> Seq<char> {
    str_lowercase(utf8_lossy(spec_until_nul(b.subrange(pos + 8, pos + 32))))
}

/// The swaps among the first `n` entries of the directory that starts at
/// byte 8 of `b`, in directory order: each entry whose name `names` gives a
/// path for.
pub open spec fn spec_toc_swaps(b: Seq<u8>, n: nat, names: Seq<(Seq<char>, Seq<char>)>) -> Seq<
    (int, Seq<char>, Seq<char>),
>
    decreases n,
{
    if n == 0 {
        Seq::empty()
    } else {
        let rest = spec_toc_swaps(b, (n - 1) as nat, names);
        let pos = 8 + 32 * (n - 1);
        let name = spec_entry_name(b, pos);
        match spec_lookup(names, name) {
            Some(path) => rest.push((spec_u32_le(b, pos), name, path)),
            None => rest,
        }
    }
}

/// The number of entries that the directory at the start of `b` claims.
pub open spec fn spec_entry_count(b: Seq<u8>) -> int {
    spec_u32_le(b, 4)
}

/// Why an archive's directory could not be read.
#[derive(Clone, Copy, PartialEq, Eq, Structural, Debug)]
pub enum TocError {
    /// The archive ends before its directory does.
    UnexpectedEof,
}

/// Reads the directory at the start of an archive (an identifier, the
/// number of entries, then 32 bytes per entry) and finds the resources that
/// `names` replaces. `start` holds the archive's first bytes, at least as
/// many as the directory takes where the archive has them.
pub fn toc_swaps(start: &[u8], names: &Vec<(String, String)>) -> (swaps: Result<Vec<Swap>, TocError>)
    ensures
        match swaps {
            Ok(v) => start@.len() >= 8 && start@.len() >= 8 + 32 * spec_entry_count(start@)
                && v@.map_values(|s: Swap| swap_view(s)) == spec_toc_swaps(
                start@,
                spec_entry_count(start@) as nat,
                names_view(names@),
            ),
            Err(e) => e == TocError::UnexpectedEof && (start@.len() < 8 || start@.len() < 8 + 32
                * spec_entry_count(start@)),
        },
{
    if start.len() < 8 {
        return Err(TocError::UnexpectedEof);
    }
    let count = read_u32_le(&start[4..8]);
    proof {
        assert(spec_u32_le(start@.subrange(4, 8), 0) == spec_u32_le(start@, 4));
    }
    if (start.len() as u64) < 8 + 32 * (count as u64) {
        return Err(TocError::UnexpectedEof);
    }
    let mut swaps: Vec<Swap> = Vec::new();
    let n: usize = start.len();
    let mut i: u32 = 0;
    while i < count
        invariant
            0 <= i <= count,
            n == start@.len(),
            count == spec_entry_count(start@),
            start@.len() >= 8 + 32 * count,
            swaps@.map_values(|s: Swap| swap_view(s)) == spec_toc_swaps(
                start@,
                i as nat,
                names_view(names@),
            ),
        decreases count - i,
    {
        assert(8 + 32 * (i as int) + 32 <= n);
        let pos: usize = 8 + 32 * (i as usize);
        let offset = read_u32_le(&start[pos..pos + 4]);
        let stop = until_nul_end(start, pos + 8, pos + 32);
        let text = lossy_text(&start[pos + 8..stop]);
        let name = to_lowercase(text.as_str());
        proof {
            assert(spec_u32_le(start@.subrange(pos as int, pos + 4), 0) == spec_u32_le(
                start@,
                pos as int,
            ));
            assert(start@.subrange(pos + 8, stop as int) == spec_until_nul(
                start@.subrange(pos + 8, pos + 32),
            ));
        }
        let ghost before = swaps@;
        match lookup(names, name.as_str()) {
            Some(path) => {
                let s = Swap { offset, name, path };
                swaps.push(s);
                proof {
                    assert(swaps@.map_values(|s: Swap| swap_view(s)) =~= before.map_values(
                        |s: Swap| swap_view(s),
                    ).push(swap_view(s)));
                }
            },
            None => {},
        }
        i = i + 1;
    }
    Ok(swaps)
}

/// Finds the resources of the archive named `archive` that files among
/// `resources` replace, from the first bytes `start` of the archive.
pub fn load_swaps(start: &[u8], archive: &str, resources: &Vec<ModRes>) -> (swaps: Result<
    Vec<Swap>,
    TocError,
>)
    ensures
        match swaps {
            Ok(v) => start@.len() >= 8 + 32 * spec_entry_count(start@) && v@.map_values(
                |s: Swap| swap_view(s),
            ) == spec_toc_swaps(
                start@,
                spec_entry_count(start@) as nat,
                spec_swapped_names(resources@, archive@),
            ),
            Err(e) => e == TocError::UnexpectedEof && (start@.len() < 8 || start@.len() < 8 + 32
                * spec_entry_count(start@)),
        },
{
    let names = swapped_names(resources, archive);
    toc_swaps(start, &names)
}

} // verus!
