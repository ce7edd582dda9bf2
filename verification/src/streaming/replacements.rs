//! The replacements of all images: one `ImageMapper` per image, found by the
//! image's name whatever its case.

use crate::chars::{str_lowercase, to_lowercase};
use crate::files::loader::{file_name_of, path_file_name};
use crate::streaming::game::ImageRegion;
use crate::streaming::load::{
    names_view, paths_view, spec_map_entries, spec_register, spec_register_errors, spec_unmapped,
    DirectoryEntry, ImageMapper, MapError,
};
use case_insensitive_hashmap::CaseInsensitiveHashMap;
use std::collections::hash_map::RandomState;
use std::hash::BuildHasher;
use vstd::prelude::*;

verus! {

#[verifier::external_type_specification]
#[verifier::external_body]
#[verifier::reject_recursive_types(V)]
#[verifier::reject_recursive_types(S)]
pub struct ExCaseInsensitiveHashMap<V, S: BuildHasher>(CaseInsensitiveHashMap<V, S>);

/// The key under which a case-insensitive map files `k`: keys that are
/// equal after Unicode case folding are the same key.
pub uninterp spec fn case_key(k: Seq<char>) -> Seq<char>;

/// What a case-insensitive map of positions holds, by case key.
pub uninterp spec fn ci_contents(m: CaseInsensitiveHashMap<usize, RandomState>) -> Map<
    Seq<char>,
    usize,
>;

/// `CaseInsensitiveHashMap::new`: an empty map.
#[verifier::external_body]
pub(crate) fn ci_new() -> (m: CaseInsensitiveHashMap<usize, RandomState>)
    ensures
        ci_contents(m).dom() == Set::<Seq<char>>::empty(),
{
    CaseInsensitiveHashMap::new()
}

/// `CaseInsensitiveHashMap::get`: the value filed under the case key of
/// `k`, if any.
#[verifier::external_body]
pub(crate) fn ci_get(m: &CaseInsensitiveHashMap<usize, RandomState>, k: &str) -> (v: Option<usize>)
    ensures
        match v {
            Some(i) => ci_contents(*m).contains_key(case_key(k@)) && ci_contents(*m)[case_key(k@)]
                == i,
            None => !ci_contents(*m).contains_key(case_key(k@)),
        },
{
    m.get(k).copied()
}

/// `CaseInsensitiveHashMap::insert`: files `v` under the case key of `k`,
/// replacing any value filed there.
#[verifier::external_body]
pub(crate) fn ci_insert(m: &mut CaseInsensitiveHashMap<usize, RandomState>, k: String, v: usize)
    ensures
        ci_contents(*final(m)) == ci_contents(*old(m)).insert(case_key(k@), v),
{
    m.insert(k, v);
}

/// The replacements for every image that has any, by image name.
pub struct ReplacementMapper {
    /// The position in `mappers` of each image's mapper, by image name.
    pub image_mappers: CaseInsensitiveHashMap<usize, RandomState>,
    /// The mappers of the images.
    pub mappers: Vec<ImageMapper>,
}

/// What registering the replacement `paths` (each a path with its file
/// name, if it has one) for the image `image_name` makes of the mapper `prev`
/// (see `ReplacementMapper::register_paths_for_image`): `next`, with the
/// result `res`.
pub open spec fn registered_for_image(
    prev: ReplacementMapper,
    next: ReplacementMapper,
    image_name: Seq<char>,
    paths: Seq<(Seq<char>, Option<Seq<char>>)>,
    res: Result<(), Vec<MapError>>,
) -> bool {
    let key = str_lowercase(image_name);
    let i = match prev.index_of(key) {
        Some(i) => i,
        None => prev.mappers@.len() as int,
    };
    let before = match prev.index_of(key) {
        Some(i) => names_view(prev.mappers@[i].replacements_by_name@),
        None => Seq::<(Seq<char>, Seq<char>)>::empty(),
    };
    &&& next.index_of(key) == Some(i)
    &&& next.mappers@.len() == if prev.index_of(key) is Some {
        prev.mappers@.len()
    } else {
        prev.mappers@.len() + 1
    }
    &&& forall|j: int|
        0 <= j < prev.mappers@.len() && j != i ==> #[trigger] next.mappers@[j]
            == prev.mappers@[j]
    &&& forall|k: Seq<char>|
        case_key(k) != case_key(key) ==> #[trigger] next.index_of(k) == prev.index_of(k)
    &&& names_view(next.mappers@[i].replacements_by_name@) == spec_register(
        before,
        paths,
    ).0
    &&& next.mappers@[i].replacements_by_region@ == match prev.index_of(key) {
        Some(i) => prev.mappers@[i].replacements_by_region@,
        None => Map::<usize, String>::empty(),
    }
    &&& match res {
        Ok(()) => spec_register_errors(before, paths).len() == 0,
        Err(errs) => errs@.len() > 0 && errs@.map_values(
            |e: MapError| crate::streaming::load::map_error_view(e),
        ) == spec_register_errors(before, paths),
    }
}

/// The paths `paths` with their file names, as `Path::file_name` gives them.
pub open spec fn named_paths(paths: Seq<String>) -> Seq<(Seq<char>, Option<Seq<char>>)> {
    paths.map_values(|p: String| (p@, path_file_name(p@)))
}

impl ReplacementMapper {
    /// Creates a mapper with no images.
    pub fn new() -> (m: ReplacementMapper)
        ensures
            m.wf(),
            ci_contents(m.image_mappers).dom() == Set::<Seq<char>>::empty(),
            m.mappers@.len() == 0,
    {
        ReplacementMapper { image_mappers: ci_new(), mappers: Vec::new() }
    }

    /// Every image's position is that of a mapper, and every mapper keeps
    /// its own invariant.
    pub open spec fn wf(&self) -> bool {
        &&& forall|k: Seq<char>| #[trigger]
            ci_contents(self.image_mappers).contains_key(k) ==> ci_contents(self.image_mappers)[k]
                < self.mappers@.len()
        &&& forall|i: int| 0 <= i < self.mappers@.len() ==> #[trigger] self.mappers@[i].wf()
    }

    /// The position of the mapper for the image `image_name`, if it has one.
    pub open spec fn index_of(&self, image_name: Seq<char>) -> Option<int> {
        if ci_contents(self.image_mappers).contains_key(case_key(image_name)) {
            Some(ci_contents(self.image_mappers)[case_key(image_name)] as int)
        } else {
            None
        }
    }

    /// Returns the position of the mapper for `image_name`, if it has one.
    fn find(&self, image_name: &str) -> (i: Option<usize>)
        requires
            self.wf(),
        ensures
            match i {
                Some(i) => self.index_of(image_name@) == Some(i as int) && i < self.mappers@.len(),
                None => self.index_of(image_name@) is None,
            },
    {
        ci_get(&self.image_mappers, image_name)
    }

    /// Registers `paths` (each a path with its file name, if it has a valid
    /// one) as replacement files for the image `image_name`, giving the
    /// image a mapper (filed under its lowercased name) if it had none.
    /// Returns the errors of the registration, as `ImageMapper::register_paths`
    /// does.
    pub fn register_paths_for_image(&mut self, image_name: &str, paths: &Vec<(String, Option<String>)>) -> (res:
        Result<(), Vec<MapError>>)
        requires
            old(self).wf(),
        ensures
            final(self).wf(),
            registered_for_image(*old(self), *final(self), image_name@, paths_view(paths@), res),
    {
        let key = to_lowercase(image_name);
        let i = match self.find(key.as_str()) {
            Some(i) => i,
            None => {
                let i = self.mappers.len();
                self.mappers.push(ImageMapper::new());
                ci_insert(&mut self.image_mappers, key, i);
                proof {
                    assert(self.mappers@[i as int].wf());
                    assert(names_view(self.mappers@[i as int].replacements_by_name@) =~= Seq::<
                        (Seq<char>, Seq<char>),
                    >::empty());
                }
                i
            },
        };
        let ghost mid = self.mappers@;
        let mut mapper = ImageMapper::new();
        self.mappers.set_and_swap(i, &mut mapper);
        let res = mapper.register_paths(paths);
        self.mappers.set_and_swap(i, &mut mapper);
        proof {
            assert(self.mappers@ =~= mid.update(i as int, self.mappers@[i as int]));
        }
        res
    }

    /// Registers the files at `paths` as replacements for the image
    /// `image_name`, each under the lowercased form of its own file name (see
    /// `register_paths_for_image`); a path without a file name is an error.
    pub fn register_replacement_paths(&mut self, image_name: &str, paths: &Vec<String>) -> (res: Result<
        (),
        Vec<MapError>,
    >)
        requires
            old(self).wf(),
        ensures
            final(self).wf(),
            registered_for_image(*old(self), *final(self), image_name@, named_paths(paths@), res),
    {
        let mut named: Vec<(String, Option<String>)> = Vec::new();
        let mut i: usize = 0;
        while i < paths.len()
            invariant
                0 <= i <= paths@.len(),
                paths_view(named@) == named_paths(paths@.take(i as int)),
            decreases paths@.len() - i,
        {
            let name = file_name_of(paths[i].as_str());
            let ghost before = named@;
            named.push((paths[i].clone(), name));
            proof {
                assert(paths_view(named@) =~= paths_view(before).push(
                    (paths@[i as int]@, path_file_name(paths@[i as int]@)),
                ));
                assert(named_paths(paths@.take(i + 1)) =~= named_paths(paths@.take(i as int)).push(
                    (paths@[i as int]@, path_file_name(paths@[i as int]@)),
                ));
            }
            i = i + 1;
        }
        proof {
            assert(paths@.take(paths@.len() as int) =~= paths@);
        }
        self.register_paths_for_image(image_name, &named)
    }

    /// Uses the directory entries `entries` of the image `image_name` to
    /// find the regions that its replacements replace (see
    /// `ImageMapper::register_entries`). An image without replacements is
    /// left alone. Returns the replacement paths whose resource has no
    /// entry, if there are any.
    pub fn register_entries_for_image(&mut self, image_name: &str, entries: &Vec<DirectoryEntry>) -> (res:
        Result<(), Vec<String>>)
        requires
            old(self).wf(),
        ensures
            final(self).wf(),
            final(self).image_mappers == old(self).image_mappers,
            final(self).mappers@.len() == old(self).mappers@.len(),
            match old(self).index_of(image_name@) {
                None => final(self).mappers@ == old(self).mappers@ && res is Ok,
                Some(i) => {
                    &&& forall|j: int|
                        0 <= j < old(self).mappers@.len() && j != i ==> #[trigger] final(self).mappers@[j] == old(self).mappers@[j]
                    &&& final(self).mappers@[i].replacements_by_name@ == old(self).mappers@[i].replacements_by_name@
                    &&& final(self).mappers@[i].replacements_by_region@ == spec_map_entries(
                        old(self).mappers@[i].replacements_by_region@,
                        old(self).mappers@[i].replacements_by_name@,
                        entries@,
                    )
                    &&& match res {
                        Ok(()) => spec_unmapped(
                            old(self).mappers@[i].replacements_by_name@,
                            entries@,
                        ).len() == 0,
                        Err(paths) => paths@.len() > 0 && paths@.map_values(|p: String| p@)
                            == spec_unmapped(old(self).mappers@[i].replacements_by_name@, entries@),
                    }
                },
            },
    {
        let i = match self.find(image_name) {
            Some(i) => i,
            None => return Ok(()),
        };
        let ghost before = self.mappers@;
        let mut mapper = ImageMapper::new();
        self.mappers.set_and_swap(i, &mut mapper);
        let res = mapper.register_entries(entries);
        self.mappers.set_and_swap(i, &mut mapper);
        proof {
            assert(self.mappers@ =~= before.update(i as int, self.mappers@[i as int]));
        }
        res
    }

    /// Returns the path to the file that replaces `region` of the image
    /// `image_name`, if there is one.
    pub fn replacement_path(&self, image_name: &str, region: ImageRegion) -> (path: Option<&String>)
        requires
            self.wf(),
        ensures
            match self.index_of(image_name@) {
                None => path is None,
                Some(i) => match path {
                    Some(p) => self.mappers@[i].replacements_by_region@.contains_key(
                        region.offset_sectors,
                    ) && *p == self.mappers@[i].replacements_by_region@[region.offset_sectors],
                    None => !self.mappers@[i].replacements_by_region@.contains_key(
                        region.offset_sectors,
                    ),
                },
            },
    {
        match self.find(image_name) {
            Some(i) => self.mappers[i].replacement_path(region),
            None => None,
        }
    }

    /// Returns the number of sectors of data that will be loaded for
    /// `region` of the image `image_name` (see
    /// `ImageMapper::real_segment_count`); an image without replacements
    /// loads the region's own size.
    pub fn real_segment_count(&self, image_name: &str, region: ImageRegion, replacement_len: Option<
        usize,
    >) -> (count: Option<usize>)
        requires
            self.wf(),
            match replacement_len {
                Some(len) => len + 2047 <= usize::MAX,
                None => true,
            },
        ensures
            count == match self.index_of(image_name@) {
                None => Some(region.size_sectors),
                Some(i) => if !self.mappers@[i].replacements_by_region@.contains_key(
                    region.offset_sectors,
                ) {
                    Some(region.size_sectors)
                } else {
                    match replacement_len {
                        Some(len) => Some(crate::streaming::load::sectors_for(len as int) as usize),
                        None => None,
                    }
                },
            },
    {
        match self.find(image_name) {
            Some(i) => self.mappers[i].real_segment_count(region, replacement_len),
            None => Some(region.size_sectors),
        }
    }

    /// Removes the replacement mapped to `region` of the image `image_name`,
    /// if there is one.
    pub fn remove_replacement(&mut self, image_name: &str, region: ImageRegion)
        requires
            old(self).wf(),
        ensures
            final(self).wf(),
            final(self).image_mappers == old(self).image_mappers,
            final(self).mappers@.len() == old(self).mappers@.len(),
            match old(self).index_of(image_name@) {
                None => final(self).mappers@ == old(self).mappers@,
                Some(i) => {
                    &&& forall|j: int|
                        0 <= j < old(self).mappers@.len() && j != i ==> #[trigger] final(self).mappers@[j] == old(self).mappers@[j]
                    &&& final(self).mappers@[i].replacements_by_name@ == old(self).mappers@[i].replacements_by_name@
                    &&& final(self).mappers@[i].replacements_by_region@ == old(self).mappers@[i].replacements_by_region@.remove(region.offset_sectors)
                },
            },
    {
        let i = match self.find(image_name) {
            Some(i) => i,
            None => return ,
        };
        let ghost before = self.mappers@;
        let mut mapper = ImageMapper::new();
        self.mappers.set_and_swap(i, &mut mapper);
        mapper.remove_replacement(region);
        self.mappers.set_and_swap(i, &mut mapper);
        proof {
            assert(self.mappers@ =~= before.update(i as int, self.mappers@[i as int]));
        }
    }
}

} // verus!
