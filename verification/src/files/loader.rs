//! File swapping: the game files that the user has replaced, and where the
//! game finds a file once the replacements apply.

use crate::chars::same_text;
use vstd::prelude::*;

verus! {

/// What `Path::file_name` gives for the path `p` (then read as UTF-8): its
/// last component, if there is one.
pub uninterp spec fn path_file_name(p: Seq<char>) -> Option<Seq<char>>;

/// What pushing `name` onto the directory path `dir` with `PathBuf::push`
/// gives, as text.
pub uninterp spec fn path_joined(dir: Seq<char>, name: Seq<char>) -> Seq<char>;

/// `Path::file_name`: the last component of `path`, if it has one that is
/// valid UTF-8.
#[verifier::external_body]
pub(crate) fn file_name_of(path: &str) -> (name: Option<String>)
    ensures
        match name {
            Some(n) => path_file_name(path@) == Some(n@),
            None => path_file_name(path@) is None,
        },
{
    Some(std::path::Path::new(path).file_name()?.to_str()?.to_string())
}

/// What `Path::file_stem` gives for the path `p` (the file name without its
/// extension), as text, if it has one that is valid UTF-8.
pub uninterp spec fn path_file_stem(p: Seq<char>) -> Option<Seq<char>>;

/// `Path::file_stem`: the file name of `path` without its extension, if it
/// has one that is valid UTF-8.
#[verifier::external_body]
pub(crate) fn file_stem_of(path: &str) -> (stem: Option<String>)
    ensures
        match stem {
            Some(n) => path_file_stem(path@) == Some(n@),
            None => path_file_stem(path@) is None,
        },
{
    Some(std::path::Path::new(path).file_stem()?.to_str()?.to_string())
}

/// `PathBuf::push`: the path of `name` inside the directory `dir`, as text.
#[verifier::external_body]
pub(crate) fn join_path(dir: &str, name: &str) -> (joined: String)
    ensures
        joined@ == path_joined(dir@, name@),
{
    let mut path = std::path::PathBuf::from(dir);
    path.push(name);
    path.display().to_string()
}

/// `path` with every backslash made a forward slash.
pub open spec fn spec_forward_slashes(path: Seq<char>) -> Seq<char> {
    path.map_values(|c: char| if c == '\\' { '/' } else { c })
}

/// Returns `path` with every backslash made a forward slash.
pub fn forward_slashes(path: &str) -> (p: String)
    ensures
        p@ == spec_forward_slashes(path@),
{
    let n = path.unicode_len();
    let mut out = String::new();
    let mut i: usize = 0;
    while i < n
        invariant
            n == path@.len(),
            0 <= i <= n,
            out@ == spec_forward_slashes(path@.take(i as int)),
        decreases n - i,
    {
        let c = path.get_char(i);
        let d = if c == '\\' {
            '/'
        } else {
            c
        };
        crate::scripts::bytes::string_push(&mut out, d);
        proof {
            assert(spec_forward_slashes(path@.take(i + 1)) =~= spec_forward_slashes(
                path@.take(i as int),
            ).push(d));
        }
        i = i + 1;
    }
    proof {
        assert(path@.take(n as int) =~= path@);
    }
    out
}

/// The game files that have been swapped, each with the file that replaces
/// it; no game file occurs twice.
#[derive(Debug)]
pub struct PathSwaps {
    pub swaps: Vec<(String, String)>,
}

/// The replacement of the game file `path` in `swaps`, if any.
pub open spec fn spec_swap_lookup(swaps: Seq<(String, String)>, path: Seq<char>) -> Option<
    Seq<char>,
>
    decreases swaps.len(),
{
    if swaps.len() == 0 {
        None
    } else if swaps.last().0@ == path {
        Some(swaps.last().1@)
    } else {
        spec_swap_lookup(swaps.drop_last(), path)
    }
}

/// The file the game opens for `path`: its replacement, or itself.
pub open spec fn spec_swap_path(swaps: Seq<(String, String)>, path: Seq<char>) -> Seq<char> {
    match spec_swap_lookup(swaps, path) {
        Some(r) => r,
        None => path,
    }
}

/// With no game file twice, the replacement found is the one stored for it.
proof fn lemma_swap_lookup_unique(swaps: Seq<(String, String)>, i: int)
    requires
        0 <= i < swaps.len(),
        forall|a: int, b: int| 0 <= a < b < swaps.len() ==> swaps[a].0@ != swaps[b].0@,
    ensures
        spec_swap_lookup(swaps, swaps[i].0@) == Some(swaps[i].1@),
    decreases swaps.len(),
{
    if i < swaps.len() - 1 {
        assert(swaps.drop_last()[i] == swaps[i]);
        lemma_swap_lookup_unique(swaps.drop_last(), i);
    }
}

/// A game file without a replacement is found nowhere.
proof fn lemma_swap_lookup_absent(swaps: Seq<(String, String)>, path: Seq<char>)
    requires
        forall|i: int| 0 <= i < swaps.len() ==> swaps[i].0@ != path,
    ensures
        spec_swap_lookup(swaps, path) is None,
    decreases swaps.len(),
{
    if swaps.len() > 0 {
        lemma_swap_lookup_absent(swaps.drop_last(), path);
    }
}

/// Changing the replacement of entry `i` changes what its game file finds
/// and nothing else.
proof fn lemma_swap_lookup_set(swaps: Seq<(String, String)>, i: int, r: String, q: Seq<char>)
    requires
        0 <= i < swaps.len(),
        forall|a: int, b: int| 0 <= a < b < swaps.len() ==> swaps[a].0@ != swaps[b].0@,
    ensures
        spec_swap_lookup(swaps.update(i, (swaps[i].0, r)), q) == if q == swaps[i].0@ {
            Some(r@)
        } else {
            spec_swap_lookup(swaps, q)
        },
    decreases swaps.len(),
{
    let s2 = swaps.update(i, (swaps[i].0, r));
    if i < swaps.len() - 1 {
        assert(s2.drop_last() =~= swaps.drop_last().update(i, (swaps[i].0, r)));
        assert(swaps.drop_last()[i] == swaps[i]);
        lemma_swap_lookup_set(swaps.drop_last(), i, r, q);
    } else {
        assert(s2.drop_last() =~= swaps.drop_last());
    }
}

impl PathSwaps {
    /// No swaps.
    pub fn new() -> (s: PathSwaps)
        ensures
            s.swaps@.len() == 0,
    {
        PathSwaps { swaps: Vec::new() }
    }

    /// No game file occurs twice.
    pub open spec fn wf(&self) -> bool {
        forall|a: int, b: int|
            0 <= a < b < self.swaps@.len() ==> self.swaps@[a].0@ != self.swaps@[b].0@
    }

    /// Returns the position of the swap for `path`, if any.
    fn find(&self, path: &str) -> (found: Option<usize>)
        ensures
            match found {
                Some(i) => i < self.swaps@.len() && self.swaps@[i as int].0@ == path@,
                None => forall|i: int| 0 <= i < self.swaps@.len() ==> self.swaps@[i].0@ != path@,
            },
    {
        let mut i: usize = 0;
        while i < self.swaps.len()
            invariant
                0 <= i <= self.swaps@.len(),
                forall|j: int| 0 <= j < i ==> self.swaps@[j].0@ != path@,
            decreases self.swaps@.len() - i,
        {
            if same_text(self.swaps[i].0.as_str(), path) {
                return Some(i);
            }
            i = i + 1;
        }
        None
    }

    /// Returns the file the game should open for `game_path`: its
    /// replacement, if it has one, and otherwise the game file itself.
    pub fn swap_path(&self, game_path: &str) -> (path: String)
        requires
            self.wf(),
        ensures
            path@ == spec_swap_path(self.swaps@, game_path@),
    {
        match self.find(game_path) {
            Some(i) => {
                proof {
                    lemma_swap_lookup_unique(self.swaps@, i as int);
                }
                self.swaps[i].1.clone()
            },
            None => {
                proof {
                    lemma_swap_lookup_absent(self.swaps@, game_path@);
                }
                game_path.to_owned()
            },
        }
    }

    /// Makes `replacement` replace the game file `game_path` (in place of
    /// any earlier replacement of it).
    pub fn load_replacement(&mut self, game_path: &str, replacement: String)
        requires
            old(self).wf(),
        ensures
            final(self).wf(),
            forall|q: Seq<char>|
                #![trigger spec_swap_lookup(final(self).swaps@, q)]
                spec_swap_lookup(final(self).swaps@, q) == if q == game_path@ {
                    Some(replacement@)
                } else {
                    spec_swap_lookup(old(self).swaps@, q)
                },
    {
        let ghost before = self.swaps@;
        match self.find(game_path) {
            Some(i) => {
                let key = self.swaps[i].0.clone();
                self.swaps.set(i, (key, replacement));
                proof {
                    let after = self.swaps@;
                    assert(after =~= before.update(i as int, (before[i as int].0, replacement)));
                    assert forall|a: int, b: int| 0 <= a < b < after.len() implies after[a].0@
                        != after[b].0@ by {
                        assert(after[a].0@ == before[a].0@);
                        assert(after[b].0@ == before[b].0@);
                    }
                    assert forall|q: Seq<char>| #![auto] spec_swap_lookup(after, q) == if q
                        == game_path@ {
                        Some(replacement@)
                    } else {
                        spec_swap_lookup(before, q)
                    } by {
                        lemma_swap_lookup_set(before, i as int, replacement, q);
                    }
                }
            },
            None => {
                self.swaps.push((game_path.to_owned(), replacement));
                proof {
                    assert(self.swaps@.drop_last() =~= before);
                }
            },
        }
    }
}

/// After a game file is swapped, the game opens the replacement in its
/// place, and every other file as before.
pub proof fn lemma_swap_after_load(
    before: Seq<(String, String)>,
    after: Seq<(String, String)>,
    game_path: Seq<char>,
    replacement: Seq<char>,
    q: Seq<char>,
)
    requires
        forall|p: Seq<char>|
            #![trigger spec_swap_lookup(after, p)]
            spec_swap_lookup(after, p) == if p == game_path {
                Some(replacement)
            } else {
                spec_swap_lookup(before, p)
            },
    ensures
        spec_swap_path(after, game_path) == replacement,
        q != game_path ==> spec_swap_path(after, q) == spec_swap_path(before, q),
{
    assert(spec_swap_lookup(after, game_path) == Some(replacement));
    assert(spec_swap_lookup(after, q) == if q == game_path {
        Some(replacement)
    } else {
        spec_swap_lookup(before, q)
    });
}

/// The file the game opens for `path` (a path as the game writes it, maybe
/// with backslashes), given the game's directory: the file of that name in
/// the game's directory, or its replacement.
pub open spec fn spec_absolute_path(
    swaps: Seq<(String, String)>,
    game_dir: Option<Seq<char>>,
    path: Seq<char>,
) -> Option<Seq<char>> {
    match (game_dir, path_file_name(spec_forward_slashes(path))) {
        (Some(dir), Some(name)) => Some(spec_swap_path(swaps, path_joined(dir, name))),
        _ => None,
    }
}

/// Returns the file the game opens for `path`, given the game's directory
/// `game_dir` (if it is known). Returns `None` if the directory is unknown
/// or the path has no file name.
pub fn find_absolute_path(swaps: &PathSwaps, game_dir: Option<&str>, path: &str) -> (found: Option<
    String,
>)
    requires
        swaps.wf(),
    ensures
        match found {
            Some(p) => spec_absolute_path(
                swaps.swaps@,
                match game_dir {
                    Some(d) => Some(d@),
                    None => None,
                },
                path@,
            ) == Some(p@),
            None => spec_absolute_path(
                swaps.swaps@,
                match game_dir {
                    Some(d) => Some(d@),
                    None => None,
                },
                path@,
            ) is None,
        },
{
    let normalised = forward_slashes(path);
    let name = match file_name_of(normalised.as_str()) {
        Some(n) => n,
        None => return None,
    };
    let dir = match game_dir {
        Some(d) => d,
        None => return None,
    };
    let joined = join_path(dir, name.as_str());
    Some(swaps.swap_path(joined.as_str()))
}

} // verus!
