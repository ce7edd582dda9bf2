//! CLEO's resource folder: what each file in it is for, by where it lies
//! and its extension.

use crate::chars::{str_lowercase, to_lowercase};
use crate::files::loader::{join_path, path_joined};
use vstd::prelude::*;

verus! {

/// What a file in the CLEO folder is for, with the file's path.
#[derive(Debug)]
pub enum ModRes {
    /// A script that starts when the game has loaded (CSA).
    RunningScript(String),
    /// A script that the user starts from the menu (CSI).
    LazyScript(String),
    /// A JavaScript script.
    JsScript(String),
    /// A file of texts (FXT).
    KeyValFile(String),
    /// A replacement for a file inside the archive with the given name (a
    /// file in a top-level folder whose name has the extension "img").
    ArchSwap(String, String),
    /// A replacement for a game file (a file in the "Replace" folder).
    Swap(String),
}

/// What a file is for, as plain values: a kind number (0 to 5 in the order
/// of `ModRes`'s variants), the archive name for archive replacements, and
/// the path.
pub open spec fn mod_res_view(r: ModRes) -> (int, Seq<char>, Seq<char>) {
    match r {
        ModRes::RunningScript(p) => (0, Seq::empty(), p@),
        ModRes::LazyScript(p) => (1, Seq::empty(), p@),
        ModRes::JsScript(p) => (2, Seq::empty(), p@),
        ModRes::KeyValFile(p) => (3, Seq::empty(), p@),
        ModRes::ArchSwap(a, p) => (4, a@, p@),
        ModRes::Swap(p) => (5, Seq::empty(), p@),
    }
}

/// The position of the last `.` in `name`, if it has one.
pub open spec fn last_dot(name: Seq<char>) -> Option<int>
    decreases name.len(),
{
    if name.len() == 0 {
        None
    } else if name.last() == '.' {
        Some(name.len() - 1)
    } else {
        last_dot(name.drop_last())
    }
}

/// The extension of the file name `name`, as `Path::extension` gives it:
/// the part after the last `.`, unless there is no `.` or the only one
/// starts the name.
pub open spec fn spec_extension(name: Seq<char>) -> Option<Seq<char>> {
    match last_dot(name) {
        None => None,
        Some(i) => if i == 0 {
            None
        } else {
            Some(name.skip(i + 1))
        },
    }
}

/// The file name of the instruction file that CLEO puts in the folder of
/// replacements for the archive `archive`.
pub open spec fn spec_instruction_file_name(archive: Seq<char>) -> Seq<char> {
    "put files to go inside "@ + archive + " here"@
}

/// What a file is for, from its path `path`, its path's components
/// relative to the CLEO folder (`None` if it is not inside it), and whether
/// it is a folder or a file: the kind number (see `mod_res_view`) and the
/// archive name, or `None` if CLEO does not use it.
pub open spec fn spec_classify(relative: Option<Seq<Seq<char>>>, is_dir: bool, is_file: bool) -> Option<
    (int, Seq<char>),
> {
    if is_dir {
        None
    } else {
        match relative {
            None => None,
            Some(parts) => if parts.len() == 0 {
                None
            } else {
                let name = parts.last();
                match spec_extension(name) {
                    None => None,
                    Some(ext) => {
                        let first = parts[0];
                        if first == "Replace"@ || first == "replace"@ {
                            Some((5, Seq::empty()))
                        } else if spec_extension(first) is Some && str_lowercase(
                            spec_extension(first).unwrap(),
                        ) == "img"@ {
                            let archive = str_lowercase(first);
                            if name == spec_instruction_file_name(archive) {
                                None
                            } else {
                                Some((4, archive))
                            }
                        } else {
                            let e = str_lowercase(ext);
                            if e == "csa"@ {
                                Some((0, Seq::empty()))
                            } else if e == "csi"@ {
                                Some((1, Seq::empty()))
                            } else if e == "js"@ {
                                Some((2, Seq::empty()))
                            } else if e == "fxt"@ {
                                Some((3, Seq::empty()))
                            } else {
                                None
                            }
                        }
                    },
                }
            },
        }
    }
}

/// Returns the extension of the file name `name` (see `spec_extension`).
pub fn extension(name: &str) -> (ext: Option<String>)
    ensures
        match ext {
            Some(e) => spec_extension(name@) == Some(e@),
            None => spec_extension(name@) is None,
        },
{
    let n = name.unicode_len();
    let mut i = n;
    proof {
        assert(name@.take(n as int) =~= name@);
    }
    while i > 0 && name.get_char(i - 1) != '.'
        invariant
            n == name@.len(),
            0 <= i <= n,
            last_dot(name@) == last_dot(name@.take(i as int)),
        decreases i,
    {
        proof {
            assert(name@.take(i as int).drop_last() =~= name@.take(i - 1));
        }
        i = i - 1;
    }
    if i == 0 {
        proof {
            assert(name@.take(0) =~= Seq::<char>::empty());
        }
        return None;
    }
    proof {
        assert(name@.take(i as int).last() == '.');
    }
    if i == 1 {
        return None;
    }
    let mut ext = String::new();
    let mut k = i;
    while k < n
        invariant
            n == name@.len(),
            1 < i <= k <= n,
            ext@ == name@.subrange(i as int, k as int),
        decreases n - k,
    {
        crate::scripts::bytes::string_push(&mut ext, name.get_char(k));
        proof {
            assert(name@.subrange(i as int, k + 1) =~= name@.subrange(i as int, k as int).push(
                name@[k as int],
            ));
        }
        k = k + 1;
    }
    proof {
        assert(name@.skip(i as int) =~= name@.subrange(i as int, n as int));
    }
    Some(ext)
}

/// Returns `true` if `s` is exactly `word` (both plain text).
fn is_word(s: &str, word: &str) -> (yes: bool)
    ensures
        yes == (s@ == word@),
{
    crate::chars::same_text(s, word)
}

impl ModRes {
    /// Classifies the file at `path`, given its components relative to the
    /// CLEO folder (`None` if it is not inside it) and whether it is a
    /// folder or a file. Returns `None` for files CLEO does not use:
    /// folders, files without an extension, the instruction files in archive
    /// folders, and unknown extensions.
    pub fn from_path(path: String, relative: Option<Vec<String>>, is_dir: bool, is_file: bool) -> (res:
        Option<ModRes>)
        ensures
            match res {
                Some(r) => mod_res_view(r).2 == path@ && spec_classify(
                    match relative {
                        Some(v) => Some(v@.map_values(|s: String| s@)),
                        None => None,
                    },
                    is_dir,
                    is_file,
                ) == Some((mod_res_view(r).0, mod_res_view(r).1)),
                None => spec_classify(
                    match relative {
                        Some(v) => Some(v@.map_values(|s: String| s@)),
                        None => None,
                    },
                    is_dir,
                    is_file,
                ) is None,
            },
    {
        if is_dir {
            return None;
        }
        let parts = match relative {
            Some(v) => v,
            None => return None,
        };
        let ghost pv = parts@.map_values(|s: String| s@);
        if parts.len() == 0 {
            return None;
        }
        let name = &parts[parts.len() - 1];
        proof {
            assert(pv.last() == name@);
            assert(pv[0] == parts@[0]@);
        }
        let ext = match extension(name.as_str()) {
            Some(e) => e,
            None => return None,
        };
        let first = &parts[0];
        if is_word(first.as_str(), "Replace") || is_word(first.as_str(), "replace") {
            return Some(ModRes::Swap(path));
        }
        let in_archive = match extension(first.as_str()) {
            Some(first_ext) => {
                let lower = to_lowercase(first_ext.as_str());
                is_word(lower.as_str(), "img")
            },
            None => false,
        };
        if in_archive {
            let archive = to_lowercase(first.as_str());
            let mut instruction = "put files to go inside ".to_owned();
            instruction.append(archive.as_str());
            instruction.append(" here");
            if crate::chars::same_text(name.as_str(), instruction.as_str()) {
                return None;
            }
            return Some(ModRes::ArchSwap(archive, path));
        }
        let e = to_lowercase(ext.as_str());
        if is_word(e.as_str(), "csa") {
            Some(ModRes::RunningScript(path))
        } else if is_word(e.as_str(), "csi") {
            Some(ModRes::LazyScript(path))
        } else if is_word(e.as_str(), "js") {
            Some(ModRes::JsScript(path))
        } else if is_word(e.as_str(), "fxt") {
            Some(ModRes::KeyValFile(path))
        } else {
            None
        }
    }
}

/// What `PathBuf::set_file_name` makes of `path` with the file name `name`,
/// as text.
pub uninterp spec fn path_with_file_name(path: Seq<char>, name: Seq<char>) -> Seq<char>;

/// `PathBuf::set_file_name`: `path` with its last component replaced by
/// `name` (or `name` added where it has none), as text.
#[verifier::external_body]
fn with_file_name(path: &str, name: &str) -> (renamed: String)
    ensures
        renamed@ == path_with_file_name(path@, name@),
{
    let mut p = std::path::PathBuf::from(path);
    p.set_file_name(name);
    p.display().to_string()
}

/// The path of `resource_name` in the app's Documents folder, which lies
/// beside its temporary folder `temp_dir`.
pub open spec fn spec_documents_path(temp_dir: Seq<char>, resource_name: Seq<char>) -> Seq<char> {
    path_joined(path_with_file_name(temp_dir, "Documents"@), resource_name)
}

/// Returns the path of `resource_name` in the Documents folder beside the
/// temporary folder `temp_dir`.
pub fn get_documents_path(temp_dir: &str, resource_name: &str) -> (path: String)
    ensures
        path@ == spec_documents_path(temp_dir@, resource_name@),
{
    let documents = with_file_name(temp_dir, "Documents");
    join_path(documents.as_str(), resource_name)
}

/// Returns the path of CLEO's folder, given the temporary folder `temp_dir`.
pub fn cleo_dir_path(temp_dir: &str) -> (path: String)
    ensures
        path@ == spec_documents_path(temp_dir@, "CLEO"@),
{
    get_documents_path(temp_dir, "CLEO")
}

/// Returns the path of CLEO's log file, given the temporary folder
/// `temp_dir`.
pub fn get_log_path(temp_dir: &str) -> (path: String)
    ensures
        path@ == path_joined(spec_documents_path(temp_dir@, "CLEO"@), "cleo.log"@),
{
    let dir = cleo_dir_path(temp_dir);
    join_path(dir.as_str(), "cleo.log")
}

/// Returns the path of the shader cache, given the temporary folder
/// `temp_dir`.
pub fn shaders_path(temp_dir: &str) -> (path: String)
    ensures
        path@ == spec_documents_path(temp_dir@, "shaders"@),
{
    get_documents_path(temp_dir, "shaders")
}

/// What `Path::strip_prefix` and `Path::components` make of `path` below
/// the folder `base`: the text of each component, or `None` if `path` is not
/// below `base`.
pub uninterp spec fn path_components_below(path: Seq<char>, base: Seq<char>) -> Option<
    Seq<Seq<char>>,
>;

/// `Path::strip_prefix` then `Path::components`: the components of `path`
/// below the folder `base`, if it lies below it.
#[verifier::external_body]
fn components_below(path: &str, base: &str) -> (parts: Option<Vec<String>>)
    ensures
        match parts {
            Some(v) => path_components_below(path@, base@) == Some(v@.map_values(|s: String| s@)),
            None => path_components_below(path@, base@) is None,
        },
{
    let relative = std::path::Path::new(path).strip_prefix(base).ok()?;
    Some(relative.components().map(|c| c.as_os_str().to_string_lossy().into_owned()).collect())
}

impl ModRes {
    /// Classifies the file at `path` in the CLEO folder `cleo_dir` (see
    /// `from_path`), given whether it is a folder or a file.
    pub fn in_cleo_dir(path: String, cleo_dir: &str, is_dir: bool, is_file: bool) -> (res: Option<
        ModRes,
    >)
        ensures
            match res {
                Some(r) => mod_res_view(r).2 == path@ && spec_classify(
                    path_components_below(path@, cleo_dir@),
                    is_dir,
                    is_file,
                ) == Some((mod_res_view(r).0, mod_res_view(r).1)),
                None => spec_classify(path_components_below(path@, cleo_dir@), is_dir, is_file)
                    is None,
            },
    {
        let relative = components_below(path.as_str(), cleo_dir);
        ModRes::from_path(path, relative, is_dir, is_file)
    }
}

} // verus!
