//! Choosing among the releases published on GitHub: which are offered to
//! the user, and which is the newest.

use crate::github::{same_or_newer, spec_parse_version, version_rank, Version};
use vstd::prelude::*;

verus! {

/// The release that a GitHub release entry (its tag and page address, either
/// of which may be missing) offers: `None` if a field is missing, the tag is
/// not a valid version, or it is a pre-release and those are not wanted.
pub open spec fn spec_release_entry(
    tag: Option<Seq<char>>,
    url: Option<Seq<char>>,
    include_alpha: bool,
) -> Option<(Version, Seq<char>)> {
    match (tag, url) {
        (Some(t), Some(u)) => match spec_parse_version(t) {
            Some(v) => if !include_alpha && v is Alpha {
                None
            } else {
                Some((v, u))
            },
            None => None,
        },
        _ => None,
    }
}

/// The releases offered by the entries `entries`, in their order.
pub open spec fn spec_select_releases(
    entries: Seq<(Option<Seq<char>>, Option<Seq<char>>)>,
    include_alpha: bool,
) -> Seq<(Version, Seq<char>)>
    decreases entries.len(),
{
    if entries.len() == 0 {
        Seq::empty()
    } else {
        let rest = spec_select_releases(entries.drop_last(), include_alpha);
        match spec_release_entry(entries.last().0, entries.last().1, include_alpha) {
            Some(r) => rest.push(r),
            None => rest,
        }
    }
}

/// The text of an optional string.
pub open spec fn opt_text(s: Option<String>) -> Option<Seq<char>> {
    match s {
        Some(t) => Some(t@),
        None => None,
    }
}

/// Release entries (tag and page address of each) as plain values.
pub open spec fn entries_view(entries: Seq<(Option<String>, Option<String>)>) -> Seq<
    (Option<Seq<char>>, Option<Seq<char>>),
> {
    entries.map_values(|e: (Option<String>, Option<String>)| (opt_text(e.0), opt_text(e.1)))
}

/// The versions and page addresses of `releases`, as plain values.
pub open spec fn release_view(releases: Seq<(Version, String)>) -> Seq<(Version, Seq<char>)> {
    releases.map_values(|r: (Version, String)| (r.0, r.1@))
}

/// Returns the releases among the GitHub release entries `entries` (tag and
/// page address of each), skipping entries with a missing field or an
/// invalid tag, and pre-releases unless `include_alpha` is `true`.
pub fn select_releases(entries: &Vec<(Option<String>, Option<String>)>, include_alpha: bool) -> (r:
    Vec<(Version, String)>)
    ensures
        release_view(r@) == spec_select_releases(entries_view(entries@), include_alpha),
{
    let mut out: Vec<(Version, String)> = Vec::new();
    let mut i: usize = 0;
    while i < entries.len()
        invariant
            0 <= i <= entries@.len(),
            release_view(out@) == spec_select_releases(
                entries_view(entries@).take(i as int),
                include_alpha,
            ),
        decreases entries@.len() - i,
    {
        proof {
            assert(entries_view(entries@).take(i + 1).drop_last() =~= entries_view(entries@).take(
                i as int,
            ));
            assert(entries_view(entries@).take(i + 1).last() == (
                opt_text(entries@[i as int].0),
                opt_text(entries@[i as int].1),
            ));
        }
        let entry = &entries[i];
        match (&entry.0, &entry.1) {
            (Some(tag), Some(url)) => match Version::parse(tag.as_str()) {
                Some(v) => {
                    if include_alpha || !v.is_alpha() {
                        let ghost before = out@;
                        out.push((v, url.clone()));
                        proof {
                            assert(release_view(out@) =~= release_view(before).push((v, url@)));
                        }
                    }
                },
                None => {},
            },
            _ => {},
        }
        i = i + 1;
    }
    proof {
        assert(entries_view(entries@).take(entries@.len() as int) =~= entries_view(entries@));
    }
    out
}

/// Returns the position of the newest of `releases`: the last of them if
/// several share the newest version. Returns `None` if there are none.
pub fn latest_release(releases: &Vec<(Version, String)>) -> (latest: Option<usize>)
    ensures
        match latest {
            Some(k) => k < releases@.len() && (forall|j: int|
                0 <= j < releases@.len() ==> version_rank(releases@[j].0) <= version_rank(
                    releases@[k as int].0,
                )) && (forall|j: int|
                k < j < releases@.len() ==> version_rank(releases@[j].0) < version_rank(
                    releases@[k as int].0,
                )),
            None => releases@.len() == 0,
        },
{
    if releases.len() == 0 {
        return None;
    }
    let mut best: usize = 0;
    let mut i: usize = 1;
    while i < releases.len()
        invariant
            0 <= best < i <= releases@.len(),
            forall|j: int| 0 <= j < i ==> version_rank(releases@[j].0) <= version_rank(
                releases@[best as int].0,
            ),
            forall|j: int| best < j < i ==> version_rank(releases@[j].0) < version_rank(
                releases@[best as int].0,
            ),
        decreases releases@.len() - i,
    {
        if same_or_newer(&releases[i].0, &releases[best].0) {
            best = i;
        }
        i = i + 1;
    }
    Some(best)
}

/// What the JSON text `json` holds as a list of releases, if it is a JSON
/// array: for each element, the text of its `tag_key` and `url_key` fields,
/// each `None` where the element has no such field or it is not a string.
/// `None` if `json` is not valid JSON or not an array.
pub uninterp spec fn releases_json(json: Seq<u8>, tag_key: Seq<char>, url_key: Seq<char>) -> Option<
    Seq<(Option<Seq<char>>, Option<Seq<char>>)>,
>;

/// `serde_json::from_slice` into a `serde_json::Value`, read as an array of
/// objects: the string fields `tag_key` and `url_key` of each element.
#[verifier::external_body]
fn release_fields(json: &[u8], tag_key: &str, url_key: &str) -> (fields: Option<
    Vec<(Option<String>, Option<String>)>,
>)
    ensures
        match fields {
            Some(v) => releases_json(json@, tag_key@, url_key@) == Some(entries_view(v@)),
            None => releases_json(json@, tag_key@, url_key@) is None,
        },
{
    let value: serde_json::Value = serde_json::from_slice(json).ok()?;
    let text = |v: &serde_json::Value, key: &str| v.get(key).and_then(|f| f.as_str()).map(str::to_string);
    Some(value.as_array()?.iter().map(|r| (text(r, tag_key), text(r, url_key))).collect())
}

/// Returns the releases that the GitHub release list `json` offers (see
/// `select_releases`), reading each release's `tag_name` and `html_url`.
/// Returns `None` if `json` is not a JSON array.
pub fn releases_from_json(json: &[u8], include_alpha: bool) -> (r: Option<Vec<(Version, String)>>)
    ensures
        match r {
            Some(rs) => releases_json(json@, "tag_name"@, "html_url"@) matches Some(es)
                && release_view(rs@) == spec_select_releases(es, include_alpha),
            None => releases_json(json@, "tag_name"@, "html_url"@) is None,
        },
{
    match release_fields(json, "tag_name", "html_url") {
        Some(entries) => Some(select_releases(&entries, include_alpha)),
        None => None,
    }
}

} // verus!
