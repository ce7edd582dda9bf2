//! CLEO release versions as tagged on GitHub: reading a tag, ordering
//! versions, and choosing the releases a user is offered.

use crate::chars::{head_before, parse_u8, spec_parse_u8, split_first, tail_after};
use std::cmp::Ordering;
use vstd::prelude::*;

pub mod releases;

verus! {

/// A version number in the format "x.y.z".
#[derive(Clone, Copy, PartialEq, Eq, Structural, Debug)]
pub struct VersionNumber {
    /// The major version number.
    pub major: u8,
    /// The minor version number.
    pub minor: u8,
    /// The patch number.
    pub patch: u8,
}

/// A version of CLEO.
#[derive(Clone, Copy, PartialEq, Eq, Structural, Debug)]
pub enum Version {
    /// A release version.
    Release(VersionNumber),
    /// A pre-release version with its pre-release number.
    Alpha(VersionNumber, u8),
}

/// The word that marks a pre-release tag.
pub open spec fn alpha_word() -> Seq<char> {
    seq!['a', 'l', 'p', 'h', 'a']
}

/// The version that the tag `s` names: "x.y.z" for a release, and
/// "x.y.z-alpha" or "x.y.z-alpha.n" for a pre-release (a missing "n" is 0).
/// Each of x, y, z and n is read as `str::parse::<u8>` reads it; the patch
/// segment is everything after the second dot, read up to its first `-`, and
/// the pre-release part ends at the next `-`.
pub open spec fn spec_parse_version(s: Seq<char>) -> Option<Version> {
    match tail_after(s, '.') {
        None => None,
        Some(r1) => match tail_after(r1, '.') {
            None => None,
            Some(third) => {
                let major = spec_parse_u8(head_before(s, '.'));
                let minor = spec_parse_u8(head_before(r1, '.'));
                let patch = spec_parse_u8(head_before(third, '-'));
                if major is None || minor is None || patch is None {
                    None
                } else {
                    let n = VersionNumber {
                        major: major.unwrap(),
                        minor: minor.unwrap(),
                        patch: patch.unwrap(),
                    };
                    match tail_after(third, '-') {
                        None => Some(Version::Release(n)),
                        Some(after) => {
                            let alpha = head_before(after, '-');
                            let rev = match tail_after(alpha, '.') {
                                None => Some(0u8),
                                Some(r) => spec_parse_u8(r),
                            };
                            if rev is None || head_before(alpha, '.') != alpha_word() {
                                None
                            } else {
                                Some(Version::Alpha(n, rev.unwrap()))
                            }
                        },
                    }
                }
            },
        },
    }
}

/// The position of a version number in version order.
pub open spec fn number_rank(n: VersionNumber) -> int {
    (n.major * 256 + n.minor) * 256 + n.patch
}

/// The position of a version in version order: by number, and for equal
/// numbers a pre-release (by its pre-release number) before the release.
pub open spec fn version_rank(v: Version) -> int {
    match v {
        Version::Release(n) => (number_rank(n) * 2 + 1) * 256,
        Version::Alpha(n, pre) => number_rank(n) * 2 * 256 + pre,
    }
}

/// Comparing `x * base + y` with `x2 * base + y2` for digits `y`, `y2`
/// below `base` compares `x` first and then `y`.
proof fn lemma_mixed_radix(x: int, y: int, x2: int, y2: int, base: int)
    by (nonlinear_arith)
    requires
        base > 0,
        0 <= y < base,
        0 <= y2 < base,
    ensures
        (x * base + y < x2 * base + y2) == (x < x2 || (x == x2 && y < y2)),
        (x * base + y == x2 * base + y2) == (x == x2 && y == y2),
{
}

/// Version numbers are ordered by major, then minor, then patch number.
pub proof fn lemma_number_rank_order(a: VersionNumber, b: VersionNumber)
    ensures
        (number_rank(a) < number_rank(b)) == (a.major < b.major || (a.major == b.major && (a.minor
            < b.minor || (a.minor == b.minor && a.patch < b.patch)))),
        (number_rank(a) == number_rank(b)) == (a == b),
        0 <= number_rank(a) < 256 * 256 * 256,
{
    lemma_mixed_radix(a.major as int, a.minor as int, b.major as int, b.minor as int, 256);
    lemma_mixed_radix(
        a.major * 256 + a.minor,
        a.patch as int,
        b.major * 256 + b.minor,
        b.patch as int,
        256,
    );
    assert(0 <= a.major * 256 + a.minor < 256 * 256) by (nonlinear_arith)
        requires
            0 <= a.major < 256,
            0 <= a.minor < 256,
    ;
    assert(0 <= number_rank(a) < 256 * 256 * 256) by (nonlinear_arith)
        requires
            0 <= a.major * 256 + a.minor < 256 * 256,
            0 <= a.patch < 256,
            number_rank(a) == (a.major * 256 + a.minor) * 256 + a.patch,
    ;
}

/// Versions are ordered by number; for the same number the release comes
/// after all of its pre-releases, which are ordered by pre-release number.
/// No two different versions share a position.
pub proof fn lemma_version_rank_order(a: Version, b: Version)
    ensures
        (version_rank(a) == version_rank(b)) == (a == b),
        match (a, b) {
            (Version::Release(m), Version::Alpha(n, _)) => (version_rank(a) > version_rank(b)) == (
            number_rank(m) >= number_rank(n)),
            (Version::Alpha(m, p), Version::Alpha(n, q)) => (version_rank(a) < version_rank(b)) == (
            number_rank(m) < number_rank(n) || (m == n && p < q)),
            (Version::Release(m), Version::Release(n)) => (version_rank(a) < version_rank(b)) == (
            number_rank(m) < number_rank(n)),
            (Version::Alpha(m, _), Version::Release(n)) => (version_rank(a) < version_rank(b)) == (
            number_rank(m) <= number_rank(n)),
        },
{
    match (a, b) {
        (Version::Release(m), Version::Release(n)) => {
            lemma_number_rank_order(m, n);
            lemma_mixed_radix(number_rank(m) * 2 + 1, 0, number_rank(n) * 2 + 1, 0, 256);
        },
        (Version::Release(m), Version::Alpha(n, q)) => {
            lemma_number_rank_order(m, n);
            lemma_mixed_radix(number_rank(m), 1, number_rank(n), 0, 2);
            lemma_mixed_radix(number_rank(m) * 2 + 1, 0, number_rank(n) * 2, q as int, 256);
            assert(number_rank(n) * 2 * 256 == (number_rank(n) * 2) * 256);
        },
        (Version::Alpha(m, p), Version::Release(n)) => {
            lemma_number_rank_order(m, n);
            lemma_mixed_radix(number_rank(m), 0, number_rank(n), 1, 2);
            lemma_mixed_radix(number_rank(m) * 2, p as int, number_rank(n) * 2 + 1, 0, 256);
            assert(number_rank(m) * 2 * 256 == (number_rank(m) * 2) * 256);
        },
        (Version::Alpha(m, p), Version::Alpha(n, q)) => {
            lemma_number_rank_order(m, n);
            lemma_mixed_radix(number_rank(m), 0, number_rank(n), 0, 2);
            lemma_mixed_radix(number_rank(m) * 2, p as int, number_rank(n) * 2, q as int, 256);
            assert(number_rank(m) * 2 * 256 == (number_rank(m) * 2) * 256);
            assert(number_rank(n) * 2 * 256 == (number_rank(n) * 2) * 256);
        },
    }
}

/// A release is newer than every pre-release of the same number.
pub proof fn lemma_release_after_its_alphas(n: VersionNumber, pre: u8)
    ensures
        version_rank(Version::Release(n)) > version_rank(Version::Alpha(n, pre)),
{
    lemma_version_rank_order(Version::Release(n), Version::Alpha(n, pre));
}

/// `s[from..to]` is the word "alpha".
fn is_alpha_word(s: &str, from: usize, to: usize) -> (yes: bool)
    requires
        from <= to <= s@.len(),
    ensures
        yes == (s@.subrange(from as int, to as int) == alpha_word()),
{
    if to - from != 5 {
        proof {
            assert(s@.subrange(from as int, to as int).len() != alpha_word().len());
        }
        return false;
    }
    let yes = s.get_char(from) == 'a' && s.get_char(from + 1) == 'l' && s.get_char(from + 2) == 'p'
        && s.get_char(from + 3) == 'h' && s.get_char(from + 4) == 'a';
    proof {
        if yes {
            assert(s@.subrange(from as int, to as int) =~= alpha_word());
        } else {
            let sub = s@.subrange(from as int, to as int);
            if sub == alpha_word() {
                assert(sub[0] == 'a' && sub[1] == 'l' && sub[2] == 'p' && sub[3] == 'h' && sub[4]
                    == 'a');
            }
        }
    }
    yes
}

impl VersionNumber {
    /// Compares two version numbers: by major, then minor, then patch number.
    pub fn cmp(&self, other: &VersionNumber) -> (o: Ordering)
        ensures
            o == Ordering::Less <==> number_rank(*self) < number_rank(*other),
            o == Ordering::Equal <==> *self == *other,
            o == Ordering::Greater <==> number_rank(*self) > number_rank(*other),
    {
        proof {
            lemma_number_rank_order(*self, *other);
            lemma_number_rank_order(*other, *self);
        }
        if self.major != other.major {
            if self.major < other.major {
                return Ordering::Less;
            } else {
                return Ordering::Greater;
            }
        }
        if self.minor != other.minor {
            if self.minor < other.minor {
                return Ordering::Less;
            } else {
                return Ordering::Greater;
            }
        }
        if self.patch != other.patch {
            if self.patch < other.patch {
                return Ordering::Less;
            } else {
                return Ordering::Greater;
            }
        }
        Ordering::Equal
    }
}

impl Version {
    /// Parses the given version tag. Returns `None` if the tag is invalid.
    pub fn parse(string: &str) -> (v: Option<Version>)
        ensures
            v == spec_parse_version(string@),
    {
        let n = string.unicode_len();
        proof {
            assert(string@.subrange(0, n as int) =~= string@);
        }
        let (e1, r1) = split_first(string, 0, n, '.');
        let r1 = match r1 {
            Some(r) => r,
            None => return None,
        };
        let (e2, r2) = split_first(string, r1, n, '.');
        let r2 = match r2 {
            Some(r) => r,
            None => return None,
        };
        let (e3, r3) = split_first(string, r2, n, '-');
        let major = parse_u8(string, 0, e1);
        let minor = parse_u8(string, r1, e2);
        let patch = parse_u8(string, r2, e3);
        if major.is_none() || minor.is_none() || patch.is_none() {
            return None;
        }
        let number = VersionNumber {
            major: major.unwrap(),
            minor: minor.unwrap(),
            patch: patch.unwrap(),
        };
        match r3 {
            None => Some(Version::Release(number)),
            Some(a) => {
                let (e4, _) = split_first(string, a, n, '-');
                let (e5, r5) = split_first(string, a, e4, '.');
                let rev = match r5 {
                    None => Some(0u8),
                    Some(r) => parse_u8(string, r, e4),
                };
                if rev.is_none() || !is_alpha_word(string, a, e5) {
                    return None;
                }
                Some(Version::Alpha(number, rev.unwrap()))
            },
        }
    }

    /// Returns `true` if this version is an alpha version.
    pub fn is_alpha(&self) -> (alpha: bool)
        ensures
            alpha == (*self is Alpha),
    {
        match self {
            Version::Alpha(_, _) => true,
            Version::Release(_) => false,
        }
    }

    /// Compares two versions: by number, and for equal numbers the release
    /// after its pre-releases, which go by pre-release number.
    pub fn cmp(&self, other: &Version) -> (o: Ordering)
        ensures
            o == Ordering::Less <==> version_rank(*self) < version_rank(*other),
            o == Ordering::Equal <==> *self == *other,
            o == Ordering::Greater <==> version_rank(*self) > version_rank(*other),
    {
        proof {
            lemma_version_rank_order(*self, *other);
            lemma_version_rank_order(*other, *self);
        }
        match (self, other) {
            (Version::Release(this), Version::Release(that)) => this.cmp(that),
            (Version::Release(this), Version::Alpha(that, _)) => match this.cmp(that) {
                Ordering::Equal => Ordering::Greater,
                o => o,
            },
            (Version::Alpha(this, _), Version::Release(that)) => match this.cmp(that) {
                Ordering::Equal => Ordering::Less,
                o => o,
            },
            (Version::Alpha(this, this_pre), Version::Alpha(that, that_pre)) => match this.cmp(
                that,
            ) {
                Ordering::Equal => {
                    if *this_pre < *that_pre {
                        Ordering::Less
                    } else if *this_pre == *that_pre {
                        Ordering::Equal
                    } else {
                        Ordering::Greater
                    }
                },
                o => o,
            },
        }
    }
}

/// Returns `true` if `a` is the same version as `b` or a newer one.
pub fn same_or_newer(a: &Version, b: &Version) -> (yes: bool)
    ensures
        yes == (version_rank(*a) >= version_rank(*b)),
{
    match a.cmp(b) {
        Ordering::Less => false,
        _ => true,
    }
}

} // verus!
