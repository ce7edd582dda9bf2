//! FXT files: lines of a key, a space and the text stored under the key.
//! Comments start at `//` or `#`; blank lines are skipped.

use crate::chars::{chars_of, first_of, has_char, is_first, lemma_first_unique};
use crate::scripts::bytes::string_push;
use crate::text::{set_kv, spec_utf16, CustomStrings};
use vstd::prelude::*;

verus! {

/// White space as `char::is_whitespace` has it: the Unicode White_Space
/// property.
pub open spec fn is_white(c: char) -> bool {
    let u = c as u32;
    ||| 0x9 <= u <= 0xd
    ||| u == 0x20
    ||| u == 0x85
    ||| u == 0xa0
    ||| u == 0x1680
    ||| 0x2000 <= u <= 0x200a
    ||| u == 0x2028
    ||| u == 0x2029
    ||| u == 0x202f
    ||| u == 0x205f
    ||| u == 0x3000
}

/// Returns `true` if `c` is white space.
pub fn white(c: char) -> (w: bool)
    ensures
        w == is_white(c),
{
    let u = c as u32;
    (0x9 <= u && u <= 0xd) || u == 0x20 || u == 0x85 || u == 0xa0 || u == 0x1680 || (0x2000 <= u
        && u <= 0x200a) || u == 0x2028 || u == 0x2029 || u == 0x202f || u == 0x205f || u == 0x3000
}

/// `s` without its leading white space.
pub open spec fn spec_trim_start(s: Seq<char>) -> Seq<char>
    decreases s.len(),
{
    if s.len() > 0 && is_white(s[0]) {
        spec_trim_start(s.drop_first())
    } else {
        s
    }
}

/// `s` without its trailing white space.
pub open spec fn spec_trim_end(s: Seq<char>) -> Seq<char>
    decreases s.len(),
{
    if s.len() > 0 && is_white(s.last()) {
        spec_trim_end(s.drop_last())
    } else {
        s
    }
}

/// `s` without white space at either end, as `str::trim` gives it.
pub open spec fn spec_trim(s: Seq<char>) -> Seq<char> {
    spec_trim_end(spec_trim_start(s))
}

/// A comment starts at `p` in `l`: a `#`, or two slashes.
pub open spec fn comment_at(l: Seq<char>, p: int) -> bool {
    l[p] == '#' || (p + 1 < l.len() && l[p] == '/' && l[p + 1] == '/')
}

/// `p` is where the first comment of `l` starts.
pub open spec fn first_comment(l: Seq<char>, p: int) -> bool {
    &&& 0 <= p < l.len()
    &&& comment_at(l, p)
    &&& forall|q: int| 0 <= q < p ==> !comment_at(l, q)
}

/// The part of `l` before its first comment.
pub open spec fn spec_uncommented(l: Seq<char>) -> Seq<char> {
    if exists|p: int| first_comment(l, p) {
        l.take(choose|p: int| first_comment(l, p))
    } else {
        l
    }
}

/// The key and text of the line `l`: what is left without its comment and
/// the white space round it, split at its first space. `None` for a line
/// that is blank or has no space.
pub open spec fn spec_fxt_entry(l: Seq<char>) -> Option<(Seq<char>, Seq<char>)> {
    let body = spec_trim(spec_uncommented(l));
    if body.len() > 0 && has_char(body, ' ') {
        let k = first_of(body, ' ');
        Some((body.take(k), body.skip(k + 1)))
    } else {
        None
    }
}

/// The lines of `s`: the pieces between its newlines.
pub open spec fn spec_split_lines(s: Seq<char>) -> Seq<Seq<char>>
    decreases s.len(),
{
    if s.len() == 0 {
        seq![Seq::empty()]
    } else {
        let prev = spec_split_lines(s.drop_last());
        if s.last() == '\n' {
            prev.push(Seq::empty())
        } else {
            prev.update(prev.len() - 1, prev.last().push(s.last()))
        }
    }
}

/// The entries of the lines `ls`, in order.
pub open spec fn entries_of_lines(ls: Seq<Seq<char>>) -> Seq<(Seq<char>, Seq<char>)>
    decreases ls.len(),
{
    if ls.len() == 0 {
        Seq::empty()
    } else {
        let rest = entries_of_lines(ls.drop_last());
        match spec_fxt_entry(ls.last()) {
            Some(e) => rest.push(e),
            None => rest,
        }
    }
}

/// The entries of the FXT text `s`, in order.
pub open spec fn spec_fxt_entries(s: Seq<char>) -> Seq<(Seq<char>, Seq<char>)> {
    entries_of_lines(spec_split_lines(s))
}

/// The strings after storing the entries `es` in order into `m`, and the
/// number of entries whose key already had a string.
pub open spec fn spec_fxt_apply(m: Map<Seq<char>, Seq<u16>>, es: Seq<(Seq<char>, Seq<char>)>) -> (
    Map<Seq<char>, Seq<u16>>,
    nat,
)
    decreases es.len(),
{
    if es.len() == 0 {
        (m, 0)
    } else {
        let (m1, c1) = spec_fxt_apply(m, es.drop_last());
        let (k, v) = es.last();
        (m1.insert(k, spec_utf16(v).push(0)), c1 + if m1.contains_key(k) {
            1nat
        } else {
            0nat
        })
    }
}

/// The text of the last of the entries `es` with key `k`, if any.
pub open spec fn last_text(es: Seq<(Seq<char>, Seq<char>)>, k: Seq<char>) -> Option<Seq<char>>
    decreases es.len(),
{
    if es.len() == 0 {
        None
    } else if es.last().0 == k {
        Some(es.last().1)
    } else {
        last_text(es.drop_last(), k)
    }
}

/// After loading entries, a key has the text of its last entry (as
/// zero-terminated UTF-16); a key without entries keeps what it had.
pub proof fn lemma_fxt_last_entry_wins(
    m: Map<Seq<char>, Seq<u16>>,
    es: Seq<(Seq<char>, Seq<char>)>,
    k: Seq<char>,
)
    ensures
        match last_text(es, k) {
            Some(t) => spec_fxt_apply(m, es).0.contains_key(k) && spec_fxt_apply(m, es).0[k]
                == spec_utf16(t).push(0),
            None => spec_fxt_apply(m, es).0.contains_key(k) == m.contains_key(k) && (
            m.contains_key(k) ==> spec_fxt_apply(m, es).0[k] == m[k]),
        },
    decreases es.len(),
{
    if es.len() > 0 {
        lemma_fxt_last_entry_wins(m, es.drop_last(), k);
    }
}

/// The plain values of key-text pairs.
pub open spec fn pairs_view(ps: Seq<(String, String)>) -> Seq<(Seq<char>, Seq<char>)> {
    ps.map_values(|p: (String, String)| (p.0@, p.1@))
}

/// Returns the characters `chars[from..to]` as a string.
fn text_of(chars: &Vec<char>, from: usize, to: usize) -> (s: String)
    requires
        from <= to <= chars@.len(),
    ensures
        s@ == chars@.subrange(from as int, to as int),
{
    let mut s = String::new();
    let mut i = from;
    while i < to
        invariant
            from <= i <= to <= chars@.len(),
            s@ == chars@.subrange(from as int, i as int),
        decreases to - i,
    {
        string_push(&mut s, chars[i]);
        proof {
            assert(chars@.subrange(from as int, i + 1) =~= chars@.subrange(from as int, i as int).push(
                chars@[i as int],
            ));
        }
        i = i + 1;
    }
    s
}

/// Returns where the first comment of `chars[from..to]` starts, or `to`.
fn comment_cut(chars: &Vec<char>, from: usize, to: usize) -> (cut: usize)
    requires
        from <= to <= chars@.len(),
    ensures
        from <= cut <= to,
        chars@.subrange(from as int, cut as int) == spec_uncommented(
            chars@.subrange(from as int, to as int),
        ),
{
    let ghost l = chars@.subrange(from as int, to as int);
    let mut p = from;
    while p < to
        invariant
            from <= p <= to <= chars@.len(),
            l == chars@.subrange(from as int, to as int),
            forall|q: int| 0 <= q < p - from ==> !comment_at(l, q),
        decreases to - p,
    {
        let c = chars[p];
        if c == '#' || (p + 1 < to && c == '/' && chars[p + 1] == '/') {
            proof {
                let k = p - from;
                assert(comment_at(l, k));
                assert(first_comment(l, k));
                let j = choose|j: int| first_comment(l, j);
                if j < k {
                    assert(!comment_at(l, j));
                } else if k < j {
                    assert(!comment_at(l, k));
                }
                assert(l.take(k) =~= chars@.subrange(from as int, p as int));
            }
            return p;
        }
        proof {
            assert(!comment_at(l, p - from));
        }
        p = p + 1;
    }
    proof {
        assert(!exists|j: int| first_comment(l, j));
    }
    to
}

/// Returns the bounds of `chars[from..to]` without the white space at
/// either end.
fn trim_bounds(chars: &Vec<char>, from: usize, to: usize) -> (b: (usize, usize))
    requires
        from <= to <= chars@.len(),
    ensures
        from <= b.0 <= b.1 <= to,
        chars@.subrange(b.0 as int, b.1 as int) == spec_trim(chars@.subrange(from as int, to as int)),
{
    let mut a = from;
    while a < to && white(chars[a])
        invariant
            from <= a <= to <= chars@.len(),
            spec_trim_start(chars@.subrange(a as int, to as int)) == spec_trim_start(
                chars@.subrange(from as int, to as int),
            ),
        decreases to - a,
    {
        proof {
            assert(chars@.subrange(a as int, to as int).drop_first() =~= chars@.subrange(
                a + 1,
                to as int,
            ));
        }
        a = a + 1;
    }
    proof {
        assert(spec_trim_start(chars@.subrange(a as int, to as int)) == chars@.subrange(
            a as int,
            to as int,
        ));
    }
    let mut b = to;
    while b > a && white(chars[b - 1])
        invariant
            from <= a <= b <= to <= chars@.len(),
            spec_trim_end(chars@.subrange(a as int, b as int)) == spec_trim_end(
                chars@.subrange(a as int, to as int),
            ),
        decreases b - a,
    {
        proof {
            assert(chars@.subrange(a as int, b as int).drop_last() =~= chars@.subrange(
                a as int,
                b - 1,
            ));
        }
        b = b - 1;
    }
    proof {
        assert(spec_trim_end(chars@.subrange(a as int, b as int)) == chars@.subrange(
            a as int,
            b as int,
        ));
    }
    (a, b)
}

/// Returns the key and text of the line `chars[from..to]`, if it has them.
fn line_entry(chars: &Vec<char>, from: usize, to: usize) -> (e: Option<(String, String)>)
    requires
        from <= to <= chars@.len(),
    ensures
        match e {
            Some((k, v)) => spec_fxt_entry(chars@.subrange(from as int, to as int)) == Some(
                (k@, v@),
            ),
            None => spec_fxt_entry(chars@.subrange(from as int, to as int)) is None,
        },
{
    let cut = comment_cut(chars, from, to);
    let (a, b) = trim_bounds(chars, from, cut);
    let ghost body = chars@.subrange(a as int, b as int);
    if a == b {
        return None;
    }
    let mut k = a;
    while k < b && chars[k] != ' '
        invariant
            a <= k <= b <= chars@.len(),
            body == chars@.subrange(a as int, b as int),
            forall|j: int| 0 <= j < k - a ==> body[j] != ' ',
        decreases b - k,
    {
        k = k + 1;
    }
    if k == b {
        proof {
            assert(!has_char(body, ' '));
        }
        return None;
    }
    proof {
        assert(is_first(body, ' ', k - a));
        assert(has_char(body, ' '));
        lemma_first_unique(body, ' ', k - a, first_of(body, ' '));
        assert(body.take(k - a) =~= chars@.subrange(a as int, k as int));
        assert(body.skip(k - a + 1) =~= chars@.subrange(k + 1, b as int));
    }
    let key = text_of(chars, a, k);
    let value = text_of(chars, k + 1, b);
    Some((key, value))
}

/// Returns the entries of the FXT text `content`, in order.
pub fn fxt_entries(content: &str) -> (es: Vec<(String, String)>)
    ensures
        pairs_view(es@) == spec_fxt_entries(content@),
{
    let chars = chars_of(content);
    let n = chars.len();
    let mut es: Vec<(String, String)> = Vec::new();
    let mut start: usize = 0;
    let mut i: usize = 0;
    let ghost mut done: Seq<Seq<char>> = Seq::empty();
    proof {
        assert(chars@.take(0) =~= Seq::<char>::empty());
        assert(spec_split_lines(chars@.take(0)) =~= done.push(chars@.subrange(0, 0)));
    }
    while i < n
        invariant
            n == chars@.len(),
            0 <= start <= i <= n,
            spec_split_lines(chars@.take(i as int)) == done.push(
                chars@.subrange(start as int, i as int),
            ),
            pairs_view(es@) == entries_of_lines(done),
        decreases n - i,
    {
        let ghost s1 = chars@.take(i + 1);
        proof {
            assert(s1.drop_last() =~= chars@.take(i as int));
            assert(s1.last() == chars@[i as int]);
        }
        if chars[i] == '\n' {
            let ghost line = chars@.subrange(start as int, i as int);
            let ghost before = es@;
            match line_entry(&chars, start, i) {
                Some(e) => {
                    es.push(e);
                    proof {
                        assert(pairs_view(es@) =~= pairs_view(before).push((e.0@, e.1@)));
                    }
                },
                None => {},
            }
            proof {
                assert(done.push(line).drop_last() =~= done);
                done = done.push(line);
                assert(chars@.subrange(i + 1, i + 1) =~= Seq::<char>::empty());
            }
            start = i + 1;
        } else {
            proof {
                assert(chars@.subrange(start as int, i + 1) =~= chars@.subrange(
                    start as int,
                    i as int,
                ).push(chars@[i as int]));
                let prev = done.push(chars@.subrange(start as int, i as int));
                assert(prev.update(prev.len() - 1, prev.last().push(chars@[i as int])) =~= done.push(
                    chars@.subrange(start as int, i + 1),
                ));
            }
        }
        i = i + 1;
    }
    let ghost line = chars@.subrange(start as int, n as int);
    let ghost before = es@;
    match line_entry(&chars, start, n) {
        Some(e) => {
            es.push(e);
            proof {
                assert(pairs_view(es@) =~= pairs_view(before).push((e.0@, e.1@)));
            }
        },
        None => {},
    }
    proof {
        assert(chars@.take(n as int) =~= chars@);
        assert(done.push(line).drop_last() =~= done);
    }
    es
}

/// Stores the entries of the FXT text `content` in `strings`, in order,
/// each replacing any string its key had. Returns the number of entries
/// that replaced one.
pub fn load_fxt(strings: &mut CustomStrings, content: &str) -> (overwrites: usize)
    requires
        old(strings).wf(),
    ensures
        final(strings).wf(),
        (final(strings).view_map(), overwrites as nat) == spec_fxt_apply(
            old(strings).view_map(),
            spec_fxt_entries(content@),
        ),
{
    let es = fxt_entries(content);
    let ghost m0 = strings.view_map();
    let ghost all = pairs_view(es@);
    let mut overwrites: usize = 0;
    let mut j: usize = 0;
    proof {
        assert(all.take(0) =~= Seq::<(Seq<char>, Seq<char>)>::empty());
    }
    while j < es.len()
        invariant
            0 <= j <= es@.len(),
            overwrites <= j,
            all == pairs_view(es@),
            strings.wf(),
            (strings.view_map(), overwrites as nat) == spec_fxt_apply(m0, all.take(j as int)),
        decreases es@.len() - j,
    {
        proof {
            assert(all.take(j + 1).drop_last() =~= all.take(j as int));
            assert(all.take(j + 1).last() == (es@[j as int].0@, es@[j as int].1@));
        }
        let replaced = set_kv(strings, es[j].0.as_str(), es[j].1.as_str());
        if replaced {
            overwrites = overwrites + 1;
        }
        j = j + 1;
    }
    proof {
        assert(all.take(es@.len() as int) =~= all);
    }
    overwrites
}

} // verus!
