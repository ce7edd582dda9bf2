//! Helpers over the characters of strings: finding a separator, splitting at
//! it, and reading unsigned decimal numbers the way `str::parse` does.

use vstd::prelude::*;
use vstd::utf8::{decode_utf8, valid_utf8};

verus! {

/// `i` is the position of the first `c` in `s`.
pub open spec fn is_first(s: Seq<char>, c: char, i: int) -> bool {
    &&& 0 <= i < s.len()
    &&& s[i] == c
    &&& forall|j: int| 0 <= j < i ==> s[j] != c
}

/// `s` holds the character `c`.
pub open spec fn has_char(s: Seq<char>, c: char) -> bool {
    exists|i: int| 0 <= i < s.len() && s[i] == c
}

/// The position of the first `c` in `s` (meaningful when `has_char(s, c)`).
pub open spec fn first_of(s: Seq<char>, c: char) -> int {
    choose|i: int| is_first(s, c, i)
}

/// The part of `s` before its first `c`, or all of `s` if it has none.
pub open spec fn head_before(s: Seq<char>, c: char) -> Seq<char> {
    if has_char(s, c) {
        s.take(first_of(s, c))
    } else {
        s
    }
}

/// The part of `s` after its first `c`, or `None` if it has none.
pub open spec fn tail_after(s: Seq<char>, c: char) -> Option<Seq<char>> {
    if has_char(s, c) {
        Some(s.skip(first_of(s, c) + 1))
    } else {
        None
    }
}

/// `c` is an ASCII decimal digit.
pub open spec fn is_digit(c: char) -> bool {
    '0' <= c <= '9'
}

/// The value of the decimal digit `c`.
pub open spec fn digit_value(c: char) -> int {
    c as int - '0' as int
}

/// The value of the decimal digits `s`, most significant first.
pub open spec fn digits_value(s: Seq<char>) -> int
    decreases s.len(),
{
    if s.len() == 0 {
        0
    } else {
        digits_value(s.drop_last()) * 10 + digit_value(s.last())
    }
}

/// All of `s` is decimal digits, and there is at least one.
pub open spec fn all_digits(s: Seq<char>) -> bool {
    s.len() > 0 && forall|i: int| 0 <= i < s.len() ==> is_digit(#[trigger] s[i])
}

/// `s` without one leading `+`, if it has one.
pub open spec fn unsigned_digits(s: Seq<char>) -> Seq<char> {
    if s.len() > 0 && s[0] == '+' {
        s.drop_first()
    } else {
        s
    }
}

/// What `str::parse::<u8>` gives for `s`: an optional `+` followed by one or
/// more decimal digits whose value fits in a `u8`; anything else is refused.
pub open spec fn spec_parse_u8(s: Seq<char>) -> Option<u8> {
    let d = unsigned_digits(s);
    if all_digits(d) && digits_value(d) <= 255 {
        Some(digits_value(d) as u8)
    } else {
        None
    }
}

/// The first position of a character is unique.
pub proof fn lemma_first_unique(s: Seq<char>, c: char, i: int, k: int)
    requires
        is_first(s, c, i),
        is_first(s, c, k),
    ensures
        i == k,
{
    if i < k {
        assert(s[i] != c);
    } else if k < i {
        assert(s[k] != c);
    }
}

/// The value of a digit sequence is never negative, and adding digits at
/// the end never lowers it.
pub proof fn lemma_digits_prefix(s: Seq<char>, k: int)
    requires
        0 <= k <= s.len(),
        forall|i: int| 0 <= i < s.len() ==> is_digit(#[trigger] s[i]),
    ensures
        0 <= digits_value(s.take(k)) <= digits_value(s),
    decreases s.len() - k,
{
    if k == s.len() {
        assert(s.take(k) =~= s);
        lemma_digits_nonneg(s);
    } else {
        lemma_digits_prefix(s, k + 1);
        assert(s.take(k + 1).drop_last() =~= s.take(k));
        assert(is_digit(s[k]));
        lemma_digits_nonneg(s.take(k));
    }
}

/// The value of a digit sequence is never negative.
pub proof fn lemma_digits_nonneg(s: Seq<char>)
    requires
        forall|i: int| 0 <= i < s.len() ==> is_digit(#[trigger] s[i]),
    ensures
        digits_value(s) >= 0,
    decreases s.len(),
{
    if s.len() > 0 {
        assert(is_digit(s[s.len() - 1]));
        lemma_digits_nonneg(s.drop_last());
    }
}

/// Returns the position of the first `c` in `s[from..to]`, counted from the
/// start of `s`, or `None` if that range has no `c`.
pub fn find_char(s: &str, from: usize, to: usize, c: char) -> (found: Option<usize>)
    requires
        from <= to <= s@.len(),
    ensures
        match found {
            Some(i) => is_first(s@.subrange(from as int, to as int), c, i - from) && from <= i
                < to,
            None => !has_char(s@.subrange(from as int, to as int), c),
        },
{
    let ghost sub = s@.subrange(from as int, to as int);
    let mut i = from;
    while i < to
        invariant
            from <= i <= to <= s@.len(),
            sub == s@.subrange(from as int, to as int),
            forall|j: int| 0 <= j < i - from ==> sub[j] != c,
        decreases to - i,
    {
        if s.get_char(i) == c {
            return Some(i);
        }
        i = i + 1;
    }
    None
}

/// Splits `s[from..to]` at its first `c`: returns the end of the part before
/// it and, if there is a `c`, the start of the part after it.
pub fn split_first(s: &str, from: usize, to: usize, c: char) -> (parts: (usize, Option<usize>))
    requires
        from <= to <= s@.len(),
    ensures
        from <= parts.0 <= to,
        s@.subrange(from as int, parts.0 as int) == head_before(
            s@.subrange(from as int, to as int),
            c,
        ),
        match parts.1 {
            Some(rest) => rest <= to && tail_after(s@.subrange(from as int, to as int), c) == Some(
                s@.subrange(rest as int, to as int),
            ),
            None => tail_after(s@.subrange(from as int, to as int), c) == None::<Seq<char>>,
        },
{
    let ghost sub = s@.subrange(from as int, to as int);
    match find_char(s, from, to, c) {
        Some(i) => {
            proof {
                let k = i - from;
                assert(has_char(sub, c));
                lemma_first_unique(sub, c, k, first_of(sub, c));
                assert(sub.take(k) =~= s@.subrange(from as int, i as int));
                assert(sub.skip(k + 1) =~= s@.subrange(i + 1, to as int));
            }
            (i, Some(i + 1))
        },
        None => (to, None),
    }
}

/// Reads `s[from..to]` as `str::parse::<u8>` does.
pub fn parse_u8(s: &str, from: usize, to: usize) -> (v: Option<u8>)
    requires
        from <= to <= s@.len(),
    ensures
        v == spec_parse_u8(s@.subrange(from as int, to as int)),
{
    let ghost sub = s@.subrange(from as int, to as int);
    let mut start = from;
    if from < to && s.get_char(from) == '+' {
        start = from + 1;
    }
    let ghost d = s@.subrange(start as int, to as int);
    proof {
        assert(d =~= unsigned_digits(sub));
    }
    if start == to {
        return None;
    }
    let mut value: u32 = 0;
    let mut i = start;
    while i < to
        invariant
            start <= i <= to <= s@.len(),
            d == s@.subrange(start as int, to as int),
            sub == s@.subrange(from as int, to as int),
            d == unsigned_digits(sub),
            forall|j: int| 0 <= j < i - start ==> is_digit(#[trigger] d[j]),
            value == digits_value(d.take(i - start)),
            value <= 255,
        decreases to - i,
    {
        let ch = s.get_char(i);
        if ch < '0' || ch > '9' {
            proof {
                assert(!is_digit(d[i - start]));
            }
            return None;
        }
        let digit: u32 = (ch as u32) - ('0' as u32);
        proof {
            assert(d.take(i - start + 1).drop_last() =~= d.take(i - start));
            assert(d.take(i - start + 1).last() == ch);
        }
        if value * 10 + digit > 255 {
            proof {
                assert(forall|j: int| 0 <= j < i - start + 1 ==> is_digit(#[trigger] d[j]));
                if all_digits(d) {
                    lemma_digits_prefix(d, i - start + 1);
                }
            }
            return None;
        }
        value = value * 10 + digit;
        i = i + 1;
    }
    proof {
        assert(d.take(to - start) =~= d);
    }
    Some(value as u8)
}

/// What `str::to_lowercase` makes of the characters `s` (full Unicode case
/// mapping).
pub uninterp spec fn str_lowercase(s: Seq<char>) -> Seq<char>;

/// `str::to_lowercase`: the lowercase form of `s`, as Unicode defines it.
#[verifier::external_body]
pub(crate) fn to_lowercase(s: &str) -> (lower: String)
    ensures
        lower@ == str_lowercase(s@),
{
    s.to_lowercase()
}

/// `std::str::from_utf8`: the text that `bytes` encode, or `None` if they
/// are not valid UTF-8.
#[verifier::external_body]
pub(crate) fn utf8_text(bytes: &[u8]) -> (text: Option<String>)
    ensures
        match text {
            Some(t) => valid_utf8(bytes@) && t@ == decode_utf8(bytes@),
            None => !valid_utf8(bytes@),
        },
{
    match std::str::from_utf8(bytes) {
        Ok(t) => Some(t.to_string()),
        Err(_) => None,
    }
}

/// Returns `true` if `a` and `b` hold the same characters.
pub fn same_text(a: &str, b: &str) -> (same: bool)
    ensures
        same == (a@ == b@),
{
    let n = a.unicode_len();
    if n != b.unicode_len() {
        return false;
    }
    let mut i: usize = 0;
    while i < n
        invariant
            n == a@.len(),
            n == b@.len(),
            0 <= i <= n,
            forall|j: int| 0 <= j < i ==> a@[j] == b@[j],
        decreases n - i,
    {
        if a.get_char(i) != b.get_char(i) {
            return false;
        }
        i = i + 1;
    }
    proof {
        assert(a@ =~= b@);
    }
    true
}

/// `a` comes before `b` when texts are ordered character by character (by
/// code point), a text before every longer text that starts with it. This is
/// the order of `String`'s comparison operators, as UTF-8 keeps code point
/// order.
pub open spec fn text_lt(a: Seq<char>, b: Seq<char>) -> bool
    decreases a.len(),
{
    if a.len() == 0 {
        b.len() > 0
    } else if b.len() == 0 {
        false
    } else if a[0] != b[0] {
        (a[0] as int) < (b[0] as int)
    } else {
        text_lt(a.drop_first(), b.drop_first())
    }
}

/// The text order is a strict total order.
pub proof fn lemma_text_order(a: Seq<char>, b: Seq<char>, c: Seq<char>)
    ensures
        !text_lt(a, a),
        text_lt(a, b) ==> !text_lt(b, a),
        text_lt(a, b) || text_lt(b, a) || a == b,
        text_lt(a, b) && text_lt(b, c) ==> text_lt(a, c),
    decreases a.len(),
{
    if a.len() > 0 {
        lemma_text_order(a.drop_first(), a.drop_first(), a.drop_first());
    }
    if a.len() > 0 && b.len() > 0 {
        if c.len() > 0 {
            lemma_text_order(a.drop_first(), b.drop_first(), c.drop_first());
        } else {
            lemma_text_order(a.drop_first(), b.drop_first(), c);
        }
        if a[0] == b[0] {
            if a.drop_first() == b.drop_first() {
                assert(a =~= seq![a[0]] + a.drop_first());
                assert(b =~= seq![b[0]] + b.drop_first());
                assert(a == b);
            }
        } else {
            assert((a[0] as int) != (b[0] as int));
        }
    } else if a.len() == 0 && b.len() == 0 {
        assert(a =~= b);
    }
}

/// Texts that agree on their first `i` characters compare as the rest of
/// them do.
proof fn lemma_text_lt_skip(a: Seq<char>, b: Seq<char>, i: int)
    requires
        0 <= i <= a.len(),
        i <= b.len(),
        forall|j: int| 0 <= j < i ==> a[j] == b[j],
    ensures
        text_lt(a, b) == text_lt(a.skip(i), b.skip(i)),
    decreases i,
{
    if i > 0 {
        lemma_text_lt_skip(a.drop_first(), b.drop_first(), i - 1);
        assert(a.drop_first().skip(i - 1) =~= a.skip(i));
        assert(b.drop_first().skip(i - 1) =~= b.skip(i));
    } else {
        assert(a.skip(0) =~= a);
        assert(b.skip(0) =~= b);
    }
}

/// Returns `true` if `a` comes before `b` in text order.
pub fn text_less(a: &str, b: &str) -> (less: bool)
    ensures
        less == text_lt(a@, b@),
{
    let n = a.unicode_len();
    let m = b.unicode_len();
    let mut i: usize = 0;
    while i < n && i < m
        invariant
            n == a@.len(),
            m == b@.len(),
            0 <= i <= n,
            i <= m,
            forall|j: int| 0 <= j < i ==> a@[j] == b@[j],
        decreases n - i,
    {
        let x = a.get_char(i);
        let y = b.get_char(i);
        if x != y {
            proof {
                lemma_text_lt_skip(a@, b@, i as int);
                assert(a@.skip(i as int)[0] == x);
                assert(b@.skip(i as int)[0] == y);
            }
            return (x as u32) < (y as u32);
        }
        i = i + 1;
    }
    proof {
        lemma_text_lt_skip(a@, b@, i as int);
    }
    i < m && i == n
}

/// Row `i` comes before row `j` among rows named `names`: by name in text
/// order, and rows of the same name in their original order.
pub open spec fn row_before(names: Seq<String>, i: int, j: int) -> bool {
    text_lt(names[i]@, names[j]@) || (names[i]@ == names[j]@ && i < j)
}

/// Returns the positions of `names` sorted by name in text order, rows of
/// the same name keeping their order (a stable sort).
pub fn name_order(names: &Vec<String>) -> (order: Vec<usize>)
    ensures
        order@.len() == names@.len(),
        forall|k: int| 0 <= k < order@.len() ==> order@[k] < names@.len(),
        forall|k: int, l: int|
            0 <= k < l < order@.len() ==> row_before(names@, order@[k] as int, order@[l] as int),
{
    let mut order: Vec<usize> = Vec::new();
    let mut k: usize = 0;
    while k < names.len()
        invariant
            0 <= k <= names@.len(),
            order@.len() == k,
            forall|i: int| 0 <= i < order@.len() ==> order@[i] < k,
            forall|i: int, l: int|
                0 <= i < l < order@.len() ==> row_before(names@, order@[i] as int, order@[l] as int),
        decreases names@.len() - k,
    {
        let mut p: usize = 0;
        while p < order.len() && !text_less(names[k].as_str(), names[order[p]].as_str())
            invariant
                0 <= p <= order@.len(),
                order@.len() == k,
                k < names@.len(),
                forall|i: int| 0 <= i < order@.len() ==> order@[i] < k,
                forall|i: int| 0 <= i < p ==> !text_lt(names@[k as int]@, names@[order@[i] as int]@),
            decreases order@.len() - p,
        {
            p = p + 1;
        }
        let ghost before = order@;
        order.insert(p, k);
        proof {
            assert forall|i: int, l: int| 0 <= i < l < order@.len() implies row_before(
                names@,
                order@[i] as int,
                order@[l] as int,
            ) by {
                let a = order@[i] as int;
                let b = order@[l] as int;
                if l < p {
                    assert(before[i] == a && before[l] == b);
                } else if l == p {
                    assert(b == k);
                    assert(before[i] == a);
                    lemma_text_order(names@[a]@, names@[b]@, names@[b]@);
                } else if i == p {
                    assert(a == k);
                    assert(before[l - 1] == b);
                    let c = before[p as int] as int;
                    assert(text_lt(names@[k as int]@, names@[c]@));
                    if l - 1 > p {
                        assert(row_before(names@, c, b));
                        lemma_text_order(names@[a]@, names@[c]@, names@[b]@);
                    }
                } else if i < p {
                    assert(before[i] == a && before[l - 1] == b);
                } else {
                    assert(before[i - 1] == a && before[l - 1] == b);
                }
            }
        }
        k = k + 1;
    }
    order
}

/// Returns the characters of `s`, in order.
pub fn chars_of(s: &str) -> (chars: Vec<char>)
    ensures
        chars@ == s@,
{
    broadcast use vstd::string::axiom_spec_iter;
    let mut chars: Vec<char> = Vec::new();
    for c in it: s.chars()
        invariant
            it.seq() == s@,
            chars@ == s@.take(it.index() as int),
    {
        chars.push(c);
    }
    chars
}

} // verus!
