//! Character-level helpers on which the extraction rules are stated.
//!
//! A string is read as the sequence of its characters. The rules of the
//! crawler (which references are images, which links are absolute) are all
//! tests on prefixes, suffixes and single characters of such sequences.

use vstd::prelude::*;
use vstd::string::*;

verus! {

/// Index of the last occurrence of `c` in `s`, or -1 when `c` does not occur.
pub open spec fn last_index_of(s: Seq<char>, c: char) -> int
    decreases s.len(),
{
    if s.len() == 0 {
        -1
    } else if s.last() == c {
        s.len() - 1
    } else {
        last_index_of(s.drop_last(), c)
    }
}

/// What follows the last occurrence of `c` in `s`; all of `s` when `c` does
/// not occur.
pub open spec fn after_last(s: Seq<char>, c: char) -> Seq<char> {
    s.skip(last_index_of(s, c) + 1)
}

/// `s` with every occurrence of `from` replaced by `to`, scanning from the
/// left and never looking again at what a replacement has consumed.
pub open spec fn replace_all(s: Seq<char>, from: Seq<char>, to: Seq<char>) -> Seq<char>
    decreases s.len(),
{
    if from.len() == 0 || s.len() < from.len() {
        s
    } else if from.is_prefix_of(s) {
        to + replace_all(s.skip(from.len() as int), from, to)
    } else {
        seq![s[0]] + replace_all(s.skip(1), from, to)
    }
}

/// The last occurrence of `c` is within bounds, holds `c`, and nothing after
/// it does.
pub proof fn lemma_last_index_of(s: Seq<char>, c: char)
    ensures
        -1 <= last_index_of(s, c) < s.len(),
        last_index_of(s, c) >= 0 ==> s[last_index_of(s, c)] == c,
        forall|i: int| last_index_of(s, c) < i < s.len() ==> s[i] != c,
        !after_last(s, c).contains(c),
    decreases s.len(),
{
    if s.len() > 0 && s.last() != c {
        let front = s.drop_last();
        lemma_last_index_of(front, c);
        assert forall|i: int| last_index_of(s, c) < i < s.len() implies s[i] != c by {
            if i < front.len() {
                assert(s[i] == front[i]);
            }
        }
    }
    let tail = after_last(s, c);
    assert forall|i: int| 0 <= i < tail.len() implies tail[i] != c by {
        assert(tail[i] == s[last_index_of(s, c) + 1 + i]);
    }
}

/// The characters of `s`, in order.
pub fn chars_of(s: &str) -> (r: Vec<char>)
    ensures
        r@ == s@,
{
    let mut out: Vec<char> = Vec::new();
    for c in it: s.chars()
        invariant
            out@ == it.seq().take(it.index()),
    {
        out.push(c);
    }
    out
}

/// Whether `s`, from position `at` on, reads `pattern`.
pub fn matches_at(s: &Vec<char>, at: usize, pattern: &Vec<char>) -> (r: bool)
    requires
        at <= s.len(),
    ensures
        r == pattern@.is_prefix_of(s@.skip(at as int)),
{
    if pattern.len() > s.len() - at {
        return false;
    }
    let mut i: usize = 0;
    while i < pattern.len()
        invariant
            at <= s.len(),
            pattern.len() <= s.len() - at,
            i <= pattern.len(),
            forall|j: int| 0 <= j < i ==> s@[at + j] == pattern@[j],
        decreases pattern.len() - i,
    {
        if s[at + i] != pattern[i] {
            let ghost window = s@.skip(at as int).subrange(0, pattern@.len() as int);
            assert(window[i as int] != pattern@[i as int]);
            return false;
        }
        i = i + 1;
    }
    assert(pattern@ =~= s@.skip(at as int).subrange(0, pattern@.len() as int));
    true
}

/// Whether `s` begins with `prefix`.
pub fn starts_with(s: &Vec<char>, prefix: &str) -> (r: bool)
    ensures
        r == prefix@.is_prefix_of(s@),
{
    let pattern = chars_of(prefix);
    assert(s@.skip(0) =~= s@);
    matches_at(s, 0, &pattern)
}

/// Whether `s` ends with `suffix`.
pub fn ends_with(s: &Vec<char>, suffix: &str) -> (r: bool)
    ensures
        r == suffix@.is_suffix_of(s@),
{
    let pattern = chars_of(suffix);
    if pattern.len() > s.len() {
        return false;
    }
    let at: usize = s.len() - pattern.len();
    let r = matches_at(s, at, &pattern);
    assert(s@.skip(at as int).subrange(0, pattern@.len() as int) =~= s@.subrange(
        s@.len() - pattern@.len(),
        s@.len() as int,
    ));
    r
}

/// Whether `c` occurs in `s`.
pub fn contains_char(s: &Vec<char>, c: char) -> (r: bool)
    ensures
        r == s@.contains(c),
{
    let mut i: usize = 0;
    while i < s.len()
        invariant
            i <= s.len(),
            forall|j: int| 0 <= j < i ==> s@[j] != c,
        decreases s.len() - i,
    {
        if s[i] == c {
            return true;
        }
        i = i + 1;
    }
    false
}

/// Where the part after the last `c` begins: one past the last occurrence of
/// `c`, or 0 when `c` does not occur.
pub fn after_last_start(s: &Vec<char>, c: char) -> (r: usize)
    ensures
        r == last_index_of(s@, c) + 1,
        r <= s.len(),
{
    let mut i: usize = s.len();
    assert(s@.take(i as int) =~= s@);
    while i > 0
        invariant
            i <= s.len(),
            last_index_of(s@, c) == last_index_of(s@.take(i as int), c),
        decreases i,
    {
        if s[i - 1] == c {
            return i;
        }
        assert(s@.take(i as int).drop_last() =~= s@.take(i - 1));
        i = i - 1;
    }
    0
}

/// `s` with every occurrence of `from` replaced by `to`; `s` itself where
/// `from` is empty.
pub fn replace(s: &str, from: &str, to: &str) -> (r: String)
    ensures
        r@ == replace_all(s@, from@, to@),
{
    let chars = chars_of(s);
    let pattern = chars_of(from);
    let mut out = String::new();
    if pattern.len() == 0 {
        out.append(s);
        assert(out@ =~= s@);
        return out;
    }
    let mut at: usize = 0;
    let mut copied: usize = 0;
    assert(s@.skip(0) =~= s@);
    assert(s@.subrange(0, 0) =~= Seq::<char>::empty());
    while at < chars.len()
        invariant
            chars@ == s@,
            pattern@ == from@,
            from@.len() > 0,
            copied <= at <= chars.len(),
            replace_all(s@, from@, to@) == out@ + s@.subrange(copied as int, at as int)
                + replace_all(s@.skip(at as int), from@, to@),
        decreases chars.len() - at,
    {
        let ghost rest = s@.skip(at as int);
        if matches_at(&chars, at, &pattern) {
            let ghost before = out@ + s@.subrange(copied as int, at as int);
            out.append(s.substring_char(copied, at));
            out.append(to);
            at = at + pattern.len();
            copied = at;
            assert(rest.skip(from@.len() as int) =~= s@.skip(at as int));
            assert(s@.subrange(copied as int, at as int) =~= Seq::<char>::empty());
            assert(out@ + s@.subrange(copied as int, at as int) =~= before + to@);
            assert(before + (to@ + replace_all(s@.skip(at as int), from@, to@)) =~= before + to@
                + replace_all(s@.skip(at as int), from@, to@));
        } else {
            let ghost before = out@ + s@.subrange(copied as int, at as int);
            assert(rest.skip(1) =~= s@.skip(at + 1));
            assert(s@.subrange(copied as int, at + 1) =~= s@.subrange(copied as int, at as int)
                + seq![rest[0]]);
            proof {
                if rest.len() < from@.len() {
                    // What is left is too short to hold the pattern: it stays as it is.
                    lemma_replace_short(rest, from@, to@);
                    lemma_replace_short(rest.skip(1int), from@, to@);
                    assert(rest =~= seq![rest[0]] + rest.skip(1int));
                }
            }
            assert(before + (seq![rest[0]] + replace_all(rest.skip(1), from@, to@)) =~= before
                + seq![rest[0]] + replace_all(rest.skip(1), from@, to@));
            at = at + 1;
        }
    }
    out.append(s.substring_char(copied, at));
    assert(s@.skip(at as int) =~= Seq::<char>::empty());
    assert(out@ =~= out@ + Seq::<char>::empty());
    out
}

/// A sequence shorter than the pattern holds no occurrence of it.
pub proof fn lemma_replace_short(s: Seq<char>, from: Seq<char>, to: Seq<char>)
    requires
        s.len() < from.len(),
    ensures
        replace_all(s, from, to) == s,
{
}

} // verus!
