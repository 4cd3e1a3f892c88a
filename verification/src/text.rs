//! Small operations on text, stated over sequences of characters.

use vstd::prelude::*;
use vstd::string::{StrSliceExecFns, StringExecFns};

verus! {

/// The part of `s` before the first `c`, or all of `s` where `c` does not occur.
pub open spec fn before_first(s: Seq<char>, c: char) -> Seq<char> {
    match s.index_of_first(c) {
        Some(i) => s.take(i),
        None => s,
    }
}

/// Whether two texts hold the same characters.
pub fn same(a: &str, b: &str) -> (r: bool)
    ensures
        r == (a@ == b@),
{
    a.to_owned() == b.to_owned()
}

/// The place of the first `c` in `s`, counted in characters.
pub fn find_char(s: &str, c: char) -> (r: Option<usize>)
    ensures
        match r {
            Some(i) => s@.index_of_first(c) == Some(i as int),
            None => s@.index_of_first(c) is None,
        },
{
    let len: usize = s.unicode_len();
    let mut rest = s.chars();
    let mut i: usize = 0;
    while i < len
        invariant
            i <= len,
            len == s@.len(),
            vstd::std_specs::iter::IteratorSpec::obeys_prophetic_iter_laws(&rest),
            vstd::std_specs::iter::IteratorSpec::remaining(&rest) == s@.skip(i as int),
            forall|j: int| 0 <= j < i ==> s@[j] != c,
        decreases len - i,
    {
        let next = rest.next();
        if next == Some(c) {
            proof {
                s@.index_of_first_ensures(c);
                assert(s@[i as int] == c);
                assert(s@.contains(c));
            }
            return Some(i);
        }
        i = i + 1;
    }
    proof {
        s@.index_of_first_ensures(c);
    }
    None
}

/// Whether `c` occurs in `s`.
pub fn contains_char(s: &str, c: char) -> (r: bool)
    ensures
        r == s@.contains(c),
{
    proof {
        s@.index_of_first_ensures(c);
    }
    find_char(s, c).is_some()
}

/// The part of `s` before the first `c`, or all of `s` where `c` does not occur.
pub fn cut_before(s: &str, c: char) -> (r: String)
    ensures
        r@ == before_first(s@, c),
{
    proof {
        s@.index_of_first_ensures(c);
    }
    match find_char(s, c) {
        Some(i) => s.substring_char(0, i).to_owned(),
        None => s.to_owned(),
    }
}

/// Whether `s` ends with `suffix`.
pub fn ends_with(s: &str, suffix: &str) -> (r: bool)
    ensures
        r == suffix@.is_suffix_of(s@),
{
    let len: usize = s.unicode_len();
    let tail: usize = suffix.unicode_len();
    tail <= len && same(s.substring_char(len - tail, len), suffix)
}

/// The texts `a` and `b`, one after the other.
pub fn concat(a: &str, b: &str) -> (r: String)
    ensures
        r@ == a@ + b@,
{
    let mut r = a.to_owned();
    r.append(b);
    r
}

/// Cutting a text at a character leaves what stands before it: the longest
/// beginning in which the character does not occur.
pub proof fn cut_ends_at_the_first(s: Seq<char>, c: char)
    ensures
        before_first(s, c).is_prefix_of(s),
        !before_first(s, c).contains(c),
        before_first(s, c).len() < s.len() ==> s[before_first(s, c).len() as int] == c,
{
    s.index_of_first_ensures(c);
    if s.contains(c) {
        let i = s.index_of_first(c)->0;
        assert(forall|j: int| 0 <= j < i ==> s[j] != c);
    }
}

/// Whatever follows the character plays no part in a cut.
pub proof fn cut_drops_what_follows(before: Seq<char>, c: char, after: Seq<char>)
    requires
        !before.contains(c),
        after.len() == 0 || after[0] == c,
    ensures
        before_first(before + after, c) == before,
{
    let s = before + after;
    cut_ends_at_the_first(s, c);
    let cut = before_first(s, c);
    if cut.len() < before.len() {
        assert(before[cut.len() as int] == c);
    } else if cut.len() > before.len() {
        assert(cut[before.len() as int] == c);
    }
    assert(cut =~= before);
}

} // verus!
