//! Small verified string utilities: equality, locating a separator, taking
//! the pieces around it, and dropping a character.

use vstd::prelude::*;

verus! {

use vstd::string::{StrSliceExecFns, StringExecFns};

/// Whether two strings spell the same characters.
pub fn str_eq(a: &str, b: &str) -> (r: bool)
    ensures
        r == (a@ == b@),
{
    a.to_owned() == b.to_owned()
}

/// Position of the first occurrence of `sep` at or after `from`, or the
/// length of the string if there is none.
pub open spec fn spec_find(s: Seq<char>, sep: char, from: int) -> int
    decreases s.len() - from,
{
    if from < 0 || from >= s.len() {
        s.len() as int
    } else if s[from] == sep {
        from
    } else {
        spec_find(s, sep, from + 1)
    }
}

/// The piece of `s` before the first `sep` (all of `s` if there is none).
pub open spec fn spec_piece_before(s: Seq<char>, sep: char) -> Seq<char> {
    s.subrange(0, spec_find(s, sep, 0))
}

/// The piece of `s` between the first and the second `sep` (empty if there
/// is no first `sep`).
pub open spec fn spec_piece_between(s: Seq<char>, sep: char) -> Seq<char> {
    let i = spec_find(s, sep, 0);
    if i == s.len() {
        Seq::empty()
    } else {
        s.subrange(i + 1, spec_find(s, sep, i + 1))
    }
}

proof fn lemma_find_bounds(s: Seq<char>, sep: char, from: int)
    requires
        0 <= from <= s.len(),
    ensures
        from <= spec_find(s, sep, from) <= s.len(),
    decreases s.len() - from,
{
    if from < s.len() && s[from] != sep {
        lemma_find_bounds(s, sep, from + 1);
    }
}

/// Index of the first occurrence of `sep` at or after `from`, if any.
fn find_char(s: &str, sep: char, from: usize) -> (r: usize)
    requires
        from <= s@.len(),
    ensures
        r == spec_find(s@, sep, from as int),
        from <= r <= s@.len(),
{
    proof {
        lemma_find_bounds(s@, sep, from as int);
    }
    let len = s.unicode_len();
    let mut i = from;
    while i < len
        invariant
            from <= i <= len,
            len == s@.len(),
            spec_find(s@, sep, from as int) == spec_find(s@, sep, i as int),
            from <= spec_find(s@, sep, from as int) <= s@.len(),
        decreases len - i,
    {
        if s.get_char(i) == sep {
            return i;
        }
        i += 1;
    }
    i
}

/// The piece of `s` before the first `sep`, as an owned string.
pub fn piece_before(s: &str, sep: char) -> (r: String)
    ensures
        r@ == spec_piece_before(s@, sep),
{
    let i = find_char(s, sep, 0);
    s.substring_char(0, i).to_owned()
}

/// The piece of `s` between the first and the second `sep`, as an owned
/// string.
pub fn piece_between(s: &str, sep: char) -> (r: String)
    ensures
        r@ == spec_piece_between(s@, sep),
{
    let len = s.unicode_len();
    let i = find_char(s, sep, 0);
    if i == len {
        String::new()
    } else {
        let j = find_char(s, sep, i + 1);
        s.substring_char(i + 1, j).to_owned()
    }
}

/// `s` with every occurrence of `c` removed.
pub open spec fn spec_remove_char(s: Seq<char>, c: char) -> Seq<char>
    decreases s.len(),
{
    if s.len() == 0 {
        Seq::empty()
    } else if s.last() == c {
        spec_remove_char(s.drop_last(), c)
    } else {
        spec_remove_char(s.drop_last(), c).push(s.last())
    }
}

/// Removes every occurrence of `c` from `s`.
pub fn remove_char(s: &str, c: char) -> (r: String)
    ensures
        r@ == spec_remove_char(s@, c),
{
    let len = s.unicode_len();
    let mut r = String::new();
    let mut i: usize = 0;
    while i < len
        invariant
            0 <= i <= len,
            len == s@.len(),
            r@ == spec_remove_char(s@.take(i as int), c),
        decreases len - i,
    {
        let ch = s.get_char(i);
        if ch != c {
            r.append(s.substring_char(i, i + 1));
        }
        proof {
            assert(s@.take(i + 1).drop_last() =~= s@.take(i as int));
            assert(s@.take(i + 1).last() == s@[i as int]);
            if ch != c {
                assert(r@ =~= spec_remove_char(s@.take(i + 1), c));
            }
        }
        i += 1;
    }
    proof {
        assert(s@.take(len as int) =~= s@);
    }
    r
}

} // verus!
