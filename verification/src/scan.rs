//! Scanning helpers shared by the modules that pick apart byte buffers and
//! text: first occurrence of a byte in a buffer and of a character in a
//! string.

use vstd::prelude::*;
use vstd::slice::slice_index_get;
use vstd::string::StrSliceExecFns;

verus! {

/// The position of the first occurrence of `c` in `s`.
pub open spec fn spec_find_byte(s: Seq<u8>, c: u8) -> Option<int>
    decreases s.len(),
{
    if s.len() == 0 {
        None
    } else if s[0] == c {
        Some(0int)
    } else {
        match spec_find_byte(s.drop_first(), c) {
            Some(i) => Some(i + 1),
            None => None,
        }
    }
}

/// Whatever `spec_find_byte` finds lies in the buffer and holds `c`, nothing
/// before it does.
pub proof fn lemma_find_byte(s: Seq<u8>, c: u8)
    ensures
        match spec_find_byte(s, c) {
            Some(i) => 0 <= i < s.len() && s[i] == c && forall|j: int| 0 <= j < i ==> s[j] != c,
            None => forall|j: int| 0 <= j < s.len() ==> s[j] != c,
        },
    decreases s.len(),
{
    if s.len() > 0 && s[0] != c {
        lemma_find_byte(s.drop_first(), c);
        match spec_find_byte(s.drop_first(), c) {
            Some(i) => {
                assert(s[i + 1] == s.drop_first()[i]);
                assert forall|j: int| 0 <= j < i + 1 implies s[j] != c by {
                    if j > 0 {
                        assert(s[j] == s.drop_first()[j - 1]);
                    }
                }
            },
            None => {
                assert forall|j: int| 0 <= j < s.len() implies s[j] != c by {
                    if j > 0 {
                        assert(s[j] == s.drop_first()[j - 1]);
                    }
                }
            },
        }
    }
}

/// Finds the first occurrence of `c` in `s` at or past `from`.
pub fn find_byte_from(s: &[u8], c: u8, from: usize) -> (r: Option<usize>)
    requires
        from <= s@.len(),
    ensures
        match r {
            Some(p) => from <= p < s@.len() && Some(p - from) == spec_find_byte(
                s@.skip(from as int),
                c,
            ),
            None => spec_find_byte(s@.skip(from as int), c) is None,
        },
    decreases s@.len() - from,
{
    if from == s.len() {
        assert(s@.skip(from as int) =~= Seq::<u8>::empty());
        return None;
    }
    assert(s@.skip(from as int)[0] == s@[from as int]);
    assert(s@.skip(from as int).drop_first() =~= s@.skip(from as int + 1));
    if *slice_index_get(s, from) == c {
        Some(from)
    } else {
        match find_byte_from(s, c, from + 1) {
            Some(p) => Some(p),
            None => None,
        }
    }
}

/// The position of the first occurrence of `c` in `s`.
pub open spec fn spec_find_char(s: Seq<char>, c: char) -> Option<int>
    decreases s.len(),
{
    if s.len() == 0 {
        None
    } else if s[0] == c {
        Some(0int)
    } else {
        match spec_find_char(s.drop_first(), c) {
            Some(i) => Some(i + 1),
            None => None,
        }
    }
}

/// Whatever `spec_find_char` finds lies in the string and holds `c`, nothing
/// before it does.
pub proof fn lemma_find_char(s: Seq<char>, c: char)
    ensures
        match spec_find_char(s, c) {
            Some(i) => 0 <= i < s.len() && s[i] == c && forall|j: int| 0 <= j < i ==> s[j] != c,
            None => forall|j: int| 0 <= j < s.len() ==> s[j] != c,
        },
    decreases s.len(),
{
    if s.len() > 0 && s[0] != c {
        lemma_find_char(s.drop_first(), c);
        match spec_find_char(s.drop_first(), c) {
            Some(i) => {
                assert(s[i + 1] == s.drop_first()[i]);
                assert forall|j: int| 0 <= j < i + 1 implies s[j] != c by {
                    if j > 0 {
                        assert(s[j] == s.drop_first()[j - 1]);
                    }
                }
            },
            None => {
                assert forall|j: int| 0 <= j < s.len() implies s[j] != c by {
                    if j > 0 {
                        assert(s[j] == s.drop_first()[j - 1]);
                    }
                }
            },
        }
    }
}

/// Finds the first occurrence of `c` in `s` at or past `from`.
pub fn find_char_from(s: &str, c: char, from: usize) -> (r: Option<usize>)
    requires
        from <= s@.len(),
    ensures
        match r {
            Some(p) => from <= p < s@.len() && Some(p - from) == spec_find_char(
                s@.skip(from as int),
                c,
            ),
            None => spec_find_char(s@.skip(from as int), c) is None,
        },
    decreases s@.len() - from,
{
    if from == s.unicode_len() {
        assert(s@.skip(from as int) =~= Seq::<char>::empty());
        return None;
    }
    assert(s@.skip(from as int)[0] == s@[from as int]);
    assert(s@.skip(from as int).drop_first() =~= s@.skip(from as int + 1));
    if s.get_char(from) == c {
        Some(from)
    } else {
        match find_char_from(s, c, from + 1) {
            Some(p) => Some(p),
            None => None,
        }
    }
}

/// The position of the last occurrence of `c` in `s`.
pub open spec fn spec_rfind_char(s: Seq<char>, c: char) -> Option<int>
    decreases s.len(),
{
    if s.len() == 0 {
        None
    } else if s[s.len() - 1] == c {
        Some(s.len() - 1)
    } else {
        spec_rfind_char(s.drop_last(), c)
    }
}

/// Finds the last occurrence of `c` in `s` strictly before `below`.
pub fn rfind_char_below(s: &str, c: char, below: usize) -> (r: Option<usize>)
    requires
        below <= s@.len(),
    ensures
        match r {
            Some(p) => p < below && Some(p as int) == spec_rfind_char(s@.take(below as int), c),
            None => spec_rfind_char(s@.take(below as int), c) is None,
        },
    decreases below,
{
    if below == 0 {
        assert(s@.take(0) =~= Seq::<char>::empty());
        return None;
    }
    assert(s@.take(below as int)[below - 1] == s@[below - 1]);
    assert(s@.take(below as int).drop_last() =~= s@.take(below as int - 1));
    if s.get_char(below - 1) == c {
        Some(below - 1)
    } else {
        match rfind_char_below(s, c, below - 1) {
            Some(p) => Some(p),
            None => None,
        }
    }
}

} // verus!
