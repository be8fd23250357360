//! Small verified helpers for working with strings character by character.

use vstd::prelude::*;
use vstd::string::{StrSliceExecFns, StringExecFns};

verus! {

/// Character-wise equality of two string slices.
pub fn str_eq(a: &str, b: &str) -> (r: bool)
    ensures
        r == (a@ == b@),
{
    let a_len = a.unicode_len();
    let b_len = b.unicode_len();
    if a_len != b_len {
        return false;
    }
    let mut i: usize = 0;
    while i < a_len
        invariant
            a_len == a@.len(),
            b_len == b@.len(),
            a_len == b_len,
            i <= a_len,
            forall|j: int| 0 <= j < i ==> a@[j] == b@[j],
        decreases a_len - i,
    {
        if a.get_char(i) != b.get_char(i) {
            return false;
        }
        i = i + 1;
    }
    proof {
        assert(a@ =~= b@);
    }
    true
}

/// Character-wise equality of two owned strings.
pub fn string_eq(a: &String, b: &String) -> (r: bool)
    ensures
        r == (a@ == b@),
{
    str_eq(a.as_str(), b.as_str())
}

/// Whether `s` begins with `prefix`, character by character.
pub fn str_starts_with(s: &str, prefix: &str) -> (r: bool)
    ensures
        r == is_prefix(prefix@, s@),
{
    let s_len = s.unicode_len();
    let p_len = prefix.unicode_len();
    if p_len > s_len {
        return false;
    }
    let mut i: usize = 0;
    while i < p_len
        invariant
            s_len == s@.len(),
            p_len == prefix@.len(),
            p_len <= s_len,
            i <= p_len,
            forall|j: int| 0 <= j < i ==> s@[j] == prefix@[j],
        decreases p_len - i,
    {
        if s.get_char(i) != prefix.get_char(i) {
            proof {
                assert(s@.subrange(0, p_len as int)[i as int] == s@[i as int]);
            }
            return false;
        }
        i = i + 1;
    }
    proof {
        assert(s@.subrange(0, p_len as int) =~= prefix@);
    }
    true
}

/// The first position at or after `from` where `c` occurs in `t`.
pub open spec fn find_char(t: Seq<char>, c: char, from: int) -> Option<int>
    decreases t.len() - from,
{
    if from >= t.len() || from < 0 {
        None
    } else if t[from] == c {
        Some(from)
    } else {
        find_char(t, c, from + 1)
    }
}

proof fn lemma_find_char_advance(t: Seq<char>, c: char, i: int)
    requires
        0 <= i <= t.len(),
        forall|j: int| 0 <= j < i ==> t[j] != c,
    ensures
        find_char(t, c, 0) == find_char(t, c, i),
    decreases i,
{
    if i > 0 {
        lemma_find_char_advance(t, c, i - 1);
    }
}

/// The first occurrence is where the character first stands.
pub proof fn lemma_find_char_first(t: Seq<char>, c: char, m: int)
    requires
        0 <= m < t.len(),
        t[m] == c,
        forall|j: int| 0 <= j < m ==> t[j] != c,
    ensures
        find_char(t, c, 0) == Some(m),
{
    lemma_find_char_advance(t, c, m);
}

/// A found position lies in range and holds the sought character.
pub proof fn lemma_find_char_bounds(t: Seq<char>, c: char, from: int, i: int)
    requires
        find_char(t, c, from) == Some(i),
    ensures
        from <= i < t.len(),
        t[i] == c,
    decreases t.len() - from,
{
    if from >= t.len() || from < 0 {
    } else if t[from] == c {
    } else {
        lemma_find_char_bounds(t, c, from + 1, i);
    }
}

/// The position of the first occurrence of `c` in `s`, if any.
pub fn str_find_char(s: &str, c: char) -> (r: Option<usize>)
    ensures
        match r {
            Some(i) => find_char(s@, c, 0) == Some(i as int),
            None => find_char(s@, c, 0) is None,
        },
{
    let n = s.unicode_len();
    let mut i: usize = 0;
    while i < n
        invariant
            n == s@.len(),
            i <= n,
            forall|j: int| 0 <= j < i ==> s@[j] != c,
        decreases n - i,
    {
        if s.get_char(i) == c {
            proof {
                lemma_find_char_advance(s@, c, i as int);
            }
            return Some(i);
        }
        i = i + 1;
    }
    proof {
        lemma_find_char_advance(s@, c, n as int);
    }
    None
}

/// An owned copy of the characters of `s` from `from` (inclusive) to `to`
/// (exclusive).
pub fn substring(s: &str, from: usize, to: usize) -> (r: String)
    requires
        from <= to <= s@.len(),
    ensures
        r@ == s@.subrange(from as int, to as int),
{
    String::from_str(s.substring_char(from, to))
}

/// Whether `p` is a prefix of `s`.
pub open spec fn is_prefix(p: Seq<char>, s: Seq<char>) -> bool {
    p.len() <= s.len() && s.subrange(0, p.len() as int) == p
}

/// The elements of `parts` from position `i` on, separated by `sep`.
pub open spec fn joined_from(parts: Seq<Seq<char>>, sep: char, i: int) -> Seq<char>
    decreases parts.len() - i,
{
    if i >= parts.len() || i < 0 {
        Seq::empty()
    } else if i == parts.len() - 1 {
        parts[i]
    } else {
        parts[i] + seq![sep] + joined_from(parts, sep, i + 1)
    }
}

/// The elements of `parts` separated by `sep`.
pub open spec fn joined(parts: Seq<Seq<char>>, sep: char) -> Seq<char> {
    joined_from(parts, sep, 0)
}

/// Join owned strings with a separator character.
pub fn join(parts: &Vec<String>, sep: char) -> (r: String)
    ensures
        r@ == joined(parts.deep_view(), sep),
{
    let ghost all = parts.deep_view();
    if parts.len() == 0 {
        return String::new();
    }
    let mut acc = parts[0].clone();
    proof {
        assert(all[0] == parts@[0]@);
    }
    let mut i: usize = 1;
    while i < parts.len()
        invariant
            1 <= i <= parts.len(),
            all == parts.deep_view(),
            all.len() == parts@.len(),
            joined(all, sep) == acc@ + (if i < all.len() {
                seq![sep] + joined_from(all, sep, i as int)
            } else {
                Seq::<char>::empty()
            }),
        decreases parts.len() - i,
    {
        let ghost acc_before = acc@;
        push_char(&mut acc, sep);
        acc.append(parts[i].as_str());
        proof {
            assert(all[i as int] == parts@[i as int]@);
            assert(acc@ =~= acc_before + (seq![sep] + all[i as int]));
            if i + 1 < all.len() {
                assert(acc_before + (seq![sep] + joined_from(all, sep, i as int)) =~= acc@ + (seq![
                    sep,
                ] + joined_from(all, sep, i + 1)));
            } else {
                assert(acc_before + (seq![sep] + joined_from(all, sep, i as int)) =~= acc@);
            }
        }
        i = i + 1;
    }
    proof {
        assert(joined(all, sep) == acc@);
    }
    acc
}

/// Relies on `String::push`: appends exactly the one character.
#[verifier::external_body]
pub fn push_char(s: &mut String, c: char)
    ensures
        final(s)@ == old(s)@.push(c),
{
    s.push(c);
}

} // verus!
