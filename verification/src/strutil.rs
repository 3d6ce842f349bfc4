//! Verified string helpers: equality, membership, keyed lookup and splitting.

use vstd::prelude::*;

use crate::views::{group_deep_view, seq_deep};

verus! {

broadcast use group_deep_view;

/// Character-wise equality of two string slices.
pub fn str_eq(a: &str, b: &str) -> (r: bool)
    ensures
        r == (a@ == b@),
{
    let sa: String = a.to_owned();
    let sb: String = b.to_owned();
    sa == sb
}

/// Whether `key` occurs among the strings of `v`.
pub fn contains_string(v: &Vec<String>, key: &str) -> (r: bool)
    ensures
        r == v.deep_view().contains(key@),
{
    let mut i: usize = 0;
    while i < v.len()
        invariant
            0 <= i <= v@.len(),
            forall|k: int| 0 <= k < i ==> v@[k]@ != key@,
        decreases v@.len() - i,
    {
        if str_eq(v[i].as_str(), key) {
            assert(v.deep_view()[i as int] == key@);
            return true;
        }
        i = i + 1;
    }
    assert(forall|k: int| 0 <= k < v.deep_view().len() ==> v.deep_view()[k] != key@);
    false
}

/// The value of the first pair whose key reads as `key`, if any.
pub open spec fn lookup_pairs<T>(entries: Seq<(String, T)>, key: Seq<char>) -> Option<T>
    decreases entries.len(),
{
    if entries.len() == 0 {
        None
    } else if entries[0].0@ == key {
        Some(entries[0].1)
    } else {
        lookup_pairs(entries.skip(1), key)
    }
}

/// Finds the first entry of an ordered pair list whose key reads as `key`.
pub fn lookup_pair<'a, T>(entries: &'a Vec<(String, T)>, key: &str) -> (r: Option<&'a T>)
    ensures
        match r {
            Some(t) => lookup_pairs(entries@, key@) == Some(*t),
            None => lookup_pairs(entries@, key@) is None,
        },
{
    let mut i: usize = 0;
    proof {
        assert(entries@.skip(0) =~= entries@);
    }
    while i < entries.len()
        invariant
            0 <= i <= entries@.len(),
            lookup_pairs(entries@, key@) == lookup_pairs(entries@.skip(i as int), key@),
        decreases entries@.len() - i,
    {
        if str_eq(entries[i].0.as_str(), key) {
            assert(entries@.skip(i as int)[0] == entries@[i as int]);
            return Some(&entries[i].1);
        }
        proof {
            assert(entries@.skip(i as int).skip(1) =~= entries@.skip(i as int + 1));
        }
        i = i + 1;
    }
    proof {
        assert(entries@.skip(i as int).len() == 0);
    }
    None
}

/// `s` divided at every occurrence of `sep`: the separators are dropped and
/// the pieces between them are kept, empty pieces included.
pub open spec fn split_at_char(s: Seq<char>, sep: char) -> Seq<Seq<char>>
    decreases s.len(),
        via split_at_char_decreases
{
    match s.index_of_first(sep) {
        Some(i) => seq![s.take(i)] + split_at_char(s.skip(i + 1), sep),
        None => seq![s],
    }
}

#[via_fn]
proof fn split_at_char_decreases(s: Seq<char>, sep: char) {
    s.index_of_first_ensures(sep);
}

proof fn lemma_split_step(s: Seq<char>, sep: char, start: int, i: int)
    requires
        0 <= start <= i < s.len(),
        forall|k: int| start <= k < i ==> s[k] != sep,
        s[i] == sep,
    ensures
        split_at_char(s.skip(start), sep) == seq![s.subrange(start, i)] + split_at_char(
            s.skip(i + 1),
            sep,
        ),
{
    let t = s.skip(start);
    t.index_of_first_ensures(sep);
    assert(t[i - start] == sep);
    assert(forall|k: int| 0 <= k < i - start ==> t[k] == s[k + start] && t[k] != sep);
    let j = t.index_of_first(sep).unwrap();
    assert(j == i - start);
    assert(t.take(j) =~= s.subrange(start, i));
    assert(t.skip(j + 1) =~= s.skip(i + 1));
}

proof fn lemma_split_end(s: Seq<char>, sep: char, start: int)
    requires
        0 <= start <= s.len(),
        forall|k: int| start <= k < s.len() ==> s[k] != sep,
    ensures
        split_at_char(s.skip(start), sep) == seq![s.subrange(start, s.len() as int)],
{
    let t = s.skip(start);
    t.index_of_first_ensures(sep);
    assert(forall|k: int| 0 <= k < t.len() ==> t[k] == s[k + start] && t[k] != sep);
    assert(t.index_of_first(sep) is None) by {
        if t.index_of_first(sep) is Some {
            let j = t.index_of_first(sep).unwrap();
            assert(t[j] == sep);
        }
    }
    assert(t =~= s.subrange(start, s.len() as int));
}

/// Splits `s` at every occurrence of `sep`.
pub fn split_char(s: &str, sep: char) -> (r: Vec<String>)
    ensures
        r.deep_view() == split_at_char(s@, sep),
{
    let n = s.unicode_len();
    let mut parts: Vec<String> = Vec::new();
    let mut start: usize = 0;
    let mut i: usize = 0;
    proof {
        assert(s@.skip(0) =~= s@);
        assert(seq_deep(parts@) + split_at_char(s@, sep) =~= split_at_char(s@, sep));
    }
    while i < n
        invariant
            0 <= start <= i <= n,
            n == s@.len(),
            forall|k: int| start <= k < i ==> s@[k] != sep,
            split_at_char(s@, sep) == seq_deep(parts@) + split_at_char(
                s@.skip(start as int),
                sep,
            ),
        decreases n - i,
    {
        if s.get_char(i) == sep {
            let seg = s.substring_char(start, i).to_owned();
            proof {
                lemma_split_step(s@, sep, start as int, i as int);
            }
            parts.push(seg);
            start = i + 1;
        }
        i = i + 1;
    }
    let seg = s.substring_char(start, n).to_owned();
    proof {
        lemma_split_end(s@, sep, start as int);
    }
    parts.push(seg);
    proof {
        assert(s@.skip(0) =~= s@);
    }
    parts
}

} // verus!
