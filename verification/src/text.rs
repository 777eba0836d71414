//! Small verified text helpers the rest of the library builds on.

use vstd::prelude::*;

verus! {

/// Character-by-character equality of two string slices.
pub fn str_eq(a: &str, b: &str) -> (r: bool)
    ensures
        r == (a@ == b@),
{
    let n = a.unicode_len();
    let m = b.unicode_len();
    if n != m {
        return false;
    }
    let mut i: usize = 0;
    while i < n
        invariant
            n == a@.len(),
            n == b@.len(),
            0 <= i <= n,
            forall|k: int| 0 <= k < i ==> a@[k] == b@[k],
        decreases n - i,
    {
        if a.get_char(i) != b.get_char(i) {
            return false;
        }
        i += 1;
    }
    proof {
        assert(a@ =~= b@);
    }
    true
}

/// First occurrence of `c` in `s` at or after position `i`.
pub open spec fn spec_find_char(s: Seq<char>, c: char, i: int) -> Option<int>
    decreases s.len() - i,
{
    if i < 0 || i >= s.len() {
        None
    } else if s[i] == c {
        Some(i)
    } else {
        spec_find_char(s, c, i + 1)
    }
}

/// `s` split on `sep`: the fields between separators, in order, always
/// at least one.
pub open spec fn spec_split(s: Seq<char>, sep: char) -> Seq<Seq<char>>
    decreases s.len(),
{
    match spec_find_char(s, sep, 0) {
        Some(i) => if 0 <= i < s.len() {
            seq![s.take(i)] + spec_split(s.skip(i + 1), sep)
        } else {
            seq![s]
        },
        None => seq![s],
    }
}

/// First occurrence of `c` in `s`.
pub fn find_char(s: &str, c: char) -> (r: Option<usize>)
    ensures
        r matches Some(i) ==> i < s@.len() && spec_find_char(s@, c, 0) == Some(i as int),
        r is None ==> spec_find_char(s@, c, 0) is None,
{
    let n = s.unicode_len();
    let mut i: usize = 0;
    while i < n
        invariant
            n == s@.len(),
            0 <= i <= n,
            spec_find_char(s@, c, 0) == spec_find_char(s@, c, i as int),
        decreases n - i,
    {
        if s.get_char(i) == c {
            return Some(i);
        }
        i += 1;
    }
    None
}

/// What `spec_find_char` promises: a hit is the first occurrence, a miss
/// means the character is absent from `i` on.
pub proof fn lemma_find_char_props(s: Seq<char>, c: char, i: int)
    requires
        0 <= i <= s.len(),
    ensures
        match spec_find_char(s, c, i) {
            Some(j) => i <= j < s.len() && s[j] == c && (forall|k: int| i <= k < j ==> s[k] != c),
            None => forall|k: int| i <= k < s.len() ==> s[k] != c,
        },
    decreases s.len() - i,
{
    if i < s.len() {
        lemma_find_char_props(s, c, i + 1);
    }
}

/// Splitting takes the field before the first separator off the front.
pub proof fn lemma_split_on_first(a: Seq<char>, sep: char, rest: Seq<char>)
    requires
        forall|k: int| 0 <= k < a.len() ==> a[k] != sep,
    ensures
        spec_split(a + seq![sep] + rest, sep) == seq![a] + spec_split(rest, sep),
{
    let s = a + seq![sep] + rest;
    lemma_find_char_props(s, sep, 0);
    assert(s[a.len() as int] == sep);
    match spec_find_char(s, sep, 0) {
        Some(j) => {
            if j < a.len() {
                assert(s[j] == a[j]);
                assert(false);
            }
            if j > a.len() {
                assert(false);
            }
            assert(s.take(j) =~= a);
            assert(s.skip(j + 1) =~= rest);
        },
        None => {
            assert(false);
        },
    }
}

/// A separator-free sequence splits into itself alone.
pub proof fn lemma_split_whole(a: Seq<char>, sep: char)
    requires
        forall|k: int| 0 <= k < a.len() ==> a[k] != sep,
    ensures
        spec_split(a, sep) == seq![a],
{
    lemma_find_char_props(a, sep, 0);
    match spec_find_char(a, sep, 0) {
        Some(j) => {
            assert(false);
        },
        None => {},
    }
}

/// The views of a vector of strings.
pub open spec fn spec_views(v: Seq<String>) -> Seq<Seq<char>> {
    v.map_values(|x: String| x@)
}

/// Split `s` on `sep` into owned fields.
pub fn split_str(s: &str, sep: char) -> (parts: Vec<String>)
    ensures
        spec_views(parts@) == spec_split(s@, sep),
        parts@.len() >= 1,
{
    let mut parts: Vec<String> = Vec::new();
    let mut rest: String = String::from_str(s);
    proof {
        assert(spec_views(parts@) + spec_split(rest@, sep) =~= spec_split(s@, sep));
    }
    loop
        invariant_except_break
            spec_split(s@, sep) == spec_views(parts@) + spec_split(rest@, sep),
        ensures
            spec_views(parts@) == spec_split(s@, sep),
            parts@.len() >= 1,
        decreases rest@.len(),
    {
        let ghost views0 = spec_views(parts@);
        match find_char(rest.as_str(), sep) {
            Some(i) => {
                let n = rest.unicode_len();
                let head = String::from_str(rest.as_str().substring_char(0, i));
                let tail = String::from_str(rest.as_str().substring_char(i + 1, n));
                proof {
                    assert(head@ =~= rest@.take(i as int));
                    assert(tail@ =~= rest@.skip(i + 1));
                }
                let ghost old_rest = rest@;
                parts.push(head);
                rest = tail;
                proof {
                    assert(spec_views(parts@) =~= views0.push(old_rest.take(i as int)));
                    assert(views0 + (seq![old_rest.take(i as int)] + spec_split(rest@, sep))
                        =~= (views0.push(old_rest.take(i as int))) + spec_split(rest@, sep));
                }
            },
            None => {
                let ghost old_rest = rest@;
                parts.push(rest);
                proof {
                    assert(spec_views(parts@) =~= views0.push(old_rest));
                    assert(views0 + seq![old_rest] =~= views0.push(old_rest));
                }
                break ;
            },
        }
    }
    parts
}

} // verus!
