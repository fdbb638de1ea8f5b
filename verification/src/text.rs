//! Verified text primitives: first occurrence of a character or of a
//! substring, suffix tests, and splitting on a separator character.

use vstd::prelude::*;

verus! {

/// Index of the first occurrence of `c` in `s` at or after `from`,
/// or `s.len()` when `c` does not occur there.
pub open spec fn find_char_from(s: Seq<char>, c: char, from: int) -> int
    recommends
        0 <= from <= s.len(),
    decreases s.len() - from,
{
    if from < 0 || from >= s.len() {
        s.len() as int
    } else if s[from] == c {
        from
    } else {
        find_char_from(s, c, from + 1)
    }
}

pub proof fn lemma_find_char_from(s: Seq<char>, c: char, from: int)
    requires
        0 <= from <= s.len(),
    ensures
        from <= find_char_from(s, c, from) <= s.len(),
        find_char_from(s, c, from) < s.len() ==> s[find_char_from(s, c, from)] == c,
        forall|j: int| from <= j < find_char_from(s, c, from) ==> s[j] != c,
    decreases s.len() - from,
{
    if from < s.len() && s[from] != c {
        lemma_find_char_from(s, c, from + 1);
    }
}

/// Exec search for the first occurrence of `c` at or after `from`.
pub fn find_char(s: &str, c: char, from: usize) -> (r: usize)
    requires
        from <= s@.len(),
    ensures
        r == find_char_from(s@, c, from as int),
        from <= r <= s@.len(),
        r < s@.len() ==> s@[r as int] == c,
{
    let n = s.unicode_len();
    let mut i = from;
    while i < n
        invariant
            from <= i <= n,
            n == s@.len(),
            find_char_from(s@, c, from as int) == find_char_from(s@, c, i as int),
        decreases n - i,
    {
        if s.get_char(i) == c {
            return i;
        }
        i += 1;
    }
    i
}

/// `p` occurs in `s` starting at position `i`.
pub open spec fn match_at(s: Seq<char>, p: Seq<char>, i: int) -> bool {
    0 <= i && i + p.len() <= s.len() && forall|j: int|
        0 <= j < p.len() ==> #[trigger] p[j] == s[i + j]
}

/// Index of the first position at or after `from` where `p` occurs in `s`,
/// or `-1` when there is none.
pub open spec fn find_sub_from(s: Seq<char>, p: Seq<char>, from: int) -> int
    recommends
        0 <= from,
    decreases s.len() - from,
{
    if from < 0 || from + p.len() > s.len() {
        -1
    } else if match_at(s, p, from) {
        from
    } else {
        find_sub_from(s, p, from + 1)
    }
}

/// `s` has `p` somewhere as a contiguous substring.
pub open spec fn contains_sub(s: Seq<char>, p: Seq<char>) -> bool {
    find_sub_from(s, p, 0) >= 0
}

pub proof fn lemma_find_sub_from(s: Seq<char>, p: Seq<char>, from: int)
    requires
        0 <= from,
    ensures
        find_sub_from(s, p, from) == -1 || (from <= find_sub_from(s, p, from)
            && match_at(s, p, find_sub_from(s, p, from))),
        find_sub_from(s, p, from) == -1 ==> forall|i: int| from <= i ==> !match_at(s, p, i),
    decreases s.len() - from,
{
    if from + p.len() > s.len() {
        assert forall|i: int| from <= i implies !match_at(s, p, i) by {}
    } else if !match_at(s, p, from) {
        lemma_find_sub_from(s, p, from + 1);
    }
}

/// The first-occurrence search finds a match exactly when one exists.
pub proof fn lemma_contains_sub_iff(s: Seq<char>, p: Seq<char>)
    ensures
        contains_sub(s, p) <==> exists|i: int| match_at(s, p, i),
{
    lemma_find_sub_from(s, p, 0);
    if contains_sub(s, p) {
        assert(match_at(s, p, find_sub_from(s, p, 0)));
    }
    if exists|i: int| match_at(s, p, i) {
        let w = choose|i: int| match_at(s, p, i);
        assert(0 <= w);
        if find_sub_from(s, p, 0) == -1 {
            assert(!match_at(s, p, w));
        }
    }
}

/// Exec test whether `p` occurs in `s` at position `i`.
fn match_at_exec(s: &str, p: &str, i: usize) -> (r: bool)
    requires
        i + p@.len() <= s@.len(),
    ensures
        r == match_at(s@, p@, i as int),
{
    let n = s.unicode_len();
    let m = p.unicode_len();
    let mut j: usize = 0;
    while j < m
        invariant
            0 <= j <= m,
            m == p@.len(),
            n == s@.len(),
            i + m <= n,
            forall|k: int| 0 <= k < j ==> #[trigger] p@[k] == s@[i + k],
        decreases m - j,
    {
        if p.get_char(j) != s.get_char(i + j) {
            return false;
        }
        j += 1;
    }
    true
}

/// Exec search for the first occurrence of the substring `p` in `s`.
pub fn find_sub(s: &str, p: &str) -> (r: Option<usize>)
    ensures
        match r {
            Some(i) => find_sub_from(s@, p@, 0) == i,
            None => find_sub_from(s@, p@, 0) == -1,
        },
{
    let n = s.unicode_len();
    let m = p.unicode_len();
    if m > n {
        return None;
    }
    if m == 0 {
        assert(match_at(s@, p@, 0));
        return Some(0);
    }
    let mut i: usize = 0;
    while i <= n - m
        invariant
            0 <= i <= n - m + 1,
            0 < m <= n,
            n == s@.len(),
            m == p@.len(),
            find_sub_from(s@, p@, 0) == find_sub_from(s@, p@, i as int),
        decreases n - i,
    {
        if match_at_exec(s, p, i) {
            return Some(i);
        }
        i += 1;
    }
    None
}

/// Exec test whether `p` occurs somewhere in `s`.
pub fn contains_sub_str(s: &str, p: &str) -> (r: bool)
    ensures
        r == contains_sub(s@, p@),
{
    find_sub(s, p).is_some()
}

/// `s` ends with the suffix `p`.
pub open spec fn ends_with(s: Seq<char>, p: Seq<char>) -> bool {
    p.len() <= s.len() && match_at(s, p, s.len() - p.len())
}

/// Exec test whether `s` ends with the suffix `p`.
pub fn ends_with_str(s: &str, p: &str) -> (r: bool)
    ensures
        r == ends_with(s@, p@),
{
    let n = s.unicode_len();
    let m = p.unicode_len();
    if m > n {
        return false;
    }
    match_at_exec(s, p, n - m)
}

/// Segments of `s` between occurrences of the separator `c`; the result
/// always has one more segment than `s` has separators.
pub open spec fn split_char(s: Seq<char>, c: char) -> Seq<Seq<char>>
    decreases s.len(),
{
    let i = find_char_from(s, c, 0);
    if 0 <= i && i < s.len() {
        seq![s.subrange(0, i)] + split_char(s.subrange(i + 1, s.len() as int), c)
    } else {
        seq![s]
    }
}

pub proof fn lemma_split_char_len(s: Seq<char>, c: char)
    ensures
        split_char(s, c).len() >= 1,
    decreases s.len(),
{
    let i = find_char_from(s, c, 0);
    if 0 <= i && i < s.len() {
        lemma_split_char_len(s.subrange(i + 1, s.len() as int), c);
    }
}

/// Exec split of `s` on the separator `c`.
pub fn split_char_str(s: &str, c: char) -> (r: Vec<String>)
    ensures
        r@.map_values(|t: String| t@) == split_char(s@, c),
{
    let mut out: Vec<String> = Vec::new();
    let mut rem: &str = s;
    loop
        invariant_except_break
            out@.map_values(|t: String| t@) + split_char(rem@, c) == split_char(s@, c),
        ensures
            out@.map_values(|t: String| t@) == split_char(s@, c),
        decreases rem@.len(),
    {
        let n = rem.unicode_len();
        let i = find_char(rem, c, 0);
        if i == n {
            let ghost prev = out@.map_values(|t: String| t@);
            out.push(rem.to_owned());
            proof {
                assert(out@.map_values(|t: String| t@) =~= prev + seq![rem@]);
                assert(split_char(rem@, c) == seq![rem@]);
            }
            break;
        } else {
            let ghost prev = out@.map_values(|t: String| t@);
            let ghost old_rem = rem@;
            let seg = rem.substring_char(0, i);
            out.push(seg.to_owned());
            rem = rem.substring_char(i + 1, n);
            proof {
                assert(out@.map_values(|t: String| t@) =~= prev + seq![old_rem.subrange(0, i as int)]);
                assert(split_char(old_rem, c) == seq![old_rem.subrange(0, i as int)] + split_char(rem@, c));
                assert(prev + seq![old_rem.subrange(0, i as int)] + split_char(rem@, c)
                    =~= prev + split_char(old_rem, c));
            }
        }
    }
    out
}

} // verus!
