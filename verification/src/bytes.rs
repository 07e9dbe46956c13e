//! Byte-sequence helpers shared by the parser and the file-name
//! transforms: scanning for delimiters, comparing and copying ranges, and
//! left-to-right substring replacement.

use vstd::prelude::*;

verus! {

/// The whitespace bytes of the document format: space, tab, CR, LF.
pub open spec fn is_ws(b: u8) -> bool {
    b == 0x20 || b == 0x09 || b == 0x0a || b == 0x0d
}

/// A byte that ends a tag or attribute name.
pub open spec fn is_name_delim(b: u8) -> bool {
    is_ws(b) || b == 0x3e || b == 0x2f || b == 0x3d
}

/// Index of the first occurrence of `b` at or after `from`; `s.len()` when
/// there is none.
pub open spec fn idx_of(s: Seq<u8>, from: int, b: u8) -> int
    decreases s.len() - from,
{
    if from < 0 || from >= s.len() {
        s.len() as int
    } else if s[from] == b {
        from
    } else {
        idx_of(s, from + 1, b)
    }
}

/// Index of the first non-whitespace byte at or after `from`; `s.len()`
/// when there is none.
pub open spec fn skip_ws(s: Seq<u8>, from: int) -> int
    decreases s.len() - from,
{
    if from < 0 || from >= s.len() {
        s.len() as int
    } else if is_ws(s[from]) {
        skip_ws(s, from + 1)
    } else {
        from
    }
}

/// Index of the first name-delimiter byte at or after `from`; `s.len()`
/// when there is none.
pub open spec fn name_end(s: Seq<u8>, from: int) -> int
    decreases s.len() - from,
{
    if from < 0 || from >= s.len() {
        s.len() as int
    } else if is_name_delim(s[from]) {
        from
    } else {
        name_end(s, from + 1)
    }
}

/// Index of the first position `i >= from` where `s[i] == a` and
/// `s[i + 1] == b`; `s.len()` when there is none.
pub open spec fn find2(s: Seq<u8>, from: int, a: u8, b: u8) -> int
    decreases s.len() - from,
{
    if from < 0 || from + 1 >= s.len() {
        s.len() as int
    } else if s[from] == a && s[from + 1] == b {
        from
    } else {
        find2(s, from + 1, a, b)
    }
}

/// Index of the first position `i >= from` where `s[i] == a`,
/// `s[i + 1] == b` and `s[i + 2] == c`; `s.len()` when there is none.
pub open spec fn find3(s: Seq<u8>, from: int, a: u8, b: u8, c: u8) -> int
    decreases s.len() - from,
{
    if from < 0 || from + 2 >= s.len() {
        s.len() as int
    } else if s[from] == a && s[from + 1] == b && s[from + 2] == c {
        from
    } else {
        find3(s, from + 1, a, b, c)
    }
}

/// Every byte of `s` in `[lo, hi)` is whitespace.
pub open spec fn all_ws_range(s: Seq<u8>, lo: int, hi: int) -> bool {
    forall|k: int| lo <= k < hi ==> is_ws(#[trigger] s[k])
}

/// `pat` occurs in `s` starting at index `i`.
pub open spec fn is_match_at(s: Seq<u8>, pat: Seq<u8>, i: int) -> bool {
    0 <= i && i + pat.len() <= s.len() && s.subrange(i, i + pat.len()) == pat
}

/// `pat` occurs somewhere in `s`.
pub open spec fn contains_seq(s: Seq<u8>, pat: Seq<u8>) -> bool {
    exists|i: int| is_match_at(s, pat, i)
}

/// `s` ends with `suffix`.
pub open spec fn ends_with_seq(s: Seq<u8>, suffix: Seq<u8>) -> bool {
    s.len() >= suffix.len() && s.subrange(s.len() - suffix.len(), s.len() as int) == suffix
}

/// Index of the last occurrence of `b` in `s`; `-1` when there is none.
pub open spec fn last_idx_of(s: Seq<u8>, b: u8) -> int
    decreases s.len(),
{
    if s.len() == 0 {
        -1
    } else if s[s.len() - 1] == b {
        s.len() - 1
    } else {
        last_idx_of(s.drop_last(), b)
    }
}

/// `s` with every left-to-right, non-overlapping occurrence of `pat` at or
/// after index `i` replaced by `rep`.
pub open spec fn replace_from(s: Seq<u8>, pat: Seq<u8>, rep: Seq<u8>, i: int) -> Seq<u8>
    decreases s.len() - i,
{
    if pat.len() == 0 || i < 0 || i >= s.len() {
        if 0 <= i <= s.len() {
            s.subrange(i, s.len() as int)
        } else {
            Seq::empty()
        }
    } else if is_match_at(s, pat, i) {
        rep + replace_from(s, pat, rep, i + pat.len())
    } else {
        seq![s[i]] + replace_from(s, pat, rep, i + 1)
    }
}

/// `idx_of` stays within `[from, s.len()]` and lands on `b` when it lands
/// inside the sequence.
pub proof fn lemma_idx_of_bounds(s: Seq<u8>, from: int, b: u8)
    requires
        0 <= from <= s.len(),
    ensures
        from <= idx_of(s, from, b) <= s.len(),
        idx_of(s, from, b) < s.len() ==> s[idx_of(s, from, b)] == b,
    decreases s.len() - from,
{
    if from < s.len() && s[from] != b {
        lemma_idx_of_bounds(s, from + 1, b);
    }
}

/// `skip_ws` stays within `[from, s.len()]` and lands on a non-whitespace
/// byte when it lands inside the sequence.
pub proof fn lemma_skip_ws_bounds(s: Seq<u8>, from: int)
    requires
        0 <= from <= s.len(),
    ensures
        from <= skip_ws(s, from) <= s.len(),
        skip_ws(s, from) < s.len() ==> !is_ws(s[skip_ws(s, from)]),
    decreases s.len() - from,
{
    if from < s.len() && is_ws(s[from]) {
        lemma_skip_ws_bounds(s, from + 1);
    }
}

/// `name_end` stays within `[from, s.len()]` and lands on a delimiter when
/// it lands inside the sequence.
pub proof fn lemma_name_end_bounds(s: Seq<u8>, from: int)
    requires
        0 <= from <= s.len(),
    ensures
        from <= name_end(s, from) <= s.len(),
        name_end(s, from) < s.len() ==> is_name_delim(s[name_end(s, from)]),
    decreases s.len() - from,
{
    if from < s.len() && !is_name_delim(s[from]) {
        lemma_name_end_bounds(s, from + 1);
    }
}

/// `find2` stays within `[from, s.len()]`, and where it lands inside the
/// sequence the two bytes follow.
pub proof fn lemma_find2_bounds(s: Seq<u8>, from: int, a: u8, b: u8)
    requires
        0 <= from <= s.len(),
    ensures
        from <= find2(s, from, a, b) <= s.len(),
        find2(s, from, a, b) < s.len() ==> find2(s, from, a, b) + 1 < s.len() && s[find2(
            s,
            from,
            a,
            b,
        )] == a && s[find2(s, from, a, b) + 1] == b,
    decreases s.len() - from,
{
    if from + 1 < s.len() && !(s[from] == a && s[from + 1] == b) {
        lemma_find2_bounds(s, from + 1, a, b);
    }
}

/// `find3` stays within `[from, s.len()]`, and where it lands inside the
/// sequence the three bytes follow.
pub proof fn lemma_find3_bounds(s: Seq<u8>, from: int, a: u8, b: u8, c: u8)
    requires
        0 <= from <= s.len(),
    ensures
        from <= find3(s, from, a, b, c) <= s.len(),
        find3(s, from, a, b, c) < s.len() ==> find3(s, from, a, b, c) + 2 < s.len(),
    decreases s.len() - from,
{
    if from + 2 < s.len() && !(s[from] == a && s[from + 1] == b && s[from + 2] == c) {
        lemma_find3_bounds(s, from + 1, a, b, c);
    }
}

/// Finds the first occurrence of `b` at or after `from`.
pub fn find_byte(s: &[u8], from: usize, b: u8) -> (r: usize)
    requires
        from <= s@.len(),
    ensures
        r == idx_of(s@, from as int, b),
        from <= r <= s@.len(),
        r < s@.len() ==> s@[r as int] == b,
{
    let mut i: usize = from;
    while i < s.len()
        invariant
            from <= i <= s@.len(),
            idx_of(s@, from as int, b) == idx_of(s@, i as int, b),
        decreases s@.len() - i,
    {
        if s[i] == b {
            return i;
        }
        i = i + 1;
    }
    i
}

/// Finds the first non-whitespace byte at or after `from`.
pub fn find_non_ws(s: &[u8], from: usize) -> (r: usize)
    requires
        from <= s@.len(),
    ensures
        r == skip_ws(s@, from as int),
        from <= r <= s@.len(),
        r < s@.len() ==> !is_ws(s@[r as int]),
{
    let mut i: usize = from;
    while i < s.len()
        invariant
            from <= i <= s@.len(),
            skip_ws(s@, from as int) == skip_ws(s@, i as int),
        decreases s@.len() - i,
    {
        let c = s[i];
        if !(c == 0x20 || c == 0x09 || c == 0x0a || c == 0x0d) {
            return i;
        }
        i = i + 1;
    }
    i
}

/// Finds the first name-delimiter byte at or after `from`.
pub fn find_name_end(s: &[u8], from: usize) -> (r: usize)
    requires
        from <= s@.len(),
    ensures
        r == name_end(s@, from as int),
        from <= r <= s@.len(),
        r < s@.len() ==> is_name_delim(s@[r as int]),
{
    let mut i: usize = from;
    while i < s.len()
        invariant
            from <= i <= s@.len(),
            name_end(s@, from as int) == name_end(s@, i as int),
        decreases s@.len() - i,
    {
        let c = s[i];
        if c == 0x20 || c == 0x09 || c == 0x0a || c == 0x0d || c == 0x3e || c == 0x2f || c == 0x3d
        {
            return i;
        }
        i = i + 1;
    }
    i
}

/// Finds the first position at or after `from` where `a` is directly
/// followed by `b`.
pub fn find_pair(s: &[u8], from: usize, a: u8, b: u8) -> (r: usize)
    requires
        from <= s@.len(),
    ensures
        r == find2(s@, from as int, a, b),
        from <= r <= s@.len(),
{
    let mut i: usize = from;
    while i < s.len()
        invariant
            from <= i <= s@.len(),
            find2(s@, from as int, a, b) == find2(s@, i as int, a, b),
        decreases s@.len() - i,
    {
        if i + 1 >= s.len() {
            return s.len();
        }
        if s[i] == a && s[i + 1] == b {
            return i;
        }
        i = i + 1;
    }
    s.len()
}

/// Finds the first position at or after `from` where `a`, `b` and `c`
/// occur directly in a row.
pub fn find_triple(s: &[u8], from: usize, a: u8, b: u8, c: u8) -> (r: usize)
    requires
        from <= s@.len(),
    ensures
        r == find3(s@, from as int, a, b, c),
        from <= r <= s@.len(),
{
    let mut i: usize = from;
    while i < s.len()
        invariant
            from <= i <= s@.len(),
            find3(s@, from as int, a, b, c) == find3(s@, i as int, a, b, c),
        decreases s@.len() - i,
    {
        if i + 1 >= s.len() {
            return s.len();
        }
        if i + 2 >= s.len() {
            return s.len();
        }
        if s[i] == a && s[i + 1] == b && s[i + 2] == c {
            return i;
        }
        i = i + 1;
    }
    s.len()
}

/// Decides whether every byte of `s` in `[lo, hi)` is whitespace.
pub fn check_all_ws(s: &[u8], lo: usize, hi: usize) -> (r: bool)
    requires
        lo <= hi <= s@.len(),
    ensures
        r == all_ws_range(s@, lo as int, hi as int),
{
    let mut i: usize = lo;
    while i < hi
        invariant
            lo <= i <= hi <= s@.len(),
            all_ws_range(s@, lo as int, i as int),
        decreases hi - i,
    {
        let c = s[i];
        if !(c == 0x20 || c == 0x09 || c == 0x0a || c == 0x0d) {
            return false;
        }
        i = i + 1;
    }
    true
}

/// Compares two byte slices for equality.
pub fn bytes_eq(x: &[u8], y: &[u8]) -> (r: bool)
    ensures
        r == (x@ == y@),
{
    if x.len() != y.len() {
        return false;
    }
    let mut i: usize = 0;
    while i < x.len()
        invariant
            i <= x@.len(),
            x@.len() == y@.len(),
            forall|k: int| 0 <= k < i ==> x@[k] == #[trigger] y@[k],
        decreases x@.len() - i,
    {
        if x[i] != y[i] {
            return false;
        }
        i = i + 1;
    }
    proof {
        assert(x@ =~= y@);
    }
    true
}

/// Copies the bytes of `s` in `[lo, hi)` into a fresh vector.
pub fn copy_range(s: &[u8], lo: usize, hi: usize) -> (v: Vec<u8>)
    requires
        lo <= hi <= s@.len(),
    ensures
        v@ == s@.subrange(lo as int, hi as int),
{
    let mut v: Vec<u8> = Vec::new();
    let mut i: usize = lo;
    while i < hi
        invariant
            lo <= i <= hi <= s@.len(),
            v@ == s@.subrange(lo as int, i as int),
        decreases hi - i,
    {
        v.push(s[i]);
        proof {
            assert(v@ =~= s@.subrange(lo as int, i + 1));
        }
        i = i + 1;
    }
    v
}

/// Decides whether `pat` occurs in `s` starting at index `i`.
pub fn match_at(s: &[u8], pat: &[u8], i: usize) -> (r: bool)
    ensures
        r == is_match_at(s@, pat@, i as int),
{
    if s.len() < pat.len() || i > s.len() - pat.len() {
        return false;
    }
    let mut j: usize = 0;
    while j < pat.len()
        invariant
            i + pat@.len() <= s@.len(),
            s@.len() <= usize::MAX,
            j <= pat@.len(),
            forall|k: int| 0 <= k < j ==> s@[i + k] == #[trigger] pat@[k],
        decreases pat@.len() - j,
    {
        if s[i + j] != pat[j] {
            proof {
                assert(s@.subrange(i as int, i + pat@.len())[j as int] == s@[i + j]);
            }
            return false;
        }
        j = j + 1;
    }
    proof {
        assert(s@.subrange(i as int, i + pat@.len()) =~= pat@);
    }
    true
}

/// Replaces every left-to-right, non-overlapping occurrence of `pat` in
/// `s` by `rep`.
pub fn replace_all(s: &[u8], pat: &[u8], rep: &[u8]) -> (v: Vec<u8>)
    requires
        pat@.len() >= 1,
    ensures
        v@ == replace_from(s@, pat@, rep@, 0),
{
    let mut v: Vec<u8> = Vec::new();
    let mut i: usize = 0;
    while i < s.len()
        invariant
            pat@.len() >= 1,
            i <= s@.len(),
            replace_from(s@, pat@, rep@, 0) == v@ + replace_from(s@, pat@, rep@, i as int),
        decreases s@.len() - i,
    {
        let ghost v_old = v@;
        if match_at(s, pat, i) {
            let mut j: usize = 0;
            while j < rep.len()
                invariant
                    j <= rep@.len(),
                    v@ == v_old + rep@.subrange(0, j as int),
                decreases rep@.len() - j,
            {
                v.push(rep[j]);
                proof {
                    assert(v@ =~= v_old + rep@.subrange(0, j + 1));
                }
                j = j + 1;
            }
            proof {
                assert(rep@.subrange(0, rep@.len() as int) =~= rep@);
                assert(replace_from(s@, pat@, rep@, i as int) == rep@ + replace_from(
                    s@,
                    pat@,
                    rep@,
                    i + pat@.len(),
                ));
                assert(v_old + (rep@ + replace_from(s@, pat@, rep@, i + pat@.len())) =~= (v_old
                    + rep@) + replace_from(s@, pat@, rep@, i + pat@.len()));
            }
            i = i + pat.len();
        } else {
            v.push(s[i]);
            proof {
                assert(replace_from(s@, pat@, rep@, i as int) == seq![s@[i as int]]
                    + replace_from(s@, pat@, rep@, i + 1));
                assert(v@ =~= v_old + seq![s@[i as int]]);
                assert(v_old + (seq![s@[i as int]] + replace_from(s@, pat@, rep@, i + 1)) =~= (
                v_old + seq![s@[i as int]]) + replace_from(s@, pat@, rep@, i + 1));
            }
            i = i + 1;
        }
    }
    proof {
        assert(v@ + replace_from(s@, pat@, rep@, s@.len() as int) =~= v@);
    }
    v
}

/// Decides whether `pat` occurs anywhere in `s`.
pub fn contains_pat(s: &[u8], pat: &[u8]) -> (r: bool)
    requires
        pat@.len() >= 1,
    ensures
        r == contains_seq(s@, pat@),
{
    let mut i: usize = 0;
    while i < s.len()
        invariant
            i <= s@.len(),
            forall|k: int| 0 <= k < i ==> !is_match_at(s@, pat@, k),
        decreases s@.len() - i,
    {
        if match_at(s, pat, i) {
            return true;
        }
        i = i + 1;
    }
    proof {
        if contains_seq(s@, pat@) {
            let k = choose|k: int| is_match_at(s@, pat@, k);
            assert(0 <= k < s@.len());
            assert(false);
        }
    }
    false
}

/// Decides whether `s` ends with `suffix`.
pub fn ends_with(s: &[u8], suffix: &[u8]) -> (r: bool)
    ensures
        r == ends_with_seq(s@, suffix@),
{
    if s.len() < suffix.len() {
        return false;
    }
    match_at(s, suffix, s.len() - suffix.len())
}

/// Finds the last occurrence of `b` in `s`: `None` when there is none,
/// otherwise the index of the last occurrence.
pub fn rfind_byte(s: &[u8], b: u8) -> (r: Option<usize>)
    ensures
        (match r {
            Some(i) => i == last_idx_of(s@, b) && i < s@.len(),
            None => last_idx_of(s@, b) == -1,
        }),
{
    let mut i: usize = s.len();
    proof {
        assert(s@.subrange(0, s@.len() as int) =~= s@);
    }
    while i > 0
        invariant
            i <= s@.len(),
            last_idx_of(s@, b) == last_idx_of(s@.subrange(0, i as int), b),
        decreases i,
    {
        i = i - 1;
        if s[i] == b {
            proof {
                assert(s@.subrange(0, i + 1)[i as int] == s@[i as int]);
            }
            return Some(i);
        }
        proof {
            assert(s@.subrange(0, i + 1).drop_last() =~= s@.subrange(0, i as int));
            assert(s@.subrange(0, i + 1)[i as int] == s@[i as int]);
        }
    }
    proof {
        assert(s@.subrange(0, 0) =~= Seq::<u8>::empty());
    }
    None
}

} // verus!
