//! Character-level helpers on URLs: splitting on a separator, searching for a
//! pattern, and the last position of a character, each stated over `Seq<char>`.
use vstd::prelude::*;

verus! {

/// The pieces of `s` between occurrences of `c`, as `str::split` yields them:
/// always at least one piece, and an empty piece on each side of a separator
/// that stands at an end.
pub open spec fn split_char(s: Seq<char>, c: char) -> Seq<Seq<char>>
    decreases s.len(),
{
    if s.len() == 0 {
        seq![Seq::<char>::empty()]
    } else {
        let parts = split_char(s.drop_last(), c);
        if s.last() == c {
            parts.push(Seq::<char>::empty())
        } else {
            parts.update(parts.len() - 1, parts.last().push(s.last()))
        }
    }
}

/// `pat` stands in `s` starting at position `i`.
pub open spec fn occurs_at(s: Seq<char>, pat: Seq<char>, i: int) -> bool {
    0 <= i && i + pat.len() <= s.len() && s.subrange(i, i + pat.len()) == pat
}

#[verifier::opaque]
pub open spec fn contains_seq(s: Seq<char>, pat: Seq<char>) -> bool {
    exists|i: int| occurs_at(s, pat, i)
}

/// The smallest position at which `pat` stands in `s` (meaningful when it stands there).
#[verifier::opaque]
pub open spec fn first_occurrence(s: Seq<char>, pat: Seq<char>) -> int {
    choose|i: int| occurs_at(s, pat, i) && forall|j: int| 0 <= j < i ==> !occurs_at(s, pat, j)
}

/// The largest position of `c` in `s`, if `c` occurs.
#[verifier::opaque]
pub open spec fn last_index_of(s: Seq<char>, c: char) -> Option<int> {
    if exists|i: int| 0 <= i < s.len() && s[i] == c {
        Some(
            choose|i: int|
                0 <= i < s.len() && s[i] == c && forall|j: int| i < j < s.len() ==> s[j] != c,
        )
    } else {
        None
    }
}

/// The position of the first piece equal to `w`, if any is.
#[verifier::opaque]
pub open spec fn first_piece_equal(parts: Seq<Seq<char>>, w: Seq<char>) -> Option<int> {
    if parts.contains(w) {
        Some(
            choose|k: int|
                0 <= k < parts.len() && parts[k] == w && forall|j: int|
                    0 <= j < k ==> parts[j] != w,
        )
    } else {
        None
    }
}

/// The pieces that a list of `(start, end)` bounds cuts out of `s`.
pub open spec fn pieces(s: Seq<char>, bounds: Seq<(usize, usize)>) -> Seq<Seq<char>> {
    bounds.map_values(|b: (usize, usize)| s.subrange(b.0 as int, b.1 as int))
}

pub open spec fn bounds_within(bounds: Seq<(usize, usize)>, len: int) -> bool {
    forall|k: int| 0 <= k < bounds.len() ==> #[trigger] bounds[k].0 <= bounds[k].1 <= len
}

/// The characters of `s`, one per element.
pub(crate) fn chars_of(s: &str) -> (r: Vec<char>)
    ensures
        r@ == s@,
{
    let n = s.unicode_len();
    let mut r: Vec<char> = Vec::new();
    let mut i: usize = 0;
    while i < n
        invariant
            n == s@.len(),
            i <= n,
            r@ == s@.take(i as int),
        decreases n - i,
    {
        r.push(s.get_char(i));
        i = i + 1;
        assert(r@ =~= s@.take(i as int));
    }
    assert(r@ =~= s@);
    r
}

/// Whether `pat` stands in `s` at position `i`.
pub(crate) fn matches_at(s: &Vec<char>, pat: &Vec<char>, i: usize) -> (r: bool)
    ensures
        r == occurs_at(s@, pat@, i as int),
{
    if pat.len() > s.len() || i > s.len() - pat.len() {
        return false;
    }
    let mut k: usize = 0;
    while k < pat.len()
        invariant
            i + pat.len() <= s.len(),
            k <= pat.len(),
            forall|m: int| 0 <= m < k ==> s@[i + m] == pat@[m],
        decreases pat.len() - k,
    {
        if s[i + k] != pat[k] {
            assert(s@.subrange(i as int, i + pat.len())[k as int] != pat@[k as int]);
            return false;
        }
        k = k + 1;
    }
    assert(s@.subrange(i as int, i + pat.len()) =~= pat@);
    true
}

/// Whether `s[a..b]` equals `lit`.
pub(crate) fn range_equals(s: &Vec<char>, a: usize, b: usize, lit: &Vec<char>) -> (r: bool)
    requires
        a <= b <= s.len(),
    ensures
        r == (s@.subrange(a as int, b as int) == lit@),
{
    if b - a != lit.len() {
        return false;
    }
    matches_at(s, lit, a)
}

/// The first position of `pat` in `s`, if it occurs.
pub(crate) fn find_first(s: &Vec<char>, pat: &Vec<char>) -> (r: Option<usize>)
    ensures
        r is Some <==> contains_seq(s@, pat@),
        r matches Some(i) ==> first_occurrence(s@, pat@) == i,
        r matches Some(i) ==> occurs_at(s@, pat@, i as int),
{
    reveal(contains_seq);
    reveal(first_occurrence);
    if pat.len() > s.len() {
        return None;
    }
    if pat.len() == 0 {
        assert(s@.subrange(0, 0) =~= pat@);
        assert(occurs_at(s@, pat@, 0));
        assert(first_occurrence(s@, pat@) == 0);
        return Some(0);
    }
    let last = s.len() - pat.len();
    let mut i: usize = 0;
    while i <= last
        invariant
            last == s.len() - pat.len(),
            last < s.len(),
            i <= last + 1,
            forall|j: int| 0 <= j < i ==> !occurs_at(s@, pat@, j),
        decreases last + 1 - i,
    {
        if matches_at(s, pat, i) {
            proof {
                reveal(contains_seq);
                reveal(first_occurrence);
                let k = first_occurrence(s@, pat@);
                assert(occurs_at(s@, pat@, i as int) && forall|j: int|
                    0 <= j < i ==> !occurs_at(s@, pat@, j));
                assert(occurs_at(s@, pat@, k));
                if k < i {
                    assert(!occurs_at(s@, pat@, k));
                }
                if k > i {
                    assert(!occurs_at(s@, pat@, i as int));
                }
            }
            return Some(i);
        }
        i = i + 1;
    }
    reveal(contains_seq);
    None
}

/// The largest position in `lo..hi` that holds `c`, if any.
pub(crate) fn find_last_char(s: &Vec<char>, lo: usize, hi: usize, c: char) -> (r: Option<usize>)
    requires
        lo <= hi <= s.len(),
    ensures
        r matches Some(d) ==> lo <= d < hi,
        last_index_of(s@.subrange(lo as int, hi as int), c) == match r {
            Some(d) => Some(d - lo),
            None => None::<int>,
        },
{
    reveal(last_index_of);
    let ghost seg = s@.subrange(lo as int, hi as int);
    let mut i: usize = hi;
    while i > lo
        invariant
            lo <= i <= hi <= s.len(),
            seg == s@.subrange(lo as int, hi as int),
            forall|j: int| i - lo <= j < seg.len() ==> seg[j] != c,
        decreases i - lo,
    {
        i = i - 1;
        if s[i] == c {
            proof {
                reveal(last_index_of);
                let d = i - lo;
                assert(seg[d] == c);
                assert(0 <= d < seg.len() && seg[d] == c && forall|j: int|
                    d < j < seg.len() ==> seg[j] != c);
                let k = choose|k: int|
                    0 <= k < seg.len() && seg[k] == c && forall|j: int|
                        k < j < seg.len() ==> seg[j] != c;
                if k < d {
                    assert(seg[d] != c);
                }
                if k > d {
                    assert(seg[k] != c);
                }
            }
            return Some(i);
        }
    }
    reveal(last_index_of);
    None
}

/// The position of the first piece, among those that `b` cuts out of `s`, equal to `w`.
pub(crate) fn find_piece(s: &Vec<char>, b: &Vec<(usize, usize)>, w: &Vec<char>) -> (r: Option<usize>)
    requires
        bounds_within(b@, s.len() as int),
    ensures
        r matches Some(k) ==> k < b.len(),
        first_piece_equal(pieces(s@, b@), w@) == match r {
            Some(k) => Some(k as int),
            None => None::<int>,
        },
{
    reveal(first_piece_equal);
    let ghost parts = pieces(s@, b@);
    let mut k: usize = 0;
    while k < b.len()
        invariant
            k <= b.len(),
            parts == pieces(s@, b@),
            bounds_within(b@, s.len() as int),
            forall|j: int| 0 <= j < k ==> parts[j] != w@,
        decreases b.len() - k,
    {
        let (x, y) = b[k];
        assert(parts[k as int] == s@.subrange(x as int, y as int));
        if range_equals(s, x, y, w) {
            proof {
                reveal(first_piece_equal);
                assert(parts.contains(w@));
                assert(0 <= k < parts.len() && parts[k as int] == w@ && forall|j: int|
                    0 <= j < k ==> parts[j] != w@);
                let f = choose|f: int|
                    0 <= f < parts.len() && parts[f] == w@ && forall|j: int|
                        0 <= j < f ==> parts[j] != w@;
                if f < k {
                    assert(parts[f] != w@);
                }
                if f > k {
                    assert(parts[k as int] != w@);
                }
            }
            return Some(k);
        }
        k = k + 1;
    }
    reveal(first_piece_equal);
    assert(!parts.contains(w@));
    None
}

/// The bounds of the pieces of `s[from..]` between occurrences of `c`.
pub(crate) fn split_bounds(s: &Vec<char>, from: usize, c: char) -> (r: Vec<(usize, usize)>)
    requires
        from <= s.len(),
    ensures
        r.len() >= 1,
        bounds_within(r@, s.len() as int),
        pieces(s@, r@) == split_char(s@.subrange(from as int, s.len() as int), c),
{
    let mut r: Vec<(usize, usize)> = Vec::new();
    let mut start: usize = from;
    let mut i: usize = from;
    assert(pieces(s@, r@) =~= Seq::<Seq<char>>::empty());
    assert(s@.subrange(from as int, from as int) =~= Seq::<char>::empty());
    while i < s.len()
        invariant
            from <= start <= i <= s.len(),
            bounds_within(r@, s.len() as int),
            pieces(s@, r@).push(s@.subrange(start as int, i as int)) == split_char(
                s@.subrange(from as int, i as int),
                c,
            ),
        decreases s.len() - i,
    {
        let ghost before = s@.subrange(from as int, i as int);
        let ghost after = s@.subrange(from as int, i + 1);
        assert(after.drop_last() =~= before);
        assert(after.last() == s@[i as int]);
        if s[i] == c {
            r.push((start, i));
            start = i + 1;
            assert(pieces(s@, r@) =~= pieces(s@, r@.drop_last()).push(
                s@.subrange(r@.last().0 as int, i as int),
            ));
            assert(s@.subrange(start as int, i + 1) =~= Seq::<char>::empty());
        } else {
            assert(s@.subrange(start as int, i + 1) =~= s@.subrange(start as int, i as int).push(
                s@[i as int],
            ));
        }
        i = i + 1;
        assert(pieces(s@, r@).push(s@.subrange(start as int, i as int)) =~= split_char(
            s@.subrange(from as int, i as int),
            c,
        ));
    }
    let ghost old_r = r@;
    r.push((start, s.len()));
    assert(pieces(s@, r@) =~= pieces(s@, old_r).push(
        s@.subrange(start as int, s.len() as int),
    ));
    r
}

} // verus!
