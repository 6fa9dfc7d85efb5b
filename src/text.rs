use vstd::prelude::*;

verus! {

/// Unicode whitespace, as `char::is_whitespace` decides it.
pub open spec fn is_ws(c: char) -> bool {
    let n = c as u32;
    n == 0x20 || (0x09 <= n && n <= 0x0d) || n == 0x85 || n == 0xa0 || n == 0x1680 || (0x2000
        <= n && n <= 0x200a) || n == 0x2028 || n == 0x2029 || n == 0x202f || n == 0x205f || n
        == 0x3000
}

/// The first index at or after `i` that does not hold whitespace (or `s.len()`).
pub open spec fn skip_ws(s: Seq<char>, i: int) -> int
    decreases s.len() - i,
{
    if 0 <= i < s.len() && is_ws(s[i]) {
        skip_ws(s, i + 1)
    } else {
        i
    }
}

/// Going back from `j`, no further than `lo`, the index just past the last
/// character that is not whitespace.
pub open spec fn back_ws(s: Seq<char>, lo: int, j: int) -> int
    decreases j - lo,
{
    if lo < j && j <= s.len() && is_ws(s[j - 1]) {
        back_ws(s, lo, j - 1)
    } else {
        j
    }
}

/// `s` without leading and trailing whitespace.
pub open spec fn trim(s: Seq<char>) -> Seq<char> {
    let a = skip_ws(s, 0);
    s.subrange(a, back_ws(s, a, s.len() as int))
}

/// The first index at or after `i` that holds whitespace (or `s.len()`).
pub open spec fn token_end(s: Seq<char>, i: int) -> int
    decreases s.len() - i,
{
    if 0 <= i < s.len() && !is_ws(s[i]) {
        token_end(s, i + 1)
    } else {
        i
    }
}

/// The first whitespace-separated word of `s`, if it has one.
pub open spec fn first_token(s: Seq<char>) -> Option<Seq<char>> {
    let a = skip_ws(s, 0);
    if a < s.len() {
        Some(s.subrange(a, token_end(s, a)))
    } else {
        None
    }
}

/// `p` occurs in `s` at index `i`.
pub open spec fn occurs_at(s: Seq<char>, p: Seq<char>, i: int) -> bool {
    0 <= i && i + p.len() <= s.len() && s.subrange(i, i + p.len()) == p
}

/// `p` occurs somewhere in `s`.
pub open spec fn contains(s: Seq<char>, p: Seq<char>) -> bool {
    exists|i: int| #[trigger] occurs_at(s, p, i)
}

/// `s` begins with `p`.
pub open spec fn starts_with(s: Seq<char>, p: Seq<char>) -> bool {
    occurs_at(s, p, 0)
}

/// A line that ended in a line feed loses a carriage return just before it.
pub open spec fn strip_cr(l: Seq<char>) -> Seq<char> {
    if l.len() > 0 && l.last() == '\r' {
        l.drop_last()
    } else {
        l
    }
}

/// The lines of `s` from the line that begins at `start`, with the scan at `i`.
pub open spec fn lines_from(s: Seq<char>, start: int, i: int) -> Seq<Seq<char>>
    decreases s.len() - i,
{
    if i < 0 || i >= s.len() {
        if 0 <= start < s.len() {
            seq![s.subrange(start, s.len() as int)]
        } else {
            Seq::empty()
        }
    } else if s[i] == '\n' {
        seq![strip_cr(s.subrange(start, i))] + lines_from(s, i + 1, i + 1)
    } else {
        lines_from(s, start, i + 1)
    }
}

/// The lines of `s`, as `str::lines` splits them: at each line feed, with
/// a carriage return before it dropped, and with no empty line after a
/// final line feed.
pub open spec fn lines_of(s: Seq<char>) -> Seq<Seq<char>> {
    lines_from(s, 0, 0)
}

/// The pieces of `s` that the index ranges in `r` delimit.
pub open spec fn pieces(s: Seq<char>, r: Seq<(usize, usize)>) -> Seq<Seq<char>> {
    r.map_values(|p: (usize, usize)| s.subrange(p.0 as int, p.1 as int))
}

/// Every range in `r` lies within a sequence of length `n`.
pub open spec fn ranges_within(r: Seq<(usize, usize)>, n: int) -> bool {
    forall|k: int| 0 <= k < r.len() ==> #[trigger] r[k].0 <= r[k].1 && r[k].1 <= n
}

/// The characters of `s`, in order.
pub fn chars_of(s: &str) -> (r: Vec<char>)
    ensures
        r@ == s@,
{
    let mut r: Vec<char> = Vec::new();
    for c in it: s.chars()
        invariant
            r@ == it.seq().take(it.index() as int),
            it.seq() == s@,
    {
        r.push(c);
    }
    r
}

/// Whether `c` is whitespace.
pub fn is_whitespace(c: char) -> (r: bool)
    ensures
        r == is_ws(c),
{
    let n = c as u32;
    n == 0x20 || (0x09 <= n && n <= 0x0d) || n == 0x85 || n == 0xa0 || n == 0x1680 || (0x2000
        <= n && n <= 0x200a) || n == 0x2028 || n == 0x2029 || n == 0x202f || n == 0x205f || n
        == 0x3000
}

/// The bounds of the lines of `s`, as ranges of indices into `s`.
pub fn line_ranges(s: &Vec<char>) -> (r: Vec<(usize, usize)>)
    ensures
        ranges_within(r@, s@.len() as int),
        pieces(s@, r@) == lines_of(s@),
{
    let n = s.len();
    let mut r: Vec<(usize, usize)> = Vec::new();
    let mut start: usize = 0;
    let mut i: usize = 0;
    while i < n
        invariant
            n == s@.len(),
            start <= i <= n,
            ranges_within(r@, n as int),
            pieces(s@, r@) + lines_from(s@, start as int, i as int) == lines_of(s@),
        decreases n - i,
    {
        if s[i] == '\n' {
            let mut end = i;
            if end > start && s[end - 1] == '\r' {
                end = end - 1;
            }
            proof {
                let l = s@.subrange(start as int, i as int);
                assert(strip_cr(l) == s@.subrange(start as int, end as int));
                assert(pieces(s@, r@.push((start, end))) == pieces(s@, r@).push(
                    s@.subrange(start as int, end as int),
                ));
                assert(pieces(s@, r@) + lines_from(s@, start as int, i as int) == pieces(
                    s@,
                    r@.push((start, end)),
                ) + lines_from(s@, i + 1, i + 1));
            }
            let ghost prev = r@;
            r.push((start, end));
            assert forall|k: int| 0 <= k < r@.len() implies #[trigger] r@[k].0 <= r@[k].1
                && r@[k].1 <= n by {
                if k < prev.len() {
                    assert(r@[k] == prev[k]);
                }
            }
            start = i + 1;
        }
        i = i + 1;
    }
    if start < n {
        proof {
            assert(pieces(s@, r@.push((start, n))) == pieces(s@, r@).push(
                s@.subrange(start as int, n as int),
            ));
        }
        r.push((start, n));
    }
    r
}

/// Whether `p` occurs at index `k` of the piece `s[lo..hi]`.
pub fn occurs_at_exec(s: &Vec<char>, lo: usize, hi: usize, p: &Vec<char>, k: usize) -> (r: bool)
    requires
        lo <= hi <= s@.len(),
    ensures
        r == occurs_at(s@.subrange(lo as int, hi as int), p@, k as int),
{
    let ghost sub = s@.subrange(lo as int, hi as int);
    if k > hi - lo || p.len() > hi - lo - k {
        return false;
    }
    let mut m: usize = 0;
    while m < p.len()
        invariant
            lo <= hi <= s@.len(),
            k + p@.len() <= hi - lo,
            sub == s@.subrange(lo as int, hi as int),
            m <= p@.len(),
            forall|j: int| 0 <= j < m ==> sub[k + j] == p@[j],
        decreases p@.len() - m,
    {
        if s[lo + k + m] != p[m] {
            assert(sub.subrange(k as int, k + p@.len())[m as int] != p@[m as int]);
            return false;
        }
        m = m + 1;
    }
    assert(sub.subrange(k as int, k + p@.len()) =~= p@);
    true
}

/// Whether `p` occurs in the piece `s[lo..hi]`.
pub fn contains_exec(s: &Vec<char>, lo: usize, hi: usize, p: &Vec<char>) -> (r: bool)
    requires
        lo <= hi <= s@.len(),
    ensures
        r == contains(s@.subrange(lo as int, hi as int), p@),
{
    let ghost sub = s@.subrange(lo as int, hi as int);
    let mut k: usize = 0;
    while k < hi - lo
        invariant
            lo <= hi <= s@.len(),
            k <= hi - lo,
            sub == s@.subrange(lo as int, hi as int),
            forall|j: int| 0 <= j < k ==> !occurs_at(sub, p@, j),
        decreases hi - lo - k,
    {
        if occurs_at_exec(s, lo, hi, p, k) {
            return true;
        }
        k = k + 1;
    }
    let r = occurs_at_exec(s, lo, hi, p, k);
    assert forall|j: int| #[trigger] occurs_at(sub, p@, j) implies r by {
        if 0 <= j < k {
        }
    }
    r
}

/// Whether the piece `s[lo..hi]` begins with `p`.
pub fn starts_with_exec(s: &Vec<char>, lo: usize, hi: usize, p: &Vec<char>) -> (r: bool)
    requires
        lo <= hi <= s@.len(),
    ensures
        r == starts_with(s@.subrange(lo as int, hi as int), p@),
{
    occurs_at_exec(s, lo, hi, p, 0)
}

/// The bounds, as indices into `s`, of the piece `s[lo..hi]` trimmed of
/// whitespace at both ends.
pub fn trim_bounds(s: &Vec<char>, lo: usize, hi: usize) -> (r: (usize, usize))
    requires
        lo <= hi <= s@.len(),
    ensures
        lo <= r.0 <= r.1 <= hi,
        s@.subrange(r.0 as int, r.1 as int) == trim(s@.subrange(lo as int, hi as int)),
{
    let ghost sub = s@.subrange(lo as int, hi as int);
    let mut a: usize = lo;
    while a < hi && is_whitespace(s[a])
        invariant
            lo <= a <= hi <= s@.len(),
            sub == s@.subrange(lo as int, hi as int),
            skip_ws(sub, 0) == skip_ws(sub, a - lo),
        decreases hi - a,
    {
        a = a + 1;
    }
    let mut b: usize = hi;
    while b > a && is_whitespace(s[b - 1])
        invariant
            lo <= a <= b <= hi <= s@.len(),
            sub == s@.subrange(lo as int, hi as int),
            skip_ws(sub, 0) == a - lo,
            back_ws(sub, a - lo, sub.len() as int) == back_ws(sub, a - lo, b - lo),
        decreases b - a,
    {
        b = b - 1;
    }
    assert(s@.subrange(a as int, b as int) =~= sub.subrange(a - lo, b - lo));
    (a, b)
}

/// The bounds, as indices into `s`, of the first word of the piece
/// `s[lo..hi]`, if it has one.
pub fn first_token_bounds(s: &Vec<char>, lo: usize, hi: usize) -> (r: Option<(usize, usize)>)
    requires
        lo <= hi <= s@.len(),
    ensures
        match r {
            None => first_token(s@.subrange(lo as int, hi as int)) is None,
            Some(b) => lo <= b.0 <= b.1 <= hi && first_token(s@.subrange(lo as int, hi as int))
                == Some(s@.subrange(b.0 as int, b.1 as int)),
        },
{
    let ghost sub = s@.subrange(lo as int, hi as int);
    let mut a: usize = lo;
    while a < hi && is_whitespace(s[a])
        invariant
            lo <= a <= hi <= s@.len(),
            sub == s@.subrange(lo as int, hi as int),
            skip_ws(sub, 0) == skip_ws(sub, a - lo),
        decreases hi - a,
    {
        a = a + 1;
    }
    if a == hi {
        return None;
    }
    let mut b: usize = a;
    while b < hi && !is_whitespace(s[b])
        invariant
            lo <= a <= b <= hi <= s@.len(),
            sub == s@.subrange(lo as int, hi as int),
            skip_ws(sub, 0) == a - lo,
            token_end(sub, a - lo) == token_end(sub, b - lo),
        decreases hi - b,
    {
        b = b + 1;
    }
    assert(s@.subrange(a as int, b as int) =~= sub.subrange(a - lo, b - lo));
    Some((a, b))
}

} // verus!
