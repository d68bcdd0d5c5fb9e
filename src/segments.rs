//! Finding the segments of a path in its text, and comparing them.
use vstd::prelude::*;

use crate::path_model::{closed_segments, is_kept, open_piece, segments};

verus! {

/// `bounds` marks out, in `s`, exactly the pieces listed in `segs`: the
/// `k`-th pair holds the start and end character positions of the `k`-th.
pub open spec fn marks_out(s: Seq<char>, bounds: Seq<(usize, usize)>, segs: Seq<Seq<char>>) -> bool {
    &&& bounds.len() == segs.len()
    &&& forall|k: int|
        #![trigger bounds[k]]
        0 <= k < bounds.len() ==> bounds[k].0 <= bounds[k].1 <= s.len() && s.subrange(
            bounds[k].0 as int,
            bounds[k].1 as int,
        ) == segs[k]
}

/// Whether the characters `start..end` of `s` name a segment.
fn piece_is_kept(s: &str, start: usize, end: usize) -> (r: bool)
    requires
        start <= end <= s@.len(),
    ensures
        r == is_kept(s@.subrange(start as int, end as int)),
{
    let ghost piece = s@.subrange(start as int, end as int);
    if end == start {
        false
    } else if end - start == 1 {
        let c = s.get_char(start);
        proof {
            if c == '.' {
                assert(piece =~= seq!['.']);
            } else {
                assert(piece[0] != seq!['.'][0]);
            }
        }
        c != '.'
    } else {
        assert(piece.len() != seq!['.'].len());
        true
    }
}

/// The start and end positions of the segments of `s`, in order.
pub fn segment_bounds(s: &str) -> (r: Vec<(usize, usize)>)
    ensures
        marks_out(s@, r@, segments(s@)),
{
    let n = s.unicode_len();
    let mut out: Vec<(usize, usize)> = Vec::new();
    let mut start: usize = 0;
    let mut i: usize = 0;
    while i < n
        invariant
            n == s@.len(),
            start <= i <= n,
            open_piece(s@.take(i as int)) == s@.subrange(start as int, i as int),
            marks_out(s@, out@, closed_segments(s@.take(i as int))),
        decreases n - i,
    {
        let c = s.get_char(i);
        let ghost before = s@.take(i as int);
        let ghost after = s@.take(i + 1);
        assert(after.drop_last() =~= before);
        assert(after.last() == c);
        if c == '/' {
            if piece_is_kept(s, start, i) {
                out.push((start, i));
            }
            start = i + 1;
            assert(s@.subrange(start as int, i + 1) =~= seq![]);
        } else {
            assert(s@.subrange(start as int, i + 1) =~= s@.subrange(start as int, i as int).push(c));
        }
        i = i + 1;
    }
    assert(s@.take(n as int) =~= s@);
    if piece_is_kept(s, start, n) {
        out.push((start, n));
    }
    out
}

/// Whether the characters `a.0..a.1` of `s` equal the characters
/// `b.0..b.1` of `t`.
pub fn same_piece(s: &str, a: (usize, usize), t: &str, b: (usize, usize)) -> (r: bool)
    requires
        a.0 <= a.1 <= s@.len(),
        b.0 <= b.1 <= t@.len(),
    ensures
        r == (s@.subrange(a.0 as int, a.1 as int) == t@.subrange(b.0 as int, b.1 as int)),
{
    let ghost x = s@.subrange(a.0 as int, a.1 as int);
    let ghost y = t@.subrange(b.0 as int, b.1 as int);
    if a.1 - a.0 != b.1 - b.0 {
        assert(x.len() != y.len());
        return false;
    }
    let len = a.1 - a.0;
    let mut k: usize = 0;
    while k < len
        invariant
            len == a.1 - a.0 == b.1 - b.0,
            a.0 <= a.1 <= s@.len(),
            b.0 <= b.1 <= t@.len(),
            k <= len,
            x == s@.subrange(a.0 as int, a.1 as int),
            y == t@.subrange(b.0 as int, b.1 as int),
            forall|j: int| 0 <= j < k ==> x[j] == y[j],
        decreases len - k,
    {
        if s.get_char(a.0 + k) != t.get_char(b.0 + k) {
            assert(x[k as int] != y[k as int]);
            return false;
        }
        k = k + 1;
    }
    assert(x =~= y);
    true
}

} // verus!
