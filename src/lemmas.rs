//! Laws of the displayed form of a path, proved over the model.
use vstd::prelude::*;

use crate::path_model::{
    closed_segments, home_matches, is_cur_led, is_kept, is_rooted, matched, open_piece, reduced,
    remainder, segments, slash_joined,
};
use crate::reduce::reduced_by;

verus! {

/// `t` is a relative path written plainly: one or more segments, each once,
/// with a single `/` between two of them and none at either end.
pub open spec fn is_plain_relative(t: Seq<char>) -> bool {
    t.len() > 0 && slash_joined(segments(t)) == seq!['/'] + t
}

/// Joining two paths with a separator joins their segment sequences.
pub proof fn lemma_segments_of_join(a: Seq<char>, b: Seq<char>)
    ensures
        segments(a + seq!['/'] + b) == segments(a) + segments(b),
{
    lemma_pieces_of_join(a, b);
    let s = a + seq!['/'] + b;
    if is_kept(open_piece(b)) {
        assert(segments(s) =~= segments(a) + segments(b));
    } else {
        assert(segments(s) =~= segments(a) + segments(b));
    }
}

proof fn lemma_pieces_of_join(a: Seq<char>, b: Seq<char>)
    ensures
        closed_segments(a + seq!['/'] + b) == segments(a) + closed_segments(b),
        open_piece(a + seq!['/'] + b) == open_piece(b),
    decreases b.len(),
{
    let s = a + seq!['/'] + b;
    if b.len() == 0 {
        assert(s.drop_last() =~= a);
        assert(segments(a) + closed_segments(b) =~= segments(a));
    } else {
        let b0 = b.drop_last();
        lemma_pieces_of_join(a, b0);
        assert(s.drop_last() =~= a + seq!['/'] + b0);
        assert(s.last() == b.last());
        if b.last() == '/' {
            if is_kept(open_piece(b0)) {
                assert(closed_segments(s) =~= segments(a) + closed_segments(b));
            } else {
                assert(closed_segments(s) =~= segments(a) + closed_segments(b));
            }
        }
    }
}

/// A path that does not lie at or below the home directory, or that is
/// given where none is known, is shown unchanged, whatever the replacement.
pub proof fn lemma_unmatched_unchanged(p: Seq<char>, home: Option<Seq<char>>, r: Seq<char>)
    requires
        !matched(p, home),
    ensures
        reduced(p, home, r) == p,
{
}

/// The home directory itself is shown as the replacement alone.
pub proof fn lemma_home_itself(h: Seq<char>, r: Seq<char>)
    ensures
        reduced(h, Some(h), r) == r,
{
    assert(segments(h) =~= segments(h).subrange(0, segments(h).len() as int));
    assert(remainder(h, h) =~= Seq::<Seq<char>>::empty());
    assert(r + slash_joined(remainder(h, h)) =~= r);
}

/// A path written as the home directory, a `/` and a plain relative path
/// is shown as the replacement, a `/` and that relative path.
pub proof fn lemma_below_home(h: Seq<char>, suffix: Seq<char>, r: Seq<char>)
    requires
        h.len() > 0,
        is_plain_relative(suffix),
    ensures
        reduced(h + seq!['/'] + suffix, Some(h), r) == r + seq!['/'] + suffix,
{
    let p = h + seq!['/'] + suffix;
    lemma_segments_of_join(h, suffix);
    assert(p[0] == h[0]);
    if h.len() > 1 {
        assert(p[1] == h[1]);
    } else {
        assert(p[1] == '/');
    }
    assert(is_rooted(p) == is_rooted(h));
    assert(is_cur_led(p) == is_cur_led(h));
    assert(segments(h) =~= segments(p).subrange(0, segments(h).len() as int));
    assert(home_matches(p, h));
    assert(remainder(p, h) =~= segments(suffix));
    assert(r + slash_joined(segments(suffix)) =~= r + seq!['/'] + suffix);
}

proof fn lemma_no_segments_dot_led(s: Seq<char>)
    requires
        s.len() > 0,
        s[0] != '/',
        segments(s).len() == 0,
    ensures
        is_cur_led(s),
    decreases s.len(),
{
    let s0 = s.drop_last();
    let c = s.last();
    if s.len() == 1 {
        assert(open_piece(s) =~= seq![c]);
        assert(open_piece(s)[0] == seq!['.'][0]);
    } else {
        if c == '/' {
            assert(segments(s0).len() == 0);
            lemma_no_segments_dot_led(s0);
            if s0.len() > 1 {
                assert(s[1] == s0[1]);
            }
        } else {
            assert(open_piece(s) == open_piece(s0).push(c));
            assert(open_piece(s) =~= seq!['.']);
            assert(open_piece(s0).len() == 0);
            assert(segments(s0).len() == 0);
            lemma_no_segments_dot_led(s0);
            assert(s[1] == s0[1]);
        }
    }
}

/// The empty path lies below no home directory that is not empty itself,
/// and is shown unchanged.
pub proof fn lemma_empty_path(h: Seq<char>, r: Seq<char>)
    requires
        h.len() > 0,
    ensures
        reduced(seq![], Some(h), r) == Seq::<char>::empty(),
{
    let e = Seq::<char>::empty();
    assert(open_piece(e) =~= e);
    assert(segments(e) =~= Seq::<Seq<char>>::empty());
    if home_matches(e, h) {
        lemma_no_segments_dot_led(h);
    }
}

/// A path that does not start at the root never lies below a home
/// directory that does, and is shown unchanged.
pub proof fn lemma_relative_unchanged(p: Seq<char>, h: Seq<char>, r: Seq<char>)
    requires
        !is_rooted(p),
        is_rooted(h),
    ensures
        reduced(p, Some(h), r) == p,
{
}

/// Where the replacement function can only return `rep` for the home
/// directory, replacing through it gives what replacing with `rep` gives.
pub proof fn lemma_with_agrees<F: FnOnce(&str) -> String>(
    path: Seq<char>,
    home: Option<&str>,
    f: F,
    rep: Seq<char>,
    r: Seq<char>,
)
    requires
        reduced_by(path, home, f, r),
        home is Some ==> forall|x: String| #[trigger] f.ensures((home->0,), x) ==> x@ == rep,
    ensures
        r == reduced(path, home.deep_view(), rep),
{
}

} // verus!
