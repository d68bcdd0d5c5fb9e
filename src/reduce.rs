//! Putting a replacement in place of the home directory at the start of a path.
use vstd::prelude::*;

use crate::path_model::{
    home_matches, is_cur_led, is_rooted, matched, reduced, segments, slash_joined,
};
use crate::segments::{marks_out, same_piece, segment_bounds};

verus! {

fn starts_at_root(s: &str) -> (r: bool)
    ensures
        r == is_rooted(s@),
{
    s.unicode_len() > 0 && s.get_char(0) == '/'
}

fn starts_with_dot(s: &str) -> (r: bool)
    ensures
        r == is_cur_led(s@),
{
    let n = s.unicode_len();
    n > 0 && s.get_char(0) == '.' && (n == 1 || s.get_char(1) == '/')
}

/// Whether `path` lies at or below `home`, given the bounds of their segments.
fn lies_under(
    path: &str,
    pb: &Vec<(usize, usize)>,
    home: &str,
    hb: &Vec<(usize, usize)>,
) -> (r: bool)
    requires
        marks_out(path@, pb@, segments(path@)),
        marks_out(home@, hb@, segments(home@)),
    ensures
        r == home_matches(path@, home@),
{
    if starts_at_root(path) != starts_at_root(home) || starts_with_dot(path) != starts_with_dot(
        home,
    ) {
        return false;
    }
    let ghost ps = segments(path@);
    let ghost hs = segments(home@);
    if hb.len() > pb.len() {
        return false;
    }
    let mut k: usize = 0;
    while k < hb.len()
        invariant
            hb.len() <= pb.len(),
            k <= hb.len(),
            is_rooted(path@) == is_rooted(home@),
            is_cur_led(path@) == is_cur_led(home@),
            ps == segments(path@),
            hs == segments(home@),
            marks_out(path@, pb@, ps),
            marks_out(home@, hb@, hs),
            forall|j: int| 0 <= j < k ==> hs[j] == ps[j],
        decreases hb.len() - k,
    {
        if !same_piece(home, hb[k], path, pb[k]) {
            assert(hs[k as int] != ps[k as int]);
            assert(hs != ps.subrange(0, hs.len() as int));
            return false;
        }
        k = k + 1;
    }
    assert(hs =~= ps.subrange(0, hs.len() as int));
    true
}

/// `replacement` followed by each segment of `path` from the `from`-th on,
/// each after a `/`.
fn with_remainder(path: &str, pb: &Vec<(usize, usize)>, from: usize, replacement: String) -> (r:
    String)
    requires
        marks_out(path@, pb@, segments(path@)),
        from <= pb@.len(),
    ensures
        r@ == replacement@ + slash_joined(segments(path@).skip(from as int)),
{
    let ghost ps = segments(path@);
    let mut out = replacement;
    let mut k: usize = from;
    while k < pb.len()
        invariant
            from <= k <= pb.len(),
            marks_out(path@, pb@, ps),
            out@ == replacement@ + slash_joined(ps.subrange(from as int, k as int)),
        decreases pb.len() - k,
    {
        let (a, b) = pb[k];
        out.append("/");
        out.append(path.substring_char(a, b));
        proof {
            reveal_strlit("/");
            let next = ps.subrange(from as int, k + 1);
            assert(next.drop_last() =~= ps.subrange(from as int, k as int));
            assert(next.last() == ps[k as int]);
        }
        k = k + 1;
    }
    assert(ps.subrange(from as int, k as int) =~= ps.skip(from as int));
    out
}

/// `r` is what comes of `path` and `home` when `f` makes the replacement:
/// where `path` lies at or below the home directory, `reduced` with one of
/// the strings that `f` may return for that directory; otherwise `path`.
pub open spec fn reduced_by<F: FnOnce(&str) -> String>(
    path: Seq<char>,
    home: Option<&str>,
    f: F,
    r: Seq<char>,
) -> bool {
    if matched(path, home.deep_view()) {
        exists|rep: String| #[trigger] f.ensures((home->0,), rep) && r == reduced(path, home.deep_view(), rep@)
    } else {
        r == path
    }
}

/// Shows `path` with `replacement` in place of `home`, where `path` lies at
/// or below `home`; otherwise gives `path` back unchanged. With no home
/// directory known (`None`), nothing matches.
pub fn replace_homedir_in(path: &str, home: Option<&str>, replacement: &str) -> (r: String)
    ensures
        r@ == reduced(path@, home.deep_view(), replacement@),
{
    match home {
        None => path.to_owned(),
        Some(h) => {
            let pb = segment_bounds(path);
            let hb = segment_bounds(h);
            if lies_under(path, &pb, h, &hb) {
                with_remainder(path, &pb, hb.len(), replacement.to_owned())
            } else {
                path.to_owned()
            }
        },
    }
}

/// As `replace_homedir_in`, with the replacement made by `replacement_fn`
/// from the home directory. The function is called only where `path` lies at
/// or below `home`.
pub fn replace_homedir_in_with<F>(path: &str, home: Option<&str>, replacement_fn: F) -> (r: String)
    where
        F: FnOnce(&str) -> String,
    requires
        forall|h: &str| replacement_fn.requires((h,)),
    ensures
        reduced_by(path@, home, replacement_fn, r@),
{
    match home {
        None => path.to_owned(),
        Some(h) => {
            let pb = segment_bounds(path);
            let hb = segment_bounds(h);
            if lies_under(path, &pb, h, &hb) {
                let rep = replacement_fn(h);
                let r = with_remainder(path, &pb, hb.len(), rep);
                assert(replacement_fn.ensures((h,), rep) && r@ == reduced(
                    path@,
                    home.deep_view(),
                    rep@,
                ));
                r
            } else {
                path.to_owned()
            }
        },
    }
}

} // verus!
