//! The mathematical model of a path: whether it starts at the root, whether
//! it starts with a `.` of its own, and the sequence of its named segments.
use vstd::prelude::*;

verus! {

/// A path starts at the root when its first character is a separator.
pub open spec fn is_rooted(s: Seq<char>) -> bool {
    s.len() > 0 && s[0] == '/'
}

/// A relative path that opens with a `.` segment (`.` or `./...`) keeps that
/// `.` as a leading component of its own.
pub open spec fn is_cur_led(s: Seq<char>) -> bool {
    s.len() > 0 && s[0] == '.' && (s.len() == 1 || s[1] == '/')
}

/// A piece between separators names a segment unless it is empty (a doubled
/// or trailing separator) or a lone `.`.
pub open spec fn is_kept(piece: Seq<char>) -> bool {
    piece.len() > 0 && piece != seq!['.']
}

/// The characters after the last separator of `s`.
pub open spec fn open_piece(s: Seq<char>) -> Seq<char>
    decreases s.len(),
{
    if s.len() == 0 || s.last() == '/' {
        seq![]
    } else {
        open_piece(s.drop_last()).push(s.last())
    }
}

/// The segments of `s` that a separator has already closed.
pub open spec fn closed_segments(s: Seq<char>) -> Seq<Seq<char>>
    decreases s.len(),
{
    if s.len() == 0 {
        seq![]
    } else if s.last() == '/' {
        let before = s.drop_last();
        if is_kept(open_piece(before)) {
            closed_segments(before).push(open_piece(before))
        } else {
            closed_segments(before)
        }
    } else {
        closed_segments(s.drop_last())
    }
}

/// The named segments of `s`, in order.
pub open spec fn segments(s: Seq<char>) -> Seq<Seq<char>> {
    if is_kept(open_piece(s)) {
        closed_segments(s).push(open_piece(s))
    } else {
        closed_segments(s)
    }
}

/// `home` is a leading part of `path`, segment by segment.
pub open spec fn home_matches(path: Seq<char>, home: Seq<char>) -> bool {
    &&& is_rooted(path) == is_rooted(home)
    &&& is_cur_led(path) == is_cur_led(home)
    &&& segments(home).is_prefix_of(segments(path))
}

/// Some home directory is known, and `path` lies at or below it.
pub open spec fn matched(path: Seq<char>, home: Option<Seq<char>>) -> bool {
    home is Some && home_matches(path, home->0)
}

/// Each segment preceded by a `/`: `["a", "b"]` gives `/a/b`.
pub open spec fn slash_joined(segs: Seq<Seq<char>>) -> Seq<char>
    decreases segs.len(),
{
    if segs.len() == 0 {
        seq![]
    } else {
        slash_joined(segs.drop_last()) + seq!['/'] + segs.last()
    }
}

/// The segments of `path` that follow those of `home`.
pub open spec fn remainder(path: Seq<char>, home: Seq<char>) -> Seq<Seq<char>> {
    segments(path).skip(segments(home).len() as int)
}

/// The displayed form of `path`: where it lies at or below `home`, the
/// replacement followed by the remaining segments, each after a `/`;
/// otherwise `path` itself.
pub open spec fn reduced(path: Seq<char>, home: Option<Seq<char>>, rep: Seq<char>) -> Seq<char> {
    if matched(path, home) {
        rep + slash_joined(remainder(path, home->0))
    } else {
        path
    }
}

} // verus!
