//! Containment of decoded payloads under the scripts directory: a relative
//! path may not climb above the directory it is resolved against.

use vstd::prelude::*;

verus! {

/// Classification of the path segment read so far, between two separators.
#[derive(Clone, Copy, PartialEq, Eq, Structural, Debug)]
pub enum SegmentKind {
    Empty,
    Dot,
    DotDot,
    Name,
}

/// How a completed segment moves the position relative to the root: `` and `.`
/// stay, `..` climbs one level, any other segment descends one level.
pub open spec fn segment_delta(k: SegmentKind) -> int {
    match k {
        SegmentKind::Empty => 0,
        SegmentKind::Dot => 0,
        SegmentKind::DotDot => -1,
        SegmentKind::Name => 1,
    }
}

/// The classification of a segment after one more character.
pub open spec fn extend_segment(k: SegmentKind, c: char) -> SegmentKind {
    match k {
        SegmentKind::Empty => if c == '.' {
            SegmentKind::Dot
        } else {
            SegmentKind::Name
        },
        SegmentKind::Dot => if c == '.' {
            SegmentKind::DotDot
        } else {
            SegmentKind::Name
        },
        SegmentKind::DotDot => SegmentKind::Name,
        SegmentKind::Name => SegmentKind::Name,
    }
}

/// Scans the path from position `i`, with `depth` directory levels already
/// entered and the current segment classified as `k`; true when some `..`
/// segment climbs above the starting directory.
pub open spec fn scan_escapes(s: Seq<char>, i: int, depth: int, k: SegmentKind) -> bool
    decreases s.len() - i,
{
    if i < 0 || i >= s.len() {
        depth + segment_delta(k) < 0
    } else if s[i] == '/' {
        let d = depth + segment_delta(k);
        d < 0 || scan_escapes(s, i + 1, d, SegmentKind::Empty)
    } else {
        scan_escapes(s, i + 1, depth, extend_segment(k, s[i]))
    }
}

/// A payload path escapes when it is absolute or when its `..` segments ever
/// navigate above the directory it is resolved against.
pub open spec fn path_escapes(s: Seq<char>) -> bool {
    (s.len() > 0 && s[0] == '/') || scan_escapes(s, 0, 0, SegmentKind::Empty)
}

/// A resolved path lies beneath `root` when it is `root`, a separator, and a
/// non-escaping relative remainder.
pub open spec fn descendant_of(path: Seq<char>, root: Seq<char>) -> bool {
    exists|rel: Seq<char>| #![trigger path_escapes(rel)]
        path == root + seq!['/'] + rel && !path_escapes(rel)
}

pub proof fn lemma_join_is_descendant(root: Seq<char>, rel: Seq<char>)
    requires
        !path_escapes(rel),
    ensures
        descendant_of(root + seq!['/'] + rel, root),
{
    let path = root + seq!['/'] + rel;
    assert(path == root + seq!['/'] + rel && !path_escapes(rel));
}

/// True iff the given relative path would escape the directory it is resolved
/// against, by being absolute or through parent-directory segments.
pub fn rel_path_escapes(s: &str) -> (r: bool)
    ensures
        r == path_escapes(s@),
{
    let n = s.unicode_len();
    if n > 0 && s.get_char(0) == '/' {
        return true;
    }
    let mut i: usize = 0;
    let mut depth: usize = 0;
    let mut kind = SegmentKind::Empty;
    while i < n
        invariant
            n == s@.len(),
            i <= n,
            depth <= i,
            scan_escapes(s@, 0, 0, SegmentKind::Empty) == scan_escapes(
                s@,
                i as int,
                depth as int,
                kind,
            ),
        decreases n - i,
    {
        let c = s.get_char(i);
        if c == '/' {
            if kind == SegmentKind::DotDot {
                if depth == 0 {
                    proof {
                        assert(scan_escapes(s@, i as int, depth as int, kind));
                    }
                    return true;
                }
                depth = depth - 1;
            } else if kind == SegmentKind::Name {
                depth = depth + 1;
            }
            kind = SegmentKind::Empty;
        } else {
            kind = match kind {
                SegmentKind::Empty => if c == '.' {
                    SegmentKind::Dot
                } else {
                    SegmentKind::Name
                },
                SegmentKind::Dot => if c == '.' {
                    SegmentKind::DotDot
                } else {
                    SegmentKind::Name
                },
                SegmentKind::DotDot => SegmentKind::Name,
                SegmentKind::Name => SegmentKind::Name,
            };
        }
        i = i + 1;
    }
    kind == SegmentKind::DotDot && depth == 0
}

} // verus!
