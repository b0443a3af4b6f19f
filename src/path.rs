//! Walking a tree along a `/`-separated path.

use vstd::prelude::*;
use crate::tree::{child_named, dot, dot_dot, find_child, FSEntry, FSNode};

verus! {

/// The segments that name entries: the empty segment and `.` name none.
pub open spec fn kept(seg: Seq<char>) -> Seq<Seq<char>> {
    if seg.len() == 0 || seg == dot() {
        seq![]
    } else {
        seq![seg]
    }
}

/// Where the segment that holds position `i` of `p` starts.
pub open spec fn segment_start(p: Seq<char>, i: nat) -> int
    decreases i,
{
    if i == 0 {
        0
    } else if p[i - 1] == '/' {
        i as int
    } else {
        segment_start(p, (i - 1) as nat)
    }
}

/// The named segments that end before position `i` of `p`.
pub open spec fn segments_before(p: Seq<char>, i: nat) -> Seq<Seq<char>>
    decreases i,
{
    if i == 0 {
        seq![]
    } else if p[i - 1] == '/' {
        segments_before(p, (i - 1) as nat) + kept(
            p.subrange(segment_start(p, (i - 1) as nat), i - 1),
        )
    } else {
        segments_before(p, (i - 1) as nat)
    }
}

/// The named segments of a path, in order.
pub open spec fn path_segments(p: Seq<char>) -> Seq<Seq<char>> {
    segments_before(p, p.len()) + kept(p.subrange(segment_start(p, p.len()), p.len() as int))
}

/// The path starts with a component that names no entry: the root, or `.`.
pub open spec fn leading_anchor(p: Seq<char>) -> bool {
    p.len() > 0 && (p[0] == '/' || (p[0] == '.' && (p.len() == 1 || p[1] == '/')))
}

/// The segments that a walk follows: all those after the path's first
/// component.
pub open spec fn walked_segments(p: Seq<char>) -> Seq<Seq<char>> {
    if leading_anchor(p) || path_segments(p).len() == 0 {
        path_segments(p)
    } else {
        path_segments(p).drop_first()
    }
}

/// Where following `segs` from `n` leads: each segment names a child of a
/// directory; `..` and a missing child lead nowhere.
pub open spec fn walk_from(n: FSNode, segs: Seq<Seq<char>>) -> Option<FSNode>
    decreases segs.len(),
{
    if segs.len() == 0 {
        Some(n)
    } else if segs[0] == dot_dot() {
        None
    } else {
        match n.entry {
            FSEntry::Dir(kids) => match find_child(kids@, segs[0]) {
                Some(c) => walk_from(c, segs.drop_first()),
                None => None,
            },
            FSEntry::File(_) => None,
        }
    }
}

/// The segments as character sequences.
pub open spec fn segment_views(segs: Seq<String>) -> Seq<Seq<char>> {
    segs.map_values(|s: String| s@)
}

/// The named segments of `p`.
fn split_segments(p: &str) -> (r: Vec<String>)
    ensures
        segment_views(r@) == path_segments(p@),
{
    let n = p.unicode_len();
    let mut segs: Vec<String> = Vec::new();
    let mut start: usize = 0;
    let mut i: usize = 0;
    while i < n
        invariant
            i <= n,
            n == p@.len(),
            start == segment_start(p@, i as nat),
            start <= i,
            segment_views(segs@) == segments_before(p@, i as nat),
        decreases n - i,
    {
        if p.get_char(i) == '/' {
            let ghost before = segment_views(segs@);
            let unnamed = start == i || (i == start + 1 && p.get_char(start) == '.');
            if !unnamed {
                let seg = p.substring_char(start, i).to_owned();
                segs.push(seg);
                assert(segment_views(segs@) =~= before.push(p@.subrange(start as int, i as int)));
                assert(p@.subrange(start as int, i as int)[0] == p@[start as int]);
                assert(p@.subrange(start as int, i as int) != dot()) by {
                    if p@.subrange(start as int, i as int) == dot() {
                        assert(dot().len() == 1 && dot()[0] == '.');
                        assert(i == start + 1);
                        assert(p@[start as int] == '.');
                    }
                }
            }
            assert(start == i || (i == start + 1 && p@[start as int] == '.') ==> (p@.subrange(
                start as int,
                i as int,
            ).len() == 0 || p@.subrange(start as int, i as int) =~= dot()));
            assert(segment_views(segs@) =~= before + kept(p@.subrange(start as int, i as int)));
            start = i + 1;
        }
        i = i + 1;
    }
    let ghost before = segment_views(segs@);
    let unnamed = start == n || (n == start + 1 && p.get_char(start) == '.');
    if !unnamed {
        let seg = p.substring_char(start, n).to_owned();
        segs.push(seg);
        assert(segment_views(segs@) =~= before.push(p@.subrange(start as int, n as int)));
                assert(p@.subrange(start as int, n as int)[0] == p@[start as int]);
                assert(p@.subrange(start as int, n as int) != dot()) by {
                    if p@.subrange(start as int, n as int) == dot() {
                        assert(dot().len() == 1 && dot()[0] == '.');
                        assert(n == start + 1);
                        assert(p@[start as int] == '.');
                    }
                }
    }
    assert(start == n || (n == start + 1 && p@[start as int] == '.') ==> (p@.subrange(
        start as int,
        n as int,
    ).len() == 0 || p@.subrange(start as int, n as int) =~= dot()));
    assert(segment_views(segs@) =~= before + kept(p@.subrange(start as int, n as int)));
    segs
}

impl FSNode {
    /// The node that `path` leads to from this one. The path's first
    /// component is passed over (for an absolute path, the root); each
    /// following segment names a child, empty segments and `.` aside; `..`
    /// leads nowhere.
    pub fn walk(&self, path: String) -> (r: Option<&FSNode>)
        ensures
            match walk_from(*self, walked_segments(path@)) {
                Some(n) => r is Some && *r->0 == n,
                None => r is None,
            },
    {
        let p = path.as_str();
        let segs = split_segments(p);
        let n = p.unicode_len();
        let anchored = n > 0 && (p.get_char(0) == '/' || (p.get_char(0) == '.' && (n == 1
            || p.get_char(1) == '/')));
        let ghost all = segment_views(segs@);
        let first: usize = if anchored || segs.len() == 0 {
            0
        } else {
            1
        };
        let ghost followed = all.subrange(first as int, all.len() as int);
        assert(followed =~= walked_segments(p@));
        let mut cur: &FSNode = self;
        let mut i: usize = first;
        while i < segs.len()
            invariant
                first <= i <= segs@.len(),
                segment_views(segs@) == all,
                followed == walked_segments(path@),
                walk_from(*self, followed) == walk_from(*cur, all.subrange(i as int, all.len() as int)),
            decreases segs.len() - i,
        {
            let ghost rest = all.subrange(i as int, all.len() as int);
            assert(rest[0] == segs@[i as int]@);
            assert(rest.drop_first() =~= all.subrange(i + 1, all.len() as int));
            let seg = &segs[i];
            assert(rest.len() > 0);
            if seg.as_str().unicode_len() == 2 && seg.as_str().get_char(0) == '.' && seg.as_str().get_char(1) == '.' {
                assert(seg@ =~= dot_dot());
                assert(walk_from(*cur, rest) is None);
                return None;
            }
            assert(seg@ != dot_dot());
            match &cur.entry {
                FSEntry::Dir(kids) => match child_named(kids, seg) {
                    Some(c) => {
                        cur = c;
                    },
                    None => {
                        assert(walk_from(*cur, rest) is None);
                        return None;
                    },
                },
                FSEntry::File(_) => {
                    assert(walk_from(*cur, rest) is None);
                    return None;
                },
            }
            i = i + 1;
        }
        assert(all.subrange(i as int, all.len() as int).len() == 0);
        Some(cur)
    }
}

} // verus!
