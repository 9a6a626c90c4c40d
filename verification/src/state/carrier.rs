//! The constant paths a carrier record is keyed by.
//!
//! A type that carries Rust data names its class by a constant path from
//! `Object` — `Geometry::Point` names a nested class — and the path
//! resolves one constant fetch per `::`-separated segment.

use vstd::prelude::*;

verus! {

/// Whether a `::` separator starts at position `i` of `s`.
pub open spec fn sep_at(s: Seq<u8>, i: int) -> bool {
    0 <= i && i + 1 < s.len() && s[i] == 58u8 && s[i + 1] == 58u8
}

/// The position of the first separator of `s` at or after `from`.
pub open spec fn first_sep_from(s: Seq<u8>, from: int) -> Option<int>
    decreases s.len() - from,
{
    if from < 0 || from + 1 >= s.len() {
        None
    } else if sep_at(s, from) {
        Some(from)
    } else {
        first_sep_from(s, from + 1)
    }
}

/// The segments of `s` from `start` on: the text up to the first
/// separator, then the segments after it; the rest of `s` when no
/// separator follows.
pub open spec fn segments_from(s: Seq<u8>, start: int) -> Seq<Seq<u8>>
    decreases s.len() - start,
{
    if start < 0 || start > s.len() {
        Seq::empty()
    } else {
        match first_sep_from(s, start) {
            Some(at) => if start <= at && at + 2 <= s.len() {
                seq![s.subrange(start, at)] + segments_from(s, at + 2)
            } else {
                seq![s.subrange(start, s.len() as int)]
            },
            None => seq![s.subrange(start, s.len() as int)],
        }
    }
}

/// The `::`-separated segments of a constant path, split at each
/// separator from the left.
pub open spec fn path_segments(s: Seq<u8>) -> Seq<Seq<u8>> {
    segments_from(s, 0)
}

/// The first separator at or after `from` lies in range, at or after
/// `from`, with no separator between.
proof fn lemma_first_sep_from(s: Seq<u8>, from: int)
    ensures
        first_sep_from(s, from) matches Some(at) ==> {
            &&& 0 <= from <= at
            &&& sep_at(s, at)
            &&& forall|j: int| from <= j < at ==> !sep_at(s, j)
        },
        from >= 0 && first_sep_from(s, from) is None ==> forall|j: int| from <= j ==> !sep_at(s, j),
    decreases s.len() - from,
{
    if from < 0 || from + 1 >= s.len() {
    } else if sep_at(s, from) {
    } else {
        lemma_first_sep_from(s, from + 1);
    }
}

/// The `::`-separated segments of a constant path. A path holding an
/// empty segment — a leading, trailing or doubled separator — yields it,
/// and the fetch of a name nothing is bound under reports it.
pub fn segments<'a>(path: &'a [u8]) -> (r: Vec<&'a [u8]>)
    ensures
        r@.len() == path_segments(path@).len(),
        r@.len() == 1 + separator_count(path@),
        forall|i: int| 0 <= i < r@.len() ==> #[trigger] r@[i]@ == path_segments(path@)[i],
{
    proof {
        lemma_segment_count(path@);
    }
    let n = path.len();
    let ghost s = path@;
    let mut out: Vec<&'a [u8]> = Vec::new();
    let ghost mut done: Seq<Seq<u8>> = Seq::empty();
    let mut start: usize = 0;
    let mut i: usize = 0;
    while n > 0 && i < n - 1
        invariant
            n == s.len(),
            s == path@,
            start <= i <= n,
            first_sep_from(s, start as int) == first_sep_from(s, i as int),
            done + segments_from(s, start as int) == path_segments(s),
            out@.len() == done.len(),
            forall|k: int| 0 <= k < out@.len() ==> #[trigger] out@[k]@ == done[k],
        decreases n - i,
    {
        if path[i] == 58u8 && path[i + 1] == 58u8 {
            proof {
                assert(sep_at(s, i as int));
                assert(first_sep_from(s, i as int) == Some(i as int));
                assert(segments_from(s, start as int) == seq![s.subrange(start as int, i as int)]
                    + segments_from(s, i + 2));
            }
            let seg = &path[start..i];
            out.push(seg);
            proof {
                done = done.push(s.subrange(start as int, i as int));
                assert(done + segments_from(s, i + 2) =~= path_segments(s)) by {
                    assert(done.drop_last() + (seq![s.subrange(start as int, i as int)]
                        + segments_from(s, i + 2)) == path_segments(s));
                    assert(done.drop_last() + (seq![s.subrange(start as int, i as int)]
                        + segments_from(s, i + 2)) =~= done + segments_from(s, i + 2));
                }
            }
            start = i + 2;
            i = i + 2;
        } else {
            proof {
                assert(!sep_at(s, i as int));
                assert(first_sep_from(s, i as int) == first_sep_from(s, i + 1));
            }
            i = i + 1;
        }
    }
    proof {
        if start < n {
            assert(first_sep_from(s, i as int) is None);
        } else {
            assert(first_sep_from(s, start as int) is None);
        }
        assert(segments_from(s, start as int) == seq![s.subrange(start as int, n as int)]);
    }
    let last = &path[start..n];
    out.push(last);
    proof {
        done = done.push(s.subrange(start as int, n as int));
        assert(done =~= path_segments(s));
    }
    out
}

/// The text between separators, with a separator (`::`) put back between
/// each two segments.
pub open spec fn join_segments(segs: Seq<Seq<u8>>) -> Seq<u8>
    decreases segs.len(),
{
    if segs.len() == 0 {
        Seq::empty()
    } else if segs.len() == 1 {
        segs[0]
    } else {
        segs[0] + seq![58u8, 58u8] + join_segments(segs.drop_first())
    }
}

/// Joining the segments from `start` with `::` gives back the path from
/// `start`.
proof fn lemma_join_segments_from(s: Seq<u8>, start: int)
    requires
        0 <= start <= s.len(),
    ensures
        segments_from(s, start).len() >= 1,
        join_segments(segments_from(s, start)) == s.subrange(start, s.len() as int),
    decreases s.len() - start,
{
    lemma_first_sep_from(s, start);
    match first_sep_from(s, start) {
        Some(at) => {
            lemma_join_segments_from(s, at + 2);
            let segs = segments_from(s, start);
            let tail = segments_from(s, at + 2);
            assert(segs == seq![s.subrange(start, at)] + tail);
            assert(segs.drop_first() =~= tail);
            assert(segs[0] == s.subrange(start, at));
            assert(s.subrange(start, at) + seq![58u8, 58u8] + s.subrange(at + 2, s.len() as int)
                =~= s.subrange(start, s.len() as int));
        },
        None => {},
    }
}

/// A constant path splits without losing or adding a byte: putting the
/// separator back between its segments gives back the path, and every
/// path — the empty one too — has at least one segment.
pub proof fn lemma_segments_join(path: Seq<u8>)
    ensures
        path_segments(path).len() >= 1,
        join_segments(path_segments(path)) == path,
{
    lemma_join_segments_from(path, 0);
    assert(path.subrange(0, path.len() as int) =~= path);
}

/// No segment holds a separator: each is a name a single constant
/// fetch looks up.
pub proof fn lemma_segments_hold_no_separator(path: Seq<u8>)
    ensures
        forall|k: int, j: int|
            0 <= k < path_segments(path).len() ==> !#[trigger] sep_at(path_segments(path)[k], j),
{
    lemma_no_sep_from(path, 0);
}

proof fn lemma_no_sep_from(s: Seq<u8>, start: int)
    ensures
        forall|k: int, j: int|
            0 <= k < segments_from(s, start).len() ==> !#[trigger] sep_at(segments_from(s, start)[k], j),
    decreases s.len() - start,
{
    if start < 0 || start > s.len() {
    } else {
        lemma_first_sep_from(s, start);
        match first_sep_from(s, start) {
            Some(at) => {
                lemma_no_sep_from(s, at + 2);
                let segs = segments_from(s, start);
                let tail = segments_from(s, at + 2);
                assert forall|k: int, j: int| 0 <= k < segs.len() implies !#[trigger] sep_at(
                    segs[k],
                    j,
                ) by {
                    if k == 0 {
                        let seg = s.subrange(start, at);
                        assert(segs[0] == seg);
                        if sep_at(seg, j) {
                            assert(sep_at(s, start + j));
                        }
                    } else {
                        assert(segs[k] == tail[k - 1]);
                    }
                }
            },
            None => {
                let seg = s.subrange(start, s.len() as int);
                assert forall|k: int, j: int| 0 <= k < segments_from(s, start).len() implies !#[trigger] sep_at(
                    segments_from(s, start)[k],
                    j,
                ) by {
                    assert(segments_from(s, start)[k] == seg);
                    if sep_at(seg, j) {
                        assert(sep_at(s, start + j));
                    }
                }
            },
        }
    }
}


/// How many `::` separators a scan from `from` finds, taking each at the
/// leftmost place it can start and resuming past it, so separators never
/// overlap (`:::` holds one).
pub open spec fn separator_count_from(s: Seq<u8>, from: int) -> nat
    decreases s.len() - from,
{
    if from < 0 || from + 1 >= s.len() {
        0
    } else if sep_at(s, from) {
        1 + separator_count_from(s, from + 2)
    } else {
        separator_count_from(s, from + 1)
    }
}

/// How many `::` separators a path holds, found from the left without
/// overlapping.
pub open spec fn separator_count(s: Seq<u8>) -> nat {
    separator_count_from(s, 0)
}

/// A stretch without a separator adds nothing to the count.
proof fn lemma_count_skips(s: Seq<u8>, from: int, at: int)
    requires
        0 <= from <= at,
        forall|j: int| from <= j < at ==> !sep_at(s, j),
    ensures
        separator_count_from(s, from) == separator_count_from(s, at),
    decreases at - from,
{
    if from < at {
        assert(!sep_at(s, from));
        if from + 1 < s.len() {
            lemma_count_skips(s, from + 1, at);
        }
    }
}

/// With no separator from `from` on, the count from there is zero.
proof fn lemma_count_none(s: Seq<u8>, from: int)
    requires
        from >= 0,
        forall|j: int| from <= j ==> !sep_at(s, j),
    ensures
        separator_count_from(s, from) == 0,
    decreases s.len() - from,
{
    if from + 1 < s.len() {
        assert(!sep_at(s, from));
        lemma_count_none(s, from + 1);
    }
}

/// The segments from `start` number one more than the separators found
/// from there.
proof fn lemma_segment_count_from(s: Seq<u8>, start: int)
    requires
        0 <= start <= s.len(),
    ensures
        segments_from(s, start).len() == 1 + separator_count_from(s, start),
    decreases s.len() - start,
{
    lemma_first_sep_from(s, start);
    match first_sep_from(s, start) {
        Some(at) => {
            lemma_count_skips(s, start, at);
            lemma_segment_count_from(s, at + 2);
            assert(separator_count_from(s, at) == 1 + separator_count_from(s, at + 2));
        },
        None => {
            lemma_count_none(s, start);
        },
    }
}

/// Empty segments are yielded, never dropped: a path splits into one more
/// segment than the separators it holds, found from the left without
/// overlapping.
pub proof fn lemma_segment_count(path: Seq<u8>)
    ensures
        path_segments(path).len() == 1 + separator_count(path),
{
    lemma_segment_count_from(path, 0);
}

} // verus!
