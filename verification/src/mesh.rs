//! Which segments of a polyline are drawn, and how their corners make triangles.
//!
//! A polyline is stroked as one quad per segment: two corners on either side of each end.
//! Where the corners lie is floating point and is computed where they are drawn; which
//! segments have any, and which corners each triangle joins, is decided here.

use vstd::prelude::*;

use crate::scalar::{Scalar, ZERO};

verus! {

/// A segment no longer than this has no direction: the bits of the single-precision epsilon.
pub const SHORTEST: u64 = 0x3E80_0000_0000_0000;

/// Whether a stroke of this width draws anything.
pub open spec fn drawable(width: Scalar) -> bool {
    width.finite() && (Scalar { bits: ZERO }).below(width)
}

/// Whether a segment of this length is passed over.
pub open spec fn too_short(length: Scalar) -> bool {
    length.below(Scalar { bits: SHORTEST }) || length.equal_to(Scalar { bits: SHORTEST })
}

/// The segments that are drawn, in order, given how long each is.
pub open spec fn drawn(lengths: Seq<Scalar>, count: nat) -> Seq<usize>
    decreases count,
{
    if count == 0 {
        Seq::empty()
    } else if too_short(lengths[count - 1]) {
        drawn(lengths, (count - 1) as nat)
    } else {
        drawn(lengths, (count - 1) as nat).push((count - 1) as usize)
    }
}

/// The segments of a polyline that a stroke of `width` draws: none of a stroke without a
/// finite width above zero, and none of a segment whose ends are the same point.
pub fn ribbon(lengths: &Vec<Scalar>, width: Scalar) -> (segments: Vec<usize>)
    ensures
        segments@ == (if drawable(width) {
            drawn(lengths@, lengths@.len())
        } else {
            Seq::empty()
        }),
{
    let mut segments: Vec<usize> = Vec::new();
    let zero = Scalar { bits: ZERO };
    if !width.is_finite() || !zero.lt(width) {
        proof {
            assert(segments@ =~= Seq::<usize>::empty());
        }
        return segments;
    }
    let shortest = Scalar { bits: SHORTEST };
    let mut at: usize = 0;
    while at < lengths.len()
        invariant
            at <= lengths@.len(),
            shortest == (Scalar { bits: SHORTEST }),
            segments@ == drawn(lengths@, at as nat),
        decreases lengths@.len() - at,
    {
        if !(lengths[at].lt(shortest) || lengths[at].equals(shortest)) {
            segments.push(at);
        }
        at = at + 1;
    }
    segments
}

/// Corner `k` of segment `segment`'s six triangle corners.
pub open spec fn corner(segment: nat, k: nat) -> nat {
    4 * segment + (if k == 0 {
        0nat
    } else if k == 1 || k == 3 {
        1nat
    } else if k == 4 {
        3nat
    } else {
        2nat
    })
}

/// The corners that the triangles of `segments` drawn segments join, three per triangle and
/// two triangles per segment. Each segment has four corners of its own.
pub fn ribbon_indices(segments: u32) -> (indices: Vec<u32>)
    requires
        4 * segments <= u32::MAX,
    ensures
        indices@.len() == 6 * segments,
        forall|i: int|
            0 <= i < indices@.len() ==> #[trigger] indices@[i] == corner(
                (i / 6) as nat,
                (i % 6) as nat,
            ),
{
    let mut indices: Vec<u32> = Vec::new();
    let mut segment: u32 = 0;
    while segment < segments
        invariant
            segment <= segments,
            4 * segments <= u32::MAX,
            indices@.len() == 6 * segment,
            forall|i: int|
                0 <= i < indices@.len() ==> #[trigger] indices@[i] == corner(
                    (i / 6) as nat,
                    (i % 6) as nat,
                ),
        decreases segments - segment,
    {
        let base: u32 = 4 * segment;
        indices.push(base);
        indices.push(base + 1);
        indices.push(base + 2);
        indices.push(base + 1);
        indices.push(base + 3);
        indices.push(base + 2);
        segment = segment + 1;
    }
    indices
}

proof fn drawn_bounds(lengths: Seq<Scalar>, count: nat)
    requires
        count <= lengths.len(),
        lengths.len() <= usize::MAX,
    ensures
        drawn(lengths, count).len() <= count,
        forall|k: int|
            0 <= k < drawn(lengths, count).len() ==> #[trigger] drawn(lengths, count)[k] < count
                && !too_short(lengths[drawn(lengths, count)[k] as int]),
    decreases count,
{
    if count > 0 {
        drawn_bounds(lengths, (count - 1) as nat);
        let before = drawn(lengths, (count - 1) as nat);
        let all = drawn(lengths, count);
        assert forall|k: int| 0 <= k < all.len() implies #[trigger] all[k] < count && !too_short(
            lengths[all[k] as int],
        ) by {
            if k < before.len() {
                assert(all[k] == before[k]);
            }
        }
    }
}

/// Degenerate input draws nothing: no segment that is drawn has its ends in the same point,
/// and no triangle joins a corner that its segment does not have.
pub proof fn nothing_degenerate_is_drawn(lengths: Seq<Scalar>, k: int)
    requires
        lengths.len() <= usize::MAX,
        0 <= k < drawn(lengths, lengths.len()).len(),
    ensures
        drawn(lengths, lengths.len())[k] < lengths.len(),
        !too_short(lengths[drawn(lengths, lengths.len())[k] as int]),
{
    drawn_bounds(lengths, lengths.len());
}

/// Segments share no corner, so a corner of the polyline is two independent quads.
pub proof fn segments_share_no_corner(a: nat, b: nat, j: nat, k: nat)
    requires
        a != b,
        j < 6,
        k < 6,
    ensures
        corner(a, j) != corner(b, k),
        4 * a <= corner(a, j) < 4 * a + 4,
{
}

/// A stroke draws where its width is finite and above zero, and a segment where it is longer
/// than the least a single-precision number tells from nothing.
pub proof fn a_stroke_draws_where_it_has_a_width(width: Scalar, length: Scalar)
    ensures
        drawable(width) <==> 0 < width.bits < 0x7FF0_0000_0000_0000,
        too_short(length) <==> length.bits <= 0x3E80_0000_0000_0000 || 0x8000_0000_0000_0000
            <= length.bits <= 0xFFF0_0000_0000_0000,
{
}

/// Every segment that is not too short is drawn, once and in its order, and no other.
pub proof fn each_long_segment_is_drawn_once(lengths: Seq<Scalar>, count: nat, at: usize)
    requires
        count <= lengths.len(),
        lengths.len() <= usize::MAX,
    ensures
        drawn(lengths, count).contains(at) <==> at < count && !too_short(lengths[at as int]),
        forall|i: int, j: int|
            0 <= i < j < drawn(lengths, count).len() ==> #[trigger] drawn(lengths, count)[i]
                < #[trigger] drawn(lengths, count)[j],
    decreases count,
{
    if count > 0 {
        let less = (count - 1) as nat;
        let before = drawn(lengths, less);
        let all = drawn(lengths, count);
        each_long_segment_is_drawn_once(lengths, less, at);
        drawn_bounds(lengths, less);
        if !too_short(lengths[count - 1]) {
            assert(all[before.len() as int] == count - 1);
            if before.contains(at) {
                assert(all[before.index_of(at)] == at);
            }
            if all.contains(at) {
                let k = all.index_of(at);
                if k < before.len() {
                    assert(before[k] == at);
                }
            }
            assert forall|i: int, j: int| 0 <= i < j < all.len() implies #[trigger] all[i]
                < #[trigger] all[j] by {
                assert(all[i] == before[i]);
                if j < before.len() {
                    assert(all[j] == before[j]);
                }
            }
        }
    }
}

/// The two triangles of a segment: its first three corners, and its last three turned about the
/// side they share.
pub proof fn a_segment_is_two_triangles(segment: nat)
    ensures
        corner(segment, 0) == 4 * segment,
        corner(segment, 1) == 4 * segment + 1,
        corner(segment, 2) == 4 * segment + 2,
        corner(segment, 3) == 4 * segment + 1,
        corner(segment, 4) == 4 * segment + 3,
        corner(segment, 5) == 4 * segment + 2,
{
}

} // verus!
