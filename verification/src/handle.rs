//! Resize and rotate handles: which there are, what each one moves, and which of several
//! a press lands on.
//!
//! Where a handle sits on a turned item is geometry in floating point and stays with the
//! canvas. What is decided here needs only the names and the measured distances.

use vstd::prelude::*;

use crate::scalar::Scalar;

verus! {

/// One of the nine things a selection offers to drag.
#[derive(Clone, Copy, Debug, PartialEq, Eq, Structural)]
pub enum Handle {
    TopLeft,
    Top,
    TopRight,
    Right,
    BottomRight,
    Bottom,
    BottomLeft,
    Left,
    /// Floats above the top edge, so it cannot be confused with a resize.
    Rotate,
}

/// Every handle: corners first, then edges, then rotate. The order decides an exact tie,
/// so a corner wins over the two edges that meet in it.
pub const ALL: [Handle; 9] = [
    Handle::TopLeft,
    Handle::TopRight,
    Handle::BottomRight,
    Handle::BottomLeft,
    Handle::Top,
    Handle::Right,
    Handle::Bottom,
    Handle::Left,
    Handle::Rotate,
];

/// The handles a multi-selection offers: the four corners, and rotate. An edge drag would
/// scale one axis of turned members, and no placement is a sheared rectangle.
pub const GROUP_HANDLES: [Handle; 5] = [
    Handle::TopLeft,
    Handle::TopRight,
    Handle::BottomRight,
    Handle::BottomLeft,
    Handle::Rotate,
];

impl Handle {
    /// Which edges a handle moves, in local space: `-1` is the left or top edge, `1` the
    /// right or bottom one, `0` leaves the axis alone.
    pub open spec fn pull(self) -> (int, int) {
        match self {
            Handle::TopLeft => (-1, -1),
            Handle::Top => (0, -1),
            Handle::TopRight => (1, -1),
            Handle::Right => (1, 0),
            Handle::BottomRight => (1, 1),
            Handle::Bottom => (0, 1),
            Handle::BottomLeft => (-1, 1),
            Handle::Left => (-1, 0),
            Handle::Rotate => (0, 0),
        }
    }

    /// The axes this handle drives, as `(horizontal, vertical)`.
    pub fn axes(self) -> (axes: (i8, i8))
        ensures
            axes.0 == self.pull().0,
            axes.1 == self.pull().1,
    {
        match self {
            Handle::TopLeft => (-1, -1),
            Handle::Top => (0, -1),
            Handle::TopRight => (1, -1),
            Handle::Right => (1, 0),
            Handle::BottomRight => (1, 1),
            Handle::Bottom => (0, 1),
            Handle::BottomLeft => (-1, 1),
            Handle::Left => (-1, 0),
            Handle::Rotate => (0, 0),
        }
    }

    /// Where the handle sits on the item's box, in halves of its width and height. Rotate
    /// shares the top edge's place and stands off it.
    pub fn anchor_halves(self) -> (halves: (u8, u8))
        ensures
            self == Handle::Rotate ==> halves == (1u8, 0u8),
            self != Handle::Rotate ==> halves.0 == self.pull().0 + 1 && halves.1
                == self.pull().1 + 1,
    {
        match self {
            Handle::TopLeft => (0, 0),
            Handle::Top | Handle::Rotate => (1, 0),
            Handle::TopRight => (2, 0),
            Handle::Right => (2, 1),
            Handle::BottomRight => (2, 2),
            Handle::Bottom => (1, 2),
            Handle::BottomLeft => (0, 2),
            Handle::Left => (0, 1),
        }
    }

    /// Whether this grip drives both axes at once.
    pub fn is_corner(self) -> (answer: bool)
        ensures
            answer == (self.pull().0 != 0 && self.pull().1 != 0),
    {
        matches!(
            self,
            Handle::TopLeft | Handle::TopRight | Handle::BottomLeft | Handle::BottomRight
        )
    }

    /// Whether this is the grip that turns rather than resizes.
    pub fn is_rotate(self) -> (answer: bool)
        ensures
            answer == (self == Handle::Rotate),
            answer == (self.pull() == (0int, 0int)),
    {
        matches!(self, Handle::Rotate)
    }

    /// Which of the box's four edges this handle moves, as `[(left, right), (top, bottom)]`.
    /// A resize corrects the edge under the pointer and never the opposite one.
    pub fn moving_edges(self) -> (edges: [(bool, bool); 2])
        ensures
            edges[0].0 == (self.pull().0 == -1),
            edges[0].1 == (self.pull().0 == 1),
            edges[1].0 == (self.pull().1 == -1),
            edges[1].1 == (self.pull().1 == 1),
    {
        match self {
            Handle::TopLeft => [(true, false), (true, false)],
            Handle::Top => [(false, false), (true, false)],
            Handle::TopRight => [(false, true), (true, false)],
            Handle::Right => [(false, true), (false, false)],
            Handle::BottomRight => [(false, true), (false, true)],
            Handle::Bottom => [(false, false), (false, true)],
            Handle::BottomLeft => [(true, false), (false, true)],
            Handle::Left => [(true, false), (false, false)],
            Handle::Rotate => [(false, false), (false, false)],
        }
    }
}

/// Whether a distance is within a radius. A NaN is within nothing.
pub open spec fn within(distance: Scalar, radius: Scalar) -> bool {
    distance.below(radius) || distance.equal_to(radius)
}

/// Whether `at` is the nearest candidate within `radius`, and the first of those equally
/// near.
pub open spec fn is_nearest(distances: Seq<Scalar>, radius: Scalar, at: int) -> bool {
    &&& 0 <= at < distances.len()
    &&& within(distances[at], radius)
    &&& forall|k: int|
        0 <= k < distances.len() && within(#[trigger] distances[k], radius) ==> {
            &&& distances[at].total_rank() <= distances[k].total_rank()
            &&& k < at ==> distances[at].total_rank() < distances[k].total_rank()
        }
}

/// The candidate under a press: the nearest within `radius`, not the first, because at a
/// fitted zoom several are within reach at once. Candidates are in the order that decides
/// a tie.
pub fn nearest(distances: &Vec<Scalar>, radius: Scalar) -> (answer: Option<usize>)
    ensures
        answer is Some <==> exists|k: int|
            0 <= k < distances@.len() && within(#[trigger] distances@[k], radius),
        answer is Some ==> is_nearest(distances@, radius, answer->0 as int),
{
    let mut best: Option<usize> = None;
    let mut i: usize = 0;
    while i < distances.len()
        invariant
            i <= distances@.len(),
            best is None ==> forall|k: int|
                0 <= k < i ==> !within(#[trigger] distances@[k], radius),
            best is Some ==> {
                &&& best->0 < i
                &&& within(distances@[best->0 as int], radius)
                &&& forall|k: int|
                    0 <= k < i && within(#[trigger] distances@[k], radius) ==> {
                        &&& distances@[best->0 as int].total_rank()
                            <= distances@[k].total_rank()
                        &&& k < best->0 ==> distances@[best->0 as int].total_rank()
                            < distances@[k].total_rank()
                    }
            },
        decreases distances@.len() - i,
    {
        let distance = distances[i];
        if distance.lt(radius) || distance.equals(radius) {
            match best {
                None => {
                    best = Some(i);
                },
                Some(b) => {
                    if distance.before(distances[b]) {
                        best = Some(i);
                    }
                },
            }
        }
        i = i + 1;
    }
    best
}

/// The handle among [`ALL`] that a press lands on, given how far it is from each of them.
pub fn hit(distances: &[Scalar; 9], radius: Scalar) -> (answer: Option<Handle>)
    ensures
        answer is Some <==> exists|k: int|
            0 <= k < 9 && within(#[trigger] distances@[k], radius),
        answer is Some ==> exists|at: int|
            is_nearest(distances@, radius, at) && answer->0 == #[trigger] ALL[at],
{
    let mut list: Vec<Scalar> = Vec::new();
    let mut i: usize = 0;
    while i < 9
        invariant
            i <= 9,
            list@ == distances@.take(i as int),
        decreases 9 - i,
    {
        list.push(distances[i]);
        i = i + 1;
        proof {
            assert(list@ =~= distances@.take(i as int));
        }
    }
    proof {
        assert(distances@.take(9) =~= distances@);
    }
    match nearest(&list, radius) {
        Some(at) => Some(ALL[at]),
        None => None,
    }
}

/// The handle among [`GROUP_HANDLES`] that a press lands on, given how far it is from each
/// of them.
pub fn group_hit(distances: &[Scalar; 5], radius: Scalar) -> (answer: Option<Handle>)
    ensures
        answer is Some <==> exists|k: int|
            0 <= k < 5 && within(#[trigger] distances@[k], radius),
        answer is Some ==> exists|at: int|
            is_nearest(distances@, radius, at) && answer->0 == #[trigger] GROUP_HANDLES[at],
{
    let mut list: Vec<Scalar> = Vec::new();
    let mut i: usize = 0;
    while i < 5
        invariant
            i <= 5,
            list@ == distances@.take(i as int),
        decreases 5 - i,
    {
        list.push(distances[i]);
        i = i + 1;
        proof {
            assert(list@ =~= distances@.take(i as int));
        }
    }
    proof {
        assert(distances@.take(5) =~= distances@);
    }
    match nearest(&list, radius) {
        Some(at) => Some(GROUP_HANDLES[at]),
        None => None,
    }
}

/// Which handle a press lands on is settled by the distances alone: no two candidates are
/// both the nearest.
pub proof fn the_nearest_is_unique(distances: Seq<Scalar>, radius: Scalar, a: int, b: int)
    requires
        is_nearest(distances, radius, a),
        is_nearest(distances, radius, b),
    ensures
        a == b,
{
    if a < b {
        assert(within(distances[a], radius));
    } else if b < a {
        assert(within(distances[b], radius));
    }
}

/// A corner that is as near as an edge is the one a press lands on.
pub proof fn a_corner_wins_a_tie(distances: Seq<Scalar>, radius: Scalar, corner: int, edge: int)
    requires
        distances.len() == 9,
        0 <= corner < 4 <= edge < 9,
        distances[corner] == distances[edge],
    ensures
        !is_nearest(distances, radius, edge),
{
    if is_nearest(distances, radius, edge) {
        assert(within(distances[corner], radius));
    }
}

/// A multi-selection offers no edge: each of its handles drives both axes or neither.
pub proof fn a_group_is_never_stretched(at: int)
    requires
        0 <= at < 5,
    ensures
        (GROUP_HANDLES[at].pull().0 == 0) == (GROUP_HANDLES[at].pull().1 == 0),
{
}

/// The nine handles are listed once each.
pub proof fn every_handle_is_listed_once(handle: Handle)
    ensures
        exists|at: int| 0 <= at < 9 && #[trigger] ALL[at] == handle,
        forall|a: int, b: int|
            0 <= a < 9 && 0 <= b < 9 && #[trigger] ALL[a] == #[trigger] ALL[b] ==> a == b,
{
    let at: int = match handle {
        Handle::TopLeft => 0,
        Handle::TopRight => 1,
        Handle::BottomRight => 2,
        Handle::BottomLeft => 3,
        Handle::Top => 4,
        Handle::Right => 5,
        Handle::Bottom => 6,
        Handle::Left => 7,
        Handle::Rotate => 8,
    };
    assert(ALL[at] == handle);
}

/// Each handle pulls the edges it is named for, and the one that turns pulls none.
pub proof fn a_handle_pulls_what_it_is_named_for(handle: Handle)
    ensures
        handle.pull().0 == -1 <==> handle is TopLeft || handle is Left || handle is BottomLeft,
        handle.pull().0 == 1 <==> handle is TopRight || handle is Right || handle is BottomRight,
        handle.pull().0 == 0 <==> handle is Top || handle is Bottom || handle is Rotate,
        handle.pull().1 == -1 <==> handle is TopLeft || handle is Top || handle is TopRight,
        handle.pull().1 == 1 <==> handle is BottomLeft || handle is Bottom || handle is BottomRight,
        handle.pull().1 == 0 <==> handle is Left || handle is Right || handle is Rotate,
{
}

/// The order in which a tie is settled: the corners around from the top left, the edges around
/// from the top, and the one that turns; a group has the corners and the one that turns.
pub proof fn corners_come_before_edges()
    ensures
        ALL[0] is TopLeft && ALL[1] is TopRight && ALL[2] is BottomRight && ALL[3] is BottomLeft,
        ALL[4] is Top && ALL[5] is Right && ALL[6] is Bottom && ALL[7] is Left && ALL[8] is Rotate,
        GROUP_HANDLES[0] is TopLeft && GROUP_HANDLES[1] is TopRight,
        GROUP_HANDLES[2] is BottomRight && GROUP_HANDLES[3] is BottomLeft,
        GROUP_HANDLES[4] is Rotate,
{
}

/// A press lands on what it is nearest to: a candidate no further away than the radius, that no
/// other is nearer than.
pub proof fn a_press_lands_on_the_nearest(distances: Seq<Scalar>, radius: Scalar, at: int, other: int)
    requires
        is_nearest(distances, radius, at),
        0 <= other < distances.len(),
    ensures
        0 <= at < distances.len(),
        !distances[at].not_a_number(),
        !radius.below(distances[at]),
        !distances[other].below(distances[at]),
{
    if distances[other].below(distances[at]) {
        assert(within(distances[other], radius));
    }
}

/// A distance is within a radius where it is no further, and what is no number is within
/// nothing.
pub proof fn a_reach_takes_in_its_edge(distance: Scalar, radius: Scalar)
    ensures
        within(distance, radius) <==> !distance.not_a_number() && !radius.not_a_number()
            && !radius.below(distance),
{
}

} // verus!
