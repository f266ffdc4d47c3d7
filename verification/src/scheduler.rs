//! Streaming scheduler.
//!
//! Each frame, given the viewer's chunk coordinate and a fixed render
//! distance, the scheduler walks a square spiral over the surrounding
//! chunk grid and says, in a deterministic order, which coordinates to
//! keep active and which to evict.  The traversal square is one ring
//! larger than the retained radius, so the outermost ring is
//! continuously evicted and the active set stays bounded.

use vstd::prelude::*;
use crate::chunk::ChunkCoord;

verus! {

/// One step of a streaming plan: a chunk coordinate, and whether it is
/// on the border ring (to be evicted) or in the interior (to be kept
/// active).
#[derive(Copy, Clone, Eq, PartialEq, Structural, Debug)]
pub struct StreamStep {
    /// The chunk coordinate the step is about.
    pub coord: ChunkCoord,
    /// `true` on the border ring: evict; `false` inside: keep active.
    pub evict: bool,
}

/// Whether the square spiral turns at offset `(x, y)`: at a diagonal,
/// following the standard square-spiral turn rule.
pub open spec fn spiral_turn(x: int, y: int) -> bool {
    x == y || (x < 0 && x == -y) || (x > 0 && x == 1 - y)
}

/// The spiral walk state `(x, y, dx, dy)` at the start of step `t`:
/// the walk starts at the center heading down the y axis, turns by the
/// square-spiral rule after visiting a point, and then moves one step.
pub open spec fn spiral_state(t: nat) -> (int, int, int, int)
    decreases t,
{
    if t == 0 {
        (0, 0, 0, -1)
    } else {
        let (x, y, dx, dy) = spiral_state((t - 1) as nat);
        let (ndx, ndy) = if spiral_turn(x, y) {
            (-dy, dx)
        } else {
            (dx, dy)
        };
        (x + ndx, y + ndy, ndx, ndy)
    }
}

/// Whether offset `(x, y)` lies within the traversal square of a plan
/// with the given radius: a square of side `2 * radius + 3` centered
/// on the viewer.
pub open spec fn in_square(x: int, y: int, radius: int) -> bool {
    &&& -(radius + 1) <= x <= radius + 1
    &&& -(radius + 1) <= y <= radius + 1
}

/// Whether offset `(x, y)` lies on the border ring of the traversal
/// square, whose coordinates are evicted.
pub open spec fn on_border(x: int, y: int, radius: int) -> bool {
    x == -(radius + 1) || x == radius + 1 || y == -(radius + 1) || y == radius + 1
}

/// The plan step for offset `(x, y)` around `center`.
pub open spec fn step_at(center: ChunkCoord, radius: int, x: int, y: int) -> StreamStep {
    StreamStep {
        coord: ChunkCoord { x: (center.x + x) as i32, z: (center.z + y) as i32 },
        evict: on_border(x, y, radius),
    }
}

/// The plan entries of spiral steps `t` (inclusive) to `limit`
/// (exclusive): each step whose offset lies in the traversal square
/// contributes one entry, in walk order.
pub open spec fn spiral_plan_from(
    center: ChunkCoord,
    radius: int,
    t: nat,
    limit: nat,
) -> Seq<StreamStep>
    decreases limit - t,
{
    if t >= limit {
        Seq::empty()
    } else {
        let (x, y, dx, dy) = spiral_state(t);
        let head = if in_square(x, y, radius) {
            seq![step_at(center, radius, x, y)]
        } else {
            Seq::<StreamStep>::empty()
        };
        head + spiral_plan_from(center, radius, (t + 1) as nat, limit)
    }
}

/// The full streaming plan of one frame: the spiral walk over the
/// traversal square of side `2 * radius + 3`, one entry per visited
/// coordinate, border entries marked for eviction.
pub open spec fn spiral_plan(center: ChunkCoord, radius: int) -> Seq<StreamStep> {
    let side = 2 * radius + 3;
    spiral_plan_from(center, radius, 0, (side * side) as nat)
}

/// Decides which chunk coordinates around the viewer to load and which
/// to evict, by a deterministic square spiral.
pub struct StreamingScheduler {
    radius: i32,
}

/// The largest render distance a scheduler accepts; it keeps every
/// planned coordinate within the chunk-grid integer range.
pub const MAX_RENDER_DISTANCE: i32 = 65536;

/// The largest viewer chunk coordinate magnitude a plan accepts.
pub const MAX_PLAN_CENTER: i32 = 0x40000000;

impl StreamingScheduler {
    /// The render distance of the scheduler, in chunks.
    pub closed spec fn spec_radius(&self) -> int {
        self.radius as int
    }

    /// Creates a scheduler with the given render distance, in chunks.
    pub fn new(render_distance: i32) -> (r: StreamingScheduler)
        requires
            0 <= render_distance <= MAX_RENDER_DISTANCE,
        ensures
            r.spec_radius() == render_distance,
    {
        StreamingScheduler { radius: render_distance }
    }

    /// The render distance of the scheduler, in chunks.
    pub fn radius(&self) -> (r: i32)
        ensures
            r == self.spec_radius(),
    {
        self.radius
    }

    /// Plans one frame: walks the square spiral around the viewer's
    /// chunk coordinate and returns, in walk order, each coordinate of
    /// the traversal square with its keep-or-evict decision.
    pub fn plan(&self, center: ChunkCoord) -> (r: Vec<StreamStep>)
        requires
            0 <= self.spec_radius() <= MAX_RENDER_DISTANCE,
            -MAX_PLAN_CENTER <= center.x <= MAX_PLAN_CENTER,
            -MAX_PLAN_CENTER <= center.z <= MAX_PLAN_CENTER,
        ensures
            r@ == spiral_plan(center, self.spec_radius()),
    {
        let radius = self.radius as i64;
        let side: i64 = 2 * radius + 3;
        proof {
            assert(side * side <= 0x1000000000) by (nonlinear_arith)
                requires
                    0 <= side <= 0x40000,
            ;
            assert(0 <= side * side) by (nonlinear_arith)
                requires
                    0 <= side,
            ;
        }
        let limit: i64 = side * side;

        let mut r: Vec<StreamStep> = Vec::new();
        let mut x: i64 = 0;
        let mut y: i64 = 0;
        let mut dx: i64 = 0;
        let mut dy: i64 = -1;
        let mut t: i64 = 0;
        while t < limit
            invariant
                0 <= self.spec_radius() <= MAX_RENDER_DISTANCE,
                -MAX_PLAN_CENTER <= center.x <= MAX_PLAN_CENTER,
                -MAX_PLAN_CENTER <= center.z <= MAX_PLAN_CENTER,
                radius == self.spec_radius(),
                side == 2 * radius + 3,
                limit == side * side,
                limit <= 0x1000000000,
                0 <= t <= limit,
                (x as int, y as int, dx as int, dy as int) == spiral_state(t as nat),
                -t - 1 <= x <= t + 1,
                -t - 1 <= y <= t + 1,
                -1 <= dx <= 1,
                -1 <= dy <= 1,
                spiral_plan(center, self.spec_radius()) == r@ + spiral_plan_from(
                    center,
                    self.spec_radius(),
                    t as nat,
                    limit as nat,
                ),
            decreases limit - t,
        {
            let bound = radius + 1;
            if -bound <= x && x <= bound && -bound <= y && y <= bound {
                let evict = x == -bound || x == bound || y == -bound || y == bound;
                let cx = center.x as i64 + x;
                let cz = center.z as i64 + y;
                let step = StreamStep {
                    coord: ChunkCoord { x: cx as i32, z: cz as i32 },
                    evict,
                };
                let ghost r_before = r@;
                r.push(step);
                proof {
                    assert(step == step_at(center, self.spec_radius(), x as int, y as int));
                    let rest = spiral_plan_from(center, self.spec_radius(), (t + 1) as nat,
                        limit as nat);
                    assert(spiral_plan_from(center, self.spec_radius(), t as nat, limit as nat)
                        == seq![step] + rest);
                    assert(r_before + (seq![step] + rest) =~= r@ + rest);
                }
            } else {
                proof {
                    let rest = spiral_plan_from(center, self.spec_radius(), (t + 1) as nat,
                        limit as nat);
                    assert(spiral_plan_from(center, self.spec_radius(), t as nat, limit as nat)
                        == Seq::<StreamStep>::empty() + rest);
                    assert(Seq::<StreamStep>::empty() + rest =~= rest);
                }
            }
            let turn = x == y || (x < 0 && x == -y) || (x > 0 && x == 1 - y);
            if turn {
                let tmp = dx;
                dx = -dy;
                dy = tmp;
            }
            x = x + dx;
            y = y + dy;
            t = t + 1;
        }
        proof {
            assert(spiral_plan_from(center, self.spec_radius(), t as nat, limit as nat)
                == Seq::<StreamStep>::empty());
            assert(r@ + Seq::<StreamStep>::empty() =~= r@);
        }
        r
    }
}

/// Law: streaming is deterministic.  The plan is pinned to a function
/// of the viewer's chunk coordinate and the render distance alone, so
/// two independent runs visit the same coordinates in the same order
/// and agree on which are border (evicted) and which are interior
/// (retained).
pub proof fn lemma_schedule_deterministic(
    center: ChunkCoord,
    radius: int,
    r1: Seq<StreamStep>,
    r2: Seq<StreamStep>,
)
    requires
        r1 == spiral_plan(center, radius),
        r2 == spiral_plan(center, radius),
    ensures
        r1 == r2,
{
}

} // verus!
