//! Grid pathfinding over a bounded map with rectangular obstacles carved out.
//!
//! The search space is an implicit grid of whole-unit points spaced one
//! resolution step apart. A point is reachable when it lies inside the map
//! bounds and inside no obstacle rectangle. The search itself is done by the
//! `pathfinding` crate's A* implementation behind a trusted wrapper; every
//! property the callers rely on is stated in that wrapper's contract.

use vstd::prelude::*;
use crate::geometry::{dist_sq, sqrt_floor, Rect, MAP_LIMIT};

verus! {

/// Spacing of the search grid, in world units.
pub const ASTAR_RESOLUTION: i32 = 15;

/// Cost of an orthogonal grid move.
pub const STRAIGHT_COST: u64 = 100;

/// Cost of a diagonal grid move, approximately `STRAIGHT_COST` times the
/// square root of two.
pub const DIAGONAL_COST: u64 = 141;

/// Largest speed of a moving unit, in world units per second.
pub const SPEED_LIMIT: i64 = 1_000_000;

/// A grid point, in whole world units.
#[derive(Clone, Copy, PartialEq, Eq, Hash, Structural, Debug)]
pub struct Pos(pub i32, pub i32);

/// The walkable region: everything inside `bounds` that is inside none of the
/// `obstacles`.
pub struct Terrain {
    pub bounds: Rect,
    pub obstacles: Vec<Rect>,
}

/// Returned when no waypoint sequence connects a start to its goal.
#[derive(Clone, Copy, PartialEq, Eq, Structural, Debug)]
pub struct NoPathFound;

impl Terrain {
    pub open spec fn wf(self) -> bool {
        &&& self.bounds.wf()
        &&& forall|i: int| 0 <= i < self.obstacles@.len() ==> (#[trigger] self.obstacles@[i]).wf()
    }

    /// A point is reachable when it lies inside the bounds and inside no
    /// obstacle.
    pub open spec fn reachable_spec(self, x: int, y: int) -> bool {
        &&& self.bounds.contains_spec(x, y)
        &&& forall|i: int|
            0 <= i < self.obstacles@.len() ==> !(#[trigger] self.obstacles@[i]).contains_spec(x, y)
    }

    pub fn new(bounds: Rect, obstacles: Vec<Rect>) -> (t: Terrain)
        requires
            bounds.wf(),
            forall|i: int| 0 <= i < obstacles@.len() ==> (#[trigger] obstacles@[i]).wf(),
        ensures
            t.wf(),
            t.bounds == bounds,
            t.obstacles@ == obstacles@,
    {
        Terrain { bounds, obstacles }
    }

    /// Decides reachability of an arbitrary point given in world units.
    pub fn reachable_at(&self, x: i64, y: i64) -> (r: bool)
        ensures
            r == self.reachable_spec(x as int, y as int),
    {
        if !self.bounds.contains(x, y) {
            return false;
        }
        let n = self.obstacles.len();
        let mut i: usize = 0;
        while i < n
            invariant
                i <= n,
                n == self.obstacles@.len(),
                self.bounds.contains_spec(x as int, y as int),
                forall|j: int|
                    0 <= j < i ==> !(#[trigger] self.obstacles@[j]).contains_spec(
                        x as int,
                        y as int,
                    ),
            decreases n - i,
        {
            if self.obstacles[i].contains(x, y) {
                return false;
            }
            i = i + 1;
        }
        true
    }

    /// Decides reachability of a grid point.
    pub fn reachable(&self, p: &Pos) -> (r: bool)
        ensures
            r == self.reachable_spec(p.0 as int, p.1 as int),
    {
        self.reachable_at(p.0 as i64, p.1 as i64)
    }
}

/// `b` is one grid move away from `a`: orthogonal or diagonal, one resolution
/// step along each moved axis.
pub open spec fn is_step_spec(a: Pos, b: Pos) -> bool {
    let dx = b.0 - a.0;
    let dy = b.1 - a.1;
    &&& (dx == ASTAR_RESOLUTION || dx == -ASTAR_RESOLUTION || dx == 0)
    &&& (dy == ASTAR_RESOLUTION || dy == -ASTAR_RESOLUTION || dy == 0)
    &&& !(dx == 0 && dy == 0)
}

/// The goal is considered reached within one resolution step of it.
pub open spec fn goal_reached_spec(p: Pos, goal: Pos) -> bool {
    dist_sq(p.0 as int, p.1 as int, goal.0 as int, goal.1 as int) <= 255
}

/// Waypoints `i` and `i + 1` of `s` are one grid move apart, and the latter
/// is reachable.
pub open spec fn route_step_ok(t: Terrain, s: Seq<Pos>, i: int) -> bool {
    &&& is_step_spec(s[i], s[i + 1])
    &&& t.reachable_spec(s[i + 1].0 as int, s[i + 1].1 as int)
}

/// A waypoint sequence that really walks from `start` to within one
/// resolution step of `goal`: it begins at `start`, every later waypoint is
/// reachable, and consecutive waypoints are one grid move apart.
pub open spec fn valid_route_spec(t: Terrain, s: Seq<Pos>, start: Pos, goal: Pos) -> bool {
    &&& s.len() >= 1
    &&& s[0] == start
    &&& forall|i: int| 0 <= i < s.len() - 1 ==> #[trigger] route_step_ok(t, s, i)
    &&& goal_reached_spec(s[s.len() - 1], goal)
}

/// Some valid route connects `start` to `goal`.
pub open spec fn exists_route_spec(t: Terrain, start: Pos, goal: Pos) -> bool {
    exists|s: Seq<Pos>| valid_route_spec(t, s, start, goal)
}

pub open spec fn within_map_spec(p: Pos) -> bool {
    &&& -MAP_LIMIT <= p.0 <= MAP_LIMIT
    &&& -MAP_LIMIT <= p.1 <= MAP_LIMIT
}

/// One candidate successor: kept with its cost when reachable.
pub open spec fn candidate_spec(t: Terrain, x: int, y: int, cost: u64) -> Seq<(Pos, u64)> {
    if t.reachable_spec(x, y) {
        seq![(Pos(x as i32, y as i32), cost)]
    } else {
        Seq::empty()
    }
}

/// The successors of a grid point: its eight neighbors, orthogonal ones
/// first, each kept only when reachable.
pub open spec fn successors_spec(t: Terrain, p: Pos) -> Seq<(Pos, u64)> {
    let x = p.0 as int;
    let y = p.1 as int;
    let r = ASTAR_RESOLUTION as int;
    candidate_spec(t, x + r, y, STRAIGHT_COST) + candidate_spec(t, x - r, y, STRAIGHT_COST)
        + candidate_spec(t, x, y + r, STRAIGHT_COST) + candidate_spec(t, x, y - r, STRAIGHT_COST)
        + candidate_spec(t, x + r, y + r, DIAGONAL_COST) + candidate_spec(
        t,
        x + r,
        y - r,
        DIAGONAL_COST,
    ) + candidate_spec(t, x - r, y + r, DIAGONAL_COST) + candidate_spec(
        t,
        x - r,
        y - r,
        DIAGONAL_COST,
    )
}

/// Appends the neighbor at `(x, y)` when it is reachable.
fn push_candidate(v: &mut Vec<(Pos, u64)>, t: &Terrain, x: i64, y: i64, cost: u64)
    requires
        -2 * (MAP_LIMIT as int) <= x <= 2 * (MAP_LIMIT as int),
        -2 * (MAP_LIMIT as int) <= y <= 2 * (MAP_LIMIT as int),
        t.wf(),
    ensures
        final(v)@ == old(v)@ + candidate_spec(*t, x as int, y as int, cost),
{
    if t.reachable_at(x, y) {
        proof {
            assert(t.bounds.contains_spec(x as int, y as int));
        }
        v.push((Pos(x as i32, y as i32), cost));
        proof {
            assert(v@ =~= old(v)@ + candidate_spec(*t, x as int, y as int, cost));
        }
    } else {
        proof {
            assert(v@ =~= old(v)@ + candidate_spec(*t, x as int, y as int, cost));
        }
    }
}

impl Pos {
    /// Euclidean distance to `other`, rounded down.
    pub fn distance(&self, other: &Pos) -> (d: u64)
        ensures
            d == sqrt_floor(
                dist_sq(self.0 as int, self.1 as int, other.0 as int, other.1 as int),
            ),
            (d as int) * (d as int) <= dist_sq(
                self.0 as int,
                self.1 as int,
                other.0 as int,
                other.1 as int,
            ),
            dist_sq(self.0 as int, self.1 as int, other.0 as int, other.1 as int) < (d as int + 1)
                * (d as int + 1),
    {
        crate::geometry::euclid_dist(self.0 as i64, self.1 as i64, other.0 as i64, other.1 as i64)
    }

    /// The reachable neighbors of this grid point, with their move costs.
    pub fn successors(&self, t: &Terrain) -> (r: Vec<(Pos, u64)>)
        requires
            t.wf(),
            within_map_spec(*self),
        ensures
            r@ == successors_spec(*t, *self),
    {
        let x = self.0 as i64;
        let y = self.1 as i64;
        let r = ASTAR_RESOLUTION as i64;
        let mut v: Vec<(Pos, u64)> = Vec::new();
        push_candidate(&mut v, t, x + r, y, STRAIGHT_COST);
        push_candidate(&mut v, t, x - r, y, STRAIGHT_COST);
        push_candidate(&mut v, t, x, y + r, STRAIGHT_COST);
        push_candidate(&mut v, t, x, y - r, STRAIGHT_COST);
        push_candidate(&mut v, t, x + r, y + r, DIAGONAL_COST);
        push_candidate(&mut v, t, x + r, y - r, DIAGONAL_COST);
        push_candidate(&mut v, t, x - r, y + r, DIAGONAL_COST);
        push_candidate(&mut v, t, x - r, y - r, DIAGONAL_COST);
        proof {
            assert(v@ =~= successors_spec(*t, *self));
        }
        v
    }

    /// Search heuristic: a third of the distance to the goal, an
    /// intentionally loose admissible estimate that biases the search toward
    /// speed.
    pub fn heuristic_to(&self, goal: &Pos) -> (h: u64)
        ensures
            h == sqrt_floor(
                dist_sq(self.0 as int, self.1 as int, goal.0 as int, goal.1 as int),
            ) / 3,
    {
        self.distance(goal) / 3
    }

    /// Whether this point counts as having reached the goal.
    pub fn reaches_goal(&self, goal: &Pos) -> (r: bool)
        ensures
            r == goal_reached_spec(*self, *goal),
    {
        let d = self.distance(goal);
        proof {
            let n = dist_sq(self.0 as int, self.1 as int, goal.0 as int, goal.1 as int);
            assert((d as int <= 15) == (n <= 255)) by (nonlinear_arith)
                requires
                    (d as int) * (d as int) <= n,
                    (n) < (d as int + 1) * (d as int + 1),
                    0 <= d as int,
            ;
        }
        d <= 15
    }
}

/// The waypoint sequence (if any) that the search returns for these inputs.
/// It is a pure function of the map bounds, the obstacle rectangles, the
/// start, and the goal.
pub uninterp spec fn route_of(
    bounds: (int, int, int, int),
    obstacles: Seq<(int, int, int, int)>,
    start: (int, int),
    goal: (int, int),
) -> Option<Seq<Pos>>;

pub open spec fn rect_view(r: Rect) -> (int, int, int, int) {
    (r.min_x as int, r.min_y as int, r.max_x as int, r.max_y as int)
}

pub open spec fn obstacles_view(t: Terrain) -> Seq<(int, int, int, int)> {
    t.obstacles@.map(|i: int, r: Rect| rect_view(r))
}

/// The route the search would return for `t`, `start`, `goal`.
pub open spec fn route_spec(t: Terrain, start: Pos, goal: Pos) -> Option<Seq<Pos>> {
    route_of(
        rect_view(t.bounds),
        obstacles_view(t),
        (start.0 as int, start.1 as int),
        (goal.0 as int, goal.1 as int),
    )
}

/// Relies on `pathfinding::prelude::astar`: the returned path comprises both
/// the start and the end node, consecutive nodes come from the successors
/// function, the end node satisfies the success predicate, and `None` is
/// returned exactly when no such path exists. The search is a deterministic
/// function of its inputs: it draws on no clock, randomness, or anything else
/// outside its arguments, so its outcome is named by `route_of`.
#[verifier::external_body]
fn astar_search(t: &Terrain, start: Pos, goal: Pos) -> (r: Option<Vec<Pos>>)
    requires
        t.wf(),
        within_map_spec(start),
    ensures
        (match r {
            Some(p) => Some(p@),
            None => None,
        }) == route_of(
            rect_view(t.bounds),
            obstacles_view(*t),
            (start.0 as int, start.1 as int),
            (goal.0 as int, goal.1 as int),
        ),
        r matches Some(p) ==> valid_route_spec(*t, p@, start, goal),
        r is None ==> !exists_route_spec(*t, start, goal),
{
    let found = pathfinding::prelude::astar(
        &start,
        |p: &Pos| p.successors(t),
        |p: &Pos| p.heuristic_to(&goal),
        |p: &Pos| p.reaches_goal(&goal),
    );
    found.map(|pc| pc.0)
}

/// Searches for a waypoint route from `start` to within one resolution step
/// of `goal`. Fails with `NoPathFound` exactly when no route exists; it never
/// returns an empty or partial waypoint list.
pub fn find_path(t: &Terrain, start: Pos, goal: Pos) -> (r: Result<Vec<Pos>, NoPathFound>)
    requires
        t.wf(),
        within_map_spec(start),
    ensures
        (match r {
            Ok(p) => Some(p@),
            Err(_) => None,
        }) == route_spec(*t, start, goal),
        r matches Ok(p) ==> valid_route_spec(*t, p@, start, goal),
        (r matches Err(_)) <==> !exists_route_spec(*t, start, goal),
{
    match astar_search(t, start, goal) {
        Some(p) => {
            proof {
                assert(valid_route_spec(*t, p@, start, goal));
                assert(exists_route_spec(*t, start, goal));
            }
            Ok(p)
        },
        None => Err(NoPathFound),
    }
}

/// Repeated searches with the same terrain, start, and goal return the same
/// waypoint sequence: the route is a function of those inputs alone.
pub proof fn lemma_find_path_deterministic(
    t: Terrain,
    start: Pos,
    goal: Pos,
    r1: Option<Seq<Pos>>,
    r2: Option<Seq<Pos>>,
)
    requires
        r1 == route_spec(t, start, goal),
        r2 == route_spec(t, start, goal),
    ensures
        r1 == r2,
{
}

/// Movement state of a unit walking a precomputed waypoint route: the goal it
/// was computed for, the waypoints in world units, the index of the waypoint
/// currently steered for, and the unit's speed in world units per second.
pub struct FollowPath {
    pub goal: Pos,
    pub path: Vec<Pos>,
    pub current: usize,
    pub speed: i64,
}

impl FollowPath {
    /// The waypoint list is never empty, the cursor stays inside it and the
    /// waypoints stay within the map limits.
    pub open spec fn wf(self) -> bool {
        &&& self.path@.len() >= 1
        &&& self.current < self.path@.len()
        &&& 0 <= self.speed <= SPEED_LIMIT
        &&& within_map_spec(self.goal)
        &&& forall|i: int| 0 <= i < self.path@.len() ==> within_map_spec(#[trigger] self.path@[i])
    }

    /// Computes the route on construction; an unreachable goal is refused
    /// rather than yielding an empty route.
    #[verifier::rlimit(30)]
    pub fn new(t: &Terrain, start: Pos, goal: Pos, speed: i64) -> (r: Result<
        FollowPath,
        NoPathFound,
    >)
        requires
            t.wf(),
            within_map_spec(start),
            within_map_spec(goal),
            0 <= speed <= SPEED_LIMIT,
        ensures
            (match r {
                Ok(fp) => Some(fp.path@),
                Err(_) => None,
            }) == route_spec(*t, start, goal),
            r matches Ok(fp) ==> {
                &&& fp.wf()
                &&& Some(fp.path@) == route_spec(*t, start, goal)
                &&& valid_route_spec(*t, fp.path@, start, goal)
                &&& fp.current == 0
                &&& fp.goal == goal
                &&& fp.speed == speed
            },
            (r matches Err(_)) <==> !exists_route_spec(*t, start, goal),
    {
        let path = match find_path(t, start, goal) {
            Ok(p) => p,
            Err(e) => {
                return Err(e);
            },
        };
        proof {
            assert(valid_route_spec(*t, path@, start, goal));
            assert forall|i: int| 0 <= i < path@.len() implies within_map_spec(
                #[trigger] path@[i],
            ) by {
                assert(valid_route_spec(*t, path@, start, goal));
                if i > 0 {
                    let j = i - 1;
                    assert(route_step_ok(*t, path@, j));
                    assert(path@[j + 1] == path@[i]);
                    assert(t.bounds.contains_spec(path@[i].0 as int, path@[i].1 as int));
                }
            }
        }
        Ok(FollowPath { goal, path, current: 0, speed })
    }

    pub fn get_goal(&self) -> (g: Pos)
        ensures
            g == self.goal,
    {
        self.goal
    }
}

} // verus!
