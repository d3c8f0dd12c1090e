//! Movement integration: advancing units along their waypoint routes, and
//! the chase logic that gives a quakka a fresh route to its current victim.

use vstd::prelude::*;
use crate::geometry::{dist_sq, distance_sq, isqrt, sqrt_floor, COORD_LIMIT};
use crate::path::{
    obstacles_view, rect_view, route_of, within_map_spec, FollowPath, Pos, Terrain,
};
use crate::unit::{units_wf, UnitRec, DELTA_LIMIT};
use crate::path::SPEED_LIMIT;

verus! {

/// A unit is within this many milli-units of a waypoint when it counts as
/// arrived there.
pub const WAYPOINT_TOLERANCE_MILLI: i64 = 1000;

/// A milli-unit coordinate snapped to its whole-unit grid cell, rounding
/// toward zero.
pub open spec fn milli_to_world_spec(x: int) -> int {
    if x >= 0 {
        x / 1000
    } else {
        -((-x) / 1000)
    }
}

pub fn milli_to_world(x: i64) -> (r: i64)
    requires
        -COORD_LIMIT <= x <= COORD_LIMIT,
    ensures
        r == milli_to_world_spec(x as int),
        -1_000_000 <= r <= 1_000_000,
{
    if x >= 0 {
        ((x as u64) / 1000) as i64
    } else {
        -((((-x) as u64) / 1000) as i64)
    }
}

/// The grid cell a unit stands in.
pub open spec fn unit_cell_spec(u: UnitRec) -> Pos {
    Pos(milli_to_world_spec(u.x as int) as i32, milli_to_world_spec(u.y as int) as i32)
}

pub open spec fn int_abs(v: int) -> int {
    if v < 0 {
        -v
    } else {
        v
    }
}

/// One movement step from `(x, y)` toward `(tx, ty)` by at most `step`
/// milli-units: the direction is normalized, a zero direction vector means no
/// movement, and the step never overshoots the target.
pub open spec fn move_toward_spec(x: int, y: int, tx: int, ty: int, step: int) -> (int, int) {
    let len = sqrt_floor(dist_sq(x, y, tx, ty));
    if len == 0 || step <= 0 {
        (x, y)
    } else {
        let amount = if step < len {
            step
        } else {
            len
        };
        let mx = (int_abs(tx - x) * amount) / len;
        let my = (int_abs(ty - y) * amount) / len;
        (
            if tx >= x {
                x + mx
            } else {
                x - mx
            },
            if ty >= y {
                y + my
            } else {
                y - my
            },
        )
    }
}

/// Moves `(x, y)` toward `(tx, ty)` by at most `step` milli-units; the
/// result stays in the box spanned by the two points.
pub fn move_toward(x: i64, y: i64, tx: i64, ty: i64, step: i64) -> (r: (i64, i64))
    requires
        -COORD_LIMIT <= x <= COORD_LIMIT,
        -COORD_LIMIT <= y <= COORD_LIMIT,
        -COORD_LIMIT <= tx <= COORD_LIMIT,
        -COORD_LIMIT <= ty <= COORD_LIMIT,
        0 <= step <= 2_000_000_000_000,
    ensures
        (r.0 as int, r.1 as int) == move_toward_spec(
            x as int,
            y as int,
            tx as int,
            ty as int,
            step as int,
        ),
        -COORD_LIMIT <= r.0 <= COORD_LIMIT,
        -COORD_LIMIT <= r.1 <= COORD_LIMIT,
{
    let dsq = distance_sq(x, y, tx, ty);
    let len = isqrt(dsq);
    if len == 0 || step == 0 {
        return (x, y);
    }
    let amount: u64 = if (step as u64) < len {
        step as u64
    } else {
        len
    };
    let adx: u64 = if tx >= x {
        (tx - x) as u64
    } else {
        (x - tx) as u64
    };
    let ady: u64 = if ty >= y {
        (ty - y) as u64
    } else {
        (y - ty) as u64
    };
    proof {
        assert((len as int) * (len as int) <= dist_sq(x as int, y as int, tx as int, ty as int));
        assert(dist_sq(x as int, y as int, tx as int, ty as int) == (adx as int) * (adx as int)
            + (ady as int) * (ady as int)) by (nonlinear_arith)
            requires
                adx == int_abs(tx as int - x as int),
                ady == int_abs(ty as int - y as int),
        ;
        assert(adx <= len && ady <= len && len <= 4_000_000_000u64) by (nonlinear_arith)
            requires
                (len as int) * (len as int) <= (adx as int) * (adx as int) + (ady as int)
                    * (ady as int),
                dist_sq(x as int, y as int, tx as int, ty as int) < (len as int + 1)
                    * (len as int + 1),
                dist_sq(x as int, y as int, tx as int, ty as int) == (adx as int) * (adx as int)
                    + (ady as int) * (ady as int),
                0 <= adx <= 2_000_000_000,
                0 <= ady <= 2_000_000_000,
                0 <= len,
        ;
        assert(adx * amount <= u64::MAX && ady * amount <= u64::MAX && ((adx as int)
            * (amount as int)) / (len as int) <= adx && ((ady as int) * (amount as int)) / (
        len as int) <= ady)
            by (nonlinear_arith)
            requires
                0 <= amount <= len,
                1 <= len <= 4_000_000_000u64,
                0 <= adx <= 2_000_000_000,
                0 <= ady <= 2_000_000_000,
        ;
    }
    let mx: u64 = (adx * amount) / len;
    let my: u64 = (ady * amount) / len;
    let nx: i64 = if tx >= x {
        x + mx as i64
    } else {
        x - mx as i64
    };
    let ny: i64 = if ty >= y {
        y + my as i64
    } else {
        y - my as i64
    };
    (nx, ny)
}

/// One movement tick of a unit with a route: it walks toward its current
/// waypoint, then advances the waypoint cursor when it has arrived and more
/// waypoints remain. The cursor only ever moves forward.
pub open spec fn follow_one(u: UnitRec, delta: u64) -> UnitRec {
    match u.follow {
        None => u,
        Some(fp) => {
            let wp = fp.path@[fp.current as int];
            let tx = (wp.0 as int) * 1000;
            let ty = (wp.1 as int) * 1000;
            let step = (fp.speed as int) * (delta as int);
            let moved = move_toward_spec(u.x as int, u.y as int, tx, ty, step);
            let arrived = dist_sq(moved.0, moved.1, tx, ty) < WAYPOINT_TOLERANCE_MILLI
                * WAYPOINT_TOLERANCE_MILLI;
            let ncur = if arrived && fp.current + 1 < fp.path@.len() {
                fp.current + 1
            } else {
                fp.current as int
            };
            UnitRec {
                x: moved.0 as i64,
                y: moved.1 as i64,
                follow: Some(
                    FollowPath {
                        goal: fp.goal,
                        path: fp.path,
                        current: ncur as usize,
                        speed: fp.speed,
                    },
                ),
                ..u
            }
        },
    }
}

pub open spec fn follow_upto(s: Seq<UnitRec>, delta: u64, n: int) -> Seq<UnitRec>
    decreases n,
{
    if n <= 0 {
        s
    } else {
        let p = follow_upto(s, delta, n - 1);
        p.update(n - 1, follow_one(p[n - 1], delta))
    }
}

pub open spec fn follow_phase_spec(s: Seq<UnitRec>, delta: u64) -> Seq<UnitRec> {
    follow_upto(s, delta, s.len() as int)
}

/// Advances every unit with a route along it.
pub fn follow_paths(units: &mut Vec<UnitRec>, delta: u64)
    requires
        units_wf(old(units)@),
        delta <= DELTA_LIMIT,
    ensures
        final(units)@ == follow_phase_spec(old(units)@, delta),
        units_wf(final(units)@),
        final(units)@.len() == old(units)@.len(),
{
    let ghost s0 = units@;
    let n = units.len();
    let mut i: usize = 0;
    while i < n
        invariant
            i <= n,
            n == s0.len(),
            units@.len() == n,
            units_wf(units@),
            units@ == follow_upto(s0, delta, i as int),
            delta <= DELTA_LIMIT,
        decreases n - i,
    {
        let mut has_path = false;
        let mut wx: i64 = 0;
        let mut wy: i64 = 0;
        let mut speed: i64 = 0;
        match &units[i].follow {
            Some(fp) => {
                has_path = true;
                let wp = fp.path[fp.current];
                wx = wp.0 as i64;
                wy = wp.1 as i64;
                speed = fp.speed;
            },
            None => {},
        }
        if has_path {
            proof {
                let fp = units@[i as int].follow->Some_0;
                assert(units@[i as int].wf());
                assert(fp.wf());
                assert(within_map_spec(fp.path@[fp.current as int]));
                assert(0 <= speed <= SPEED_LIMIT);
                assert(-1_000_000 <= wx <= 1_000_000);
                assert(-1_000_000 <= wy <= 1_000_000);
                assert(0 <= (speed as int) * (delta as int) <= 2_000_000_000_000int)
                    by (nonlinear_arith)
                    requires
                        0 <= speed <= 1_000_000,
                        0 <= delta <= 1_000_000,
                ;
            }
            let tx = wx * 1000;
            let ty = wy * 1000;
            let step = speed * (delta as i64);
            let moved = move_toward(units[i].x, units[i].y, tx, ty, step);
            let d = distance_sq(moved.0, moved.1, tx, ty);
            let arrived = d < (WAYPOINT_TOLERANCE_MILLI * WAYPOINT_TOLERANCE_MILLI) as u128;
            let u = &mut units[i];
            u.x = moved.0;
            u.y = moved.1;
            match &mut u.follow {
                Some(fp) => {
                    let l = fp.path.len();
                    if arrived && l > 0 && fp.current < l - 1 {
                        fp.current = fp.current + 1;
                    }
                },
                None => {},
            }
        }
        proof {
            assert(units@ =~= follow_upto(s0, delta, i as int + 1));
        }
        i = i + 1;
    }
}

/// A unit counts as moving while it has a route it has not finished: either
/// waypoints remain beyond the current one, or it is still more than the
/// arrival tolerance away from the last one. Walk-animation consumers
/// observe this.
pub open spec fn is_moving_spec(u: UnitRec) -> bool {
    u.follow matches Some(fp) && {
        ||| fp.current + 1 < fp.path@.len()
        ||| dist_sq(
            u.x as int,
            u.y as int,
            (fp.path@[fp.current as int].0 as int) * 1000,
            (fp.path@[fp.current as int].1 as int) * 1000,
        ) >= WAYPOINT_TOLERANCE_MILLI * WAYPOINT_TOLERANCE_MILLI
    }
}

/// Whether the unit is still walking a route.
pub fn is_moving(u: &UnitRec) -> (r: bool)
    requires
        u.wf(),
    ensures
        r == is_moving_spec(*u),
{
    match &u.follow {
        Some(fp) => {
            proof {
                assert(u.follow->Some_0.wf());
            }
            let l = fp.path.len();
            if fp.current < l - 1 {
                return true;
            }
            let wp = fp.path[fp.current];
            let d = distance_sq(u.x, u.y, (wp.0 as i64) * 1000, (wp.1 as i64) * 1000);
            d >= (WAYPOINT_TOLERANCE_MILLI * WAYPOINT_TOLERANCE_MILLI) as u128
        },
        None => false,
    }
}

/// First unit with the given id, if any.
pub open spec fn find_by_id_upto(s: Seq<UnitRec>, id: u64, n: int) -> Option<int>
    decreases n,
{
    if n <= 0 {
        None
    } else {
        match find_by_id_upto(s, id, n - 1) {
            Some(k) => Some(k),
            None => if s[n - 1].id == id {
                Some(n - 1)
            } else {
                None
            },
        }
    }
}

pub open spec fn find_by_id(s: Seq<UnitRec>, id: u64) -> Option<int> {
    find_by_id_upto(s, id, s.len() as int)
}

/// The found index carries the id; `None` means no unit carries it.
pub proof fn lemma_find_by_id(s: Seq<UnitRec>, id: u64, n: int)
    requires
        0 <= n <= s.len(),
    ensures
        find_by_id_upto(s, id, n) matches Some(k) ==> 0 <= k < n && s[k].id == id,
        find_by_id_upto(s, id, n) is None ==> forall|k: int| 0 <= k < n ==> s[k].id != id,
    decreases n,
{
    if n > 0 {
        lemma_find_by_id(s, id, n - 1);
    }
}

pub fn find_unit_by_id(units: &Vec<UnitRec>, id: u64) -> (r: Option<usize>)
    ensures
        (match r {
            Some(k) => Some(k as int),
            None => None,
        }) == find_by_id(units@, id),
        r matches Some(k) ==> k < units@.len() && units@[k as int].id == id,
{
    let n = units.len();
    let mut i: usize = 0;
    while i < n
        invariant
            i <= n,
            n == units@.len(),
            find_by_id_upto(units@, id, i as int) is None,
        decreases n - i,
    {
        if units[i].id == id {
            proof {
                lemma_find_by_id_extend(units@, id, i as int);
            }
            return Some(i);
        }
        i = i + 1;
    }
    proof {
        lemma_find_by_id_stable(units@, id, i as int, units@.len() as int);
    }
    None
}

/// Once the scan below `n` found nothing and `s[n]` matches, the first match
/// overall is `n`.
proof fn lemma_find_by_id_extend(s: Seq<UnitRec>, id: u64, n: int)
    requires
        0 <= n < s.len(),
        find_by_id_upto(s, id, n) is None,
        s[n].id == id,
    ensures
        find_by_id(s, id) == Some(n),
    decreases s.len() - n,
{
    lemma_find_by_id_stable_from(s, id, n);
}

proof fn lemma_find_by_id_stable_from(s: Seq<UnitRec>, id: u64, n: int)
    requires
        0 <= n < s.len(),
        find_by_id_upto(s, id, n) is None,
        s[n].id == id,
    ensures
        forall|m: int| n < m <= s.len() ==> find_by_id_upto(s, id, m) == Some(n),
{
    assert forall|m: int| n < m <= s.len() implies find_by_id_upto(s, id, m) == Some(n) by {
        lemma_find_by_id_step(s, id, n, m);
    }
}

proof fn lemma_find_by_id_step(s: Seq<UnitRec>, id: u64, n: int, m: int)
    requires
        0 <= n < s.len(),
        find_by_id_upto(s, id, n) is None,
        s[n].id == id,
        n < m <= s.len(),
    ensures
        find_by_id_upto(s, id, m) == Some(n),
    decreases m,
{
    if m == n + 1 {
    } else {
        lemma_find_by_id_step(s, id, n, m - 1);
    }
}

/// The follow aspect a chasing quakka should hold after this tick, decided
/// against the tick-start state `s`.
///
/// A quakka with no victim drops its route, as does one whose victim sits in
/// the outer half of its attack range (it is close enough). Otherwise, when
/// its route's goal has drifted too far from the victim, or it has no route,
/// it computes a fresh route to the victim's cell; an unreachable victim
/// leaves it without a route rather than with a stale or empty one.
pub open spec fn chase_follow_ok(
    s: Seq<UnitRec>,
    i: int,
    f: Option<FollowPath>,
    t: Terrain,
    speed: i64,
) -> bool {
    let u = s[i];
    if !(u.card is Quakka && u.attacker is Some) {
        f == u.follow
    } else {
        let a = u.attacker->Some_0;
        if a.current_victim is None {
            f is None
        } else if a.current_victim_in_range_fraction matches Some(fr) && fr >= 500 {
            f is None
        } else {
            match find_by_id(s, a.current_victim->Some_0) {
                None => f == u.follow,
                Some(v) => {
                    let goal = Pos(
                        milli_to_world_spec(s[v].x as int) as i32,
                        milli_to_world_spec(s[v].y as int) as i32,
                    );
                    let regen = match u.follow {
                        None => true,
                        Some(fp) => dist_sq(
                            (fp.goal.0 as int) * 1000,
                            (fp.goal.1 as int) * 1000,
                            s[v].x as int,
                            s[v].y as int,
                        ) > 900_000_000,
                    };
                    if !regen {
                        f == u.follow
                    } else {
                        match route_of(
                            rect_view(t.bounds),
                            obstacles_view(t),
                            (unit_cell_spec(u).0 as int, unit_cell_spec(u).1 as int),
                            (goal.0 as int, goal.1 as int),
                        ) {
                            Some(route) => f matches Some(fp) && fp.path@ == route && fp.goal
                                == goal && fp.current == 0 && fp.speed == speed && fp.wf(),
                            None => f is None,
                        }
                    }
                },
            }
        }
    }
}

/// The chase phase rewrites only follow aspects, each as `chase_follow_ok`
/// says against the tick-start state.
pub open spec fn chase_phase_ok(s: Seq<UnitRec>, r: Seq<UnitRec>, t: Terrain, speed: i64) -> bool {
    &&& r.len() == s.len()
    &&& forall|k: int|
        0 <= k < s.len() ==> {
            &&& #[trigger] r[k] == (UnitRec { follow: r[k].follow, ..s[k] })
            &&& chase_follow_ok(s, k, r[k].follow, t, speed)
        }
}

/// A pending rewrite of one unit's follow aspect: `None` keeps it.
pub open spec fn chase_decision_ok(
    s: Seq<UnitRec>,
    k: int,
    d: Option<Option<FollowPath>>,
    t: Terrain,
    speed: i64,
) -> bool {
    match d {
        None => chase_follow_ok(s, k, s[k].follow, t, speed),
        Some(nf) => chase_follow_ok(s, k, nf, t, speed) && (nf matches Some(fp) ==> fp.wf()),
    }
}

/// Decides, against the current state, what the quakka at `i` should do with
/// its route.
fn decide_chase(units: &Vec<UnitRec>, i: usize, t: &Terrain, speed: i64) -> (d: Option<
    Option<FollowPath>,
>)
    requires
        units_wf(units@),
        i < units@.len(),
        t.wf(),
        0 <= speed <= SPEED_LIMIT,
    ensures
        chase_decision_ok(units@, i as int, d, *t, speed),
{
    let is_quakka = match units[i].card {
        crate::card::Card::Quakka => true,
        _ => false,
    };
    let mut has_attacker = false;
    let mut victim: Option<u64> = None;
    let mut fraction: Option<u32> = None;
    match &units[i].attacker {
        Some(a) => {
            has_attacker = true;
            victim = a.current_victim;
            fraction = a.current_victim_in_range_fraction;
        },
        None => {},
    }
    if !(is_quakka && has_attacker) {
        return None;
    }
    let vid = match victim {
        Some(vid) => vid,
        None => {
            return Some(None);
        },
    };
    match fraction {
        Some(fr) => {
            if fr >= 500 {
                return Some(None);
            }
        },
        None => {},
    }
    match find_unit_by_id(units, vid) {
        None => None,
        Some(v) => {
            proof {
                assert(units@[v as int].wf());
                assert(units@[i as int].wf());
            }
            let vx = units[v].x;
            let vy = units[v].y;
            let goal = Pos(milli_to_world(vx) as i32, milli_to_world(vy) as i32);
            let mut regen = true;
            match &units[i].follow {
                Some(fp) => {
                    proof {
                        assert(units@[i as int].follow->Some_0.wf());
                    }
                    let gd = distance_sq(
                        (fp.goal.0 as i64) * 1000,
                        (fp.goal.1 as i64) * 1000,
                        vx,
                        vy,
                    );
                    regen = gd > 900_000_000u128;
                },
                None => {},
            }
            if !regen {
                return None;
            }
            let start = Pos(milli_to_world(units[i].x) as i32, milli_to_world(units[i].y) as i32);
            match FollowPath::new(t, start, goal, speed) {
                Ok(fp) => Some(Some(fp)),
                Err(_) => Some(None),
            }
        },
    }
}

/// Rewrites each chasing quakka's route as `chase_follow_ok` says. All
/// decisions are made against the state at the start of the phase.
pub fn chase_current_victim(units: &mut Vec<UnitRec>, t: &Terrain, speed: i64)
    requires
        units_wf(old(units)@),
        t.wf(),
        0 <= speed <= SPEED_LIMIT,
    ensures
        chase_phase_ok(old(units)@, final(units)@, *t, speed),
        units_wf(final(units)@),
        final(units)@.len() == old(units)@.len(),
{
    let ghost s0 = units@;
    let n = units.len();
    let mut decisions: Vec<Option<Option<FollowPath>>> = Vec::new();
    let mut i: usize = 0;
    while i < n
        invariant
            i <= n,
            n == s0.len(),
            units@ == s0,
            units_wf(s0),
            t.wf(),
            0 <= speed <= SPEED_LIMIT,
            decisions@.len() == i,
            forall|k: int|
                0 <= k < i ==> chase_decision_ok(s0, k, #[trigger] decisions@[k], *t, speed),
        decreases n - i,
    {
        let d = decide_chase(units, i, t, speed);
        decisions.push(d);
        i = i + 1;
    }
    let ghost dec0 = decisions@;
    let mut i: usize = 0;
    while i < n
        invariant
            i <= n,
            n == s0.len(),
            units@.len() == n,
            units_wf(units@),
            dec0.len() == n,
            decisions@.len() == n - i,
            decisions@ == dec0.subrange(i as int, n as int),
            forall|k: int|
                0 <= k < n ==> chase_decision_ok(s0, k, #[trigger] dec0[k], *t, speed),
            forall|k: int|
                0 <= k < i ==> {
                    &&& #[trigger] units@[k] == (UnitRec { follow: units@[k].follow, ..s0[k] })
                    &&& chase_follow_ok(s0, k, units@[k].follow, *t, speed)
                },
            forall|k: int| i <= k < n ==> #[trigger] units@[k] == s0[k],
        decreases n - i,
    {
        let d = decisions.remove(0);
        proof {
            assert(dec0.subrange(i as int, n as int)[0] == dec0[i as int]);
            assert(dec0.subrange(i as int, n as int).subrange(1, (n - i) as int)
                =~= dec0.subrange(i as int + 1, n as int));
        }
        match d {
            Some(nf) => {
                let u = &mut units[i];
                u.follow = nf;
            },
            None => {},
        }
        i = i + 1;
    }
    proof {
        assert(chase_phase_ok(s0, units@, *t, speed));
    }
}

/// Movement changes positions and waypoint cursors, never health.
pub proof fn lemma_follow_upto_health(s: Seq<UnitRec>, delta: u64, n: int)
    requires
        0 <= n <= s.len(),
    ensures
        crate::combat::health_decrease_only(s, follow_upto(s, delta, n)),
    decreases n,
{
    if n > 0 {
        lemma_follow_upto_health(s, delta, n - 1);
        let p = follow_upto(s, delta, n - 1);
        let r = follow_upto(s, delta, n);
        assert forall|k: int| 0 <= k < s.len() implies crate::combat::health_le(
            #[trigger] r[k],
            s[k],
        ) by {
            assert(crate::combat::health_le(p[k], s[k]));
        }
    }
}

/// The chase phase rewrites routes, never health.
pub proof fn lemma_chase_health(s: Seq<UnitRec>, r: Seq<UnitRec>, t: Terrain, speed: i64)
    requires
        chase_phase_ok(s, r, t, speed),
    ensures
        crate::combat::health_decrease_only(s, r),
{
    assert forall|k: int| 0 <= k < s.len() implies crate::combat::health_le(
        #[trigger] r[k],
        s[k],
    ) by {
        assert(r[k] == (UnitRec { follow: r[k].follow, ..s[k] }));
    }
}

/// If no prefix holds the id, neither does any longer prefix scan find one.
proof fn lemma_find_by_id_stable(s: Seq<UnitRec>, id: u64, n: int, m: int)
    requires
        0 <= n <= m <= s.len(),
        find_by_id_upto(s, id, n) is None,
        forall|k: int| n <= k < s.len() ==> s[k].id != id,
    ensures
        find_by_id_upto(s, id, m) is None,
    decreases m,
{
    if m > n {
        lemma_find_by_id_stable(s, id, n, m - 1);
    }
}

} // verus!
