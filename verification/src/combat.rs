//! Targeting and combat resolution: nearest-prey selection, range- and
//! cooldown-gated damage, waterball explosions, farmer exit despawns, and
//! death detection.
//!
//! Every per-tick system is specified as a left fold over the unit sequence;
//! the executable functions are proved to compute exactly that fold.

use vstd::prelude::*;
use crate::card::Card;
use crate::geometry::{dist_sq, distance_sq, isqrt, sqrt_floor};
use crate::unit::{units_wf, Attacker, Health, UnitRec};

verus! {

/// Unit `j` is a target the attacker at `i` may select: another unit, alive,
/// whose kind is among the attacker's prey.
pub open spec fn is_prey_candidate(s: Seq<UnitRec>, i: int, j: int) -> bool {
    &&& 0 <= j < s.len()
    &&& j != i
    &&& s[j].alive()
    &&& s[i].attacker matches Some(a) && a.prey@.contains(s[j].card)
}

/// Squared distance between units `i` and `j`.
pub open spec fn unit_dist_sq(s: Seq<UnitRec>, i: int, j: int) -> int {
    dist_sq(s[i].x as int, s[i].y as int, s[j].x as int, s[j].y as int)
}

/// Index of the nearest prey of the attacker at `i` among the first `n`
/// units. A tie keeps the earliest index: the scan order breaks ties, which
/// makes target selection deterministic.
pub open spec fn closest_prey_upto(s: Seq<UnitRec>, i: int, n: int) -> Option<int>
    decreases n,
{
    if n <= 0 {
        None
    } else {
        let prev = closest_prey_upto(s, i, n - 1);
        let j = n - 1;
        if !is_prey_candidate(s, i, j) {
            prev
        } else {
            match prev {
                None => Some(j),
                Some(k) => if unit_dist_sq(s, i, j) < unit_dist_sq(s, i, k) {
                    Some(j)
                } else {
                    prev
                },
            }
        }
    }
}

/// Index of the nearest prey of the attacker at `i`, if any.
pub open spec fn closest_prey(s: Seq<UnitRec>, i: int) -> Option<int> {
    closest_prey_upto(s, i, s.len() as int)
}

/// The selected index is a candidate at least as near as every candidate and
/// strictly nearer than every earlier one; `None` means there was no
/// candidate at all.
pub proof fn lemma_closest_prey_minimal(s: Seq<UnitRec>, i: int, n: int)
    requires
        0 <= n <= s.len(),
    ensures
        closest_prey_upto(s, i, n) matches Some(k) ==> {
            &&& is_prey_candidate(s, i, k)
            &&& k < n
            &&& forall|j: int|
                0 <= j < n && is_prey_candidate(s, i, j) ==> unit_dist_sq(s, i, k)
                    <= #[trigger] unit_dist_sq(s, i, j)
            &&& forall|j: int|
                0 <= j < k && is_prey_candidate(s, i, j) ==> unit_dist_sq(s, i, k)
                    < #[trigger] unit_dist_sq(s, i, j)
        },
        closest_prey_upto(s, i, n) is None ==> forall|j: int|
            0 <= j < n ==> !is_prey_candidate(s, i, j),
    decreases n,
{
    if n > 0 {
        lemma_closest_prey_minimal(s, i, n - 1);
    }
}

/// Whether `c` occurs in the prey list.
pub fn prey_contains(prey: &Vec<Card>, c: Card) -> (b: bool)
    ensures
        b == prey@.contains(c),
{
    let n = prey.len();
    let mut i: usize = 0;
    while i < n
        invariant
            i <= n,
            n == prey@.len(),
            forall|k: int| 0 <= k < i ==> prey@[k] != c,
        decreases n - i,
    {
        if prey[i] == c {
            proof {
                assert(prey@[i as int] == c);
            }
            return true;
        }
        i = i + 1;
    }
    proof {
        assert(!prey@.contains(c));
    }
    false
}

/// Whether unit `j` is a candidate target for the attacker at `i`.
fn is_candidate_exec(units: &Vec<UnitRec>, i: usize, j: usize) -> (b: bool)
    requires
        i < units@.len(),
        j < units@.len(),
    ensures
        b == is_prey_candidate(units@, i as int, j as int),
{
    if j == i {
        return false;
    }
    let alive = match &units[j].health {
        Some(h) => h.current_health > 0,
        None => false,
    };
    if !alive {
        return false;
    }
    let c = units[j].card;
    match &units[i].attacker {
        Some(a) => prey_contains(&a.prey, c),
        None => false,
    }
}

/// Scans for the nearest live prey of the attacker at `i`, earliest index on
/// ties.
pub fn find_closest_prey(units: &Vec<UnitRec>, i: usize) -> (r: Option<usize>)
    requires
        units_wf(units@),
        i < units@.len(),
    ensures
        (match r {
            Some(j) => Some(j as int),
            None => None,
        }) == closest_prey(units@, i as int),
        r matches Some(j) ==> is_prey_candidate(units@, i as int, j as int),
{
    let n = units.len();
    let mut best: Option<usize> = None;
    let mut best_dsq: u128 = 0;
    let mut j: usize = 0;
    while j < n
        invariant
            j <= n,
            n == units@.len(),
            i < units@.len(),
            units_wf(units@),
            (match best {
                Some(k) => Some(k as int),
                None => None,
            }) == closest_prey_upto(units@, i as int, j as int),
            best matches Some(k) ==> k < n && best_dsq == unit_dist_sq(
                units@,
                i as int,
                k as int,
            ),
        decreases n - j,
    {
        if is_candidate_exec(units, i, j) {
            let d = distance_sq(units[i].x, units[i].y, units[j].x, units[j].y);
            match best {
                None => {
                    best = Some(j);
                    best_dsq = d;
                },
                Some(_) => {
                    if d < best_dsq {
                        best = Some(j);
                        best_dsq = d;
                    }
                },
            }
        }
        j = j + 1;
    }
    proof {
        lemma_closest_prey_minimal(units@, i as int, units@.len() as int);
    }
    best
}

/// Effect of the attacker at `i` on the unit sequence, for one tick.
///
/// The nearest valid prey is recomputed and snapshotted. With no prey, the
/// snapshot is cleared and the cooldown reset. With prey in range, the
/// cooldown ticks, and on completion the attacker deals its damage to the
/// victim and resets its own cooldown. With prey out of range, the cooldown
/// resets: no partial charge is kept.
pub open spec fn attacker_act_spec(s: Seq<UnitRec>, i: int, delta: u64) -> Seq<UnitRec> {
    match s[i].attacker {
        None => s,
        Some(a) => match closest_prey(s, i) {
            None => s.update(
                i,
                UnitRec {
                    attacker: Some(
                        Attacker {
                            current_victim: None,
                            current_victim_in_range: false,
                            current_victim_in_range_fraction: None,
                            cooldown: a.cooldown.reset_spec(),
                            ..a
                        },
                    ),
                    ..s[i]
                },
            ),
            Some(j) => {
                let dsq = unit_dist_sq(s, i, j);
                if dsq < a.range * a.range {
                    let ticked = a.cooldown.ticked_spec(delta);
                    let frac = ((sqrt_floor(dsq) * 1000) / (a.range as int)) as u32;
                    if ticked.finished_spec() {
                        let hit = UnitRec {
                            attacker: Some(
                                Attacker {
                                    current_victim: Some(s[j].id),
                                    current_victim_in_range: true,
                                    current_victim_in_range_fraction: Some(frac),
                                    cooldown: ticked.reset_spec(),
                                    ..a
                                },
                            ),
                            ..s[i]
                        };
                        let victim = UnitRec {
                            health: match s[j].health {
                                Some(h) => Some(h.damaged_spec(a.damage)),
                                None => None,
                            },
                            ..s[j]
                        };
                        s.update(i, hit).update(j, victim)
                    } else {
                        s.update(
                            i,
                            UnitRec {
                                attacker: Some(
                                    Attacker {
                                        current_victim: Some(s[j].id),
                                        current_victim_in_range: true,
                                        current_victim_in_range_fraction: Some(frac),
                                        cooldown: ticked,
                                        ..a
                                    },
                                ),
                                ..s[i]
                            },
                        )
                    }
                } else {
                    s.update(
                        i,
                        UnitRec {
                            attacker: Some(
                                Attacker {
                                    current_victim: Some(s[j].id),
                                    current_victim_in_range: false,
                                    current_victim_in_range_fraction: None,
                                    cooldown: a.cooldown.reset_spec(),
                                    ..a
                                },
                            ),
                            ..s[i]
                        },
                    )
                }
            },
        },
    }
}

/// Runs the attacker at `i` for one tick.
#[verifier::rlimit(60)]
pub fn attacker_act(units: &mut Vec<UnitRec>, i: usize, delta: u64)
    requires
        units_wf(old(units)@),
        i < old(units)@.len(),
    ensures
        final(units)@ == attacker_act_spec(old(units)@, i as int, delta),
        units_wf(final(units)@),
        final(units)@.len() == old(units)@.len(),
{
    let ghost s0 = units@;
    let has_attacker = match &units[i].attacker {
        Some(_) => true,
        None => false,
    };
    if !has_attacker {
        return ;
    }
    let found = find_closest_prey(units, i);
    match found {
        None => {
            let u = &mut units[i];
            match &mut u.attacker {
                Some(att) => {
                    att.current_victim = None;
                    att.current_victim_in_range = false;
                    att.current_victim_in_range_fraction = None;
                    att.cooldown.reset();
                },
                None => {},
            }
            proof {
                assert(units@ =~= attacker_act_spec(s0, i as int, delta));
            }
        },
        Some(j) => {
            let ax = units[i].x;
            let ay = units[i].y;
            let vx = units[j].x;
            let vy = units[j].y;
            let vid = units[j].id;
            let mut range: i64 = 0;
            let mut damage: i64 = 0;
            match &units[i].attacker {
                Some(a) => {
                    range = a.range;
                    damage = a.damage;
                },
                None => {},
            }
            let dsq = distance_sq(ax, ay, vx, vy);
            proof {
                assert((range as u128) * (range as u128) == (range as int) * (range as int)
                    && (range as int) * (range as int) < u128::MAX) by (nonlinear_arith)
                    requires
                        0 <= range <= crate::unit::STAT_LIMIT,
                ;
            }
            let rsq: u128 = (range as u128) * (range as u128);
            if dsq < rsq {
                let d = isqrt(dsq);
                proof {
                    assert((d as int) < range as int) by (nonlinear_arith)
                        requires
                            (d as int) * (d as int) <= dsq as int,
                            (dsq as int) < (range as int) * (range as int),
                            0 <= d as int,
                            0 <= range,
                    ;
                    assert((d as int * 1000) / (range as int) < 1000) by (nonlinear_arith)
                        requires
                            0 <= d as int,
                            (d as int) < range as int,
                            1 <= range,
                    ;
                }
                let frac: u32 = ((d * 1000) / (range as u64)) as u32;
                let mut fired = false;
                {
                    let u = &mut units[i];
                    match &mut u.attacker {
                        Some(att) => {
                            att.current_victim = Some(vid);
                            att.cooldown.tick(delta);
                            att.current_victim_in_range = true;
                            att.current_victim_in_range_fraction = Some(frac);
                            if att.cooldown.finished() {
                                fired = true;
                                att.cooldown.reset();
                            }
                        },
                        None => {},
                    }
                }
                if fired {
                    let v = &mut units[j];
                    match &mut v.health {
                        Some(h) => h.apply_damage(damage),
                        None => {},
                    }
                    proof {
                        assert(units@ =~= attacker_act_spec(s0, i as int, delta));
                    }
                } else {
                    proof {
                        assert(units@ =~= attacker_act_spec(s0, i as int, delta));
                    }
                }
            } else {
                let u = &mut units[i];
                match &mut u.attacker {
                    Some(att) => {
                        att.current_victim = Some(vid);
                        att.cooldown.reset();
                        att.current_victim_in_range = false;
                        att.current_victim_in_range_fraction = None;
                    },
                    None => {},
                }
                proof {
                    assert(units@ =~= attacker_act_spec(s0, i as int, delta));
                }
            }
        },
    }
}

/// State of the units after the attackers at indices below `n` have acted,
/// in index order.
pub open spec fn attack_phase_upto(s: Seq<UnitRec>, delta: u64, n: int) -> Seq<UnitRec>
    decreases n,
{
    if n <= 0 {
        s
    } else {
        attacker_act_spec(attack_phase_upto(s, delta, n - 1), n - 1, delta)
    }
}

/// State of the units after every attacker has acted once, in index order.
pub open spec fn attack_phase_spec(s: Seq<UnitRec>, delta: u64) -> Seq<UnitRec> {
    attack_phase_upto(s, delta, s.len() as int)
}

/// Runs every attacker once, in index order. Damage applied by an earlier
/// attacker is visible to later ones within the same tick.
pub fn attackers_attack(units: &mut Vec<UnitRec>, delta: u64)
    requires
        units_wf(old(units)@),
    ensures
        final(units)@ == attack_phase_spec(old(units)@, delta),
        units_wf(final(units)@),
        final(units)@.len() == old(units)@.len(),
{
    let ghost s0 = units@;
    let n = units.len();
    let mut i: usize = 0;
    while i < n
        invariant
            i <= n,
            n == s0.len(),
            units@.len() == n,
            units_wf(units@),
            units@ == attack_phase_upto(s0, delta, i as int),
        decreases n - i,
    {
        attacker_act(units, i, delta);
        i = i + 1;
    }
}

/// One tick of a unit's waterball charge timer.
pub open spec fn waterball_tick_one(u: UnitRec, delta: u64) -> UnitRec {
    match u.waterball {
        Some(w) => UnitRec {
            waterball: Some(crate::unit::Waterball { timer: w.timer.ticked_spec(delta), ..w }),
            ..u
        },
        None => u,
    }
}

/// State of the units after the first `n` waterball timers have ticked.
pub open spec fn waterball_tick_upto(s: Seq<UnitRec>, delta: u64, n: int) -> Seq<UnitRec>
    decreases n,
{
    if n <= 0 {
        s
    } else {
        let p = waterball_tick_upto(s, delta, n - 1);
        p.update(n - 1, waterball_tick_one(p[n - 1], delta))
    }
}

pub open spec fn waterball_tick_spec(s: Seq<UnitRec>, delta: u64) -> Seq<UnitRec> {
    waterball_tick_upto(s, delta, s.len() as int)
}

/// Advances every waterball's explosion countdown.
pub fn tick_waterball_timers(units: &mut Vec<UnitRec>, delta: u64)
    requires
        units_wf(old(units)@),
    ensures
        final(units)@ == waterball_tick_spec(old(units)@, delta),
        units_wf(final(units)@),
        final(units)@.len() == old(units)@.len(),
{
    let ghost s0 = units@;
    let n = units.len();
    let mut i: usize = 0;
    while i < n
        invariant
            i <= n,
            n == s0.len(),
            units@.len() == n,
            units_wf(units@),
            units@ == waterball_tick_upto(s0, delta, i as int),
        decreases n - i,
    {
        let u = &mut units[i];
        match &mut u.waterball {
            Some(w) => {
                w.timer.tick(delta);
            },
            None => {},
        }
        proof {
            assert(units@ =~= waterball_tick_upto(s0, delta, i as int + 1));
        }
        i = i + 1;
    }
}

/// Splash damage on one unit: a live-or-dead waterball target inside the
/// blast radius takes the waterball's damage.
pub open spec fn splash_one(u: UnitRec, wx: i64, wy: i64, radius: i64, damage: i64) -> UnitRec {
    if u.is_waterball_target() && (u.health matches Some(h)) && dist_sq(
        u.x as int,
        u.y as int,
        wx as int,
        wy as int,
    ) < radius * radius {
        UnitRec {
            health: match u.health {
                Some(h) => Some(h.damaged_spec(damage)),
                None => None,
            },
            ..u
        }
    } else {
        u
    }
}

/// State of the units after the blast at `(wx, wy)` has hit the first `n`.
pub open spec fn splash_upto(
    s: Seq<UnitRec>,
    wx: i64,
    wy: i64,
    radius: i64,
    damage: i64,
    n: int,
) -> Seq<UnitRec>
    decreases n,
{
    if n <= 0 {
        s
    } else {
        let p = splash_upto(s, wx, wy, radius, damage, n - 1);
        p.update(n - 1, splash_one(p[n - 1], wx, wy, radius, damage))
    }
}

/// Whether this unit is a waterball whose countdown has run out.
pub open spec fn waterball_ready(u: UnitRec) -> bool {
    u.waterball matches Some(w) && w.timer.finished_spec()
}

/// State of the units after the ready waterballs at indices below `n` have
/// each dealt their splash damage, in index order.
pub open spec fn explode_upto(s: Seq<UnitRec>, damage: i64, n: int) -> Seq<UnitRec>
    decreases n,
{
    if n <= 0 {
        s
    } else {
        let p = explode_upto(s, damage, n - 1);
        if waterball_ready(p[n - 1]) {
            splash_upto(
                p,
                p[n - 1].x,
                p[n - 1].y,
                p[n - 1].waterball->Some_0.radius,
                damage,
                p.len() as int,
            )
        } else {
            p
        }
    }
}

/// The units that remain once the ready waterballs have detonated and
/// despawned, among the first `n`.
pub open spec fn without_ready_waterballs_upto(s: Seq<UnitRec>, n: int) -> Seq<UnitRec>
    decreases n,
{
    if n <= 0 {
        Seq::empty()
    } else {
        let p = without_ready_waterballs_upto(s, n - 1);
        if waterball_ready(s[n - 1]) {
            p
        } else {
            p.push(s[n - 1])
        }
    }
}

/// Full explosion phase: every ready waterball deals its splash damage, then
/// every ready waterball despawns, whether or not it hit anything.
pub open spec fn explode_phase_spec(s: Seq<UnitRec>, damage: i64) -> Seq<UnitRec> {
    let blasted = explode_upto(s, damage, s.len() as int);
    without_ready_waterballs_upto(blasted, blasted.len() as int)
}

/// Deals the blast at `(wx, wy)` to every unit.
fn splash_all(units: &mut Vec<UnitRec>, wx: i64, wy: i64, radius: i64, damage: i64)
    requires
        units_wf(old(units)@),
        -crate::geometry::COORD_LIMIT <= wx <= crate::geometry::COORD_LIMIT,
        -crate::geometry::COORD_LIMIT <= wy <= crate::geometry::COORD_LIMIT,
        0 <= radius <= crate::unit::STAT_LIMIT,
        0 <= damage,
    ensures
        final(units)@ == splash_upto(
            old(units)@,
            wx,
            wy,
            radius,
            damage,
            old(units)@.len() as int,
        ),
        units_wf(final(units)@),
        final(units)@.len() == old(units)@.len(),
{
    let ghost s0 = units@;
    proof {
        assert((radius as u128) * (radius as u128) == (radius as int) * (radius as int)
            && (radius as int) * (radius as int) < u128::MAX) by (nonlinear_arith)
            requires
                0 <= radius <= crate::unit::STAT_LIMIT,
        ;
    }
    let rsq: u128 = (radius as u128) * (radius as u128);
    let n = units.len();
    let mut j: usize = 0;
    while j < n
        invariant
            j <= n,
            n == s0.len(),
            units@.len() == n,
            units_wf(units@),
            units@ == splash_upto(s0, wx, wy, radius, damage, j as int),
            rsq == (radius as int) * (radius as int),
            -crate::geometry::COORD_LIMIT <= wx <= crate::geometry::COORD_LIMIT,
            -crate::geometry::COORD_LIMIT <= wy <= crate::geometry::COORD_LIMIT,
            0 <= damage,
        decreases n - j,
    {
        let is_target = match units[j].card {
            Card::Quakka => true,
            _ => false,
        };
        if is_target {
            let d = distance_sq(units[j].x, units[j].y, wx, wy);
            if d < rsq {
                let v = &mut units[j];
                match &mut v.health {
                    Some(h) => h.apply_damage(damage),
                    None => {},
                }
            }
        }
        proof {
            assert(units@ =~= splash_upto(s0, wx, wy, radius, damage, j as int + 1));
        }
        j = j + 1;
    }
}

/// Detonates every waterball whose countdown has run out: each deals its
/// damage to all waterball targets within its radius, then despawns.
pub fn explode_waterballs(units: &mut Vec<UnitRec>, damage: i64)
    requires
        units_wf(old(units)@),
        0 <= damage,
    ensures
        final(units)@ == explode_phase_spec(old(units)@, damage),
        units_wf(final(units)@),
{
    let ghost s0 = units@;
    let n = units.len();
    let mut w: usize = 0;
    while w < n
        invariant
            w <= n,
            n == s0.len(),
            units@.len() == n,
            units_wf(units@),
            units@ == explode_upto(s0, damage, w as int),
            0 <= damage,
        decreases n - w,
    {
        let ready = match &units[w].waterball {
            Some(wb) => wb.timer.finished(),
            None => false,
        };
        if ready {
            let wx = units[w].x;
            let wy = units[w].y;
            let radius = match &units[w].waterball {
                Some(wb) => wb.radius,
                None => 0,
            };
            splash_all(units, wx, wy, radius, damage);
        }
        w = w + 1;
    }
    let ghost blasted = units@;
    let mut kept: Vec<UnitRec> = Vec::new();
    let ghost total = units@.len() as int;
    let ghost mut k: int = 0;
    while units.len() > 0
        invariant
            0 <= k <= total,
            total == blasted.len(),
            total == n as int,
            units@.len() == total - k,
            units@ == blasted.subrange(k, total),
            kept@ == without_ready_waterballs_upto(blasted, k),
            units_wf(blasted),
        decreases units@.len(),
    {
        let u = units.remove(0);
        let ready = match &u.waterball {
            Some(wb) => wb.timer.finished(),
            None => false,
        };
        proof {
            assert(blasted.subrange(k as int, total as int)[0] == blasted[k as int]);
            assert(blasted.subrange(k, total).subrange(
                1,
                total - k,
            ) =~= blasted.subrange(k + 1, total));
        }
        if !ready {
            kept.push(u);
        }
        proof {
            k = k + 1int;
        }
    }
    proof {
        assert(blasted =~= blasted.subrange(0, total));
        assert(units@.len() == 0);
        assert(k == total);
        assert(units_wf(kept@)) by {
            assert forall|i: int| 0 <= i < kept@.len() implies (#[trigger] kept@[i]).wf() by {
                lemma_without_ready_membership(blasted, total as int, i);
            }
        }
    }
    *units = kept;
}

/// A farmer within one world unit of the exit is killed on the spot, so
/// death detection despawns it this tick. Health is only ever lowered.
pub open spec fn farmer_exit_one(u: UnitRec, ex: i64, ey: i64) -> UnitRec {
    if u.card is Farmer && (u.health matches Some(h) && h.current_health > 0) && dist_sq(
        u.x as int,
        u.y as int,
        ex as int,
        ey as int,
    ) < 1_000_000 {
        UnitRec {
            health: Some(
                Health { current_health: 0, max_health: u.health->Some_0.max_health },
            ),
            ..u
        }
    } else {
        u
    }
}

pub open spec fn farmer_exit_upto(s: Seq<UnitRec>, ex: i64, ey: i64, n: int) -> Seq<UnitRec>
    decreases n,
{
    if n <= 0 {
        s
    } else {
        let p = farmer_exit_upto(s, ex, ey, n - 1);
        p.update(n - 1, farmer_exit_one(p[n - 1], ex, ey))
    }
}

pub open spec fn farmer_exit_spec(s: Seq<UnitRec>, ex: i64, ey: i64) -> Seq<UnitRec> {
    farmer_exit_upto(s, ex, ey, s.len() as int)
}

/// Kills every farmer that has reached the exit at `(ex, ey)`.
pub fn kill_farmer_reaching_exit(units: &mut Vec<UnitRec>, ex: i64, ey: i64)
    requires
        units_wf(old(units)@),
        -crate::geometry::COORD_LIMIT <= ex <= crate::geometry::COORD_LIMIT,
        -crate::geometry::COORD_LIMIT <= ey <= crate::geometry::COORD_LIMIT,
    ensures
        final(units)@ == farmer_exit_spec(old(units)@, ex, ey),
        units_wf(final(units)@),
        final(units)@.len() == old(units)@.len(),
{
    let ghost s0 = units@;
    let n = units.len();
    let mut i: usize = 0;
    while i < n
        invariant
            i <= n,
            n == s0.len(),
            units@.len() == n,
            units_wf(units@),
            units@ == farmer_exit_upto(s0, ex, ey, i as int),
            -crate::geometry::COORD_LIMIT <= ex <= crate::geometry::COORD_LIMIT,
            -crate::geometry::COORD_LIMIT <= ey <= crate::geometry::COORD_LIMIT,
        decreases n - i,
    {
        let is_farmer = match units[i].card {
            Card::Farmer => true,
            _ => false,
        };
        if is_farmer {
            let alive = match &units[i].health {
                Some(h) => h.current_health > 0,
                None => false,
            };
            if alive {
                let d = distance_sq(units[i].x, units[i].y, ex, ey);
                if d < 1_000_000 {
                    let u = &mut units[i];
                    match &mut u.health {
                        Some(h) => {
                            h.current_health = 0;
                        },
                        None => {},
                    }
                }
            }
        }
        proof {
            assert(units@ =~= farmer_exit_upto(s0, ex, ey, i as int + 1));
        }
        i = i + 1;
    }
}

/// A unit with health at or below zero is dead and due for removal.
pub open spec fn is_dead(u: UnitRec) -> bool {
    u.health matches Some(h) && h.current_health <= 0
}

/// The units that survive death detection, among the first `n`, in order.
pub open spec fn survivors_upto(s: Seq<UnitRec>, n: int) -> Seq<UnitRec>
    decreases n,
{
    if n <= 0 {
        Seq::empty()
    } else {
        let p = survivors_upto(s, n - 1);
        if is_dead(s[n - 1]) {
            p
        } else {
            p.push(s[n - 1])
        }
    }
}

pub open spec fn survivors_spec(s: Seq<UnitRec>) -> Seq<UnitRec> {
    survivors_upto(s, s.len() as int)
}

/// The kinds of the units removed by death detection, one entry per dead
/// unit, in index order: each death is reported exactly once.
pub open spec fn dead_cards_upto(s: Seq<UnitRec>, n: int) -> Seq<Card>
    decreases n,
{
    if n <= 0 {
        Seq::empty()
    } else {
        let p = dead_cards_upto(s, n - 1);
        if is_dead(s[n - 1]) {
            p.push(s[n - 1].card)
        } else {
            p
        }
    }
}

pub open spec fn dead_cards_spec(s: Seq<UnitRec>) -> Seq<Card> {
    dead_cards_upto(s, s.len() as int)
}

/// Every survivor of death detection is one of the units scanned.
pub proof fn lemma_survivors_membership(s: Seq<UnitRec>, n: int, i: int)
    requires
        0 <= n <= s.len(),
        0 <= i < survivors_upto(s, n).len(),
    ensures
        exists|j: int| 0 <= j < n && survivors_upto(s, n)[i] == #[trigger] s[j],
    decreases n,
{
    if n > 0 {
        let p = survivors_upto(s, n - 1);
        if is_dead(s[n - 1]) {
            lemma_survivors_membership(s, n - 1, i);
        } else {
            if i < p.len() {
                lemma_survivors_membership(s, n - 1, i);
            } else {
                assert(survivors_upto(s, n)[i] == s[n - 1]);
            }
        }
    }
}

/// No survivor of death detection is dead: between ticks every unit that
/// has health at all is alive.
pub proof fn lemma_survivors_alive(s: Seq<UnitRec>, n: int)
    requires
        0 <= n <= s.len(),
    ensures
        forall|j: int| 0 <= j < survivors_upto(s, n).len() ==> !is_dead(
            #[trigger] survivors_upto(s, n)[j],
        ),
    decreases n,
{
    if n > 0 {
        lemma_survivors_alive(s, n - 1);
        let p = survivors_upto(s, n - 1);
        let r = survivors_upto(s, n);
        assert forall|j: int| 0 <= j < r.len() implies !is_dead(#[trigger] r[j]) by {
            if j < p.len() {
                assert(r[j] == p[j]);
            } else {
                assert(r[j] == s[n - 1]);
            }
        }
    }
}

/// Removes every dead unit and reports one death event per removed unit,
/// in index order, carrying the unit's card kind.
pub fn delete_dead_entities(units: &mut Vec<UnitRec>) -> (deaths: Vec<Card>)
    requires
        units_wf(old(units)@),
    ensures
        final(units)@ == survivors_spec(old(units)@),
        deaths@ == dead_cards_spec(old(units)@),
        units_wf(final(units)@),
{
    let ghost s0 = units@;
    let n = units.len();
    let mut kept: Vec<UnitRec> = Vec::new();
    let mut deaths: Vec<Card> = Vec::new();
    let ghost total = units@.len() as int;
    let ghost mut k: int = 0;
    while units.len() > 0
        invariant
            0 <= k <= total,
            total == s0.len(),
            total == n as int,
            units@.len() == total - k,
            units@ == s0.subrange(k, total),
            kept@ == survivors_upto(s0, k),
            deaths@ == dead_cards_upto(s0, k),
            units_wf(s0),
        decreases units@.len(),
    {
        let u = units.remove(0);
        proof {
            assert(s0.subrange(k, total)[0] == s0[k]);
            assert(s0.subrange(k, total).subrange(1, total - k) =~= s0.subrange(k + 1, total));
        }
        let dead = match &u.health {
            Some(h) => h.current_health <= 0,
            None => false,
        };
        if dead {
            deaths.push(u.card);
        } else {
            kept.push(u);
        }
        proof {
            k = k + 1int;
        }
    }
    proof {
        assert(s0 =~= s0.subrange(0, total));
        assert(k == total);
        assert(units_wf(kept@)) by {
            assert forall|i: int| 0 <= i < kept@.len() implies (#[trigger] kept@[i]).wf() by {
                lemma_survivors_membership(s0, total, i);
            }
        }
    }
    *units = kept;
    deaths
}

/// Sum of the first `n` tick deltas.
pub open spec fn sum_deltas_upto(deltas: Seq<u64>, n: int) -> int
    decreases n,
{
    if n <= 0 {
        0
    } else {
        sum_deltas_upto(deltas, n - 1) + deltas[n - 1]
    }
}

/// The timer state and the number of shots fired after a run of in-range
/// ticks, mirroring the in-range branch of `attacker_act_spec`: the cooldown
/// ticks, and on completion the attacker fires and resets it.
pub open spec fn cooldown_run_upto(t: crate::unit::CooldownTimer, deltas: Seq<u64>, n: int) -> (
    crate::unit::CooldownTimer,
    int,
)
    decreases n,
{
    if n <= 0 {
        (t, 0)
    } else {
        let (prev, fires) = cooldown_run_upto(t, deltas, n - 1);
        let ticked = prev.ticked_spec(deltas[n - 1]);
        if ticked.finished_spec() {
            (ticked.reset_spec(), fires + 1)
        } else {
            (ticked, fires)
        }
    }
}

/// Cooldown gating: an attacker whose target stays in range fires at most
/// once per cooldown duration of in-range time, and fires not at all while
/// the accumulated in-range time is still short of one duration. Leaving
/// range resets the timer to zero (`reset_spec`), so no partial charge ever
/// carries over; a fresh timer is modeled by `elapsed_ms == 0`.
pub proof fn lemma_cooldown_gating(t: crate::unit::CooldownTimer, deltas: Seq<u64>, n: int)
    requires
        t.wf(),
        t.duration_ms >= 1,
        t.elapsed_ms == 0,
        0 <= n <= deltas.len(),
    ensures
        ({
            let (end, fires) = cooldown_run_upto(t, deltas, n);
            &&& 0 <= fires
            &&& fires * t.duration_ms + end.elapsed_ms <= sum_deltas_upto(deltas, n)
            &&& end.wf()
            &&& end.duration_ms == t.duration_ms
            &&& (sum_deltas_upto(deltas, n) < t.duration_ms ==> fires == 0)
        }),
    decreases n,
{
    if n > 0 {
        lemma_cooldown_gating(t, deltas, n - 1);
        let (prev, fires) = cooldown_run_upto(t, deltas, n - 1);
        let d = deltas[n - 1];
        let ticked = prev.ticked_spec(d);
        let (end, fires2) = cooldown_run_upto(t, deltas, n);
        if ticked.finished_spec() {
            assert((fires + 1) * t.duration_ms == fires * t.duration_ms + t.duration_ms)
                by (nonlinear_arith);
        }
        let s = sum_deltas_upto(deltas, n);
        if s < t.duration_ms {
            assert(fires2 * t.duration_ms >= fires2 * 1) by (nonlinear_arith)
                requires
                    t.duration_ms >= 1,
                    fires2 >= 0,
            ;
            if fires2 > 0 {
                assert(fires2 * t.duration_ms >= t.duration_ms) by (nonlinear_arith)
                    requires
                        t.duration_ms >= 1,
                        fires2 >= 1,
                ;
            }
        }
    }
}

/// One in-range attacker tick is exactly one step of the cooldown-run model
/// that the gating law speaks of: the cooldown ticks, and if it completes,
/// the attacker deals its damage to the victim and resets the cooldown;
/// otherwise the victim is untouched and the elapsed time is kept.
pub proof fn lemma_attacker_in_range_mirrors_cooldown(s: Seq<UnitRec>, i: int, delta: u64)
    requires
        units_wf(s),
        0 <= i < s.len(),
        s[i].attacker is Some,
        closest_prey(s, i) matches Some(j) && unit_dist_sq(s, i, j) < s[i].attacker->Some_0.range
            * s[i].attacker->Some_0.range,
    ensures
        ({
            let a = s[i].attacker->Some_0;
            let j = closest_prey(s, i)->Some_0;
            let ticked = a.cooldown.ticked_spec(delta);
            let r = attacker_act_spec(s, i, delta);
            let a2 = r[i].attacker->Some_0;
            if ticked.finished_spec() {
                &&& a2.cooldown == ticked.reset_spec()
                &&& r[j].health == (match s[j].health {
                    Some(h) => Some(h.damaged_spec(a.damage)),
                    None => None::<Health>,
                })
            } else {
                &&& a2.cooldown == ticked
                &&& r[j].health == s[j].health
            }
        }),
{
    lemma_closest_prey_minimal(s, i, s.len() as int);
}

/// Unit `b` is unit `a` after losing health (or none): same identity, same
/// kind, never more health.
pub open spec fn health_le(b: UnitRec, a: UnitRec) -> bool {
    &&& b.id == a.id
    &&& b.card == a.card
    &&& match (a.health, b.health) {
        (Some(ha), Some(hb)) => hb.current_health <= ha.current_health && hb.max_health
            == ha.max_health,
        (None, None) => true,
        _ => false,
    }
}

/// `s2` is `s1` with health only ever lowered, unit by unit.
pub open spec fn health_decrease_only(s1: Seq<UnitRec>, s2: Seq<UnitRec>) -> bool {
    &&& s2.len() == s1.len()
    &&& forall|k: int| 0 <= k < s1.len() ==> health_le(#[trigger] s2[k], s1[k])
}

pub proof fn lemma_health_decrease_only_trans(s1: Seq<UnitRec>, s2: Seq<UnitRec>, s3: Seq<
    UnitRec,
>)
    requires
        health_decrease_only(s1, s2),
        health_decrease_only(s2, s3),
    ensures
        health_decrease_only(s1, s3),
{
}

/// One attacker action never raises any unit's health.
pub proof fn lemma_attacker_act_health(s: Seq<UnitRec>, i: int, delta: u64)
    requires
        units_wf(s),
        0 <= i < s.len(),
    ensures
        health_decrease_only(s, attacker_act_spec(s, i, delta)),
{
    let r = attacker_act_spec(s, i, delta);
    lemma_closest_prey_minimal(s, i, s.len() as int);
    assert forall|k: int| 0 <= k < s.len() implies health_le(#[trigger] r[k], s[k]) by {
        assert(s[k].wf());
        assert(s[i].wf());
        match closest_prey(s, i) {
            Some(j) => {
                assert(is_prey_candidate(s, i, j));
                assert(s[j].wf());
            },
            None => {},
        }
    }
}

/// The whole attack phase never raises any unit's health. Damage is the only
/// health change, and there is no heal logic: health is non-increasing
/// through combat.
pub proof fn lemma_attack_phase_health(s: Seq<UnitRec>, delta: u64, n: int)
    requires
        units_wf(s),
        0 <= n <= s.len(),
    ensures
        health_decrease_only(s, attack_phase_upto(s, delta, n)),
        units_wf(attack_phase_upto(s, delta, n)),
        attack_phase_upto(s, delta, n).len() == s.len(),
    decreases n,
{
    if n > 0 {
        lemma_attack_phase_health(s, delta, n - 1);
        let p = attack_phase_upto(s, delta, n - 1);
        lemma_attacker_act_wf(p, n - 1, delta);
        lemma_attacker_act_health(p, n - 1, delta);
        lemma_health_decrease_only_trans(s, p, attacker_act_spec(p, n - 1, delta));
    }
}

/// One attacker action keeps every unit well-formed.
pub proof fn lemma_attacker_act_wf(s: Seq<UnitRec>, i: int, delta: u64)
    requires
        units_wf(s),
        0 <= i < s.len(),
    ensures
        units_wf(attacker_act_spec(s, i, delta)),
        attacker_act_spec(s, i, delta).len() == s.len(),
{
    let r = attacker_act_spec(s, i, delta);
    lemma_closest_prey_minimal(s, i, s.len() as int);
    assert forall|k: int| 0 <= k < r.len() implies (#[trigger] r[k]).wf() by {
        assert(s[k].wf());
        assert(s[i].wf());
        match closest_prey(s, i) {
            Some(j) => {
                assert(is_prey_candidate(s, i, j));
                assert(s[j].wf());
            },
            None => {},
        }
    }
}

/// Every survivor of the despawn filter is one of the units scanned.
pub proof fn lemma_without_ready_membership(s: Seq<UnitRec>, n: int, i: int)
    requires
        0 <= n <= s.len(),
        0 <= i < without_ready_waterballs_upto(s, n).len(),
    ensures
        exists|j: int|
            0 <= j < n && without_ready_waterballs_upto(s, n)[i] == #[trigger] s[j],
    decreases n,
{
    if n > 0 {
        let p = without_ready_waterballs_upto(s, n - 1);
        if waterball_ready(s[n - 1]) {
            lemma_without_ready_membership(s, n - 1, i);
        } else {
            if i < p.len() {
                lemma_without_ready_membership(s, n - 1, i);
            } else {
                assert(without_ready_waterballs_upto(s, n)[i] == s[n - 1]);
            }
        }
    }
}

/// Every unit of `s2` descends from some unit of `s1`: same id and kind, no
/// more health. This is what survives composition with despawn phases.
/// Unit `u` descends from some unit of `s1`: same id and kind, no more
/// health.
pub open spec fn descends_from(s1: Seq<UnitRec>, u: UnitRec) -> bool {
    exists|i: int| 0 <= i < s1.len() && #[trigger] health_le(u, s1[i])
}

pub open spec fn health_shrink(s1: Seq<UnitRec>, s2: Seq<UnitRec>) -> bool {
    forall|j: int| 0 <= j < s2.len() ==> descends_from(s1, #[trigger] s2[j])
}

pub proof fn lemma_decrease_only_shrink(s1: Seq<UnitRec>, s2: Seq<UnitRec>)
    requires
        health_decrease_only(s1, s2),
    ensures
        health_shrink(s1, s2),
{
    assert forall|j: int| 0 <= j < s2.len() implies descends_from(s1, #[trigger] s2[j]) by {
        assert(health_le(s2[j], s1[j]));
    }
}

pub proof fn lemma_health_shrink_trans(s1: Seq<UnitRec>, s2: Seq<UnitRec>, s3: Seq<UnitRec>)
    requires
        health_shrink(s1, s2),
        health_shrink(s2, s3),
    ensures
        health_shrink(s1, s3),
{
    assert forall|j: int| 0 <= j < s3.len() implies descends_from(s1, #[trigger] s3[j]) by {
        let i2 = choose|i2: int| 0 <= i2 < s2.len() && #[trigger] health_le(s3[j], s2[i2]);
        let i1 = choose|i1: int| 0 <= i1 < s1.len() && #[trigger] health_le(s2[i2], s1[i1]);
        assert(health_le(s3[j], s1[i1]));
    }
}

/// Ticking waterball timers never touches health.
pub proof fn lemma_waterball_tick_health(s: Seq<UnitRec>, delta: u64, n: int)
    requires
        0 <= n <= s.len(),
    ensures
        health_decrease_only(s, waterball_tick_upto(s, delta, n)),
    decreases n,
{
    if n > 0 {
        lemma_waterball_tick_health(s, delta, n - 1);
        let p = waterball_tick_upto(s, delta, n - 1);
        let r = waterball_tick_upto(s, delta, n);
        assert forall|k: int| 0 <= k < s.len() implies health_le(#[trigger] r[k], s[k]) by {
            assert(health_le(p[k], s[k]));
        }
    }
}

/// A blast only ever lowers health.
pub proof fn lemma_splash_upto_health(
    s: Seq<UnitRec>,
    wx: i64,
    wy: i64,
    radius: i64,
    damage: i64,
    n: int,
)
    requires
        0 <= n <= s.len(),
        0 <= damage,
    ensures
        health_decrease_only(s, splash_upto(s, wx, wy, radius, damage, n)),
    decreases n,
{
    if n > 0 {
        lemma_splash_upto_health(s, wx, wy, radius, damage, n - 1);
        let p = splash_upto(s, wx, wy, radius, damage, n - 1);
        let r = splash_upto(s, wx, wy, radius, damage, n);
        assert forall|k: int| 0 <= k < s.len() implies health_le(#[trigger] r[k], s[k]) by {
            assert(health_le(p[k], s[k]));
        }
    }
}

/// The whole explosion damage pass only ever lowers health.
pub proof fn lemma_explode_upto_health(s: Seq<UnitRec>, damage: i64, n: int)
    requires
        0 <= n <= s.len(),
        0 <= damage,
    ensures
        health_decrease_only(s, explode_upto(s, damage, n)),
    decreases n,
{
    if n > 0 {
        lemma_explode_upto_health(s, damage, n - 1);
        let p = explode_upto(s, damage, n - 1);
        if waterball_ready(p[n - 1]) {
            lemma_splash_upto_health(
                p,
                p[n - 1].x,
                p[n - 1].y,
                p[n - 1].waterball->Some_0.radius,
                damage,
                p.len() as int,
            );
            lemma_health_decrease_only_trans(
                s,
                p,
                splash_upto(
                    p,
                    p[n - 1].x,
                    p[n - 1].y,
                    p[n - 1].waterball->Some_0.radius,
                    damage,
                    p.len() as int,
                ),
            );
        }
    }
}

/// Despawning the detonated waterballs removes units, never changing one.
pub proof fn lemma_without_ready_shrink(s: Seq<UnitRec>)
    ensures
        health_shrink(s, without_ready_waterballs_upto(s, s.len() as int)),
{
    let r = without_ready_waterballs_upto(s, s.len() as int);
    assert forall|j: int| 0 <= j < r.len() implies descends_from(s, #[trigger] r[j]) by {
        lemma_without_ready_membership(s, s.len() as int, j);
        let i = choose|i: int| 0 <= i < s.len() && r[j] == #[trigger] s[i];
        assert(health_le(r[j], s[i]));
    }
}

/// The full explosion phase only ever lowers health (and despawns
/// waterballs).
pub proof fn lemma_explode_phase_shrink(s: Seq<UnitRec>, damage: i64)
    requires
        0 <= damage,
    ensures
        health_shrink(s, explode_phase_spec(s, damage)),
{
    let blasted = explode_upto(s, damage, s.len() as int);
    lemma_explode_upto_health(s, damage, s.len() as int);
    lemma_decrease_only_shrink(s, blasted);
    lemma_without_ready_shrink(blasted);
    lemma_health_shrink_trans(s, blasted, explode_phase_spec(s, damage));
}

/// Killing an exiting farmer sets a positive health to zero: a decrease.
pub proof fn lemma_farmer_exit_health(s: Seq<UnitRec>, ex: i64, ey: i64, n: int)
    requires
        0 <= n <= s.len(),
    ensures
        health_decrease_only(s, farmer_exit_upto(s, ex, ey, n)),
    decreases n,
{
    if n > 0 {
        lemma_farmer_exit_health(s, ex, ey, n - 1);
        let p = farmer_exit_upto(s, ex, ey, n - 1);
        let r = farmer_exit_upto(s, ex, ey, n);
        assert forall|k: int| 0 <= k < s.len() implies health_le(#[trigger] r[k], s[k]) by {
            assert(health_le(p[k], s[k]));
        }
    }
}

/// Death detection removes the dead, never changing a survivor.
pub proof fn lemma_survivors_shrink(s: Seq<UnitRec>)
    ensures
        health_shrink(s, survivors_spec(s)),
{
    let r = survivors_spec(s);
    assert forall|j: int| 0 <= j < r.len() implies descends_from(s, #[trigger] r[j]) by {
        lemma_survivors_membership(s, s.len() as int, j);
        let i = choose|i: int| 0 <= i < s.len() && r[j] == #[trigger] s[i];
        assert(health_le(r[j], s[i]));
    }
}

} // verus!
