//! The simulation world: an arena of unit records with per-card spawn
//! bundles, level entry, and the per-tick pipeline that runs combat,
//! movement, death detection and the win/lose tracker in a fixed order.

use vstd::prelude::*;
use crate::card::Card;
use crate::card_constants::CardConsts;
use crate::combat::{
    attack_phase_spec, attackers_attack, dead_cards_spec, delete_dead_entities,
    explode_phase_spec, explode_waterballs, farmer_exit_spec, kill_farmer_reaching_exit,
    survivors_spec, tick_waterball_timers, waterball_tick_spec,
};
use crate::geometry::COORD_LIMIT;
use crate::level::{DeathGoal, Level};
use crate::movement::{
    chase_current_victim, chase_phase_ok, follow_paths, follow_phase_spec, milli_to_world,
    milli_to_world_spec,
};
use crate::path::{
    exists_route_spec, route_spec, valid_route_spec, within_map_spec, FollowPath, NoPathFound,
    Pos, Terrain,
};
use crate::progress::{
    track_deaths_spec, win_or_lose_on_conditions, LevelProgress, TrackerState,
    WinLoseDeathProgress,
};
use crate::unit::{
    units_wf, Attacker, CooldownTimer, Health, UnitRec, Waterball, DELTA_LIMIT,
};

verus! {

/// The grid cell of a milli-unit position.
pub open spec fn cell_of_spec(x: i64, y: i64) -> Pos {
    Pos(milli_to_world_spec(x as int) as i32, milli_to_world_spec(y as int) as i32)
}

/// A freshly spawned quakka: full health, and an attacker that hunts nests
/// and farmers with the quakka constants.
pub fn quakka_bundle(id: u64, x: i64, y: i64, consts: &CardConsts) -> (u: UnitRec)
    requires
        consts.wf(),
        -COORD_LIMIT <= x <= COORD_LIMIT,
        -COORD_LIMIT <= y <= COORD_LIMIT,
    ensures
        u.id == id,
        u.card == Card::Quakka,
        u.x == x,
        u.y == y,
        u.health == Some(Health { current_health: 100i64, max_health: 100i64 }),
        u.attacker matches Some(a) && {
            &&& a.damage == consts.quakka.damage
            &&& a.range == consts.quakka.range
            &&& a.prey@ == seq![Card::Nest, Card::Farmer]
            &&& a.cooldown == (CooldownTimer {
                duration_ms: consts.quakka.hit_cooldown_ms,
                elapsed_ms: 0u64,
            })
            &&& a.current_victim is None
            &&& !a.current_victim_in_range
            &&& a.current_victim_in_range_fraction is None
        },
        u.follow is None,
        u.waterball is None,
        u.wf(),
{
    let mut prey: Vec<Card> = Vec::new();
    prey.push(Card::Nest);
    prey.push(Card::Farmer);
    proof {
        assert(prey@ =~= seq![Card::Nest, Card::Farmer]);
    }
    UnitRec {
        id,
        card: Card::Quakka,
        x,
        y,
        health: Some(Health::new(100, 100)),
        attacker: Some(
            Attacker::new(consts.quakka.damage, consts.quakka.range, prey, consts.quakka.hit_cooldown_ms),
        ),
        follow: None,
        waterball: None,
    }
}

/// A freshly spawned farmer: full health and nothing else; its route to the
/// exit is attached by `GameWorld::spawn_card`.
pub fn farmer_bundle(id: u64, x: i64, y: i64) -> (u: UnitRec)
    requires
        -COORD_LIMIT <= x <= COORD_LIMIT,
        -COORD_LIMIT <= y <= COORD_LIMIT,
    ensures
        u.id == id,
        u.card == Card::Farmer,
        u.x == x,
        u.y == y,
        u.health == Some(Health { current_health: 100i64, max_health: 100i64 }),
        u.attacker is None,
        u.follow is None,
        u.waterball is None,
        u.wf(),
{
    UnitRec {
        id,
        card: Card::Farmer,
        x,
        y,
        health: Some(Health::new(100, 100)),
        attacker: None,
        follow: None,
        waterball: None,
    }
}

/// A freshly dropped waterball: no health, only its charge.
pub fn waterball_bundle(id: u64, x: i64, y: i64, consts: &CardConsts) -> (u: UnitRec)
    requires
        consts.wf(),
        -COORD_LIMIT <= x <= COORD_LIMIT,
        -COORD_LIMIT <= y <= COORD_LIMIT,
    ensures
        u.id == id,
        u.card == Card::Waterball,
        u.x == x,
        u.y == y,
        u.health is None,
        u.attacker is None,
        u.follow is None,
        u.waterball == Some(
            Waterball {
                radius: consts.waterball.radius,
                timer: CooldownTimer {
                    duration_ms: crate::unit::WATERBALL_EXPLOSION_DELAY_MS,
                    elapsed_ms: 0u64,
                },
            },
        ),
        u.wf(),
{
    UnitRec {
        id,
        card: Card::Waterball,
        x,
        y,
        health: None,
        attacker: None,
        follow: None,
        waterball: Some(Waterball::new(consts.waterball.radius)),
    }
}

/// A freshly spawned nest: full health, and an attacker that shoots quakkas
/// with the nest constants and a one-second cooldown.
pub fn nest_bundle(id: u64, x: i64, y: i64, consts: &CardConsts) -> (u: UnitRec)
    requires
        consts.wf(),
        -COORD_LIMIT <= x <= COORD_LIMIT,
        -COORD_LIMIT <= y <= COORD_LIMIT,
    ensures
        u.id == id,
        u.card == Card::Nest,
        u.x == x,
        u.y == y,
        u.health == Some(Health { current_health: 100i64, max_health: 100i64 }),
        u.attacker matches Some(a) && {
            &&& a.damage == consts.nest.damage
            &&& a.range == consts.nest.range
            &&& a.prey@ == seq![Card::Quakka]
            &&& a.cooldown == (CooldownTimer { duration_ms: 1000u64, elapsed_ms: 0u64 })
            &&& a.current_victim is None
            &&& !a.current_victim_in_range
            &&& a.current_victim_in_range_fraction is None
        },
        u.follow is None,
        u.waterball is None,
        u.wf(),
{
    let mut prey: Vec<Card> = Vec::new();
    prey.push(Card::Quakka);
    proof {
        assert(prey@ =~= seq![Card::Quakka]);
    }
    UnitRec {
        id,
        card: Card::Nest,
        x,
        y,
        health: Some(Health::new(100, 100)),
        attacker: Some(Attacker::new(consts.nest.damage, consts.nest.range, prey, 1000)),
        follow: None,
        waterball: None,
    }
}

/// What a just-spawned unit of each kind looks like.
pub open spec fn spawn_result_ok(
    terrain: Terrain,
    consts: CardConsts,
    exit: Pos,
    id: u64,
    card: Card,
    x: i64,
    y: i64,
    u: UnitRec,
) -> bool {
    &&& u.id == id
    &&& u.card == card
    &&& u.x == x
    &&& u.y == y
    &&& u.wf()
    &&& match card {
        Card::Farmer => {
            &&& u.health == Some(Health { current_health: 100i64, max_health: 100i64 })
            &&& u.attacker is None
            &&& u.waterball is None
            &&& u.follow matches Some(fp) && {
                &&& Some(fp.path@) == route_spec(terrain, cell_of_spec(x, y), exit)
                &&& valid_route_spec(terrain, fp.path@, cell_of_spec(x, y), exit)
                &&& fp.current == 0
                &&& fp.speed == consts.farmer.speed
                &&& fp.goal == exit
            }
        },
        Card::Quakka => {
            &&& u.health == Some(Health { current_health: 100i64, max_health: 100i64 })
            &&& u.waterball is None
            &&& u.follow is None
            &&& u.attacker matches Some(a) && {
                &&& a.damage == consts.quakka.damage
                &&& a.range == consts.quakka.range
                &&& a.prey@ == seq![Card::Nest, Card::Farmer]
                &&& a.cooldown == (CooldownTimer {
                    duration_ms: consts.quakka.hit_cooldown_ms,
                    elapsed_ms: 0u64,
                })
                &&& a.current_victim is None
                &&& !a.current_victim_in_range
                &&& a.current_victim_in_range_fraction is None
            }
        },
        Card::Waterball => {
            &&& u.health is None
            &&& u.attacker is None
            &&& u.follow is None
            &&& u.waterball == Some(
                Waterball {
                    radius: consts.waterball.radius,
                    timer: CooldownTimer {
                        duration_ms: crate::unit::WATERBALL_EXPLOSION_DELAY_MS,
                        elapsed_ms: 0u64,
                    },
                },
            )
        },
        Card::Nest => {
            &&& u.health == Some(Health { current_health: 100i64, max_health: 100i64 })
            &&& u.waterball is None
            &&& u.follow is None
            &&& u.attacker matches Some(a) && {
                &&& a.damage == consts.nest.damage
                &&& a.range == consts.nest.range
                &&& a.prey@ == seq![Card::Quakka]
                &&& a.cooldown == (CooldownTimer { duration_ms: 1000u64, elapsed_ms: 0u64 })
                &&& a.current_victim is None
                &&& !a.current_victim_in_range
                &&& a.current_victim_in_range_fraction is None
            }
        },
    }
}

/// The simulation world: the arena of units, the fixed terrain and tuning
/// constants, the farmer exit cell, and the win/lose tracker state.
pub struct GameWorld {
    pub units: Vec<UnitRec>,
    pub next_id: u64,
    pub terrain: Terrain,
    pub consts: CardConsts,
    pub exit: Pos,
    pub win_condition: DeathGoal,
    pub lose_condition: DeathGoal,
    pub progress: LevelProgress,
    pub counts: WinLoseDeathProgress,
}

impl GameWorld {
    pub open spec fn wf(self) -> bool {
        &&& units_wf(self.units@)
        &&& forall|i: int|
            0 <= i < self.units@.len() ==> (#[trigger] self.units@[i]).id < self.next_id
        &&& forall|i: int|
            0 <= i < self.units@.len() ==> ((#[trigger] self.units@[i]).health matches Some(h)
                ==> h.current_health > 0)
        &&& self.terrain.wf()
        &&& self.consts.wf()
        &&& within_map_spec(self.exit)
    }

    /// Spawns one unit of the given kind at a milli-unit position. A farmer
    /// is given its route to the exit at spawn time; a farmer whose spawn
    /// point cannot reach the exit is refused rather than spawned without a
    /// route.
    pub fn spawn_card(&mut self, card: Card, x: i64, y: i64) -> (r: Result<(), NoPathFound>)
        requires
            old(self).wf(),
            -COORD_LIMIT <= x <= COORD_LIMIT,
            -COORD_LIMIT <= y <= COORD_LIMIT,
            old(self).next_id < u64::MAX,
        ensures
            final(self).wf(),
            final(self).terrain == old(self).terrain,
            final(self).consts == old(self).consts,
            final(self).exit == old(self).exit,
            final(self).win_condition == old(self).win_condition,
            final(self).lose_condition == old(self).lose_condition,
            final(self).progress == old(self).progress,
            final(self).counts == old(self).counts,
            r matches Ok(_) ==> {
                &&& final(self).next_id == old(self).next_id + 1
                &&& final(self).units@.len() == old(self).units@.len() + 1
                &&& final(self).units@.subrange(0, old(self).units@.len() as int) == old(
                    self,
                ).units@
                &&& spawn_result_ok(
                    old(self).terrain,
                    old(self).consts,
                    old(self).exit,
                    old(self).next_id,
                    card,
                    x,
                    y,
                    final(self).units@[old(self).units@.len() as int],
                )
            },
            r matches Err(_) ==> *final(self) == *old(self),
            (r matches Err(_)) <==> (card is Farmer && !exists_route_spec(
                old(self).terrain,
                cell_of_spec(x, y),
                old(self).exit,
            )),
    {
        let ghost s0 = self.units@;
        let id = self.next_id;
        let u: UnitRec = match card {
            Card::Farmer => {
                let start = Pos(milli_to_world(x) as i32, milli_to_world(y) as i32);
                let fp = match FollowPath::new(&self.terrain, start, self.exit, self.consts.farmer.speed) {
                    Ok(fp) => fp,
                    Err(e) => {
                        return Err(e);
                    },
                };
                let mut u = farmer_bundle(id, x, y);
                u.follow = Some(fp);
                u
            },
            Card::Quakka => quakka_bundle(id, x, y, &self.consts),
            Card::Waterball => waterball_bundle(id, x, y, &self.consts),
            Card::Nest => nest_bundle(id, x, y, &self.consts),
        };
        self.units.push(u);
        self.next_id = id + 1;
        proof {
            assert(self.units@.subrange(0, s0.len() as int) =~= s0);
        }
        Ok(())
    }

    /// Builds a fresh world from a level: every starting unit spawned in
    /// order, the tracker counters set from the level's conditions, and the
    /// progress at its start state. Fails exactly when some farmer placement
    /// cannot reach the exit.
    pub fn enter_level(
        level: &Level,
        terrain: Terrain,
        consts: CardConsts,
        exit: Pos,
    ) -> (r: Result<GameWorld, NoPathFound>)
        requires
            level.wf(),
            terrain.wf(),
            consts.wf(),
            within_map_spec(exit),
            level.cards@.len() < u64::MAX,
        ensures
            r matches Ok(w) ==> {
                &&& w.wf()
                &&& w.next_id == level.cards@.len()
                &&& w.progress == LevelProgress::Null
                &&& w.counts == (WinLoseDeathProgress {
                    win: level.win_condition.count_dead,
                    lose: level.lose_condition.count_dead,
                })
                &&& w.win_condition == level.win_condition
                &&& w.lose_condition == level.lose_condition
                &&& w.terrain == terrain
                &&& w.consts == consts
                &&& w.exit == exit
                &&& w.units@.len() == level.cards@.len()
                &&& forall|i: int|
                    0 <= i < level.cards@.len() ==> spawn_result_ok(
                        terrain,
                        consts,
                        exit,
                        i as u64,
                        level.cards@[i].0,
                        level.cards@[i].1.0,
                        level.cards@[i].1.1,
                        #[trigger] w.units@[i],
                    )
            },
            (r matches Err(_)) <==> exists|i: int|
                0 <= i < level.cards@.len() && (#[trigger] level.cards@[i]).0 is Farmer
                    && !exists_route_spec(
                    terrain,
                    cell_of_spec(level.cards@[i].1.0, level.cards@[i].1.1),
                    exit,
                ),
    {
        let mut w = GameWorld {
            units: Vec::new(),
            next_id: 0,
            terrain,
            consts,
            exit,
            win_condition: level.win_condition,
            lose_condition: level.lose_condition,
            progress: LevelProgress::Null,
            counts: WinLoseDeathProgress {
                win: level.win_condition.count_dead,
                lose: level.lose_condition.count_dead,
            },
        };
        let n = level.cards.len();
        let mut i: usize = 0;
        while i < n
            invariant
                i <= n,
                n == level.cards@.len(),
                n < u64::MAX,
                level.wf(),
                w.wf(),
                w.terrain == terrain,
                w.consts == consts,
                w.exit == exit,
                w.win_condition == level.win_condition,
                w.lose_condition == level.lose_condition,
                w.progress == LevelProgress::Null,
                w.counts == (WinLoseDeathProgress {
                    win: level.win_condition.count_dead,
                    lose: level.lose_condition.count_dead,
                }),
                w.next_id == i,
                w.units@.len() == i,
                forall|k: int|
                    0 <= k < i ==> spawn_result_ok(
                        terrain,
                        consts,
                        exit,
                        k as u64,
                        level.cards@[k].0,
                        level.cards@[k].1.0,
                        level.cards@[k].1.1,
                        #[trigger] w.units@[k],
                    ),
                forall|k: int|
                    0 <= k < i ==> !((#[trigger] level.cards@[k]).0 is Farmer
                        && !exists_route_spec(
                        terrain,
                        cell_of_spec(level.cards@[k].1.0, level.cards@[k].1.1),
                        exit,
                    )),
            decreases n - i,
        {
            let (card, pos) = level.cards[i];
            let ghost w_before = w;
            match w.spawn_card(card, pos.0, pos.1) {
                Ok(_) => {},
                Err(e) => {
                    proof {
                        assert(level.cards@[i as int].0 is Farmer && !exists_route_spec(
                            terrain,
                            cell_of_spec(level.cards@[i as int].1.0, level.cards@[i as int].1.1),
                            exit,
                        ));
                    }
                    return Err(e);
                },
            }
            proof {
                assert forall|k: int| 0 <= k < i + 1 implies spawn_result_ok(
                    terrain,
                    consts,
                    exit,
                    k as u64,
                    level.cards@[k].0,
                    level.cards@[k].1.0,
                    level.cards@[k].1.1,
                    #[trigger] w.units@[k],
                ) by {
                    if k < i {
                        assert(w.units@.subrange(0, w_before.units@.len() as int)[k]
                            == w.units@[k]);
                    }
                }
            }
            i = i + 1;
        }
        Ok(w)
    }

    /// Runs one simulation tick of `delta` milliseconds, in a fixed
    /// sequential pipeline: attackers act (cooldowns tick before damage is
    /// read), waterball charges tick and the ready ones detonate, farmers at
    /// the exit are killed, chasing quakkas rewrite their routes, units walk
    /// their routes, the dead are removed — each emitting exactly one death
    /// event — and finally the win/lose tracker consumes those events in
    /// order. The emitted death events are returned for outside consumers.
    ///
    /// No unit's health ever increases over a tick (`health_shrink`).
    pub fn tick(&mut self, delta: u64) -> (deaths: Vec<Card>)
        requires
            old(self).wf(),
            delta <= DELTA_LIMIT,
        ensures
            final(self).wf(),
            final(self).terrain == old(self).terrain,
            final(self).consts == old(self).consts,
            final(self).exit == old(self).exit,
            final(self).next_id == old(self).next_id,
            final(self).win_condition == old(self).win_condition,
            final(self).lose_condition == old(self).lose_condition,
            ({
                let s1 = attack_phase_spec(old(self).units@, delta);
                let s2 = waterball_tick_spec(s1, delta);
                let s3 = explode_phase_spec(s2, old(self).consts.waterball.damage);
                let s4 = farmer_exit_spec(
                    s3,
                    ((old(self).exit.0 as int) * 1000) as i64,
                    ((old(self).exit.1 as int) * 1000) as i64,
                );
                exists|mid: Seq<UnitRec>|
                    {
                        &&& #[trigger] chase_phase_ok(
                            s4,
                            mid,
                            old(self).terrain,
                            old(self).consts.quakka.speed,
                        )
                        &&& final(self).units@ == survivors_spec(follow_phase_spec(mid, delta))
                        &&& deaths@ == dead_cards_spec(follow_phase_spec(mid, delta))
                    }
            }),
            (TrackerState { progress: final(self).progress, counts: final(self).counts })
                == track_deaths_spec(
                (TrackerState { progress: old(self).progress, counts: old(self).counts }),
                old(self).win_condition,
                old(self).lose_condition,
                deaths@,
            ),
            crate::combat::health_shrink(old(self).units@, final(self).units@),
    {
        let ghost s0 = self.units@;
        attackers_attack(&mut self.units, delta);
        let ghost s1 = self.units@;
        tick_waterball_timers(&mut self.units, delta);
        let ghost s2 = self.units@;
        explode_waterballs(&mut self.units, self.consts.waterball.damage);
        let ghost s3 = self.units@;
        kill_farmer_reaching_exit(
            &mut self.units,
            (self.exit.0 as i64) * 1000,
            (self.exit.1 as i64) * 1000,
        );
        let ghost s4 = self.units@;
        chase_current_victim(&mut self.units, &self.terrain, self.consts.quakka.speed);
        let ghost mid = self.units@;
        follow_paths(&mut self.units, delta);
        let ghost s5 = self.units@;
        let deaths = delete_dead_entities(&mut self.units);
        win_or_lose_on_conditions(
            &mut self.progress,
            &mut self.counts,
            &self.win_condition,
            &self.lose_condition,
            &deaths,
        );
        proof {
            crate::combat::lemma_attack_phase_health(s0, delta, s0.len() as int);
            crate::combat::lemma_decrease_only_shrink(s0, s1);
            crate::combat::lemma_waterball_tick_health(s1, delta, s1.len() as int);
            crate::combat::lemma_decrease_only_shrink(s1, s2);
            crate::combat::lemma_explode_phase_shrink(s2, self.consts.waterball.damage);
            crate::combat::lemma_farmer_exit_health(
                s3,
                ((self.exit.0 as int) * 1000) as i64,
                ((self.exit.1 as int) * 1000) as i64,
                s3.len() as int,
            );
            crate::combat::lemma_decrease_only_shrink(s3, s4);
            crate::movement::lemma_chase_health(
                s4,
                mid,
                self.terrain,
                self.consts.quakka.speed,
            );
            crate::combat::lemma_decrease_only_shrink(s4, mid);
            crate::movement::lemma_follow_upto_health(mid, delta, mid.len() as int);
            crate::combat::lemma_decrease_only_shrink(mid, s5);
            crate::combat::lemma_survivors_shrink(s5);
            crate::combat::lemma_health_shrink_trans(s0, s1, s2);
            crate::combat::lemma_health_shrink_trans(s0, s2, s3);
            crate::combat::lemma_health_shrink_trans(s0, s3, s4);
            crate::combat::lemma_health_shrink_trans(s0, s4, mid);
            crate::combat::lemma_health_shrink_trans(s0, mid, s5);
            crate::combat::lemma_health_shrink_trans(s0, s5, self.units@);
            crate::combat::lemma_survivors_alive(s5, s5.len() as int);
            assert forall|i: int|
                0 <= i < self.units@.len() implies (#[trigger] self.units@[i]).id
                < self.next_id by {
                let j = choose|j: int|
                    0 <= j < s0.len() && #[trigger] crate::combat::health_le(
                        self.units@[i],
                        s0[j],
                    );
                assert(s0[j].id < self.next_id);
            }
        }
        deaths
    }
}

} // verus!
