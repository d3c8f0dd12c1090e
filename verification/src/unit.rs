//! The unit model: health, fire-once cooldown timers, the attacker aspect,
//! the waterball charge, and the full unit record that the per-tick systems
//! rewrite.

use vstd::prelude::*;
use crate::card::Card;
use crate::geometry::COORD_LIMIT;
use crate::path::FollowPath;

verus! {

/// Largest accepted damage, range, radius or health value.
pub const STAT_LIMIT: i64 = 1_000_000_000;

/// Largest accepted timer duration, in milliseconds.
pub const DURATION_LIMIT: u64 = 1_000_000_000;

/// Largest accepted frame delta, in milliseconds.
pub const DELTA_LIMIT: u64 = 1_000_000;

/// A fire-once countdown: it accumulates elapsed time up to its duration and
/// stays finished until reset. It cannot be built auto-repeating, so a
/// finished timer never rearms by itself.
#[derive(Clone, Copy, Debug, PartialEq, Eq, Structural)]
pub struct CooldownTimer {
    pub duration_ms: u64,
    pub elapsed_ms: u64,
}

impl CooldownTimer {
    pub open spec fn wf(self) -> bool {
        &&& self.elapsed_ms <= self.duration_ms
        &&& self.duration_ms <= DURATION_LIMIT
    }

    pub open spec fn ticked_spec(self, delta: u64) -> CooldownTimer {
        if self.elapsed_ms + delta >= self.duration_ms {
            CooldownTimer { duration_ms: self.duration_ms, elapsed_ms: self.duration_ms }
        } else {
            CooldownTimer {
                duration_ms: self.duration_ms,
                elapsed_ms: (self.elapsed_ms + delta) as u64,
            }
        }
    }

    pub open spec fn finished_spec(self) -> bool {
        self.elapsed_ms >= self.duration_ms
    }

    pub open spec fn reset_spec(self) -> CooldownTimer {
        CooldownTimer { duration_ms: self.duration_ms, elapsed_ms: 0 }
    }

    /// Fraction of the countdown that has elapsed, in thousandths.
    pub open spec fn fraction_permille_spec(self) -> u32 {
        if self.duration_ms == 0 {
            1000u32
        } else {
            ((self.elapsed_ms as int * 1000) / (self.duration_ms as int)) as u32
        }
    }

    pub fn new(duration_ms: u64) -> (t: CooldownTimer)
        requires
            duration_ms <= DURATION_LIMIT,
        ensures
            t == (CooldownTimer { duration_ms, elapsed_ms: 0 }),
            t.wf(),
    {
        CooldownTimer { duration_ms, elapsed_ms: 0 }
    }

    /// Advances the countdown, never past its duration.
    pub fn tick(&mut self, delta: u64)
        requires
            old(self).wf(),
        ensures
            *final(self) == old(self).ticked_spec(delta),
            final(self).wf(),
    {
        if delta >= self.duration_ms - self.elapsed_ms {
            self.elapsed_ms = self.duration_ms;
        } else {
            self.elapsed_ms = self.elapsed_ms + delta;
        }
    }

    pub fn finished(&self) -> (b: bool)
        ensures
            b == self.finished_spec(),
    {
        self.elapsed_ms >= self.duration_ms
    }

    pub fn reset(&mut self)
        ensures
            *final(self) == old(self).reset_spec(),
    {
        self.elapsed_ms = 0;
    }

    pub fn fraction_permille(&self) -> (f: u32)
        requires
            self.wf(),
        ensures
            f == self.fraction_permille_spec(),
    {
        if self.duration_ms == 0 {
            1000
        } else {
            ((self.elapsed_ms * 1000) / self.duration_ms) as u32
        }
    }
}

/// Hit points of a unit. `current_health` may drop below zero transiently
/// within a tick; such a unit is removed by death detection the same tick.
#[derive(Clone, Copy, Debug, PartialEq, Eq, Structural)]
pub struct Health {
    pub current_health: i64,
    pub max_health: i64,
}

impl Health {
    pub open spec fn wf(self) -> bool {
        &&& self.current_health <= self.max_health
        &&& 0 <= self.max_health <= STAT_LIMIT
    }

    /// Damage saturates rather than wrapping; it never increases health.
    pub open spec fn damaged_spec(self, damage: i64) -> Health {
        if self.current_health - damage < i64::MIN {
            Health { current_health: i64::MIN, max_health: self.max_health }
        } else {
            Health {
                current_health: (self.current_health - damage) as i64,
                max_health: self.max_health,
            }
        }
    }

    pub fn new(current_health: i64, max_health: i64) -> (h: Health)
        requires
            current_health <= max_health,
            0 <= max_health <= STAT_LIMIT,
        ensures
            h == (Health { current_health, max_health }),
            h.wf(),
    {
        Health { current_health, max_health }
    }

    pub fn apply_damage(&mut self, damage: i64)
        requires
            0 <= damage,
            old(self).wf(),
        ensures
            *final(self) == old(self).damaged_spec(damage),
            final(self).wf(),
            final(self).current_health <= old(self).current_health,
    {
        if self.current_health >= i64::MIN + damage {
            self.current_health = self.current_health - damage;
        } else {
            self.current_health = i64::MIN;
        }
    }
}

/// The attacking aspect of a unit: what it may target, how hard and how far
/// it hits, and its fire-once cooldown. The victim fields are a read-only
/// snapshot recomputed every tick for consumers outside the core.
#[derive(Debug)]
pub struct Attacker {
    pub damage: i64,
    pub range: i64,
    pub cooldown: CooldownTimer,
    pub prey: Vec<Card>,
    pub current_victim: Option<u64>,
    pub current_victim_in_range: bool,
    pub current_victim_in_range_fraction: Option<u32>,
}

impl Attacker {
    pub open spec fn wf(self) -> bool {
        &&& 0 <= self.damage <= STAT_LIMIT
        &&& 0 <= self.range <= STAT_LIMIT
        &&& self.cooldown.wf()
    }

    pub fn new(damage: i64, range: i64, prey: Vec<Card>, attack_cooldown_ms: u64) -> (a: Attacker)
        requires
            0 <= damage <= STAT_LIMIT,
            0 <= range <= STAT_LIMIT,
            attack_cooldown_ms <= DURATION_LIMIT,
        ensures
            a.damage == damage,
            a.range == range,
            a.prey@ == prey@,
            a.cooldown == (CooldownTimer { duration_ms: attack_cooldown_ms, elapsed_ms: 0 }),
            a.current_victim is None,
            a.current_victim_in_range == false,
            a.current_victim_in_range_fraction is None,
            a.wf(),
    {
        Attacker {
            damage,
            range,
            prey,
            cooldown: CooldownTimer::new(attack_cooldown_ms),
            current_victim: None,
            current_victim_in_range: false,
            current_victim_in_range_fraction: None,
        }
    }

    /// Id of the last-computed nearest valid prey, if any.
    pub fn current_victim(&self) -> (r: Option<u64>)
        ensures
            r == self.current_victim,
    {
        self.current_victim
    }

    pub fn current_victim_in_range(&self) -> (r: bool)
        ensures
            r == self.current_victim_in_range,
    {
        self.current_victim_in_range
    }

    /// Distance to the victim over the attack range, in thousandths; present
    /// only while the victim is in range.
    pub fn current_victim_in_range_fraction(&self) -> (r: Option<u32>)
        ensures
            r == self.current_victim_in_range_fraction,
    {
        self.current_victim_in_range_fraction
    }

    /// Elapsed fraction of the cooldown, in thousandths.
    pub fn cooldown_fraction(&self) -> (f: u32)
        requires
            self.wf(),
        ensures
            f == self.cooldown.fraction_permille_spec(),
    {
        self.cooldown.fraction_permille()
    }
}

/// A dropped waterball charging its explosion.
#[derive(Clone, Copy, Debug, PartialEq, Eq, Structural)]
pub struct Waterball {
    pub radius: i64,
    pub timer: CooldownTimer,
}

/// Delay between dropping a waterball and its explosion, in milliseconds.
pub const WATERBALL_EXPLOSION_DELAY_MS: u64 = 500;

impl Waterball {
    pub open spec fn wf(self) -> bool {
        &&& 0 <= self.radius <= STAT_LIMIT
        &&& self.timer.wf()
    }

    pub fn new(radius: i64) -> (w: Waterball)
        requires
            0 <= radius <= STAT_LIMIT,
        ensures
            w.radius == radius,
            w.timer == (CooldownTimer { duration_ms: WATERBALL_EXPLOSION_DELAY_MS, elapsed_ms: 0 }),
            w.wf(),
    {
        Waterball { radius, timer: CooldownTimer::new(WATERBALL_EXPLOSION_DELAY_MS) }
    }
}

/// One unit of the simulation: identity, kind, position in milli-units, and
/// its optional aspects.
pub struct UnitRec {
    pub id: u64,
    pub card: Card,
    pub x: i64,
    pub y: i64,
    pub health: Option<Health>,
    pub attacker: Option<Attacker>,
    pub follow: Option<FollowPath>,
    pub waterball: Option<Waterball>,
}

impl UnitRec {
    pub open spec fn wf(self) -> bool {
        &&& -COORD_LIMIT <= self.x <= COORD_LIMIT
        &&& -COORD_LIMIT <= self.y <= COORD_LIMIT
        &&& (self.health matches Some(h) ==> h.wf())
        &&& (self.attacker matches Some(a) ==> a.wf())
        &&& (self.follow matches Some(f) ==> f.wf())
        &&& (self.waterball matches Some(w) ==> w.wf())
    }

    /// A live unit has health above zero.
    pub open spec fn alive(self) -> bool {
        self.health matches Some(h) && h.current_health > 0
    }

    /// Quakkas are the targets of waterball explosions.
    pub open spec fn is_waterball_target(self) -> bool {
        self.card is Quakka
    }
}

/// Every unit of the sequence is well-formed.
pub open spec fn units_wf(s: Seq<UnitRec>) -> bool {
    forall|i: int| 0 <= i < s.len() ==> (#[trigger] s[i]).wf()
}

} // verus!
