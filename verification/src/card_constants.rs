//! Tunable per-card constants. Damage and health are whole points; ranges,
//! radii and sizes are milli-units; speeds are world units per second;
//! cooldowns are milliseconds.

use vstd::prelude::*;
use crate::path::SPEED_LIMIT;
use crate::unit::{DURATION_LIMIT, STAT_LIMIT};

verus! {

#[derive(Clone, Copy, Debug, PartialEq, Eq, Structural)]
pub struct WaterballConsts {
    pub radius: i64,
    pub damage: i64,
    pub explosion_delay_ms: u64,
}

impl WaterballConsts {
    pub open spec fn wf(self) -> bool {
        &&& 0 <= self.radius <= STAT_LIMIT
        &&& 0 <= self.damage <= STAT_LIMIT
        &&& self.explosion_delay_ms <= DURATION_LIMIT
    }

    /// Sprite footprint: the blast diameter on each axis, in milli-units.
    pub fn size(&self) -> (r: (i64, i64))
        requires
            self.wf(),
        ensures
            r.0 == self.radius * 2,
            r.1 == self.radius * 2,
    {
        (self.radius * 2, self.radius * 2)
    }
}

impl Default for WaterballConsts {
    fn default() -> (c: WaterballConsts)
        ensures
            c == (WaterballConsts { radius: 120_000i64, damage: 90i64, explosion_delay_ms: 100u64 }),
            c.wf(),
    {
        WaterballConsts { radius: 120_000, damage: 90, explosion_delay_ms: 100 }
    }
}

#[derive(Clone, Copy, Debug, PartialEq, Eq, Structural)]
pub struct FarmerConsts {
    pub speed: i64,
}

impl FarmerConsts {
    pub open spec fn wf(self) -> bool {
        0 <= self.speed <= SPEED_LIMIT
    }
}

impl Default for FarmerConsts {
    fn default() -> (c: FarmerConsts)
        ensures
            c == (FarmerConsts { speed: 60i64 }),
            c.wf(),
    {
        FarmerConsts { speed: 60 }
    }
}

#[derive(Clone, Copy, Debug, PartialEq, Eq, Structural)]
pub struct QuakkaConsts {
    pub damage: i64,
    pub hit_cooldown_ms: u64,
    pub range: i64,
    pub speed: i64,
}

impl QuakkaConsts {
    pub open spec fn wf(self) -> bool {
        &&& 0 <= self.damage <= STAT_LIMIT
        &&& self.hit_cooldown_ms <= DURATION_LIMIT
        &&& 0 <= self.range <= STAT_LIMIT
        &&& 0 <= self.speed <= SPEED_LIMIT
    }
}

impl Default for QuakkaConsts {
    fn default() -> (c: QuakkaConsts)
        ensures
            c == (QuakkaConsts {
                damage: 60i64,
                hit_cooldown_ms: 1000u64,
                range: 60_000i64,
                speed: 80i64,
            }),
            c.wf(),
    {
        QuakkaConsts { damage: 60, hit_cooldown_ms: 1000, range: 60_000, speed: 80 }
    }
}

#[derive(Clone, Copy, Debug, PartialEq, Eq, Structural)]
pub struct NestConsts {
    pub range: i64,
    pub damage: i64,
}

impl NestConsts {
    pub open spec fn wf(self) -> bool {
        &&& 0 <= self.range <= STAT_LIMIT
        &&& 0 <= self.damage <= STAT_LIMIT
    }
}

impl Default for NestConsts {
    fn default() -> (c: NestConsts)
        ensures
            c == (NestConsts { range: 250_000i64, damage: 15i64 }),
            c.wf(),
    {
        NestConsts { range: 250_000, damage: 15 }
    }
}

#[derive(Clone, Copy, Debug, PartialEq, Eq, Structural)]
pub struct CardConsts {
    pub farmer: FarmerConsts,
    pub quakka: QuakkaConsts,
    pub waterball: WaterballConsts,
    pub nest: NestConsts,
}

impl CardConsts {
    pub open spec fn wf(self) -> bool {
        &&& self.farmer.wf()
        &&& self.quakka.wf()
        &&& self.waterball.wf()
        &&& self.nest.wf()
    }
}

impl Default for CardConsts {
    fn default() -> (c: CardConsts)
        ensures
            c.farmer == (FarmerConsts { speed: 60i64 }),
            c.quakka == (QuakkaConsts {
                damage: 60i64,
                hit_cooldown_ms: 1000u64,
                range: 60_000i64,
                speed: 80i64,
            }),
            c.waterball == (WaterballConsts {
                radius: 120_000i64,
                damage: 90i64,
                explosion_delay_ms: 100u64,
            }),
            c.nest == (NestConsts { range: 250_000i64, damage: 15i64 }),
            c.wf(),
    {
        CardConsts {
            farmer: FarmerConsts::default(),
            quakka: QuakkaConsts::default(),
            waterball: WaterballConsts::default(),
            nest: NestConsts::default(),
        }
    }
}

} // verus!
