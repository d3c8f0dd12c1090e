//! Level configuration: starting unit placements, the starting deckbar, and
//! the two death-count conditions that decide a win or a loss.

use vstd::prelude::*;
use crate::card::Card;
use crate::geometry::COORD_LIMIT;

verus! {

/// A win or lose condition: the level ends once `count_dead` units of kind
/// `card` have died.
#[derive(Clone, Copy, Debug, PartialEq, Eq, Structural)]
pub struct DeathGoal {
    pub card: Card,
    pub count_dead: u32,
}

/// A level: units on the map at the start, the starting deckbar, and the two
/// end conditions. Positions are in milli-units.
#[derive(Debug)]
pub struct Level {
    pub cards: Vec<(Card, (i64, i64))>,
    pub starting_deckbar: Vec<Card>,
    pub win_condition: DeathGoal,
    pub lose_condition: DeathGoal,
}

impl Level {
    /// Every starting placement lies within the coordinate limits.
    pub open spec fn wf(self) -> bool {
        forall|i: int|
            0 <= i < self.cards@.len() ==> {
                &&& -COORD_LIMIT <= (#[trigger] self.cards@[i]).1.0 <= COORD_LIMIT
                &&& -COORD_LIMIT <= self.cards@[i].1.1 <= COORD_LIMIT
            }
    }

    /// A minimal placeholder level with nothing on the map.
    pub fn get_stub() -> (r: Level)
        ensures
            r.cards@.len() == 0,
            r.starting_deckbar@.len() == 0,
            r.win_condition == (DeathGoal { card: Card::Quakka, count_dead: 1u32 }),
            r.lose_condition == (DeathGoal { card: Card::Quakka, count_dead: 1u32 }),
            r.wf(),
    {
        Level {
            cards: Vec::new(),
            starting_deckbar: Vec::new(),
            win_condition: DeathGoal { card: Card::Quakka, count_dead: 1 },
            lose_condition: DeathGoal { card: Card::Quakka, count_dead: 1 },
        }
    }
}

} // verus!
