//! The card kinds that units are spawned from.

use vstd::prelude::*;

verus! {

/// The four placeable card kinds.
#[derive(Clone, Copy, Debug, PartialEq, Eq, Structural)]
pub enum Card {
    Farmer,
    Quakka,
    Waterball,
    Nest,
}

impl Card {
    /// Display name of the card.
    pub fn to_string(&self) -> (r: String)
        ensures
            r@ == self.name_spec(),
    {
        match self {
            Card::Farmer => "Farmer".to_string(),
            Card::Quakka => "Quakka".to_string(),
            Card::Waterball => "Waterball".to_string(),
            Card::Nest => "Nest".to_string(),
        }
    }

    pub open spec fn name_spec(self) -> Seq<char> {
        match self {
            Card::Farmer => "Farmer"@,
            Card::Quakka => "Quakka"@,
            Card::Waterball => "Waterball"@,
            Card::Nest => "Nest"@,
        }
    }

    /// Path of the sprite image used for the card.
    pub fn get_sprite_filepath(&self) -> (r: String)
        ensures
            r@ == self.sprite_filepath_spec(),
    {
        match self {
            Card::Farmer => "farmer.png".to_string(),
            Card::Quakka => "quakka.png".to_string(),
            Card::Waterball => "waterball.png".to_string(),
            Card::Nest => "nest.png".to_string(),
        }
    }

    pub open spec fn sprite_filepath_spec(self) -> Seq<char> {
        match self {
            Card::Farmer => "farmer.png"@,
            Card::Quakka => "quakka.png"@,
            Card::Waterball => "waterball.png"@,
            Card::Nest => "nest.png"@,
        }
    }

    /// Only the waterball may be dropped onto water.
    pub fn is_placeable_over_water(&self) -> (r: bool)
        ensures
            r == (self is Waterball),
    {
        match self {
            Card::Waterball => true,
            _ => false,
        }
    }

    /// Every card kind, in declaration order.
    pub fn all() -> (r: Vec<Card>)
        ensures
            r@ == seq![Card::Farmer, Card::Quakka, Card::Waterball, Card::Nest],
    {
        let mut v: Vec<Card> = Vec::new();
        v.push(Card::Farmer);
        v.push(Card::Quakka);
        v.push(Card::Waterball);
        v.push(Card::Nest);
        proof {
            assert(v@ =~= seq![Card::Farmer, Card::Quakka, Card::Waterball, Card::Nest]);
        }
        v
    }
}

/// A deckbar slot: either a card or an empty slot.
#[derive(Clone, Copy, Debug, PartialEq, Eq, Structural)]
pub struct MaybeCard(pub Option<Card>);

} // verus!
