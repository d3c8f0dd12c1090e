//! Combat and movement core of a small tower-defense game: grid pathfinding
//! with obstacle avoidance, nearest-target selection with cooldown-gated
//! damage, movement along waypoints, and a win/lose progress tracker driven
//! by death events.
//!
//! All quantities are integers: world positions are held in thousandths of a
//! world unit ("milli-units"), grid cells in whole world units, durations in
//! milliseconds, and health and damage in whole points.

pub mod card;
pub mod card_constants;
pub mod combat;
pub mod geometry;
pub mod global;
pub mod level;
pub mod movement;
pub mod path;
pub mod progress;
pub mod unit;
pub mod world;
