//! The fixed map geometry: overall bounds, the three river rectangles that
//! block walking, and named locations.

use vstd::prelude::*;
use crate::geometry::Rect;
use crate::path::Terrain;

verus! {

/// Grid cell the farmers walk to before leaving the map, in world units.
pub const FARMER_EXIT_LOCATION: (i32, i32) = (-83, 440);

/// The two nest placements, in milli-units.
pub const NEST_POSITIONS: ((i64, i64), (i64, i64)) = ((-388_000, -312_000), (173_000, -312_000));

pub fn get_left_river_rect() -> (r: Rect)
    ensures
        r == (Rect { min_x: -683i32, min_y: -50i32, max_x: -480i32, max_y: 48i32 }),
        r.wf(),
{
    Rect::from_corners((-683, 48), (-480, -50))
}

pub fn get_middle_river_rect() -> (r: Rect)
    ensures
        r == (Rect { min_x: -306i32, min_y: -52i32, max_x: 73i32, max_y: 41i32 }),
        r.wf(),
{
    Rect::from_corners((-306, 41), (73, -52))
}

pub fn get_right_river_rect() -> (r: Rect)
    ensures
        r == (Rect { min_x: 250i32, min_y: -45i32, max_x: 575i32, max_y: 42i32 }),
        r.wf(),
{
    Rect::from_corners((250, 42), (575, -45))
}

/// Slightly taller than the visible arena, since the farmer exit sits above
/// the map.
pub fn get_entire_map_rect() -> (r: Rect)
    ensures
        r == (Rect { min_x: -683i32, min_y: -384i32, max_x: 683i32, max_y: 480i32 }),
        r.wf(),
{
    Rect::from_corners((-683, 480), (683, -384))
}

/// The walkable terrain of the standard map: the arena bounds with the three
/// rivers carved out.
pub fn standard_terrain() -> (t: Terrain)
    ensures
        t.wf(),
        t.bounds == (Rect { min_x: -683i32, min_y: -384i32, max_x: 683i32, max_y: 480i32 }),
        t.obstacles@ == seq![
            Rect { min_x: -683i32, min_y: -50i32, max_x: -480i32, max_y: 48i32 },
            Rect { min_x: -306i32, min_y: -52i32, max_x: 73i32, max_y: 41i32 },
            Rect { min_x: 250i32, min_y: -45i32, max_x: 575i32, max_y: 42i32 },
        ],
{
    let mut obstacles: Vec<Rect> = Vec::new();
    obstacles.push(get_left_river_rect());
    obstacles.push(get_middle_river_rect());
    obstacles.push(get_right_river_rect());
    proof {
        assert(obstacles@ =~= seq![
            Rect { min_x: -683i32, min_y: -50i32, max_x: -480i32, max_y: 48i32 },
            Rect { min_x: -306i32, min_y: -52i32, max_x: 73i32, max_y: 41i32 },
            Rect { min_x: 250i32, min_y: -45i32, max_x: 575i32, max_y: 42i32 },
        ]);
    }
    Terrain::new(get_entire_map_rect(), obstacles)
}

} // verus!
