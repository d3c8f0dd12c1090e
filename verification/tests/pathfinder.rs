use duckslayer::geometry::Rect;
use duckslayer::global::standard_terrain;
use duckslayer::path::{find_path, FollowPath, Pos, Terrain, ASTAR_RESOLUTION};

fn rect(x0: i32, y0: i32, x1: i32, y1: i32) -> Rect {
    Rect::from_corners((x0, y0), (x1, y1))
}

fn open_square() -> Terrain {
    Terrain::new(rect(-200, -200, 300, 300), Vec::new())
}

#[test]
fn p1_repeated_searches_agree() {
    let t = standard_terrain();
    let a = find_path(&t, Pos(0, -100), Pos(-83, 440));
    let b = find_path(&t, Pos(0, -100), Pos(-83, 440));
    assert_eq!(a.is_ok(), b.is_ok());
    assert_eq!(a.unwrap(), b.unwrap());
}

#[test]
fn p2_route_steps_are_grid_moves_onto_walkable_cells() {
    let t = standard_terrain();
    let goal = Pos(-83, 440);
    let path = find_path(&t, Pos(0, -100), goal).unwrap();
    assert!(!path.is_empty());
    assert_eq!(path[0], Pos(0, -100));
    for w in path.windows(2) {
        let dx = w[1].0 - w[0].0;
        let dy = w[1].1 - w[0].1;
        assert!(dx == 0 || dx == ASTAR_RESOLUTION || dx == -ASTAR_RESOLUTION);
        assert!(dy == 0 || dy == ASTAR_RESOLUTION || dy == -ASTAR_RESOLUTION);
        assert!(!(dx == 0 && dy == 0));
        assert!(t.reachable(&w[1]));
    }
    let last = path[path.len() - 1];
    assert!(last.distance(&goal) <= ASTAR_RESOLUTION as u64);
}

#[test]
fn p3_enclosed_goal_is_no_path_found_not_an_empty_route() {
    // The goal and every cell within one resolution step of it sit inside
    // the obstacle, so no route can succeed.
    let t = Terrain::new(rect(-100, -100, 100, 100), vec![rect(30, 30, 90, 90)]);
    let r = find_path(&t, Pos(-60, -60), Pos(60, 60));
    assert!(r.is_err());
}

#[test]
fn p8_route_around_a_splitting_wall() {
    let wall = rect(-150, 40, 250, 60);
    let t = Terrain::new(rect(-200, -200, 300, 300), vec![wall]);
    let path = find_path(&t, Pos(0, 0), Pos(100, 100)).unwrap();
    assert!(path.len() >= 3);
    for p in &path {
        let inside =
            wall.min_x <= p.0 && p.0 <= wall.max_x && wall.min_y <= p.1 && p.1 <= wall.max_y;
        assert!(!inside);
    }
}

#[test]
fn start_near_goal_is_a_single_waypoint() {
    let t = open_square();
    let path = find_path(&t, Pos(0, 0), Pos(10, 0)).unwrap();
    assert_eq!(path, vec![Pos(0, 0)]);
}

#[test]
fn rect_contains_is_inclusive() {
    let r = rect(-306, 41, 73, -52);
    assert_eq!(r.min_x, -306);
    assert_eq!(r.max_x, 73);
    assert_eq!(r.min_y, -52);
    assert_eq!(r.max_y, 41);
    assert!(r.contains(73, 41));
    assert!(r.contains(-306, -52));
    assert!(!r.contains(74, 0));
}

#[test]
fn river_points_are_blocked_and_land_is_not() {
    let t = standard_terrain();
    // Inside the middle river.
    assert!(!t.reachable(&Pos(0, 0)));
    // On open land south of the rivers.
    assert!(t.reachable(&Pos(0, -100)));
    // Outside the map bounds.
    assert!(!t.reachable(&Pos(700, 0)));
}

#[test]
fn pos_distance_is_floored_euclidean() {
    assert_eq!(Pos(0, 0).distance(&Pos(3, 4)), 5);
    assert_eq!(Pos(0, 0).distance(&Pos(1, 1)), 1);
    assert_eq!(Pos(-3, 0).distance(&Pos(3, 0)), 6);
    assert_eq!(Pos(0, 0).distance(&Pos(0, 0)), 0);
}

#[test]
fn successors_skip_blocked_neighbors() {
    let t = Terrain::new(rect(-100, -100, 100, 100), vec![rect(10, -100, 100, 100)]);
    // Everything east of x=10 is blocked, so from the origin the three
    // +x neighbors are missing.
    let succ = Pos(0, 0).successors(&t);
    assert_eq!(succ.len(), 5);
    for (p, cost) in &succ {
        assert!(p.0 < 10);
        let diagonal = p.0 != 0 && p.1 != 0;
        assert_eq!(*cost, if diagonal { 141 } else { 100 });
    }
}

#[test]
fn follow_path_new_refuses_unreachable_goal() {
    let t = Terrain::new(rect(-100, -100, 100, 100), vec![rect(30, 30, 90, 90)]);
    assert!(FollowPath::new(&t, Pos(-60, -60), Pos(60, 60), 60).is_err());
    let ok = FollowPath::new(&t, Pos(-60, -60), Pos(-60, 0), 60).unwrap();
    assert!(!ok.path.is_empty());
    assert_eq!(ok.current, 0);
    assert_eq!(ok.get_goal(), Pos(-60, 0));
}
