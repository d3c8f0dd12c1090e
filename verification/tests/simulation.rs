use duckslayer::card::Card;
use duckslayer::card_constants::CardConsts;
use duckslayer::global::{standard_terrain, FARMER_EXIT_LOCATION};
use duckslayer::level::{DeathGoal, Level};
use duckslayer::movement::{follow_paths, is_moving, milli_to_world, move_toward};
use duckslayer::geometry::Rect;
use duckslayer::path::{FollowPath, Pos, Terrain};
use duckslayer::progress::LevelProgress;
use duckslayer::unit::UnitRec;
use duckslayer::world::{farmer_bundle, GameWorld};

fn exit_cell() -> Pos {
    Pos(FARMER_EXIT_LOCATION.0, FARMER_EXIT_LOCATION.1)
}

fn level(cards: Vec<(Card, (i64, i64))>, win: DeathGoal, lose: DeathGoal) -> Level {
    Level { cards, starting_deckbar: Vec::new(), win_condition: win, lose_condition: lose }
}

fn health_of(u: &UnitRec) -> i64 {
    u.health.as_ref().unwrap().current_health
}

#[test]
fn move_toward_walks_the_normalized_direction() {
    // A three-four-five triangle: the step splits exactly.
    assert_eq!(move_toward(0, 0, 3000, 4000, 1000), (600, 800));
    // Along an axis.
    assert_eq!(move_toward(0, 0, 10_000, 0, 1000), (1000, 0));
    // Negative direction.
    assert_eq!(move_toward(0, 0, -10_000, 0, 1000), (-1000, 0));
}

#[test]
fn move_toward_never_overshoots_and_zero_direction_stays() {
    assert_eq!(move_toward(0, 0, 500, 0, 100_000), (500, 0));
    assert_eq!(move_toward(700, -300, 700, -300, 100_000), (700, -300));
}

#[test]
fn milli_to_world_truncates_toward_zero() {
    assert_eq!(milli_to_world(1500), 1);
    assert_eq!(milli_to_world(-1500), -1);
    assert_eq!(milli_to_world(999), 0);
    assert_eq!(milli_to_world(-999), 0);
}

#[test]
fn follow_paths_advances_the_cursor_only_forward() {
    let mut unit = farmer_bundle(0, 0, 0);
    unit.follow = Some(FollowPath {
        goal: Pos(30, 0),
        path: vec![Pos(0, 0), Pos(15, 0), Pos(30, 0)],
        current: 0,
        speed: 60,
    });
    let mut units = vec![unit];
    // Standing on the first waypoint: no movement, but the cursor advances.
    follow_paths(&mut units, 100);
    assert_eq!((units[0].x, units[0].y), (0, 0));
    assert_eq!(units[0].follow.as_ref().unwrap().current, 1);
    // Now it walks toward the second waypoint at sixty units per second.
    follow_paths(&mut units, 100);
    assert_eq!((units[0].x, units[0].y), (6000, 0));
    assert_eq!(units[0].follow.as_ref().unwrap().current, 1);
    // Long ticks land it exactly on each waypoint, never past the last.
    for _ in 0..10 {
        follow_paths(&mut units, 1000);
    }
    assert_eq!((units[0].x, units[0].y), (30_000, 0));
    assert_eq!(units[0].follow.as_ref().unwrap().current, 2);
}

#[test]
fn enter_level_spawns_the_placements_in_order() {
    let lvl = level(
        vec![
            (Card::Nest, (-388_000, -312_000)),
            (Card::Quakka, (100_000, -100_000)),
        ],
        DeathGoal { card: Card::Quakka, count_dead: 1 },
        DeathGoal { card: Card::Nest, count_dead: 2 },
    );
    let w = GameWorld::enter_level(&lvl, standard_terrain(), CardConsts::default(), exit_cell())
        .unwrap();
    assert_eq!(w.units.len(), 2);
    assert_eq!(w.units[0].card, Card::Nest);
    assert_eq!(w.units[1].card, Card::Quakka);
    assert_eq!(w.progress, LevelProgress::Null);
    assert_eq!(w.counts.win, 1);
    assert_eq!(w.counts.lose, 2);
}

#[test]
fn spawned_farmer_gets_a_route_to_the_exit() {
    let lvl = level(
        vec![(Card::Farmer, (0, -100_000))],
        DeathGoal { card: Card::Quakka, count_dead: 1 },
        DeathGoal { card: Card::Farmer, count_dead: 1 },
    );
    let w = GameWorld::enter_level(&lvl, standard_terrain(), CardConsts::default(), exit_cell())
        .unwrap();
    let fp = w.units[0].follow.as_ref().unwrap();
    assert!(!fp.path.is_empty());
    assert_eq!(fp.path[0], Pos(0, -100));
    assert_eq!(fp.get_goal(), exit_cell());
    assert_eq!(fp.current, 0);
}

#[test]
fn quakka_killing_the_nest_wins_the_level() {
    let lvl = level(
        vec![
            (Card::Quakka, (100_000, -100_000)),
            (Card::Nest, (110_000, -100_000)),
        ],
        DeathGoal { card: Card::Nest, count_dead: 1 },
        DeathGoal { card: Card::Quakka, count_dead: 1 },
    );
    let mut w =
        GameWorld::enter_level(&lvl, standard_terrain(), CardConsts::default(), exit_cell())
            .unwrap();
    // First second: both cooldowns complete, one hit each.
    let deaths = w.tick(1000);
    assert!(deaths.is_empty());
    assert_eq!(health_of(&w.units[1]), 40);
    assert_eq!(health_of(&w.units[0]), 85);
    assert_eq!(w.progress, LevelProgress::Null);
    // Second second: the nest falls, emits its death, and the level is won.
    let deaths = w.tick(1000);
    assert_eq!(deaths, vec![Card::Nest]);
    assert_eq!(w.units.len(), 1);
    assert_eq!(w.progress, LevelProgress::GameWon);
    // Nothing that happens afterwards changes the outcome.
    let _ = w.tick(1000);
    assert_eq!(w.progress, LevelProgress::GameWon);
}

#[test]
fn p5_health_never_increases_over_ticks() {
    let lvl = level(
        vec![
            (Card::Quakka, (100_000, -100_000)),
            (Card::Nest, (110_000, -100_000)),
            (Card::Farmer, (0, -100_000)),
        ],
        DeathGoal { card: Card::Nest, count_dead: 1 },
        DeathGoal { card: Card::Farmer, count_dead: 1 },
    );
    let mut w =
        GameWorld::enter_level(&lvl, standard_terrain(), CardConsts::default(), exit_cell())
            .unwrap();
    for _ in 0..8 {
        let before: Vec<(u64, i64)> =
            w.units.iter().filter(|u| u.health.is_some()).map(|u| (u.id, health_of(u))).collect();
        let _ = w.tick(250);
        for u in &w.units {
            if u.health.is_some() {
                let old = before.iter().find(|(id, _)| *id == u.id);
                if let Some((_, h)) = old {
                    assert!(health_of(u) <= *h);
                }
            }
        }
    }
}

#[test]
fn farmer_reaching_the_exit_loses_the_level() {
    // A farmer dropped onto the exit dies there; its death satisfies the
    // lose condition.
    let ex = exit_cell();
    let lvl = level(
        vec![(Card::Farmer, ((ex.0 as i64) * 1000, (ex.1 as i64) * 1000))],
        DeathGoal { card: Card::Quakka, count_dead: 1 },
        DeathGoal { card: Card::Farmer, count_dead: 1 },
    );
    let mut w =
        GameWorld::enter_level(&lvl, standard_terrain(), CardConsts::default(), ex).unwrap();
    let mut saw_death = false;
    for _ in 0..200 {
        let deaths = w.tick(100);
        if !deaths.is_empty() {
            assert_eq!(deaths, vec![Card::Farmer]);
            saw_death = true;
            break;
        }
    }
    assert!(saw_death);
    assert_eq!(w.progress, LevelProgress::GameOver);
    assert!(w.units.is_empty());
}

#[test]
fn quakka_chases_a_distant_nest() {
    // The nest is far outside attack range; the chase logic must give the
    // quakka a route toward it, and walking that route must close in.
    let lvl = level(
        vec![
            (Card::Quakka, (-100_000, -150_000)),
            (Card::Nest, (173_000, -312_000)),
        ],
        DeathGoal { card: Card::Nest, count_dead: 1 },
        DeathGoal { card: Card::Quakka, count_dead: 1 },
    );
    let mut w =
        GameWorld::enter_level(&lvl, standard_terrain(), CardConsts::default(), exit_cell())
            .unwrap();
    let start_dist = {
        let dx = (w.units[0].x - w.units[1].x) as f64;
        let dy = (w.units[0].y - w.units[1].y) as f64;
        (dx * dx + dy * dy).sqrt()
    };
    let _ = w.tick(100);
    assert!(w.units[0].follow.is_some());
    for _ in 0..20 {
        let _ = w.tick(100);
    }
    let end_dist = {
        let dx = (w.units[0].x - w.units[1].x) as f64;
        let dy = (w.units[0].y - w.units[1].y) as f64;
        (dx * dx + dy * dy).sqrt()
    };
    assert!(end_dist < start_dist);
}

#[test]
fn is_moving_tracks_the_route() {
    let mut unit = farmer_bundle(0, 0, 0);
    assert!(!is_moving(&unit));
    unit.follow = Some(FollowPath {
        goal: Pos(15, 0),
        path: vec![Pos(0, 0), Pos(15, 0)],
        current: 0,
        speed: 60,
    });
    assert!(is_moving(&unit));
    let mut units = vec![unit];
    for _ in 0..10 {
        follow_paths(&mut units, 1000);
    }
    // Standing on the last waypoint: the walk is over.
    assert_eq!((units[0].x, units[0].y), (15_000, 0));
    assert!(!is_moving(&units[0]));
}

#[test]
fn enter_level_refuses_a_farmer_that_cannot_reach_the_exit() {
    let t = Terrain::new(
        Rect::from_corners((-100, -100), (100, 100)),
        vec![Rect::from_corners((30, 30), (90, 90))],
    );
    let lvl = level(
        vec![(Card::Farmer, (60_000, 60_000))],
        DeathGoal { card: Card::Quakka, count_dead: 1 },
        DeathGoal { card: Card::Farmer, count_dead: 1 },
    );
    let r = GameWorld::enter_level(&lvl, t, CardConsts::default(), Pos(-60, 0));
    assert!(r.is_err());
}
