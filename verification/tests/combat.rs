use duckslayer::card::Card;
use duckslayer::card_constants::CardConsts;
use duckslayer::combat::{
    attackers_attack, delete_dead_entities, explode_waterballs, kill_farmer_reaching_exit,
    tick_waterball_timers,
};
use duckslayer::unit::{CooldownTimer, UnitRec};
use duckslayer::world::{farmer_bundle, nest_bundle, quakka_bundle, waterball_bundle};

fn consts() -> CardConsts {
    CardConsts::default()
}

fn health_of(u: &UnitRec) -> i64 {
    u.health.as_ref().unwrap().current_health
}

#[test]
fn cooldown_timer_accumulates_and_resets() {
    let mut t = CooldownTimer::new(1000);
    t.tick(400);
    assert!(!t.finished());
    assert_eq!(t.fraction_permille(), 400);
    t.tick(600);
    assert!(t.finished());
    assert_eq!(t.fraction_permille(), 1000);
    t.tick(500);
    assert_eq!(t.elapsed_ms, 1000);
    t.reset();
    assert!(!t.finished());
    assert_eq!(t.fraction_permille(), 0);
}

#[test]
fn p4_attacker_fires_at_most_once_per_cooldown() {
    let c = consts();
    // Quakka at the origin, nest ten world units away: within the quakka's
    // sixty-unit range, and within the nest's range too.
    let mut units = vec![
        quakka_bundle(0, 0, 0, &c),
        nest_bundle(1, 10_000, 0, &c),
    ];
    // Half a cooldown of in-range time: nobody fires.
    attackers_attack(&mut units, 500);
    assert_eq!(health_of(&units[1]), 100);
    assert_eq!(health_of(&units[0]), 100);
    // The second half completes both cooldowns: one hit each.
    attackers_attack(&mut units, 500);
    assert_eq!(health_of(&units[1]), 100 - 60);
    assert_eq!(health_of(&units[0]), 100 - 15);
    // Another half cooldown: no credit from before the reset, so no hit.
    attackers_attack(&mut units, 500);
    assert_eq!(health_of(&units[1]), 40);
    assert_eq!(health_of(&units[0]), 85);
    attackers_attack(&mut units, 500);
    assert_eq!(health_of(&units[1]), 40 - 60);
    assert_eq!(health_of(&units[0]), 85 - 15);
}

#[test]
fn p4_leaving_range_resets_progress() {
    let c = consts();
    // Farmer a hundred world units away: valid prey, but out of range.
    let mut units = vec![
        quakka_bundle(0, 0, 0, &c),
        farmer_bundle(1, 100_000, 0),
    ];
    attackers_attack(&mut units, 900);
    let a = units[0].attacker.as_ref().unwrap();
    assert_eq!(a.current_victim(), Some(1));
    assert!(!a.current_victim_in_range());
    assert_eq!(a.current_victim_in_range_fraction(), None);
    assert_eq!(a.cooldown_fraction(), 0);
}

#[test]
fn victim_snapshot_while_in_range() {
    let c = consts();
    let mut units = vec![
        quakka_bundle(0, 0, 0, &c),
        farmer_bundle(1, 30_000, 0),
    ];
    attackers_attack(&mut units, 100);
    let a = units[0].attacker.as_ref().unwrap();
    assert_eq!(a.current_victim(), Some(1));
    assert!(a.current_victim_in_range());
    // Thirty of sixty world units: half the range.
    assert_eq!(a.current_victim_in_range_fraction(), Some(500));
    assert_eq!(a.cooldown_fraction(), 100);
}

#[test]
fn nearest_target_ties_break_by_scan_order() {
    let c = consts();
    let mut units = vec![
        quakka_bundle(0, 0, 0, &c),
        farmer_bundle(1, 40_000, 0),
        farmer_bundle(2, -40_000, 0),
    ];
    attackers_attack(&mut units, 100);
    // Both farmers are equally near; the earlier index is selected.
    assert_eq!(units[0].attacker.as_ref().unwrap().current_victim(), Some(1));
}

#[test]
fn dead_prey_is_not_selected() {
    let c = consts();
    let mut near_dead = farmer_bundle(1, 10_000, 0);
    near_dead.health.as_mut().unwrap().current_health = 0;
    let mut units = vec![
        quakka_bundle(0, 0, 0, &c),
        near_dead,
        farmer_bundle(2, 50_000, 0),
    ];
    attackers_attack(&mut units, 100);
    assert_eq!(units[0].attacker.as_ref().unwrap().current_victim(), Some(2));
}

#[test]
fn p5_each_death_emits_exactly_one_event() {
    let c = consts();
    let mut dead_nest = nest_bundle(0, 0, 0, &c);
    dead_nest.health.as_mut().unwrap().current_health = 0;
    let mut dead_farmer = farmer_bundle(1, 10_000, 0);
    dead_farmer.health.as_mut().unwrap().current_health = -5;
    let mut units = vec![
        dead_nest,
        dead_farmer,
        quakka_bundle(2, 20_000, 0, &c),
    ];
    let deaths = delete_dead_entities(&mut units);
    assert_eq!(deaths, vec![Card::Nest, Card::Farmer]);
    assert_eq!(units.len(), 1);
    assert_eq!(units[0].card, Card::Quakka);
    assert_eq!(units[0].id, 2);
}

#[test]
fn waterball_explodes_once_charged_and_despawns() {
    let c = consts();
    let mut units = vec![
        waterball_bundle(0, 0, 0, &c),
        quakka_bundle(1, 50_000, 0, &c),
        quakka_bundle(2, 200_000, 0, &c),
        farmer_bundle(3, 10_000, 0),
    ];
    // Not yet charged: nothing happens, the ball stays.
    tick_waterball_timers(&mut units, 400);
    explode_waterballs(&mut units, c.waterball.damage);
    assert_eq!(units.len(), 4);
    assert_eq!(health_of(&units[1]), 100);
    // The charge completes: the quakka within the radius takes the damage,
    // the far quakka and the farmer (not a waterball target) are spared, and
    // the ball despawns.
    tick_waterball_timers(&mut units, 100);
    explode_waterballs(&mut units, c.waterball.damage);
    assert_eq!(units.len(), 3);
    assert_eq!(units[0].card, Card::Quakka);
    assert_eq!(health_of(&units[0]), 100 - 90);
    assert_eq!(health_of(&units[1]), 100);
    assert_eq!(health_of(&units[2]), 100);
}

#[test]
fn farmer_at_exit_is_killed() {
    let c = consts();
    let exit = (-83_000i64, 440_000i64);
    let mut units = vec![
        farmer_bundle(0, -83_000, 440_500),
        farmer_bundle(1, -83_000, 300_000),
        quakka_bundle(2, -83_500, 440_000, &c),
    ];
    kill_farmer_reaching_exit(&mut units, exit.0, exit.1);
    // Within one world unit: killed.
    assert_eq!(health_of(&units[0]), 0);
    // Far from the exit: untouched.
    assert_eq!(health_of(&units[1]), 100);
    // Not a farmer: untouched even at the exit.
    assert_eq!(health_of(&units[2]), 100);
}
