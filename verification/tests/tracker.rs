use duckslayer::card::{Card, MaybeCard};
use duckslayer::card_constants::CardConsts;
use duckslayer::level::{DeathGoal, Level};
use duckslayer::progress::{
    reset_level_progress, toggle_pause, win_or_lose_on_conditions, IsPaused, LevelProgress,
    WinLoseDeathProgress,
};

fn goal(card: Card, count_dead: u32) -> DeathGoal {
    DeathGoal { card, count_dead }
}

#[test]
fn p6_terminal_progress_ignores_later_deaths() {
    let win = goal(Card::Quakka, 1);
    let lose = goal(Card::Nest, 2);
    let mut progress = LevelProgress::Null;
    let mut counts = WinLoseDeathProgress { win: 1, lose: 2 };
    let deaths = vec![Card::Nest, Card::Quakka, Card::Nest];
    win_or_lose_on_conditions(&mut progress, &mut counts, &win, &lose, &deaths);
    // The quakka death wins after event two; the third event must not flip
    // the outcome even though it would have emptied the lose counter.
    assert_eq!(progress, LevelProgress::GameWon);
    assert_eq!(counts.win, 0);
    assert_eq!(counts.lose, 1);
}

#[test]
fn p6_terminal_holds_across_batches() {
    let win = goal(Card::Quakka, 1);
    let lose = goal(Card::Nest, 1);
    let mut progress = LevelProgress::Null;
    let mut counts = WinLoseDeathProgress { win: 1, lose: 1 };
    win_or_lose_on_conditions(&mut progress, &mut counts, &win, &lose, &vec![Card::Quakka]);
    assert_eq!(progress, LevelProgress::GameWon);
    win_or_lose_on_conditions(&mut progress, &mut counts, &win, &lose, &vec![Card::Nest]);
    assert_eq!(progress, LevelProgress::GameWon);
    assert_eq!(counts.lose, 1);
}

#[test]
fn p7_exactly_three_matching_deaths_trigger() {
    let win = goal(Card::Farmer, 3);
    let lose = goal(Card::Nest, 9);
    let mut progress = LevelProgress::Null;
    let mut counts = WinLoseDeathProgress { win: 3, lose: 9 };
    win_or_lose_on_conditions(&mut progress, &mut counts, &win, &lose, &vec![Card::Farmer; 2]);
    assert_eq!(progress, LevelProgress::Null);
    assert_eq!(counts.win, 1);
    win_or_lose_on_conditions(&mut progress, &mut counts, &win, &lose, &vec![Card::Farmer]);
    assert_eq!(progress, LevelProgress::GameWon);
    assert_eq!(counts.win, 0);
}

#[test]
fn p7_unmatched_deaths_never_decrement() {
    let win = goal(Card::Farmer, 3);
    let lose = goal(Card::Nest, 2);
    let mut progress = LevelProgress::Null;
    let mut counts = WinLoseDeathProgress { win: 3, lose: 2 };
    win_or_lose_on_conditions(
        &mut progress,
        &mut counts,
        &win,
        &lose,
        &vec![Card::Waterball, Card::Quakka, Card::Waterball],
    );
    assert_eq!(progress, LevelProgress::Null);
    assert_eq!(counts.win, 3);
    assert_eq!(counts.lose, 2);
}

#[test]
fn lose_condition_triggers_game_over() {
    let win = goal(Card::Quakka, 5);
    let lose = goal(Card::Nest, 2);
    let mut progress = LevelProgress::Null;
    let mut counts = WinLoseDeathProgress { win: 5, lose: 2 };
    win_or_lose_on_conditions(&mut progress, &mut counts, &win, &lose, &vec![Card::Nest; 2]);
    assert_eq!(progress, LevelProgress::GameOver);
    assert_eq!(counts.lose, 0);
}

#[test]
fn win_is_checked_before_lose_on_the_same_kind() {
    let win = goal(Card::Quakka, 1);
    let lose = goal(Card::Quakka, 1);
    let mut progress = LevelProgress::Null;
    let mut counts = WinLoseDeathProgress { win: 1, lose: 1 };
    win_or_lose_on_conditions(&mut progress, &mut counts, &win, &lose, &vec![Card::Quakka]);
    assert_eq!(progress, LevelProgress::GameWon);
    assert_eq!(counts.lose, 1);
}

#[test]
fn reset_restores_start_of_level_state() {
    let level = Level {
        cards: Vec::new(),
        starting_deckbar: vec![Card::Farmer],
        win_condition: goal(Card::Nest, 4),
        lose_condition: goal(Card::Farmer, 7),
    };
    let mut progress = LevelProgress::GameOver;
    let mut counts = WinLoseDeathProgress { win: 0, lose: 0 };
    reset_level_progress(&mut progress, &mut counts, &level);
    assert_eq!(progress, LevelProgress::Null);
    assert_eq!(counts.win, 4);
    assert_eq!(counts.lose, 7);
}

#[test]
fn toggle_pause_flips() {
    let mut p = IsPaused::True;
    toggle_pause(&mut p);
    assert_eq!(p, IsPaused::False);
    toggle_pause(&mut p);
    assert_eq!(p, IsPaused::True);
}

#[test]
fn stub_level_is_minimal() {
    let level = Level::get_stub();
    assert!(level.cards.is_empty());
    assert!(level.starting_deckbar.is_empty());
    assert_eq!(level.win_condition, goal(Card::Quakka, 1));
    assert_eq!(level.lose_condition, goal(Card::Quakka, 1));
}

#[test]
fn card_names_and_sprites() {
    assert_eq!(Card::Farmer.to_string(), "Farmer");
    assert_eq!(Card::Quakka.get_sprite_filepath(), "quakka.png");
    assert!(Card::Waterball.is_placeable_over_water());
    assert!(!Card::Nest.is_placeable_over_water());
    assert_eq!(
        Card::all(),
        vec![Card::Farmer, Card::Quakka, Card::Waterball, Card::Nest]
    );
}

#[test]
fn maybe_card_holds_an_optional_slot() {
    let empty = MaybeCard(None);
    let full = MaybeCard(Some(Card::Nest));
    assert_eq!(empty.0, None);
    assert_eq!(full.0, Some(Card::Nest));
}

#[test]
fn default_card_constants() {
    let c = CardConsts::default();
    assert_eq!(c.farmer.speed, 60);
    assert_eq!(c.quakka.damage, 60);
    assert_eq!(c.quakka.hit_cooldown_ms, 1000);
    assert_eq!(c.quakka.range, 60_000);
    assert_eq!(c.quakka.speed, 80);
    assert_eq!(c.waterball.radius, 120_000);
    assert_eq!(c.waterball.damage, 90);
    assert_eq!(c.nest.range, 250_000);
    assert_eq!(c.nest.damage, 15);
    // The sprite footprint spans the blast diameter.
    assert_eq!(c.waterball.size(), (240_000, 240_000));
}
