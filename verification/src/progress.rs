//! Win/lose progress tracker: consumes death events in arrival order,
//! decrements the matching condition's counter, and moves the level progress
//! to won or lost exactly once per level attempt.

use vstd::prelude::*;
use crate::card::Card;
use crate::level::{DeathGoal, Level};

verus! {

/// Whether the simulation is paused; a paused world receives no ticks.
#[derive(Clone, Copy, PartialEq, Eq, Structural, Debug)]
pub enum IsPaused {
    True,
    False,
}

/// Flips the pause state.
pub fn toggle_pause(p: &mut IsPaused)
    ensures
        (*final(p) is True) == (*old(p) is False),
{
    match *p {
        IsPaused::True => {
            *p = IsPaused::False;
        },
        IsPaused::False => {
            *p = IsPaused::True;
        },
    }
}

/// Progress of the running level: still undecided, lost, or won.
#[derive(Clone, Copy, Debug, PartialEq, Eq, Structural)]
pub enum LevelProgress {
    Null,
    GameOver,
    GameWon,
}

/// Remaining death counts of the win and lose conditions.
#[derive(Clone, Copy, Debug, PartialEq, Eq, Structural)]
pub struct WinLoseDeathProgress {
    pub win: u32,
    pub lose: u32,
}

/// The full tracker state that one death event rewrites.
#[derive(Clone, Copy, Debug, PartialEq, Eq, Structural)]
pub struct TrackerState {
    pub progress: LevelProgress,
    pub counts: WinLoseDeathProgress,
}

/// Effect of a single death event on the tracker.
///
/// A terminal state ignores the event. Otherwise the event is matched against
/// the win condition first, then the lose condition; a counter at zero is
/// never decremented further, and a counter that reaches zero by this event
/// moves the progress to the matching terminal state.
pub open spec fn track_death_spec(
    st: TrackerState,
    win_condition: DeathGoal,
    lose_condition: DeathGoal,
    death: Card,
) -> TrackerState {
    if st.progress != LevelProgress::Null {
        st
    } else if death == win_condition.card {
        if st.counts.win == 1 {
            TrackerState {
                progress: LevelProgress::GameWon,
                counts: WinLoseDeathProgress { win: 0, lose: st.counts.lose },
            }
        } else if st.counts.win > 1 {
            TrackerState {
                progress: LevelProgress::Null,
                counts: WinLoseDeathProgress {
                    win: (st.counts.win - 1) as u32,
                    lose: st.counts.lose,
                },
            }
        } else {
            st
        }
    } else if death == lose_condition.card {
        if st.counts.lose == 1 {
            TrackerState {
                progress: LevelProgress::GameOver,
                counts: WinLoseDeathProgress { win: st.counts.win, lose: 0 },
            }
        } else if st.counts.lose > 1 {
            TrackerState {
                progress: LevelProgress::Null,
                counts: WinLoseDeathProgress {
                    win: st.counts.win,
                    lose: (st.counts.lose - 1) as u32,
                },
            }
        } else {
            st
        }
    } else {
        st
    }
}

/// Tracker state after the first `n` events of `deaths`, in arrival order.
pub open spec fn track_deaths_upto(
    st: TrackerState,
    win_condition: DeathGoal,
    lose_condition: DeathGoal,
    deaths: Seq<Card>,
    n: int,
) -> TrackerState
    decreases n,
{
    if n <= 0 {
        st
    } else {
        track_death_spec(
            track_deaths_upto(st, win_condition, lose_condition, deaths, n - 1),
            win_condition,
            lose_condition,
            deaths[n - 1],
        )
    }
}

/// Tracker state after all of `deaths`.
pub open spec fn track_deaths_spec(
    st: TrackerState,
    win_condition: DeathGoal,
    lose_condition: DeathGoal,
    deaths: Seq<Card>,
) -> TrackerState {
    track_deaths_upto(st, win_condition, lose_condition, deaths, deaths.len() as int)
}

/// Consumes a batch of death events, once each, in arrival order.
pub fn win_or_lose_on_conditions(
    progress: &mut LevelProgress,
    counts: &mut WinLoseDeathProgress,
    win_condition: &DeathGoal,
    lose_condition: &DeathGoal,
    deaths: &Vec<Card>,
)
    ensures
        (TrackerState { progress: *final(progress), counts: *final(counts) })
            == track_deaths_spec(
            TrackerState { progress: *old(progress), counts: *old(counts) },
            *win_condition,
            *lose_condition,
            deaths@,
        ),
{
    let ghost st0 = TrackerState { progress: *progress, counts: *counts };
    let n = deaths.len();
    let mut i: usize = 0;
    while i < n
        invariant
            i <= n,
            n == deaths@.len(),
            (TrackerState { progress: *progress, counts: *counts }) == track_deaths_upto(
                st0,
                *win_condition,
                *lose_condition,
                deaths@,
                i as int,
            ),
        decreases n - i,
    {
        let death = deaths[i];
        if *progress == LevelProgress::Null {
            if death == win_condition.card {
                if counts.win == 1 {
                    *progress = LevelProgress::GameWon;
                    counts.win = 0;
                } else if counts.win > 1 {
                    counts.win = counts.win - 1;
                }
            } else if death == lose_condition.card {
                if counts.lose == 1 {
                    *progress = LevelProgress::GameOver;
                    counts.lose = 0;
                } else if counts.lose > 1 {
                    counts.lose = counts.lose - 1;
                }
            }
        }
        i = i + 1;
    }
}

/// Puts the tracker back to its start-of-level state.
pub fn reset_level_progress(
    progress: &mut LevelProgress,
    counts: &mut WinLoseDeathProgress,
    level: &Level,
)
    ensures
        *final(progress) == LevelProgress::Null,
        final(counts).win == level.win_condition.count_dead,
        final(counts).lose == level.lose_condition.count_dead,
{
    *progress = LevelProgress::Null;
    counts.win = level.win_condition.count_dead;
    counts.lose = level.lose_condition.count_dead;
}

/// Once the progress is terminal, later death events change nothing.
pub proof fn lemma_terminal_progress_is_stable(
    st: TrackerState,
    win_condition: DeathGoal,
    lose_condition: DeathGoal,
    deaths: Seq<Card>,
)
    requires
        st.progress != LevelProgress::Null,
    ensures
        track_deaths_spec(st, win_condition, lose_condition, deaths) == st,
    decreases deaths.len(),
{
    lemma_terminal_progress_is_stable_upto(
        st,
        win_condition,
        lose_condition,
        deaths,
        deaths.len() as int,
    );
}

proof fn lemma_terminal_progress_is_stable_upto(
    st: TrackerState,
    win_condition: DeathGoal,
    lose_condition: DeathGoal,
    deaths: Seq<Card>,
    n: int,
)
    requires
        st.progress != LevelProgress::Null,
    ensures
        track_deaths_upto(st, win_condition, lose_condition, deaths, n) == st,
    decreases n,
{
    if n > 0 {
        lemma_terminal_progress_is_stable_upto(st, win_condition, lose_condition, deaths, n - 1);
    }
}

/// Processing one batch after another equals processing their concatenation:
/// events are consumed one by one, in arrival order, across batches.
pub proof fn lemma_track_deaths_in_batches(
    st: TrackerState,
    win_condition: DeathGoal,
    lose_condition: DeathGoal,
    first: Seq<Card>,
    second: Seq<Card>,
)
    ensures
        track_deaths_spec(st, win_condition, lose_condition, first + second)
            == track_deaths_spec(
            track_deaths_spec(st, win_condition, lose_condition, first),
            win_condition,
            lose_condition,
            second,
        ),
    decreases second.len(),
{
    let both = first + second;
    if second.len() == 0 {
        assert(both =~= first);
        assert(track_deaths_upto(st, win_condition, lose_condition, both, both.len() as int)
            == track_deaths_upto(st, win_condition, lose_condition, first, first.len() as int));
    } else {
        let shorter = second.drop_last();
        lemma_track_deaths_in_batches(st, win_condition, lose_condition, first, shorter);
        assert(first + shorter =~= both.subrange(0, both.len() - 1));
        lemma_track_upto_prefix_eq(st, win_condition, lose_condition, both, first + shorter, (both.len() - 1) as int);
        assert(both[both.len() - 1] == second[second.len() - 1]);
        lemma_track_upto_prefix_eq(
            track_deaths_spec(st, win_condition, lose_condition, first),
            win_condition,
            lose_condition,
            second,
            shorter,
            (second.len() - 1) as int,
        );
    }
}

/// Only the first `n` events matter to `track_deaths_upto(.., n)`.
proof fn lemma_track_upto_prefix_eq(
    st: TrackerState,
    win_condition: DeathGoal,
    lose_condition: DeathGoal,
    deaths: Seq<Card>,
    other: Seq<Card>,
    n: int,
)
    requires
        0 <= n <= deaths.len(),
        n <= other.len(),
        forall|i: int| 0 <= i < n ==> deaths[i] == other[i],
    ensures
        track_deaths_upto(st, win_condition, lose_condition, deaths, n) == track_deaths_upto(
            st,
            win_condition,
            lose_condition,
            other,
            n,
        ),
    decreases n,
{
    if n > 0 {
        lemma_track_upto_prefix_eq(st, win_condition, lose_condition, deaths, other, n - 1);
    }
}

/// A death goal with `count_dead == c` needs exactly `c` matching deaths:
/// after `n` deaths of the win condition's kind, the game is won if and only
/// if `n >= c`, and until then the counter holds the exact remainder.
/// Non-matching events never decrement a counter.
pub proof fn lemma_death_goal_counting(
    counts: WinLoseDeathProgress,
    win_condition: DeathGoal,
    lose_condition: DeathGoal,
    deaths: Seq<Card>,
    n: int,
)
    requires
        counts.win >= 1,
        0 <= n <= deaths.len(),
        forall|i: int| 0 <= i < n ==> deaths[i] == win_condition.card,
    ensures
        ({
            let st = track_deaths_upto(
                TrackerState { progress: LevelProgress::Null, counts },
                win_condition,
                lose_condition,
                deaths,
                n,
            );
            if n < counts.win {
                st == (TrackerState {
                    progress: LevelProgress::Null,
                    counts: WinLoseDeathProgress {
                        win: (counts.win - n) as u32,
                        lose: counts.lose,
                    },
                })
            } else {
                st.progress == LevelProgress::GameWon && st.counts.win == 0
            }
        }),
    decreases n,
{
    if n > 0 {
        lemma_death_goal_counting(counts, win_condition, lose_condition, deaths, n - 1);
    }
}

/// Events that match neither condition leave the tracker unchanged.
pub proof fn lemma_unmatched_deaths_change_nothing(
    st: TrackerState,
    win_condition: DeathGoal,
    lose_condition: DeathGoal,
    deaths: Seq<Card>,
    n: int,
)
    requires
        0 <= n <= deaths.len(),
        forall|i: int|
            0 <= i < n ==> deaths[i] != win_condition.card && deaths[i] != lose_condition.card,
    ensures
        track_deaths_upto(st, win_condition, lose_condition, deaths, n) == st,
    decreases n,
{
    if n > 0 {
        lemma_unmatched_deaths_change_nothing(st, win_condition, lose_condition, deaths, n - 1);
    }
}

} // verus!
