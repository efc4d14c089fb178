//! Scores, the phase of play and the timer between rounds.

use vstd::prelude::*;
use crate::network_manager::NUM_PLAYERS;

verus! {

/// The phase of play.
#[derive(Clone, Copy, Debug, PartialEq, Eq, Structural)]
pub enum GamePhase {
    /// The players are playing.
    ActiveRound,
    /// A round has ended and the next has not begun.
    RoundOver,
}

impl Default for GamePhase {
    fn default() -> (phase: Self)
        ensures
            phase == GamePhase::ActiveRound,
    {
        GamePhase::ActiveRound
    }
}

/// Largest number of players in a session.
pub const MAX_PLAYERS: usize = 1_000_000;

/// Rounds won, by player index.
#[derive(Debug, PartialEq, Eq)]
pub struct PlayerScores {
    scores: Vec<u64>,
}

impl Clone for PlayerScores {
    fn clone(&self) -> (copy: Self)
        ensures
            copy@ == self@,
    {
        let scores = self.scores.clone();
        assert(scores@ =~= self.scores@);
        PlayerScores { scores }
    }
}

impl PlayerScores {
    /// The scores, by player index.
    pub closed spec fn view(&self) -> Seq<u64> {
        self.scores@
    }

    /// There is one score for each player of the session, and a session
    /// has at least two players.
    pub open spec fn wf(&self) -> bool {
        NUM_PLAYERS <= self@.len() <= MAX_PLAYERS
    }

    /// Scores of a session of two players that has just begun: nobody
    /// has won a round.
    pub fn new() -> (scores: Self)
        ensures
            scores.wf(),
            scores@ == Seq::new(NUM_PLAYERS as nat, |i: int| 0u64),
    {
        PlayerScores::for_players(NUM_PLAYERS)
    }

    /// Scores of a session of `count` players that has just begun.
    pub fn for_players(count: usize) -> (scores: Self)
        requires
            NUM_PLAYERS <= count <= MAX_PLAYERS,
        ensures
            scores.wf(),
            scores@ == Seq::new(count as nat, |i: int| 0u64),
    {
        let mut scores: Vec<u64> = Vec::new();
        let mut i: usize = 0;
        while i < count
            invariant
                i <= count,
                scores@.len() == i,
                forall|k: int| 0 <= k < i ==> scores@[k] == 0,
            decreases count - i,
        {
            scores.push(0);
            i = i + 1;
        }
        assert(scores@ =~= Seq::new(count as nat, |i: int| 0u64));
        PlayerScores { scores }
    }

    /// The number of players of the session.
    pub fn player_count(&self) -> (count: usize)
        ensures
            count == self@.len(),
    {
        self.scores.len()
    }

    /// The rounds that `player` has won.
    pub fn get(&self, player: usize) -> (score: u64)
        requires
            player < self@.len(),
        ensures
            score == self@[player as int],
    {
        self.scores[player]
    }

    /// Sets the rounds that `player` has won.
    pub fn set(&mut self, player: usize, score: u64)
        requires
            player < old(self)@.len(),
        ensures
            final(self)@ == old(self)@.update(player as int, score),
    {
        self.scores.set(player, score);
    }
}

/// A repeating countdown, in milliseconds.
#[derive(Clone, Copy, Debug, PartialEq, Eq, Structural)]
pub struct RoundTimer {
    /// Time run since the timer last fired; less than `period`.
    pub elapsed: u32,
    /// Time from one firing to the next.
    pub period: u32,
}

/// Time between the end of a round and the start of the next, in milliseconds.
pub const ROUND_PAUSE: u32 = 1000;

impl Default for RoundTimer {
    fn default() -> (timer: Self)
        ensures
            timer == (RoundTimer { elapsed: 0, period: ROUND_PAUSE }),
    {
        RoundTimer { elapsed: 0, period: ROUND_PAUSE }
    }
}

impl RoundTimer {
    /// The period is positive and the time run is within it.
    pub open spec fn wf(&self) -> bool {
        self.period > 0 && self.elapsed < self.period
    }

    /// Whether the timer fires when `dt` more milliseconds pass.
    pub open spec fn fires(&self, dt: u32) -> bool {
        self.elapsed + dt >= self.period
    }

    /// The timer after `dt` more milliseconds.
    pub open spec fn after(&self, dt: u32) -> RoundTimer {
        RoundTimer {
            elapsed: ((self.elapsed + dt) % (self.period as int)) as u32,
            period: self.period,
        }
    }

    /// Lets `dt` milliseconds pass and says whether the timer fired.
    pub fn tick(&mut self, dt: u32) -> (fired: bool)
        requires
            old(self).wf(),
        ensures
            fired == old(self).fires(dt),
            *final(self) == old(self).after(dt),
            final(self).wf(),
    {
        let total: u64 = self.elapsed as u64 + dt as u64;
        let period: u64 = self.period as u64;
        let rest: u64 = total % period;
        self.elapsed = rest as u32;
        total >= period
    }
}

/// The phase that follows `phase` once the pause timer has been run:
/// a new round begins where the timer fired.
pub open spec fn phase_after_pause(fired: bool, phase: GamePhase) -> GamePhase {
    if fired { GamePhase::ActiveRound } else { phase }
}

/// Runs the pause between two rounds for `dt` milliseconds. Where the
/// timer fires, the next round becomes active; the result says whether it did.
pub fn round_over_timer(timer: &mut RoundTimer, phase: &mut GamePhase, dt: u32) -> (fired: bool)
    requires
        old(timer).wf(),
    ensures
        fired == old(timer).fires(dt),
        *final(timer) == old(timer).after(dt),
        final(timer).wf(),
        *final(phase) == phase_after_pause(fired, *old(phase)),
{
    let fired = timer.tick(dt);
    if fired {
        *phase = GamePhase::ActiveRound;
    }
    fired
}

/// A timer that fired leaves no part of a period behind that would make it
/// fire again: with no further time it stays silent, and from rest a full
/// period makes it fire and brings it back to rest.
pub proof fn timer_fires_once(timer: RoundTimer, dt: u32)
    requires
        timer.wf(),
    ensures
        !timer.after(dt).fires(0),
        timer.elapsed == 0 && dt == timer.period ==> timer.fires(dt) && timer.after(dt) == timer,
{
}

} // verus!
