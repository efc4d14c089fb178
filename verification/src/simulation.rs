//! The world and its tick: one ordered pass over movement, collisions,
//! shooting, flight, hits and placement, and the pause between rounds.

use vstd::prelude::*;
use crate::barriers::{
    barriers_ok, create_world, flying, flying_within_bounds, handle_barrier_collisions,
    out_of_bounds, place_barrier_on_click, placed, projectile_barrier_collisions,
    resolved_players, standing, terrain_of, Barrier,
};
use crate::network_manager::{round_seed_of, score_sum, RandomSeed, NUM_PLAYERS};
use crate::player_module::{
    check_player_collisions, credited, initialize_players, move_players, moved_players,
    phase_after_hits, players_ok, spawn_of, spawn_seed_of, survivors, survivors_len,
    survivors_were_players, unspent, unspent_were_flying,
    Player,
};
use crate::projectile::{
    after_fire, after_reload, fire_projectile, fired_players, fires, flown_projectiles,
    move_projectile, projectiles_ok, reload_projectile, reloaded_players, shots, Projectile,
};
use crate::utilities::{
    round_over_timer, GamePhase, PlayerScores, RoundTimer, MAX_PLAYERS, ROUND_PAUSE,
};

verus! {

/// Everything that the simulation keeps from one tick to the next.
#[derive(Debug, PartialEq, Eq)]
pub struct World {
    pub players: Vec<Player>,
    pub projectiles: Vec<Projectile>,
    pub barriers: Vec<Barrier>,
    pub scores: PlayerScores,
    pub phase: GamePhase,
    pub timer: RoundTimer,
    pub seed: RandomSeed,
}

/// The value of a world.
pub struct WorldState {
    pub players: Seq<Player>,
    pub projectiles: Seq<Projectile>,
    pub barriers: Seq<Barrier>,
    pub scores: Seq<u64>,
    pub phase: GamePhase,
    pub timer: RoundTimer,
    pub seed: RandomSeed,
}

/// The world after the six passes of an active round: players move and are
/// pushed out of barriers, fire and reload; projectiles fly, stop at the
/// edge of the world and at barriers; players that are hit leave together
/// with the projectiles that struck them, and the hits are scored.
pub open spec fn after_active(s: WorldState, inputs: Seq<u32>, dt: u32) -> WorldState {
    let placed_players = resolved_players(moved_players(s.players, inputs, dt), s.barriers);
    let armed = reloaded_players(fired_players(placed_players, inputs), inputs);
    let launched = flown_projectiles(
        s.projectiles + shots(placed_players, inputs, placed_players.len()),
        dt,
    );
    let projectiles = flying(launched, s.barriers, launched.len());
    WorldState {
        players: survivors(armed, projectiles, armed.len()),
        projectiles: unspent(projectiles, armed, projectiles.len()),
        barriers: standing(s.barriers, launched, s.barriers.len()),
        scores: credited(s.scores, armed, projectiles),
        phase: phase_after_hits(s.phase, armed, projectiles, s.scores.len()),
        timer: s.timer,
        seed: s.seed,
    }
}

/// The world after each player that clicks has placed its barrier.
pub open spec fn after_placement(s: WorldState, inputs: Seq<u32>) -> WorldState {
    WorldState { barriers: s.barriers + placed(s.players, inputs, s.players.len()), ..s }
}

/// The world at the start of a new round: new terrain first, then new
/// players, and no projectile; scores, timer and session seed stay.
pub open spec fn restarted(s: WorldState) -> WorldState {
    WorldState {
        players: spawn_of(spawn_seed_of(s.players, s.scores, s.seed), s.scores.len()),
        projectiles: Seq::empty(),
        barriers: terrain_of(round_seed_of(score_sum(s.scores), s.seed)),
        phase: GamePhase::ActiveRound,
        ..s
    }
}

/// The world after `dt` milliseconds of the pause between rounds: the
/// timer runs, and where it fires a new round starts.
pub open spec fn after_pause(s: WorldState, dt: u32) -> WorldState {
    let waited = WorldState { timer: s.timer.after(dt), ..s };
    if s.timer.fires(dt) {
        restarted(waited)
    } else {
        waited
    }
}

/// The world one tick of `dt` milliseconds after `s`, under `inputs`.
pub open spec fn stepped(s: WorldState, inputs: Seq<u32>, dt: u32) -> WorldState {
    if s.phase == GamePhase::ActiveRound {
        after_placement(after_active(s, inputs, dt), inputs)
    } else {
        after_pause(after_placement(s, inputs), dt)
    }
}

/// The change of phase from `before` to `after`, if there is one.
pub open spec fn transition_of(before: GamePhase, after: GamePhase) -> Option<GamePhase> {
    if after == before {
        None
    } else {
        Some(after)
    }
}

/// The world of a session of `count` players that has just begun.
pub open spec fn initial_state(session: RandomSeed, count: nat) -> WorldState {
    restarted(
        WorldState {
            players: Seq::empty(),
            projectiles: Seq::empty(),
            barriers: Seq::empty(),
            scores: Seq::new(count, |i: int| 0u64),
            phase: GamePhase::ActiveRound,
            timer: RoundTimer { elapsed: 0, period: ROUND_PAUSE },
            seed: session,
        },
    )
}

impl Clone for World {
    /// A snapshot of the world, to step again from.
    fn clone(&self) -> (copy: Self)
        ensures
            copy@ == self@,
    {
        let players = self.players.clone();
        let projectiles = self.projectiles.clone();
        let barriers = self.barriers.clone();
        assert(players@ =~= self.players@);
        assert(projectiles@ =~= self.projectiles@);
        assert(barriers@ =~= self.barriers@);
        World {
            players,
            projectiles,
            barriers,
            scores: self.scores.clone(),
            phase: self.phase,
            timer: self.timer,
            seed: self.seed,
        }
    }
}

impl World {
    /// The value of the world.
    pub open spec fn view(&self) -> WorldState {
        WorldState {
            players: self.players@,
            projectiles: self.projectiles@,
            barriers: self.barriers@,
            scores: self.scores@,
            phase: self.phase,
            timer: self.timer,
            seed: self.seed,
        }
    }

    /// The world holds no more players than the session has scores, each
    /// with a handle of the session, and every entity is within the coordinates
    /// that the simulation handles.
    pub open spec fn wf(&self) -> bool {
        &&& self.players@.len() <= self.scores@.len()
        &&& players_ok(self.players@, self.scores@.len() as int)
        &&& projectiles_ok(self.projectiles@)
        &&& barriers_ok(self.barriers@)
        &&& self.scores.wf()
        &&& self.timer.wf()
    }

    /// Every score can still grow by one for each player.
    pub open spec fn scores_have_room(&self) -> bool {
        forall|w: int| 0 <= w < NUM_PLAYERS ==> self.scores@[w] + self.scores@.len() <= u64::MAX
    }

    /// The world at the start of a session of two players: first round,
    /// no score.
    pub fn new(session: RandomSeed) -> (world: World)
        ensures
            world@ == initial_state(session, NUM_PLAYERS as nat),
            world.wf(),
    {
        World::with_players(session, NUM_PLAYERS)
    }

    /// The world at the start of a session of `count` players.
    pub fn with_players(session: RandomSeed, count: usize) -> (world: World)
        requires
            NUM_PLAYERS <= count <= MAX_PLAYERS,
        ensures
            world@ == initial_state(session, count as nat),
            world.wf(),
    {
        let mut world = World {
            players: Vec::new(),
            projectiles: Vec::new(),
            barriers: Vec::new(),
            scores: PlayerScores::for_players(count),
            phase: GamePhase::ActiveRound,
            timer: RoundTimer { elapsed: 0, period: ROUND_PAUSE },
            seed: session,
        };
        world.start_round();
        world
    }

    /// Starts a new round: terrain first, then players.
    pub fn start_round(&mut self)
        requires
            old(self).scores.wf(),
            old(self).timer.wf(),
            old(self).players@.len() <= old(self).scores@.len(),
            players_ok(old(self).players@, old(self).scores@.len() as int),
        ensures
            final(self)@ == restarted(old(self)@),
            final(self).wf(),
    {
        self.phase = GamePhase::ActiveRound;
        create_world(&mut self.barriers, self.seed, &self.scores);
        initialize_players(&mut self.players, &mut self.projectiles, self.seed, &self.scores);
        assert(self.projectiles@ =~= Seq::empty());
    }

    /// Runs the six passes of an active round. No projectile is left
    /// beyond the world when they are done.
    pub fn active_round(&mut self, inputs: &Vec<u32>, dt: u32)
        requires
            old(self).wf(),
            old(self).scores_have_room(),
            inputs@.len() == old(self).scores@.len(),
        ensures
            final(self)@ == after_active(old(self)@, inputs@, dt),
            final(self).wf(),
            forall|k: int|
                0 <= k < final(self).projectiles@.len() ==> !out_of_bounds(
                    (#[trigger] final(self).projectiles@[k]).position,
                ),
    {
        let ghost n = inputs@.len() as int;
        move_players(&mut self.players, inputs, dt);
        handle_barrier_collisions(&mut self.players, &self.barriers);
        assert(players_ok(self.players@, n));
        fire_projectile(&mut self.players, &mut self.projectiles, inputs);
        reload_projectile(&mut self.players, inputs);
        let ghost armed = self.players@;
        move_projectile(&mut self.projectiles, dt);
        let ghost launched = self.projectiles@;
        projectile_barrier_collisions(&mut self.projectiles, &mut self.barriers);
        proof {
            flying_within_bounds(launched, old(self).barriers@, launched.len());
            survivors_were_players(armed, self.projectiles@, armed.len());
            survivors_len(armed, self.projectiles@, armed.len());
            let kept = self.projectiles@;
            assert forall|k: int| 0 <= k < kept.len() implies (#[trigger] kept[k]).wf() by {
                let i = choose|i: int| 0 <= i < launched.len() && launched[i] == kept[k];
                assert(!out_of_bounds(kept[k].position));
            }
            unspent_were_flying(kept, armed, kept.len());
            let left = unspent(kept, armed, kept.len());
            assert forall|k: int| 0 <= k < left.len() implies (#[trigger] left[k]).wf()
                && !out_of_bounds(left[k].position) by {
                let j = choose|j: int| 0 <= j < kept.len() && kept[j] == left[k];
                assert(kept[j].wf());
            }
            let alive = survivors(armed, kept, armed.len());
            assert forall|k: int| 0 <= k < alive.len() implies (#[trigger] alive[k]).wf()
                && alive[k].handle < n by {
                let i = choose|i: int| 0 <= i < armed.len() && armed[i] == alive[k];
                assert(armed[i].wf());
            }
        }
        check_player_collisions(
            &mut self.players,
            &mut self.projectiles,
            &mut self.phase,
            &mut self.scores,
        );
    }

    /// Advances the world by one tick of `dt` milliseconds. `inputs` holds
    /// the input word of each player, by handle. In an active round the six
    /// passes run, then barriers are placed; between rounds barriers are
    /// placed, then the pause timer runs and may start the next round. The
    /// result is the phase that the tick has led into, if it changed.
    pub fn step(&mut self, inputs: &Vec<u32>, dt: u32) -> (transition: Option<GamePhase>)
        requires
            old(self).wf(),
            old(self).scores_have_room(),
            inputs@.len() == old(self).scores@.len(),
        ensures
            final(self)@ == stepped(old(self)@, inputs@, dt),
            final(self).wf(),
            transition == transition_of(old(self).phase, final(self).phase),
    {
        let before = self.phase;
        if self.phase == GamePhase::ActiveRound {
            self.active_round(inputs, dt);
            place_barrier_on_click(&mut self.barriers, inputs, &self.players);
        } else {
            place_barrier_on_click(&mut self.barriers, inputs, &self.players);
            let fired = round_over_timer(&mut self.timer, &mut self.phase, dt);
            if fired {
                self.start_round();
            }
        }
        if self.phase == before {
            None
        } else {
            Some(self.phase)
        }
    }
}

/// A tick is a function of the world and the inputs: from equal worlds,
/// equal inputs and an equal duration it leads to equal worlds, however
/// often it is run.
pub proof fn step_is_reproducible(
    a: WorldState,
    b: WorldState,
    inputs: Seq<u32>,
    again: Seq<u32>,
    dt: u32,
)
    requires
        a == b,
        inputs == again,
    ensures
        stepped(a, inputs, dt) == stepped(b, again, dt),
{
}

/// Two worlds begun from one session seed are the same world: terrain and
/// spawns depend on nothing but the seed, the scores and the players left.
pub proof fn layout_is_reproducible(a: WorldState, b: WorldState)
    requires
        a.scores == b.scores,
        a.seed == b.seed,
        a.players == b.players,
    ensures
        restarted(a).barriers == restarted(b).barriers,
        restarted(a).players == restarted(b).players,
{
}

/// Firing and reloading do not depend on their order: a player fires at
/// most once per press of the trigger either way.
pub proof fn fire_and_reload_commute(player: Player, input: u32)
    ensures
        after_reload(after_fire(player, input), input) == after_fire(
            after_reload(player, input),
            input,
        ),
        fires(after_reload(player, input), input) == fires(player, input),
        !fires(after_fire(player, input), input),
{
}

} // verus!
