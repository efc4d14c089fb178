//! Projectiles: how they are fired and how they fly.

use vstd::prelude::*;
use crate::geometry::{
    scale_vec, scaled_vec, within, Vec2, COORD_LIMIT, PLAYER_RADIUS, PROJECTILE_RADIUS,
};
use crate::input_handler::{is_shooting, shooting};
use crate::player_module::{players_ok, CanAttack, MovementDirection, Player};

verus! {

/// Speed of every projectile, in world units per second.
pub const PROJECTILE_SPEED: i64 = 20;

/// Farthest from either axis that a projectile may be before it flies.
pub const LAUNCH_LIMIT: i64 = 1_000_001_000;

/// A projectile in flight.
#[derive(Clone, Copy, Debug, PartialEq, Eq, Structural)]
pub struct Projectile {
    /// The facing of the player that fired it, at that moment.
    pub direction: MovementDirection,
    pub position: Vec2,
}

impl Projectile {
    /// The projectile flies along a vector no longer than a unit, from
    /// within the coordinates that the simulation handles.
    pub open spec fn wf(&self) -> bool {
        within(self.position, LAUNCH_LIMIT as int) && within(self.direction.0, 1000)
    }
}

/// Whether every projectile of `projectiles` is well formed.
pub open spec fn projectiles_ok(projectiles: Seq<Projectile>) -> bool {
    forall|i: int| 0 <= i < projectiles.len() ==> (#[trigger] projectiles[i]).wf()
}

/// The projectile that `player` fires: it starts a player's radius along
/// the facing, moved by a projectile's radius on either axis.
pub open spec fn shot_of(player: Player) -> Projectile {
    let reach = scaled_vec(player.direction.0, PLAYER_RADIUS as int);
    Projectile {
        direction: player.direction,
        position: Vec2 {
            x: (player.position.x + reach.x + PROJECTILE_RADIUS) as i64,
            y: (player.position.y + reach.y + PROJECTILE_RADIUS) as i64,
        },
    }
}

/// Whether `player` fires on `input`: the trigger is held and the player
/// may attack.
pub open spec fn fires(player: Player, input: u32) -> bool {
    shooting(input) && player.can_attack.0
}

/// `player` after the firing pass: one that fired may not attack.
pub open spec fn after_fire(player: Player, input: u32) -> Player {
    if fires(player, input) {
        Player { can_attack: CanAttack(false), ..player }
    } else {
        player
    }
}

/// Every player of `players` after the firing pass.
pub open spec fn fired_players(players: Seq<Player>, inputs: Seq<u32>) -> Seq<Player> {
    Seq::new(players.len(), |i: int| after_fire(players[i], inputs[players[i].handle as int]))
}

/// The projectiles that the first `count` players fire, in order.
pub open spec fn shots(players: Seq<Player>, inputs: Seq<u32>, count: nat) -> Seq<Projectile>
    decreases count,
{
    if count == 0 {
        Seq::empty()
    } else {
        let before = shots(players, inputs, (count - 1) as nat);
        let player = players[count - 1];
        if fires(player, inputs[player.handle as int]) {
            before.push(shot_of(player))
        } else {
            before
        }
    }
}

/// Lets every player fire that holds the trigger and may attack.
pub fn fire_projectile(
    players: &mut Vec<Player>,
    projectiles: &mut Vec<Projectile>,
    inputs: &Vec<u32>,
)
    requires
        players_ok(old(players)@, inputs@.len() as int),
        projectiles_ok(old(projectiles)@),
    ensures
        final(players)@ == fired_players(old(players)@, inputs@),
        final(projectiles)@ == old(projectiles)@ + shots(
            old(players)@,
            inputs@,
            old(players)@.len(),
        ),
        players_ok(final(players)@, inputs@.len() as int),
        projectiles_ok(final(projectiles)@),
{
    let mut i: usize = 0;
    while i < players.len()
        invariant
            i <= players.len(),
            players@.len() == old(players)@.len(),
            players_ok(old(players)@, inputs@.len() as int),
            players_ok(players@, inputs@.len() as int),
            projectiles_ok(projectiles@),
            forall|j: int|
                0 <= j < i ==> players@[j] == after_fire(
                    old(players)@[j],
                    inputs@[old(players)@[j].handle as int],
                ),
            forall|j: int| i <= j < players@.len() ==> players@[j] == old(players)@[j],
            projectiles@ == old(projectiles)@ + shots(old(players)@, inputs@, i as nat),
        decreases players.len() - i,
    {
        let mut player = players[i];
        if is_shooting(inputs[player.handle]) && player.can_attack.0 {
            let reach = scale_vec(player.direction.0, PLAYER_RADIUS);
            let position = Vec2 {
                x: player.position.x + reach.x + PROJECTILE_RADIUS,
                y: player.position.y + reach.y + PROJECTILE_RADIUS,
            };
            projectiles.push(Projectile { direction: player.direction, position });
            player.can_attack = CanAttack(false);
            players.set(i, player);
        }
        i = i + 1;
        assert(projectiles@ =~= old(projectiles)@ + shots(old(players)@, inputs@, i as nat));
    }
    assert(players@ =~= fired_players(old(players)@, inputs@));
}

/// `player` after the reload pass: one whose trigger is released may attack.
pub open spec fn after_reload(player: Player, input: u32) -> Player {
    if shooting(input) {
        player
    } else {
        Player { can_attack: CanAttack(true), ..player }
    }
}

/// Every player of `players` after the reload pass.
pub open spec fn reloaded_players(players: Seq<Player>, inputs: Seq<u32>) -> Seq<Player> {
    Seq::new(players.len(), |i: int| after_reload(players[i], inputs[players[i].handle as int]))
}

/// Lets every player attack again whose trigger is released.
pub fn reload_projectile(players: &mut Vec<Player>, inputs: &Vec<u32>)
    requires
        players_ok(old(players)@, inputs@.len() as int),
    ensures
        final(players)@ == reloaded_players(old(players)@, inputs@),
        players_ok(final(players)@, inputs@.len() as int),
{
    let mut i: usize = 0;
    while i < players.len()
        invariant
            i <= players.len(),
            players@.len() == old(players)@.len(),
            players_ok(old(players)@, inputs@.len() as int),
            players_ok(players@, inputs@.len() as int),
            forall|j: int|
                0 <= j < i ==> players@[j] == after_reload(
                    old(players)@[j],
                    inputs@[old(players)@[j].handle as int],
                ),
            forall|j: int| i <= j < players@.len() ==> players@[j] == old(players)@[j],
        decreases players.len() - i,
    {
        let mut player = players[i];
        if !is_shooting(inputs[player.handle]) {
            player.can_attack = CanAttack(true);
            players.set(i, player);
        }
        i = i + 1;
    }
    assert(players@ =~= reloaded_players(old(players)@, inputs@));
}

/// `player` after the firing and reload passes of as many ticks as the
/// first `count` of `inputs`, one input word for each tick.
pub open spec fn after_presses(player: Player, inputs: Seq<u32>, count: nat) -> Player
    decreases count,
{
    if count == 0 {
        player
    } else {
        let before = after_presses(player, inputs, (count - 1) as nat);
        after_reload(after_fire(before, inputs[count - 1]), inputs[count - 1])
    }
}

/// The shots that `player` fires in those ticks.
pub open spec fn shots_fired(player: Player, inputs: Seq<u32>, count: nat) -> nat
    decreases count,
{
    if count == 0 {
        0
    } else {
        let before = after_presses(player, inputs, (count - 1) as nat);
        let now: nat = if fires(before, inputs[count - 1]) { 1 } else { 0 };
        shots_fired(player, inputs, (count - 1) as nat) + now
    }
}

/// A trigger held over any number of ticks fires one shot if the player
/// could attack when the press began, and none otherwise; while it is held
/// the player cannot attack again.
pub proof fn held_trigger_fires_once(player: Player, inputs: Seq<u32>, count: nat)
    requires
        count <= inputs.len(),
        forall|i: int| 0 <= i < count ==> shooting(#[trigger] inputs[i]),
    ensures
        shots_fired(player, inputs, count) == (if count > 0 && player.can_attack.0 {
            1nat
        } else {
            0nat
        }),
        count > 0 ==> !after_presses(player, inputs, count).can_attack.0,
    decreases count,
{
    if count > 0 {
        held_trigger_fires_once(player, inputs, (count - 1) as nat);
        assert(shooting(inputs[count - 1]));
    }
}

/// `projectile` after `dt` milliseconds of flight at the common speed.
pub open spec fn flown(projectile: Projectile, dt: u32) -> Projectile {
    let delta = scaled_vec(projectile.direction.0, PROJECTILE_SPEED * dt);
    Projectile {
        position: Vec2 {
            x: (projectile.position.x + delta.x) as i64,
            y: (projectile.position.y + delta.y) as i64,
        },
        ..projectile
    }
}

/// Every projectile of `projectiles` after `dt` milliseconds of flight.
pub open spec fn flown_projectiles(projectiles: Seq<Projectile>, dt: u32) -> Seq<Projectile> {
    Seq::new(projectiles.len(), |i: int| flown(projectiles[i], dt))
}

/// Whether every projectile of `projectiles` is within the coordinates
/// that the simulation handles.
pub open spec fn projectiles_in_range(projectiles: Seq<Projectile>) -> bool {
    forall|i: int|
        0 <= i < projectiles.len() ==> within(
            (#[trigger] projectiles[i]).position,
            COORD_LIMIT as int,
        )
}

/// Lets every projectile fly for `dt` milliseconds.
pub fn move_projectile(projectiles: &mut Vec<Projectile>, dt: u32)
    requires
        projectiles_ok(old(projectiles)@),
    ensures
        final(projectiles)@ == flown_projectiles(old(projectiles)@, dt),
        projectiles_in_range(final(projectiles)@),
{
    let mut i: usize = 0;
    while i < projectiles.len()
        invariant
            i <= projectiles.len(),
            projectiles@.len() == old(projectiles)@.len(),
            projectiles_ok(old(projectiles)@),
            forall|j: int|
                0 <= j < i ==> projectiles@[j] == flown(old(projectiles)@[j], dt) && within(
                    (#[trigger] projectiles@[j]).position,
                    COORD_LIMIT as int,
                ),
            forall|j: int| i <= j < projectiles@.len() ==> projectiles@[j] == old(projectiles)@[j],
        decreases projectiles.len() - i,
    {
        let mut projectile = projectiles[i];
        let delta = scale_vec(projectile.direction.0, PROJECTILE_SPEED * (dt as i64));
        projectile.position = Vec2 {
            x: projectile.position.x + delta.x,
            y: projectile.position.y + delta.y,
        };
        projectiles.set(i, projectile);
        i = i + 1;
    }
    assert(projectiles@ =~= flown_projectiles(old(projectiles)@, dt));
}

} // verus!
