//! Players: how they spawn, move and are hit.

use vstd::prelude::*;
use crate::generator::{
    after_draw, draw_range, drawn, generator_state, seeded_generator, seeded_state,
};
use crate::geometry::{
    clamp_i64, clamped, length_of, normalize_or_zero, normalized, scale_vec, scaled_vec, within,
    Vec2, COORD_LIMIT, PLAYER_RADIUS, PROJECTILE_RADIUS,
};
use crate::input_handler::{direction, direction_of};
use crate::network_manager::{
    round_seed_of, score_sum, spawn_seed, whole_units, wrapped_sum, RandomSeed, NUM_PLAYERS,
};
use crate::projectile::{projectiles_in_range, Projectile};
use crate::utilities::{GamePhase, PlayerScores, MAX_PLAYERS};

verus! {

/// Speed of every player, in world units per second.
pub const PLAYER_SPEED: i64 = 10;

/// Largest speed of a player that the simulation handles.
pub const SPEED_LIMIT: i64 = 1_000_000;

/// Farthest that moving takes the centre of a player from either axis:
/// half the side of the world less half the radius of a player.
pub const MOVE_LIMIT: i64 = 20250;

/// Largest magnitude of a player's coordinate that the simulation handles.
pub const PLAYER_LIMIT: i64 = 1_000_000_000;

/// Side of the world, in thousandths.
pub const WORLD_SPAN: u32 = 41000;

/// Half of `WORLD_SPAN`.
pub const WORLD_SHIFT: i64 = 20500;

/// Distance of the aim indicator from the centre of its player, in
/// thousandths of the facing vector.
pub const GUN_REACH: i64 = 500;

/// A colour, each channel in thousandths of full intensity.
#[derive(Clone, Copy, Debug, PartialEq, Eq, Structural)]
pub struct Color {
    pub red: u32,
    pub green: u32,
    pub blue: u32,
}

/// Whether a player may fire.
#[derive(Clone, Copy, Debug, PartialEq, Eq, Structural)]
pub struct CanAttack(pub bool);

/// The unit vector along which a player faces or a projectile flies.
#[derive(Clone, Copy, Debug, PartialEq, Eq, Structural)]
pub struct MovementDirection(pub Vec2);

/// The aim indicator of a player.
#[derive(Clone, Copy, Debug, PartialEq, Eq, Structural)]
pub struct Gun {
    /// Where the indicator sits, relative to the centre of its player.
    pub offset: Vec2,
}

/// A player.
#[derive(Clone, Copy, Debug, PartialEq, Eq, Structural)]
pub struct Player {
    pub speed: i64,
    pub handle: usize,
    pub color: Color,
    pub position: Vec2,
    pub direction: MovementDirection,
    pub can_attack: CanAttack,
    pub gun: Gun,
}

impl Player {
    /// The player is within the coordinates that the simulation handles,
    /// faces along a vector no longer than a unit and has a speed within limits.
    pub open spec fn wf(&self) -> bool {
        &&& within(self.position, PLAYER_LIMIT as int)
        &&& within(self.direction.0, 1000)
        &&& 0 <= self.speed <= SPEED_LIMIT
    }
}

/// Whether every player of `players` is well formed and has an input in a
/// list of `inputs` words.
pub open spec fn players_ok(players: Seq<Player>, inputs: int) -> bool {
    forall|i: int|
        0 <= i < players.len() ==> (#[trigger] players[i]).wf() && players[i].handle < inputs
}

/// Whether every player of `players` is within the coordinates that the
/// simulation handles.
pub open spec fn players_in_range(players: Seq<Player>) -> bool {
    forall|i: int|
        0 <= i < players.len() ==> within((#[trigger] players[i]).position, COORD_LIMIT as int)
}

/// Where the aim indicator sits for a player that faces along `facing`.
pub open spec fn gun_at(facing: Vec2) -> Gun {
    Gun { offset: scaled_vec(facing, GUN_REACH as int) }
}

/// A new player at `position`: ready to fire, at the common speed.
pub open spec fn new_player(position: Vec2, handle: usize, color: Color, facing: Vec2) -> Player {
    Player {
        speed: PLAYER_SPEED,
        handle,
        color,
        position,
        direction: MovementDirection(facing),
        can_attack: CanAttack(true),
        gun: gun_at(facing),
    }
}

/// Makes a player for the start of a round.
pub fn create_player(
    position: Vec2,
    handle: usize,
    color: Color,
    initial_direction: Vec2,
) -> (player: Player)
    requires
        within(initial_direction, 1000),
    ensures
        player == new_player(position, handle, color, initial_direction),
{
    Player {
        speed: PLAYER_SPEED,
        handle,
        color,
        position,
        direction: MovementDirection(initial_direction),
        can_attack: CanAttack(true),
        gun: Gun { offset: scale_vec(initial_direction, GUN_REACH) },
    }
}

/// The sum of the horizontal coordinates of the first `count` players.
pub open spec fn total_x(players: Seq<Player>, count: nat) -> int
    decreases count,
{
    if count == 0 {
        0
    } else {
        total_x(players, (count - 1) as nat) + players[count - 1].position.x
    }
}

/// The position drawn in generator state `state`: one draw for each axis,
/// over the whole side of the world.
pub open spec fn drawn_position(state: Seq<u64>) -> Vec2 {
    Vec2 {
        x: (drawn(state, 0, WORLD_SPAN) - WORLD_SHIFT) as i64,
        y: (drawn(after_draw(state, 0, WORLD_SPAN), 0, WORLD_SPAN) - WORLD_SHIFT) as i64,
    }
}

/// The generator state after `count` positions drawn from `state`.
pub open spec fn state_after_positions(state: Seq<u64>, count: nat) -> Seq<u64>
    decreases count,
{
    if count == 0 {
        state
    } else {
        let before = state_after_positions(state, (count - 1) as nat);
        after_draw(after_draw(before, 0, WORLD_SPAN), 0, WORLD_SPAN)
    }
}

/// The colour drawn in generator state `state`: one draw for each channel.
pub open spec fn drawn_color(state: Seq<u64>) -> Color {
    let s1 = after_draw(state, 0, 1000);
    let s2 = after_draw(s1, 0, 1000);
    Color { red: drawn(state, 0, 1000), green: drawn(s1, 0, 1000), blue: drawn(s2, 0, 1000) }
}

/// The generator state after the three draws of a colour.
pub open spec fn state_after_color(state: Seq<u64>) -> Seq<u64> {
    after_draw(after_draw(after_draw(state, 0, 1000), 0, 1000), 0, 1000)
}

/// The vector drawn in generator state `state` before it is scaled to a
/// unit: one draw for each component, from minus one unit up to one unit.
pub open spec fn drawn_heading(state: Seq<u64>) -> Vec2 {
    Vec2 {
        x: (drawn(state, 0, 2000) - 1000) as i64,
        y: (drawn(after_draw(state, 0, 2000), 0, 2000) - 1000) as i64,
    }
}

/// The facing drawn in generator state `state`.
pub open spec fn drawn_facing(state: Seq<u64>) -> Vec2 {
    normalized(drawn_heading(state), length_of(drawn_heading(state)))
}

/// The generator state after the colour and facing of one player.
pub open spec fn state_after_look(state: Seq<u64>) -> Seq<u64> {
    after_draw(after_draw(state_after_color(state), 0, 2000), 0, 2000)
}

/// The generator state after the colours and facings of `count` players.
pub open spec fn state_after_looks(state: Seq<u64>, count: nat) -> Seq<u64>
    decreases count,
{
    if count == 0 {
        state
    } else {
        state_after_look(state_after_looks(state, (count - 1) as nat))
    }
}

/// The player with index `index` among the `count` spawned from generator
/// state `state`: all positions are drawn first, then colour and facing of each
/// player in turn.
pub open spec fn spawned_player(state: Seq<u64>, index: int, count: nat) -> Player {
    let looks = state_after_looks(state_after_positions(state, count), index as nat);
    new_player(
        drawn_position(state_after_positions(state, index as nat)),
        index as usize,
        drawn_color(looks),
        drawn_facing(state_after_color(looks)),
    )
}

/// The `count` players of the round whose spawn seed is `seed`.
pub open spec fn spawn_of(seed: u64, count: nat) -> Seq<Player> {
    Seq::new(count, |i: int| spawned_player(seeded_state(seed), i, count))
}

/// Whether `player` is as a round spawns it: within the world on both
/// axes, and with every colour channel below full intensity.
pub open spec fn freshly_spawned(player: Player) -> bool {
    &&& -WORLD_SHIFT <= player.position.x < WORLD_SHIFT
    &&& -WORLD_SHIFT <= player.position.y < WORLD_SHIFT
    &&& player.color.red < 1000
    &&& player.color.green < 1000
    &&& player.color.blue < 1000
    &&& player.speed == PLAYER_SPEED
    &&& player.can_attack.0
}

/// The spawn seed of the round that follows one which `players` survived.
pub open spec fn spawn_seed_of(players: Seq<Player>, scores: Seq<u64>, session: RandomSeed) -> u64 {
    round_seed_of(
        wrapped_sum(whole_units(total_x(players, players.len())), score_sum(scores)),
        session,
    )
}

/// The sum of `count` coordinates lies within `count` times their limit.
proof fn total_x_bound(players: Seq<Player>, count: nat)
    requires
        count <= players.len(),
        players_in_range(players),
    ensures
        -count * COORD_LIMIT <= total_x(players, count) <= count * COORD_LIMIT,
    decreases count,
{
    if count > 0 {
        total_x_bound(players, (count - 1) as nat);
        assert((count - 1) * COORD_LIMIT + COORD_LIMIT == count * COORD_LIMIT) by (nonlinear_arith);
    }
}

/// Starts a round: the players and projectiles left from the last one go,
/// and new players spawn from a generator seeded with the two scores, the
/// horizontal coordinates of the players that were left, and the session's
/// seed.
pub fn initialize_players(
    players: &mut Vec<Player>,
    projectiles: &mut Vec<Projectile>,
    session: RandomSeed,
    scores: &PlayerScores,
)
    requires
        scores.wf(),
        old(players)@.len() <= MAX_PLAYERS,
        players_in_range(old(players)@),
    ensures
        final(players)@ == spawn_of(spawn_seed_of(old(players)@, scores@, session), scores@.len()),
        final(projectiles)@.len() == 0,
        final(players)@.len() == scores@.len(),
        players_ok(final(players)@, scores@.len() as int),
        forall|k: int|
            0 <= k < final(players)@.len() ==> freshly_spawned(#[trigger] final(players)@[k])
                && final(players)@[k].handle == k,
{
    let mut sum: i64 = 0;
    let mut k: usize = 0;
    while k < players.len()
        invariant
            k <= players.len(),
            players.len() <= MAX_PLAYERS,
            players@ == old(players)@,
            players_in_range(players@),
            sum == total_x(players@, k as nat),
            -k * COORD_LIMIT <= sum <= k * COORD_LIMIT,
        decreases players.len() - k,
    {
        proof {
            total_x_bound(players@, (k + 1) as nat);
            assert(MAX_PLAYERS * COORD_LIMIT < i64::MAX) by (nonlinear_arith);
            assert((k + 1) * COORD_LIMIT <= MAX_PLAYERS * COORD_LIMIT) by (nonlinear_arith)
                requires k + 1 <= MAX_PLAYERS;
        }
        sum = sum + players[k].position.x;
        k = k + 1;
    }
    let seed: u64 = spawn_seed(scores, sum, session);
    players.clear();
    projectiles.clear();
    let mut rng = seeded_generator(seed);
    let ghost start = seeded_state(seed);
    let count: usize = scores.player_count();
    let mut positions: Vec<Vec2> = Vec::new();
    let mut i: usize = 0;
    while i < count
        invariant
            i <= count,
            positions@.len() == i,
            forall|j: int|
                0 <= j < i ==> positions@[j] == drawn_position(
                    state_after_positions(start, j as nat),
                ),
            forall|j: int|
                0 <= j < i ==> -WORLD_SHIFT <= (#[trigger] positions@[j]).x < WORLD_SHIFT
                    && -WORLD_SHIFT <= positions@[j].y < WORLD_SHIFT,
            generator_state(rng) == state_after_positions(start, i as nat),
        decreases count - i,
    {
        let x: u32 = draw_range(&mut rng, 0, WORLD_SPAN);
        let y: u32 = draw_range(&mut rng, 0, WORLD_SPAN);
        positions.push(Vec2 { x: x as i64 - WORLD_SHIFT, y: y as i64 - WORLD_SHIFT });
        i = i + 1;
    }
    let ghost middle = state_after_positions(start, count as nat);
    let mut n: usize = 0;
    while n < count
        invariant
            n <= count,
            positions@.len() == count,
            forall|j: int|
                0 <= j < count ==> positions@[j] == drawn_position(
                    state_after_positions(start, j as nat),
                ),
            forall|j: int|
                0 <= j < count ==> -WORLD_SHIFT <= (#[trigger] positions@[j]).x < WORLD_SHIFT
                    && -WORLD_SHIFT <= positions@[j].y < WORLD_SHIFT,
            middle == state_after_positions(start, count as nat),
            players@.len() == n,
            forall|j: int| 0 <= j < n ==> players@[j] == spawned_player(start, j, count as nat),
            players_ok(players@, count as int),
            forall|j: int|
                0 <= j < n ==> freshly_spawned(#[trigger] players@[j]) && players@[j].handle == j,
            generator_state(rng) == state_after_looks(middle, n as nat),
        decreases count - n,
    {
        let red: u32 = draw_range(&mut rng, 0, 1000);
        let green: u32 = draw_range(&mut rng, 0, 1000);
        let blue: u32 = draw_range(&mut rng, 0, 1000);
        let hx: u32 = draw_range(&mut rng, 0, 2000);
        let hy: u32 = draw_range(&mut rng, 0, 2000);
        let heading = Vec2 { x: hx as i64 - 1000, y: hy as i64 - 1000 };
        let facing = normalize_or_zero(heading);
        let player = create_player(positions[n], n, Color { red, green, blue }, facing);
        players.push(player);
        n = n + 1;
    }
    assert(players@ =~= spawn_of(seed, count as nat));
}

/// The player `player` after the movement that `input` asks for in `dt`
/// milliseconds. Steering turns the player and moves it by its speed,
/// held within the world less half its radius; without steering it stays and
/// keeps its facing. The aim indicator follows the facing either way.
pub open spec fn moved(player: Player, input: u32, dt: u32) -> Player {
    let steer = direction_of(input);
    if steer == (Vec2 { x: 0, y: 0 }) {
        Player { gun: gun_at(player.direction.0), ..player }
    } else {
        let delta = scaled_vec(steer, player.speed * dt);
        let limit = MOVE_LIMIT as int;
        Player {
            position: Vec2 {
                x: clamped(player.position.x + delta.x, -limit, limit) as i64,
                y: clamped(player.position.y + delta.y, -limit, limit) as i64,
            },
            direction: MovementDirection(steer),
            gun: gun_at(steer),
            ..player
        }
    }
}

/// Every player of `players` after its movement.
pub open spec fn moved_players(players: Seq<Player>, inputs: Seq<u32>, dt: u32) -> Seq<Player> {
    Seq::new(players.len(), |i: int| moved(players[i], inputs[players[i].handle as int], dt))
}

/// Moves one player as its input asks.
pub fn move_player(player: Player, input: u32, dt: u32) -> (r: Player)
    requires
        player.wf(),
    ensures
        r == moved(player, input, dt),
        r.wf(),
        r.handle == player.handle,
{
    let steer = direction(input);
    let mut r = player;
    if steer.x == 0 && steer.y == 0 {
        r.gun = Gun { offset: scale_vec(player.direction.0, GUN_REACH) };
        return r;
    }
    assert(0 <= player.speed * dt <= 5_000_000_000_000_000) by (nonlinear_arith)
        requires
            0 <= player.speed <= 1_000_000,
            0 <= dt <= 0xffff_ffff,
    ;
    let delta = scale_vec(steer, player.speed * (dt as i64));
    r.position = Vec2 {
        x: clamp_i64(player.position.x + delta.x, -MOVE_LIMIT, MOVE_LIMIT),
        y: clamp_i64(player.position.y + delta.y, -MOVE_LIMIT, MOVE_LIMIT),
    };
    r.direction = MovementDirection(steer);
    r.gun = Gun { offset: scale_vec(steer, GUN_REACH) };
    r
}

/// Moves every player as its input asks.
pub fn move_players(players: &mut Vec<Player>, inputs: &Vec<u32>, dt: u32)
    requires
        players_ok(old(players)@, inputs@.len() as int),
    ensures
        final(players)@ == moved_players(old(players)@, inputs@, dt),
        players_ok(final(players)@, inputs@.len() as int),
{
    let mut i: usize = 0;
    while i < players.len()
        invariant
            i <= players.len(),
            players@.len() == old(players)@.len(),
            players_ok(old(players)@, inputs@.len() as int),
            players_ok(players@, inputs@.len() as int),
            forall|j: int|
                0 <= j < i ==> players@[j] == moved(
                    old(players)@[j],
                    inputs@[old(players)@[j].handle as int],
                    dt,
                ),
            forall|j: int| i <= j < players@.len() ==> players@[j] == old(players)@[j],
        decreases players.len() - i,
    {
        let player = players[i];
        let next = move_player(player, inputs[player.handle], dt);
        players.set(i, next);
        i = i + 1;
    }
    assert(players@ =~= moved_players(old(players)@, inputs@, dt));
}

/// Whether two circles overlap: their centres are closer than the sum of
/// their radii.
pub open spec fn colliding(a: Vec2, b: Vec2, radius_a: int, radius_b: int) -> bool {
    (a.x - b.x) * (a.x - b.x) + (a.y - b.y) * (a.y - b.y) < (radius_a + radius_b) * (radius_a
        + radius_b)
}

/// Whether two circles overlap.
pub fn is_colliding(pos1: Vec2, pos2: Vec2, radius1: i64, radius2: i64) -> (hit: bool)
    requires
        within(pos1, COORD_LIMIT as int),
        within(pos2, COORD_LIMIT as int),
        0 <= radius1 <= COORD_LIMIT,
        0 <= radius2 <= COORD_LIMIT,
    ensures
        hit == colliding(pos1, pos2, radius1 as int, radius2 as int),
{
    let dx: i128 = pos1.x as i128 - pos2.x as i128;
    let dy: i128 = pos1.y as i128 - pos2.y as i128;
    let reach: i128 = radius1 as i128 + radius2 as i128;
    assert(0 <= dx * dx <= 4_000_000_000_000_000_000_000_000 && 0 <= dy * dy
        <= 4_000_000_000_000_000_000_000_000 && 0 <= reach * reach
        <= 4_000_000_000_000_000_000_000_000) by (nonlinear_arith)
        requires
            -2_000_000_000_000 <= dx <= 2_000_000_000_000,
            -2_000_000_000_000 <= dy <= 2_000_000_000_000,
            0 <= reach <= 2_000_000_000_000,
    ;
    dx * dx + dy * dy < reach * reach
}

/// Whether `player` is hit by one of `projectiles`.
pub open spec fn is_hit(player: Player, projectiles: Seq<Projectile>) -> bool {
    exists|j: int| 0 <= j < projectiles.len() && colliding(
        player.position,
        (#[trigger] projectiles[j]).position,
        PLAYER_RADIUS as int,
        PROJECTILE_RADIUS as int,
    )
}

/// Those of the first `count` players that no projectile hits, in order.
pub open spec fn survivors(
    players: Seq<Player>,
    projectiles: Seq<Projectile>,
    count: nat,
) -> Seq<Player>
    decreases count,
{
    if count == 0 {
        Seq::empty()
    } else {
        let before = survivors(players, projectiles, (count - 1) as nat);
        if is_hit(players[count - 1], projectiles) {
            before
        } else {
            before.push(players[count - 1])
        }
    }
}

/// How many of the first `count` players are hit and credit the player
/// with index `winner`: a hit on player 0 credits player 1, a hit on any
/// other credits player 0.
pub open spec fn credits(
    players: Seq<Player>,
    projectiles: Seq<Projectile>,
    count: nat,
    winner: int,
) -> nat
    decreases count,
{
    if count == 0 {
        0
    } else {
        let before = credits(players, projectiles, (count - 1) as nat, winner);
        let player = players[count - 1];
        let counts = if player.handle == 0 { winner == 1 } else { winner == 0 };
        if is_hit(player, projectiles) && counts {
            before + 1
        } else {
            before
        }
    }
}

/// The scores after the hits among `players` have been credited. Hits
/// are scored in a session of two players only.
pub open spec fn credited(
    scores: Seq<u64>,
    players: Seq<Player>,
    projectiles: Seq<Projectile>,
) -> Seq<u64> {
    if scores.len() > NUM_PLAYERS {
        scores
    } else {
        Seq::new(
            scores.len(),
            |w: int| (scores[w] + credits(players, projectiles, players.len(), w)) as u64,
        )
    }
}

/// The phase after the hits among `players` in a session of `configured`
/// players. With two players any hit ends the round; with more, a hit
/// ends it where exactly one player remains.
pub open spec fn phase_after_hits(
    phase: GamePhase,
    players: Seq<Player>,
    projectiles: Seq<Projectile>,
    configured: nat,
) -> GamePhase {
    let left = survivors(players, projectiles, players.len()).len();
    if left < players.len() && (configured <= NUM_PLAYERS || left == 1) {
        GamePhase::RoundOver
    } else {
        phase
    }
}

/// Every survivor was among the players.
pub proof fn survivors_were_players(players: Seq<Player>, projectiles: Seq<Projectile>, count: nat)
    requires
        count <= players.len(),
    ensures
        forall|k: int| 0 <= k < survivors(players, projectiles, count).len() ==> exists|i: int|
            0 <= i < count && players[i] == #[trigger] survivors(players, projectiles, count)[k]
                && !is_hit(players[i], projectiles),
    decreases count,
{
    if count > 0 {
        survivors_were_players(players, projectiles, (count - 1) as nat);
        let before = survivors(players, projectiles, (count - 1) as nat);
        let now = survivors(players, projectiles, count);
        assert forall|k: int| 0 <= k < now.len() implies exists|i: int|
            0 <= i < count && players[i] == #[trigger] now[k] && !is_hit(
                players[i],
                projectiles,
            ) by {
            if k < before.len() {
                let i = choose|i: int|
                    0 <= i < count - 1 && players[i] == before[k] && !is_hit(
                        players[i],
                        projectiles,
                    );
                assert(players[i] == now[k]);
            } else {
                assert(players[count - 1] == now[k]);
            }
        }
    }
}

/// Among the first `count` players there are no more survivors, and no
/// more hits credited to either of the first two players, than `count`.
pub proof fn survivors_len(players: Seq<Player>, projectiles: Seq<Projectile>, count: nat)
    ensures
        survivors(players, projectiles, count).len() <= count,
        credits(players, projectiles, count, 0) <= count,
        credits(players, projectiles, count, 1) <= count,
    decreases count,
{
    if count > 0 {
        survivors_len(players, projectiles, (count - 1) as nat);
    }
}

/// Whether one of `projectiles` hits `player`.
pub fn player_is_hit(player: &Player, projectiles: &Vec<Projectile>) -> (hit: bool)
    requires
        within(player.position, COORD_LIMIT as int),
        projectiles_in_range(projectiles@),
    ensures
        hit == is_hit(*player, projectiles@),
{
    let mut j: usize = 0;
    while j < projectiles.len()
        invariant
            j <= projectiles.len(),
            within(player.position, COORD_LIMIT as int),
            projectiles_in_range(projectiles@),
            forall|k: int|
                0 <= k < j ==> !colliding(
                    player.position,
                    (#[trigger] projectiles@[k]).position,
                    PLAYER_RADIUS as int,
                    PROJECTILE_RADIUS as int,
                ),
        decreases projectiles.len() - j,
    {
        let at: Vec2 = projectiles[j].position;
        if is_colliding(player.position, at, PLAYER_RADIUS, PROJECTILE_RADIUS) {
            return true;
        }
        j = j + 1;
    }
    false
}

/// Whether `projectile` strikes one of `players`.
pub open spec fn strikes_player(projectile: Projectile, players: Seq<Player>) -> bool {
    exists|i: int|
        0 <= i < players.len() && colliding(
            (#[trigger] players[i]).position,
            projectile.position,
            PLAYER_RADIUS as int,
            PROJECTILE_RADIUS as int,
        )
}

/// Those of the first `count` projectiles that strike no player, in order.
pub open spec fn unspent(
    projectiles: Seq<Projectile>,
    players: Seq<Player>,
    count: nat,
) -> Seq<Projectile>
    decreases count,
{
    if count == 0 {
        Seq::empty()
    } else {
        let before = unspent(projectiles, players, (count - 1) as nat);
        if strikes_player(projectiles[count - 1], players) {
            before
        } else {
            before.push(projectiles[count - 1])
        }
    }
}

/// Every projectile that is not spent was among the projectiles and
/// strikes no player.
pub proof fn unspent_were_flying(projectiles: Seq<Projectile>, players: Seq<Player>, count: nat)
    requires
        count <= projectiles.len(),
    ensures
        unspent(projectiles, players, count).len() <= count,
        forall|k: int| 0 <= k < unspent(projectiles, players, count).len() ==> exists|j: int|
            0 <= j < count && projectiles[j] == #[trigger] unspent(projectiles, players, count)[k]
                && !strikes_player(projectiles[j], players),
    decreases count,
{
    if count > 0 {
        unspent_were_flying(projectiles, players, (count - 1) as nat);
        let before = unspent(projectiles, players, (count - 1) as nat);
        let now = unspent(projectiles, players, count);
        assert forall|k: int| 0 <= k < now.len() implies exists|j: int|
            0 <= j < count && projectiles[j] == #[trigger] now[k] && !strikes_player(
                projectiles[j],
                players,
            ) by {
            if k < before.len() {
                let j = choose|j: int|
                    0 <= j < count - 1 && projectiles[j] == before[k] && !strikes_player(
                        projectiles[j],
                        players,
                    );
                assert(projectiles[j] == now[k]);
            } else {
                assert(projectiles[count - 1] == now[k]);
            }
        }
    }
}

/// Whether `projectile` strikes one of `players`.
pub fn projectile_strikes(projectile: &Projectile, players: &Vec<Player>) -> (struck: bool)
    requires
        within(projectile.position, COORD_LIMIT as int),
        players_in_range(players@),
    ensures
        struck == strikes_player(*projectile, players@),
{
    let mut i: usize = 0;
    while i < players.len()
        invariant
            i <= players.len(),
            within(projectile.position, COORD_LIMIT as int),
            players_in_range(players@),
            forall|k: int|
                0 <= k < i ==> !colliding(
                    (#[trigger] players@[k]).position,
                    projectile.position,
                    PLAYER_RADIUS as int,
                    PROJECTILE_RADIUS as int,
                ),
        decreases players.len() - i,
    {
        let at: Vec2 = players[i].position;
        if is_colliding(at, projectile.position, PLAYER_RADIUS, PROJECTILE_RADIUS) {
            return true;
        }
        i = i + 1;
    }
    false
}

/// Removes every player that a projectile hits, and every projectile that
/// strikes a player. In a session of two players each hit ends the round
/// and credits the opponent of the player that was hit; in a larger
/// session a hit ends the round where it leaves exactly one player, and
/// nothing is scored.
pub fn check_player_collisions(
    players: &mut Vec<Player>,
    projectiles: &mut Vec<Projectile>,
    phase: &mut GamePhase,
    scores: &mut PlayerScores,
)
    requires
        old(scores).wf(),
        forall|w: int|
            0 <= w < NUM_PLAYERS ==> old(scores)@[w] + old(players)@.len() <= u64::MAX,
        players_in_range(old(players)@),
        projectiles_in_range(old(projectiles)@),
    ensures
        final(players)@ == survivors(old(players)@, old(projectiles)@, old(players)@.len()),
        final(projectiles)@ == unspent(
            old(projectiles)@,
            old(players)@,
            old(projectiles)@.len(),
        ),
        final(scores)@ == credited(old(scores)@, old(players)@, old(projectiles)@),
        final(scores).wf(),
        *final(phase) == phase_after_hits(
            *old(phase),
            old(players)@,
            old(projectiles)@,
            old(scores)@.len(),
        ),
{
    let duel: bool = scores.player_count() <= NUM_PLAYERS;
    let mut kept: Vec<Player> = Vec::new();
    let mut i: usize = 0;
    while i < players.len()
        invariant
            i <= players.len(),
            players@ == old(players)@,
            projectiles@ == old(projectiles)@,
            scores.wf(),
            old(scores).wf(),
            duel == (old(scores)@.len() <= NUM_PLAYERS),
            scores@.len() == old(scores)@.len(),
            forall|w: int|
                0 <= w < NUM_PLAYERS ==> old(scores)@[w] + old(players)@.len() <= u64::MAX,
            players_in_range(players@),
            projectiles_in_range(projectiles@),
            kept@ == survivors(players@, projectiles@, i as nat),
            duel ==> forall|w: int|
                0 <= w < NUM_PLAYERS ==> scores@[w] == old(scores)@[w] + credits(
                    players@,
                    projectiles@,
                    i as nat,
                    w,
                ),
            !duel ==> scores@ == old(scores)@,
        decreases players.len() - i,
    {
        let player = players[i];
        proof {
            survivors_len(players@, projectiles@, i as nat);
            survivors_len(players@, projectiles@, (i + 1) as nat);
        }
        if player_is_hit(&player, projectiles) {
            if duel {
                if player.handle == 0 {
                    let score: u64 = scores.get(1);
                    scores.set(1, score + 1);
                } else {
                    let score: u64 = scores.get(0);
                    scores.set(0, score + 1);
                }
            }
        } else {
            kept.push(player);
        }
        i = i + 1;
    }
    let mut flying: Vec<Projectile> = Vec::new();
    let mut j: usize = 0;
    while j < projectiles.len()
        invariant
            j <= projectiles.len(),
            players@ == old(players)@,
            projectiles@ == old(projectiles)@,
            players_in_range(players@),
            projectiles_in_range(projectiles@),
            flying@ == unspent(projectiles@, players@, j as nat),
        decreases projectiles.len() - j,
    {
        let projectile = projectiles[j];
        if !projectile_strikes(&projectile, players) {
            flying.push(projectile);
        }
        j = j + 1;
    }
    if kept.len() < players.len() && (duel || kept.len() == 1) {
        *phase = GamePhase::RoundOver;
    }
    *players = kept;
    *projectiles = flying;
    assert(scores@ =~= credited(old(scores)@, old(players)@, old(projectiles)@));
}

} // verus!
