//! Barrier tiles: the terrain of a round and what players place.

use vstd::prelude::*;
use crate::generator::{
    after_draw, draw_range, drawn, generator_state, seeded_generator, seeded_state,
};
use crate::geometry::{
    abs_i64, magnitude, within, Vec2, COORD_LIMIT, HALF_TILE, HALF_WORLD, PLAYER_RADIUS,
    WORLD_SIZE,
};
use crate::input_handler::{click_of, get_click_position};
use crate::player_module::{Player, PLAYER_LIMIT};
use crate::projectile::{projectiles_in_range, Projectile};
use crate::network_manager::{round_seed_of, score_sum, world_seed, RandomSeed};
use crate::utilities::PlayerScores;

verus! {

/// Rectangles of terrain in a round.
pub const TERRAIN_RECTANGLES: u32 = 20;

/// Exclusive upper limit of a rectangle's width and height, in cells.
pub const MAX_BOX_SIZE: u32 = 10;

/// A barrier tile, one world unit square.
#[derive(Clone, Copy, Debug, PartialEq, Eq, Structural)]
pub struct Barrier {
    /// Centre of the tile.
    pub position: Vec2,
    /// Whether a player placed the tile; terrain is not.
    pub player_placed: bool,
}

/// A rectangle of grid cells: its lowest cell and its extent.
#[derive(Clone, Copy, Debug, PartialEq, Eq, Structural)]
pub struct Rect {
    pub cell_x: u32,
    pub cell_y: u32,
    pub width: u32,
    pub height: u32,
}

/// The centre of grid cell `(cell_x, cell_y)` in the centred world.
pub open spec fn tile_center(cell_x: int, cell_y: int) -> Vec2 {
    Vec2 { x: (cell_x * 1000 + 500 - 20500) as i64, y: (cell_y * 1000 + 500 - 20500) as i64 }
}

/// The terrain tile on grid cell `(cell_x, cell_y)`.
pub open spec fn terrain_tile(cell_x: int, cell_y: int) -> Barrier {
    Barrier { position: tile_center(cell_x, cell_y), player_placed: false }
}

/// The first `rows` tiles of the column of `rect` at horizontal offset `dx`.
pub open spec fn column_tiles(rect: Rect, dx: int, rows: int) -> Seq<Barrier> {
    Seq::new(rows as nat, |dy: int| terrain_tile(rect.cell_x + dx, rect.cell_y + dy))
}

/// The tiles of the first `columns` columns of `rect`, column after column.
pub open spec fn rect_tiles(rect: Rect, columns: nat) -> Seq<Barrier>
    decreases columns,
{
    if columns == 0 {
        Seq::empty()
    } else {
        rect_tiles(rect, (columns - 1) as nat) + column_tiles(
            rect,
            columns - 1,
            rect.height as int,
        )
    }
}

/// Farthest that the centre of a grid tile lies from either axis.
pub const GRID_REACH: i64 = 20000;

/// Largest number of tiles in one rectangle of terrain.
pub const MAX_BOX_TILES: usize = 81;

/// Whether `barrier` is a terrain tile with its centre on the grid.
pub open spec fn on_grid(barrier: Barrier) -> bool {
    !barrier.player_placed && within(barrier.position, GRID_REACH as int)
}

/// Whether every barrier of `barriers` is a terrain tile on the grid.
pub open spec fn terrain_ok(barriers: Seq<Barrier>) -> bool {
    forall|k: int| 0 <= k < barriers.len() ==> on_grid(#[trigger] barriers[k])
}

/// Whether `rect` is as the terrain draws one: each side at least one
/// cell and less than the limit, and all of it within the grid.
pub open spec fn well_drawn(rect: Rect) -> bool {
    &&& 1 <= rect.width < MAX_BOX_SIZE
    &&& 1 <= rect.height < MAX_BOX_SIZE
    &&& fits(rect)
}

/// The rectangle with index `index` among those drawn one after another
/// from generator state `state`.
pub open spec fn nth_rect(state: Seq<u64>, index: nat) -> Rect {
    drawn_rect(state_after_rects(state, index))
}

/// Whether `rect` lies within the grid.
pub open spec fn fits(rect: Rect) -> bool {
    rect.cell_x + rect.width <= WORLD_SIZE && rect.cell_y + rect.height <= WORLD_SIZE
}

/// The rectangle drawn in generator state `state`: width, height, then a
/// cell for each axis such that the rectangle fits.
pub open spec fn drawn_rect(state: Seq<u64>) -> Rect {
    let width = drawn(state, 1, MAX_BOX_SIZE);
    let s1 = after_draw(state, 1, MAX_BOX_SIZE);
    let height = drawn(s1, 1, MAX_BOX_SIZE);
    let s2 = after_draw(s1, 1, MAX_BOX_SIZE);
    let x_limit = (WORLD_SIZE - width + 1) as u32;
    let cell_x = drawn(s2, 0, x_limit);
    let s3 = after_draw(s2, 0, x_limit);
    let cell_y = drawn(s3, 0, (WORLD_SIZE - height + 1) as u32);
    Rect { cell_x, cell_y, width, height }
}

/// The generator state after the four draws of `drawn_rect`.
pub open spec fn state_after_rect(state: Seq<u64>) -> Seq<u64> {
    let width = drawn(state, 1, MAX_BOX_SIZE);
    let s1 = after_draw(state, 1, MAX_BOX_SIZE);
    let height = drawn(s1, 1, MAX_BOX_SIZE);
    let s2 = after_draw(s1, 1, MAX_BOX_SIZE);
    let x_limit = (WORLD_SIZE - width + 1) as u32;
    let s3 = after_draw(s2, 0, x_limit);
    after_draw(s3, 0, (WORLD_SIZE - height + 1) as u32)
}

/// The generator state after `count` rectangles drawn from `state`.
pub open spec fn state_after_rects(state: Seq<u64>, count: nat) -> Seq<u64>
    decreases count,
{
    if count == 0 {
        state
    } else {
        state_after_rect(state_after_rects(state, (count - 1) as nat))
    }
}

/// The tiles of `count` rectangles drawn one after another from `state`.
/// Rectangles may overlap, and then a cell holds more than one tile.
pub open spec fn terrain_from(state: Seq<u64>, count: nat) -> Seq<Barrier>
    decreases count,
{
    if count == 0 {
        Seq::empty()
    } else {
        let rect = nth_rect(state, (count - 1) as nat);
        terrain_from(state, (count - 1) as nat) + rect_tiles(rect, rect.width as nat)
    }
}

/// The terrain of the round whose terrain seed is `seed`.
pub open spec fn terrain_of(seed: u64) -> Seq<Barrier> {
    terrain_from(seeded_state(seed), TERRAIN_RECTANGLES as nat)
}

/// Adds one terrain tile for every cell of `rect`.
pub fn stamp_rectangle(barriers: &mut Vec<Barrier>, rect: Rect)
    requires
        fits(rect),
    ensures
        final(barriers)@ == old(barriers)@ + rect_tiles(rect, rect.width as nat),
        final(barriers)@.len() == old(barriers)@.len() + rect.width * rect.height,
        barriers_ok(old(barriers)@) ==> barriers_ok(final(barriers)@),
        terrain_ok(old(barriers)@) ==> terrain_ok(final(barriers)@),
{
    let ghost before = barriers@;
    let mut dx: u32 = 0;
    while dx < rect.width
        invariant
            fits(rect),
            dx <= rect.width,
            barriers@ == before + rect_tiles(rect, dx as nat),
            barriers@.len() == before.len() + dx * rect.height,
            barriers_ok(before) ==> barriers_ok(barriers@),
            terrain_ok(before) ==> terrain_ok(barriers@),
        decreases rect.width - dx,
    {
        let ghost columns_before = barriers@;
        let mut dy: u32 = 0;
        while dy < rect.height
            invariant
                fits(rect),
                dx < rect.width,
                dy <= rect.height,
                barriers@ == columns_before + column_tiles(rect, dx as int, dy as int),
                barriers_ok(before) ==> barriers_ok(barriers@),
                terrain_ok(before) ==> terrain_ok(barriers@),
            decreases rect.height - dy,
        {
            let tile_x: i64 = (rect.cell_x + dx) as i64;
            let tile_y: i64 = (rect.cell_y + dy) as i64;
            let position = Vec2 { x: tile_x * 1000 + 500 - 20500, y: tile_y * 1000 + 500 - 20500 };
            barriers.push(Barrier { position, player_placed: false });
            dy = dy + 1;
            assert(barriers@ =~= columns_before + column_tiles(rect, dx as int, dy as int));
        }
        assert((dx + 1) * rect.height == dx * rect.height + rect.height) by (nonlinear_arith);
        dx = dx + 1;
        assert(barriers@ =~= before + rect_tiles(rect, dx as nat));
    }
}

/// Replaces all barriers by the terrain of a new round: twenty rectangles
/// drawn from a generator seeded with the two scores and the session's
/// seed. Every rectangle has sides of one to nine cells and lies within
/// the grid, so every tile is terrain with its centre on the grid.
pub fn create_world(barriers: &mut Vec<Barrier>, session: RandomSeed, scores: &PlayerScores)
    requires
        scores.wf(),
    ensures
        final(barriers)@ == terrain_of(round_seed_of(score_sum(scores@), session)),
        forall|k: nat|
            k < TERRAIN_RECTANGLES ==> well_drawn(
                #[trigger] nth_rect(seeded_state(round_seed_of(score_sum(scores@), session)), k),
            ),
        TERRAIN_RECTANGLES <= final(barriers)@.len() <= TERRAIN_RECTANGLES * MAX_BOX_TILES,
        terrain_ok(final(barriers)@),
        barriers_ok(final(barriers)@),
{
    barriers.clear();
    let seed: u64 = world_seed(scores, session);
    let mut rng = seeded_generator(seed);
    let mut i: u32 = 0;
    while i < TERRAIN_RECTANGLES
        invariant
            i <= TERRAIN_RECTANGLES,
            barriers@ == terrain_from(seeded_state(seed), i as nat),
            forall|k: nat| k < i ==> well_drawn(#[trigger] nth_rect(seeded_state(seed), k)),
            i <= barriers@.len() <= i * MAX_BOX_TILES,
            terrain_ok(barriers@),
            barriers_ok(barriers@),
            generator_state(rng) == state_after_rects(seeded_state(seed), i as nat),
        decreases TERRAIN_RECTANGLES - i,
    {
        let width: u32 = draw_range(&mut rng, 1, MAX_BOX_SIZE);
        let height: u32 = draw_range(&mut rng, 1, MAX_BOX_SIZE);
        let cell_x: u32 = draw_range(&mut rng, 0, WORLD_SIZE - width + 1);
        let cell_y: u32 = draw_range(&mut rng, 0, WORLD_SIZE - height + 1);
        let rect = Rect { cell_x, cell_y, width, height };
        assert(rect == nth_rect(seeded_state(seed), i as nat));
        assert(1 <= width * height <= MAX_BOX_TILES) by (nonlinear_arith)
            requires
                1 <= width <= 9,
                1 <= height <= 9,
        ;
        assert((i + 1) * MAX_BOX_TILES == i * MAX_BOX_TILES + MAX_BOX_TILES) by (nonlinear_arith);
        stamp_rectangle(barriers, rect);
        i = i + 1;
    }
}

/// Largest magnitude of a coordinate of a barrier's centre.
pub const BARRIER_LIMIT: i64 = 50_000;

impl Barrier {
    /// The centre of the tile is within reach of the grid.
    pub open spec fn wf(&self) -> bool {
        within(self.position, BARRIER_LIMIT as int)
    }
}

/// Whether every barrier of `barriers` is well formed.
pub open spec fn barriers_ok(barriers: Seq<Barrier>) -> bool {
    forall|i: int| 0 <= i < barriers.len() ==> (#[trigger] barriers[i]).wf()
}

/// Along one axis, the distance between the edge of a tile centred at
/// `tile` and the rim of a player centred at `player`; negative where they
/// overlap on that axis.
pub open spec fn gap(player: int, tile: int) -> int {
    magnitude(player - tile) - HALF_TILE - PLAYER_RADIUS
}

/// The coordinate `player` moved away from `tile` by the overlap `-gap`;
/// a player level with the tile moves toward the positive side.
pub open spec fn shifted(player: int, tile: int, gap: int) -> int {
    if player < tile { player + gap } else { player - gap }
}

/// The larger of the gaps on the two axes between a player at `position`
/// and `barrier`; the player overlaps the barrier where it is not positive.
pub open spec fn separation(position: Vec2, barrier: Barrier) -> int {
    let gx = gap(position.x as int, barrier.position.x as int);
    let gy = gap(position.y as int, barrier.position.y as int);
    if gx > gy { gx } else { gy }
}

/// Where a player at `position` stands once `barrier` has pushed it out:
/// unmoved where it does not overlap, else moved along the axis of the
/// smaller overlap until it touches the tile from outside. A player level
/// with the centre of the tile is pushed toward the positive side.
pub open spec fn pushed(position: Vec2, barrier: Barrier) -> Vec2 {
    let gx = gap(position.x as int, barrier.position.x as int);
    let gy = gap(position.y as int, barrier.position.y as int);
    if gx > 0 || gy > 0 {
        position
    } else if gx > gy {
        Vec2 { x: shifted(position.x as int, barrier.position.x as int, gx) as i64, y: position.y }
    } else {
        Vec2 { x: position.x, y: shifted(position.y as int, barrier.position.y as int, gy) as i64 }
    }
}

/// Where a player at `position` stands once the first `count` barriers
/// have pushed it, one after another.
pub open spec fn resolved(position: Vec2, barriers: Seq<Barrier>, count: nat) -> Vec2
    decreases count,
{
    if count == 0 {
        position
    } else {
        pushed(resolved(position, barriers, (count - 1) as nat), barriers[count - 1])
    }
}

/// Every player of `players` once all of `barriers` have pushed it.
pub open spec fn resolved_players(players: Seq<Player>, barriers: Seq<Barrier>) -> Seq<Player> {
    Seq::new(
        players.len(),
        |i: int|
            Player {
                position: resolved(players[i].position, barriers, barriers.len()),
                ..players[i]
            },
    )
}

/// Pushes a player at `position` out of `barrier`.
pub fn push_out(position: Vec2, barrier: &Barrier) -> (r: Vec2)
    requires
        within(position, PLAYER_LIMIT as int),
        barrier.wf(),
    ensures
        r == pushed(position, *barrier),
        within(r, PLAYER_LIMIT as int),
{
    let to_x: i64 = position.x - barrier.position.x;
    let to_y: i64 = position.y - barrier.position.y;
    let gx: i64 = abs_i64(to_x) - HALF_TILE - PLAYER_RADIUS;
    let gy: i64 = abs_i64(to_y) - HALF_TILE - PLAYER_RADIUS;
    if gx > 0 || gy > 0 {
        return position;
    }
    if gx > gy {
        let x: i64 = if to_x < 0 { position.x + gx } else { position.x - gx };
        Vec2 { x, y: position.y }
    } else {
        let y: i64 = if to_y < 0 { position.y + gy } else { position.y - gy };
        Vec2 { x: position.x, y }
    }
}

/// Pushes every player out of every barrier that it overlaps. A push takes
/// effect at once and counts for the barriers that follow.
pub fn handle_barrier_collisions(players: &mut Vec<Player>, barriers: &Vec<Barrier>)
    requires
        barriers_ok(barriers@),
        forall|i: int| 0 <= i < old(players)@.len() ==> (#[trigger] old(players)@[i]).wf(),
    ensures
        final(players)@ == resolved_players(old(players)@, barriers@),
        forall|i: int| 0 <= i < final(players)@.len() ==> (#[trigger] final(players)@[i]).wf(),
{
    let mut i: usize = 0;
    while i < players.len()
        invariant
            i <= players.len(),
            players@.len() == old(players)@.len(),
            barriers_ok(barriers@),
            forall|j: int| 0 <= j < players@.len() ==> (#[trigger] players@[j]).wf(),
            forall|j: int| 0 <= j < i ==> players@[j] == (Player {
                position: resolved(old(players)@[j].position, barriers@, barriers@.len()),
                ..old(players)@[j]
            }),
            forall|j: int| i <= j < players@.len() ==> players@[j] == old(players)@[j],
        decreases players.len() - i,
    {
        let mut player = players[i];
        let ghost start = player.position;
        let mut position = player.position;
        let mut k: usize = 0;
        while k < barriers.len()
            invariant
                k <= barriers.len(),
                barriers_ok(barriers@),
                within(position, PLAYER_LIMIT as int),
                position == resolved(start, barriers@, k as nat),
            decreases barriers.len() - k,
        {
            position = push_out(position, &barriers[k]);
            k = k + 1;
        }
        player.position = position;
        players.set(i, player);
        i = i + 1;
    }
    assert(players@ =~= resolved_players(old(players)@, barriers@));
}

/// A push leaves the player outside the barrier, touching it at most; a
/// second push by the same barrier moves nothing; and the push moves the
/// player along one axis only, by the smaller of the two overlaps.
pub proof fn push_separates(position: Vec2, barrier: Barrier)
    requires
        within(position, PLAYER_LIMIT as int),
        barrier.wf(),
    ensures
        separation(pushed(position, barrier), barrier) >= 0,
        pushed(pushed(position, barrier), barrier) == pushed(position, barrier),
        separation(position, barrier) <= 0 ==> magnitude(pushed(position, barrier).x - position.x)
            + magnitude(pushed(position, barrier).y - position.y) == -separation(position, barrier),
        separation(position, barrier) > 0 ==> pushed(position, barrier) == position,
{
}

/// Whether `position` lies beyond the world on either axis.
pub open spec fn out_of_bounds(position: Vec2) -> bool {
    magnitude(position.x as int) > HALF_WORLD || magnitude(position.y as int) > HALF_WORLD
}

/// Whether a projectile at `position` is inside the tile of `barrier` or on its edge.
pub open spec fn strikes(position: Vec2, barrier: Barrier) -> bool {
    magnitude(position.x - barrier.position.x) <= HALF_TILE && magnitude(
        position.y - barrier.position.y,
    ) <= HALF_TILE
}

/// Whether a projectile at `position` strikes one of `barriers`.
pub open spec fn strikes_any(position: Vec2, barriers: Seq<Barrier>) -> bool {
    exists|j: int| 0 <= j < barriers.len() && strikes(position, #[trigger] barriers[j])
}

/// Whether the barrier with index `j` is the first of `barriers` that a
/// projectile at `position` strikes.
pub open spec fn first_struck(position: Vec2, barriers: Seq<Barrier>, j: int) -> bool {
    &&& 0 <= j < barriers.len()
    &&& strikes(position, barriers[j])
    &&& forall|k: int| 0 <= k < j ==> !strikes(position, #[trigger] barriers[k])
}

/// Whether `projectile` ends its flight: it has left the world or strikes a barrier.
pub open spec fn stopped(projectile: Projectile, barriers: Seq<Barrier>) -> bool {
    out_of_bounds(projectile.position) || strikes_any(projectile.position, barriers)
}

/// Whether one of the first `count` projectiles destroys the barrier with
/// index `j`: the barrier was placed by a player, and it is the first that
/// a projectile within the world strikes.
pub open spec fn destroyed_by(
    barriers: Seq<Barrier>,
    projectiles: Seq<Projectile>,
    count: int,
    j: int,
) -> bool {
    barriers[j].player_placed && exists|i: int|
        0 <= i < count && !out_of_bounds((#[trigger] projectiles[i]).position) && first_struck(
            projectiles[i].position,
            barriers,
            j,
        )
}

/// Those of the first `count` projectiles that fly on, in order.
pub open spec fn flying(
    projectiles: Seq<Projectile>,
    barriers: Seq<Barrier>,
    count: nat,
) -> Seq<Projectile>
    decreases count,
{
    if count == 0 {
        Seq::empty()
    } else {
        let before = flying(projectiles, barriers, (count - 1) as nat);
        if stopped(projectiles[count - 1], barriers) {
            before
        } else {
            before.push(projectiles[count - 1])
        }
    }
}

/// Those of the first `count` barriers that no projectile destroys, in order.
pub open spec fn standing(
    barriers: Seq<Barrier>,
    projectiles: Seq<Projectile>,
    count: nat,
) -> Seq<Barrier>
    decreases count,
{
    if count == 0 {
        Seq::empty()
    } else {
        let before = standing(barriers, projectiles, (count - 1) as nat);
        if destroyed_by(barriers, projectiles, projectiles.len() as int, count - 1) {
            before
        } else {
            before.push(barriers[count - 1])
        }
    }
}

/// The index of the first barrier that a projectile at `position` strikes.
pub fn first_hit(position: Vec2, barriers: &Vec<Barrier>) -> (r: Option<usize>)
    requires
        within(position, COORD_LIMIT as int),
        barriers_ok(barriers@),
    ensures
        match r {
            Some(j) => first_struck(position, barriers@, j as int),
            None => !strikes_any(position, barriers@),
        },
{
    let mut j: usize = 0;
    while j < barriers.len()
        invariant
            j <= barriers.len(),
            within(position, COORD_LIMIT as int),
            barriers_ok(barriers@),
            forall|k: int| 0 <= k < j ==> !strikes(position, #[trigger] barriers@[k]),
        decreases barriers.len() - j,
    {
        let barrier = barriers[j];
        let dx: i64 = abs_i64(position.x - barrier.position.x);
        let dy: i64 = abs_i64(position.y - barrier.position.y);
        if dx - HALF_TILE <= 0 && dy - HALF_TILE <= 0 {
            return Some(j);
        }
        j = j + 1;
    }
    None
}

/// Every projectile that flies on is within the world and was flying before.
pub proof fn flying_within_bounds(projectiles: Seq<Projectile>, barriers: Seq<Barrier>, count: nat)
    requires
        count <= projectiles.len(),
    ensures
        flying(projectiles, barriers, count).len() <= count,
        forall|k: int| 0 <= k < flying(projectiles, barriers, count).len() ==> {
            let kept = #[trigger] flying(projectiles, barriers, count)[k];
            !out_of_bounds(kept.position) && !strikes_any(kept.position, barriers)
                && exists|i: int| 0 <= i < count && projectiles[i] == kept
        },
    decreases count,
{
    if count > 0 {
        flying_within_bounds(projectiles, barriers, (count - 1) as nat);
        let before = flying(projectiles, barriers, (count - 1) as nat);
        let now = flying(projectiles, barriers, count);
        assert forall|k: int| 0 <= k < now.len() implies {
            let kept = #[trigger] now[k];
            !out_of_bounds(kept.position) && !strikes_any(kept.position, barriers)
                && exists|i: int| 0 <= i < count && projectiles[i] == kept
        } by {
            if k < before.len() {
                let kept = before[k];
                let i = choose|i: int| 0 <= i < count - 1 && projectiles[i] == kept;
                assert(projectiles[i] == now[k]);
            } else {
                assert(projectiles[count - 1] == now[k]);
            }
        }
    }
}

/// Every barrier left standing stood before.
pub proof fn standing_stood(barriers: Seq<Barrier>, projectiles: Seq<Projectile>, count: nat)
    requires
        count <= barriers.len(),
    ensures
        standing(barriers, projectiles, count).len() <= count,
        forall|k: int| 0 <= k < standing(barriers, projectiles, count).len() ==> exists|j: int|
            0 <= j < count && barriers[j] == #[trigger] standing(barriers, projectiles, count)[k],
    decreases count,
{
    if count > 0 {
        standing_stood(barriers, projectiles, (count - 1) as nat);
        let before = standing(barriers, projectiles, (count - 1) as nat);
        let now = standing(barriers, projectiles, count);
        assert forall|k: int| 0 <= k < now.len() implies exists|j: int|
            0 <= j < count && barriers[j] == #[trigger] now[k] by {
            if k < before.len() {
                let j = choose|j: int| 0 <= j < count - 1 && barriers[j] == before[k];
                assert(barriers[j] == now[k]);
            } else {
                assert(barriers[count - 1] == now[k]);
            }
        }
    }
}

/// Ends the flight of every projectile that has left the world or strikes
/// a barrier. A projectile within the world destroys the first barrier
/// that it strikes, if a player placed it; terrain stands.
pub fn projectile_barrier_collisions(projectiles: &mut Vec<Projectile>, barriers: &mut Vec<Barrier>)
    requires
        projectiles_in_range(old(projectiles)@),
        barriers_ok(old(barriers)@),
    ensures
        final(projectiles)@ == flying(old(projectiles)@, old(barriers)@, old(projectiles)@.len()),
        final(barriers)@ == standing(old(barriers)@, old(projectiles)@, old(barriers)@.len()),
        forall|k: int|
            0 <= k < final(projectiles)@.len() ==> !out_of_bounds(
                (#[trigger] final(projectiles)@[k]).position,
            ),
        barriers_ok(final(barriers)@),
{
    let mut struck: Vec<bool> = Vec::new();
    let mut n: usize = 0;
    while n < barriers.len()
        invariant
            n <= barriers.len(),
            struck@.len() == n,
            forall|j: int| 0 <= j < n ==> !struck@[j],
        decreases barriers.len() - n,
    {
        struck.push(false);
        n = n + 1;
    }
    let mut kept: Vec<Projectile> = Vec::new();
    let mut i: usize = 0;
    while i < projectiles.len()
        invariant
            i <= projectiles.len(),
            projectiles@ == old(projectiles)@,
            barriers@ == old(barriers)@,
            projectiles_in_range(projectiles@),
            barriers_ok(barriers@),
            struck@.len() == barriers@.len(),
            kept@ == flying(projectiles@, barriers@, i as nat),
            forall|j: int|
                0 <= j < barriers@.len() ==> struck@[j] == destroyed_by(
                    barriers@,
                    projectiles@,
                    i as int,
                    j,
                ),
        decreases projectiles.len() - i,
    {
        let projectile = projectiles[i];
        let position = projectile.position;
        let ghost marks = struck@;
        let mut hit: Option<usize> = None;
        let outside: bool = abs_i64(position.x) > HALF_WORLD || abs_i64(position.y) > HALF_WORLD;
        if !outside {
            hit = first_hit(position, barriers);
            match hit {
                Some(j) => {
                    if barriers[j].player_placed {
                        struck.set(j, true);
                    }
                },
                None => {
                    kept.push(projectile);
                },
            }
        }
        proof {
            assert forall|j: int| 0 <= j < barriers@.len() implies struck@[j] == destroyed_by(
                barriers@,
                projectiles@,
                i + 1,
                j,
            ) by {
                let newly = !outside && hit.is_some() && hit.unwrap() == j
                    && barriers@[j].player_placed;
                assert(struck@[j] == (marks[j] || newly));
                if destroyed_by(barriers@, projectiles@, i + 1, j) {
                    let m = choose|m: int|
                        0 <= m < i + 1 && !out_of_bounds((#[trigger] projectiles@[m]).position)
                            && first_struck(projectiles@[m].position, barriers@, j);
                    if m < i {
                        assert(destroyed_by(barriers@, projectiles@, i as int, j));
                    } else {
                        assert(hit.is_some());
                        assert(hit.unwrap() == j);
                    }
                }
                if marks[j] {
                    let m = choose|m: int|
                        0 <= m < i && !out_of_bounds((#[trigger] projectiles@[m]).position)
                            && first_struck(projectiles@[m].position, barriers@, j);
                    assert(0 <= m < i + 1 && !out_of_bounds(projectiles@[m].position));
                }
                if newly {
                    assert(!out_of_bounds(projectiles@[i as int].position) && first_struck(
                        projectiles@[i as int].position,
                        barriers@,
                        j,
                    ));
                }
            }
        }
        i = i + 1;
    }
    let mut left: Vec<Barrier> = Vec::new();
    let mut j: usize = 0;
    while j < barriers.len()
        invariant
            j <= barriers.len(),
            i == projectiles@.len(),
            barriers@ == old(barriers)@,
            struck@.len() == barriers@.len(),
            forall|k: int|
                0 <= k < barriers@.len() ==> struck@[k] == destroyed_by(
                    barriers@,
                    projectiles@,
                    i as int,
                    k,
                ),
            left@ == standing(barriers@, projectiles@, j as nat),
        decreases barriers.len() - j,
    {
        if !struck[j] {
            left.push(barriers[j]);
        }
        j = j + 1;
    }
    proof {
        flying_within_bounds(projectiles@, barriers@, projectiles@.len());
        standing_stood(barriers@, projectiles@, barriers@.len());
    }
    *projectiles = kept;
    *barriers = left;
}

/// The barrier that a click on grid cell `cell` places.
pub open spec fn placed_tile(cell: (u8, u8)) -> Barrier {
    Barrier { position: tile_center(cell.0 as int, cell.1 as int), player_placed: true }
}

/// The barriers that the first `count` players place, in order: one for
/// each player whose input carries a click.
pub open spec fn placed(players: Seq<Player>, inputs: Seq<u32>, count: nat) -> Seq<Barrier>
    decreases count,
{
    if count == 0 {
        Seq::empty()
    } else {
        let before = placed(players, inputs, (count - 1) as nat);
        match click_of(inputs[players[count - 1].handle as int]) {
            Some(cell) => before.push(placed_tile(cell)),
            None => before,
        }
    }
}

/// Places a barrier on the cell that each player clicks on.
pub fn place_barrier_on_click(barriers: &mut Vec<Barrier>, inputs: &Vec<u32>, players: &Vec<Player>)
    requires
        forall|i: int| 0 <= i < players@.len() ==> (#[trigger] players@[i]).handle < inputs@.len(),
    ensures
        final(barriers)@ == old(barriers)@ + placed(players@, inputs@, players@.len()),
        barriers_ok(old(barriers)@) ==> barriers_ok(final(barriers)@),
{
    let mut i: usize = 0;
    while i < players.len()
        invariant
            i <= players.len(),
            forall|k: int|
                0 <= k < players@.len() ==> (#[trigger] players@[k]).handle < inputs@.len(),
            barriers@ == old(barriers)@ + placed(players@, inputs@, i as nat),
            barriers_ok(old(barriers)@) ==> barriers_ok(barriers@),
        decreases players.len() - i,
    {
        let input: u32 = inputs[players[i].handle];
        match get_click_position(input) {
            Some((cell_x, cell_y)) => {
                assert(((input >> 6) & 63) < 64 && ((input >> 14) & 63) < 64) by (bit_vector);
                let position = Vec2 {
                    x: (cell_x as i64) * 1000 + 500 - 20500,
                    y: (cell_y as i64) * 1000 + 500 - 20500,
                };
                barriers.push(Barrier { position, player_placed: true });
            },
            None => {},
        }
        i = i + 1;
        assert(barriers@ =~= old(barriers)@ + placed(players@, inputs@, i as nat));
    }
}

} // verus!
