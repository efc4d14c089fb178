use arena_core::barriers::{
    first_hit, handle_barrier_collisions, place_barrier_on_click, projectile_barrier_collisions,
    push_out, Barrier,
};
use arena_core::geometry::Vec2;
use arena_core::input_handler::{
    INPUT_CLICK, INPUT_DOWN, INPUT_LEFT, INPUT_RIGHT, INPUT_SHOOT, INPUT_UP,
};
use arena_core::network_manager::RandomSeed;
use arena_core::player_module::{
    check_player_collisions, create_player, is_colliding, move_player, move_players,
    player_is_hit, projectile_strikes, CanAttack, Color, Gun, MovementDirection, Player,
};
use arena_core::projectile::{fire_projectile, move_projectile, reload_projectile, Projectile};
use arena_core::simulation::World;
use arena_core::utilities::{round_over_timer, GamePhase, PlayerScores, RoundTimer};

fn player(handle: usize, x: i64, y: i64, fx: i64, fy: i64) -> Player {
    create_player(
        Vec2 { x, y },
        handle,
        Color { red: 0, green: 0, blue: 0 },
        Vec2 { x: fx, y: fy },
    )
}

fn projectile(x: i64, y: i64, dx: i64, dy: i64) -> Projectile {
    Projectile { direction: MovementDirection(Vec2 { x: dx, y: dy }), position: Vec2 { x, y } }
}

fn tile(x: i64, y: i64, player_placed: bool) -> Barrier {
    Barrier { position: Vec2 { x, y }, player_placed }
}

fn empty_world(players: Vec<Player>) -> World {
    World {
        players,
        projectiles: Vec::new(),
        barriers: Vec::new(),
        scores: PlayerScores::new(),
        phase: GamePhase::ActiveRound,
        timer: RoundTimer::default(),
        seed: RandomSeed(77),
    }
}

#[test]
fn steering_moves_by_speed_and_time() {
    let start = player(0, 0, 0, 0, 1000);
    let moved = move_player(start, INPUT_RIGHT, 100);
    assert_eq!(moved.position, Vec2 { x: 1000, y: 0 });
    assert_eq!(moved.direction, MovementDirection(Vec2 { x: 1000, y: 0 }));
    assert_eq!(moved.gun, Gun { offset: Vec2 { x: 500, y: 0 } });
    let diagonal = move_player(start, INPUT_RIGHT | INPUT_UP, 100);
    assert_eq!(diagonal.position, Vec2 { x: 707, y: 707 });
    assert_eq!(diagonal.gun, Gun { offset: Vec2 { x: 353, y: 353 } });
    let short = move_player(start, INPUT_UP, 16);
    assert_eq!(short.position, Vec2 { x: 0, y: 160 });
}

#[test]
fn no_steering_keeps_place_and_facing() {
    let mut start = player(0, 300, -400, 0, -1000);
    start.gun = Gun { offset: Vec2 { x: 9, y: 9 } };
    let moved = move_player(start, INPUT_SHOOT, 1000);
    assert_eq!(moved.position, Vec2 { x: 300, y: -400 });
    assert_eq!(moved.direction, MovementDirection(Vec2 { x: 0, y: -1000 }));
    assert_eq!(moved.gun, Gun { offset: Vec2 { x: 0, y: -500 } });
    let cancelled = move_player(start, 15, 1000);
    assert_eq!(cancelled.position, Vec2 { x: 300, y: -400 });
}

#[test]
fn movement_stops_half_a_radius_before_the_edge() {
    let near = player(0, 19000, 0, 1000, 0);
    assert_eq!(move_player(near, INPUT_RIGHT, 500).position, Vec2 { x: 20250, y: 0 });
    let start = player(0, 20240, -20240, 1000, 0);
    let moved = move_player(start, INPUT_RIGHT, 16);
    assert_eq!(moved.position, Vec2 { x: 20250, y: -20240 });
    let short = move_player(player(0, 20000, 0, 1000, 0), INPUT_RIGHT, 16);
    assert_eq!(short.position, Vec2 { x: 20160, y: 0 });
    let far = move_player(start, INPUT_RIGHT | INPUT_UP, u32::MAX);
    assert_eq!(far.position, Vec2 { x: 20250, y: 20250 });
    let low = move_player(start, INPUT_LEFT | INPUT_DOWN, u32::MAX);
    assert_eq!(low.position, Vec2 { x: -20250, y: -20250 });
    let outside = player(0, 30000, 0, 1000, 0);
    assert_eq!(move_player(outside, INPUT_UP, 10).position, Vec2 { x: 20250, y: 100 });
}

#[test]
fn players_in_a_list_stop_at_the_same_limit() {
    let mut players = vec![player(0, 19000, 0, 1000, 0)];
    move_players(&mut players, &vec![INPUT_RIGHT], 500);
    assert_eq!(players[0].position, Vec2 { x: 20250, y: 0 });
}

#[test]
fn each_player_moves_by_its_own_input() {
    let mut players = vec![player(1, 0, 0, 1000, 0), player(0, 0, 0, 1000, 0)];
    move_players(&mut players, &vec![INPUT_UP, INPUT_RIGHT], 100);
    assert_eq!(players[0].position, Vec2 { x: 1000, y: 0 });
    assert_eq!(players[1].position, Vec2 { x: 0, y: 1000 });
}

#[test]
fn push_moves_along_the_axis_of_smaller_overlap() {
    let barrier = tile(0, 0, false);
    assert_eq!(push_out(Vec2 { x: 300, y: 0 }, &barrier), Vec2 { x: 1000, y: 0 });
    assert_eq!(push_out(Vec2 { x: -300, y: 0 }, &barrier), Vec2 { x: -1000, y: 0 });
    assert_eq!(push_out(Vec2 { x: 100, y: -600 }, &barrier), Vec2 { x: 100, y: -1000 });
    assert_eq!(push_out(Vec2 { x: 100, y: 600 }, &barrier), Vec2 { x: 100, y: 1000 });
}

#[test]
fn push_from_the_centre_goes_to_the_positive_side() {
    let barrier = tile(3000, -2000, false);
    assert_eq!(push_out(Vec2 { x: 3000, y: -2000 }, &barrier), Vec2 { x: 3000, y: -1000 });
    assert_eq!(push_out(Vec2 { x: 3200, y: -1800 }, &barrier), Vec2 { x: 3200, y: -1000 });
}

#[test]
fn push_leaves_a_player_outside_alone() {
    let barrier = tile(0, 0, false);
    assert_eq!(push_out(Vec2 { x: 1001, y: 0 }, &barrier), Vec2 { x: 1001, y: 0 });
    assert_eq!(push_out(Vec2 { x: 0, y: -1500 }, &barrier), Vec2 { x: 0, y: -1500 });
    assert_eq!(push_out(Vec2 { x: 1000, y: 0 }, &barrier), Vec2 { x: 1000, y: 0 });
}

#[test]
fn enclosed_player_no_longer_overlaps_after_one_push() {
    let barrier = tile(0, 0, true);
    for (x, y) in [(0, 0), (499, 0), (-499, 499), (10, -20), (-1, -1), (250, 250)] {
        let after = push_out(Vec2 { x, y }, &barrier);
        let gap_x = after.x.abs() - 1000;
        let gap_y = after.y.abs() - 1000;
        assert!(gap_x >= 0 || gap_y >= 0);
        assert_eq!(push_out(after, &barrier), after);
        assert!(after.x == x || after.y == y);
    }
}

#[test]
fn pushes_take_effect_barrier_after_barrier() {
    let mut players = vec![player(0, 300, 0, 1000, 0)];
    let barriers = vec![tile(0, 0, false), tile(1500, 0, false)];
    handle_barrier_collisions(&mut players, &barriers);
    assert_eq!(players[0].position, Vec2 { x: 500, y: 0 });
    let mut lone = vec![player(0, 300, 0, 1000, 0)];
    handle_barrier_collisions(&mut lone, &vec![]);
    assert_eq!(lone[0].position, Vec2 { x: 300, y: 0 });
}

#[test]
fn shot_starts_ahead_of_the_player() {
    let mut players = vec![player(0, 0, 0, 1000, 0), player(1, 5000, 0, -1000, 0)];
    let mut projectiles = Vec::new();
    fire_projectile(&mut players, &mut projectiles, &vec![INPUT_SHOOT, INPUT_SHOOT]);
    assert_eq!(
        projectiles,
        vec![projectile(525, 25, 1000, 0), projectile(4525, 25, -1000, 0)]
    );
    assert_eq!(players[0].can_attack, CanAttack(false));
    assert_eq!(players[1].can_attack, CanAttack(false));
}

#[test]
fn a_held_trigger_fires_once() {
    let mut players = vec![player(0, 0, 0, 0, 1000)];
    let mut projectiles = Vec::new();
    let held = vec![INPUT_SHOOT, 0];
    let released = vec![0, 0];
    for _ in 0..3 {
        fire_projectile(&mut players, &mut projectiles, &held);
        reload_projectile(&mut players, &held);
    }
    assert_eq!(projectiles.len(), 1);
    assert_eq!(projectiles[0], projectile(25, 525, 0, 1000));
    fire_projectile(&mut players, &mut projectiles, &released);
    reload_projectile(&mut players, &released);
    assert_eq!(projectiles.len(), 1);
    assert_eq!(players[0].can_attack, CanAttack(true));
    fire_projectile(&mut players, &mut projectiles, &held);
    reload_projectile(&mut players, &held);
    assert_eq!(projectiles.len(), 2);
    assert_eq!(players[0].can_attack, CanAttack(false));
}

#[test]
fn reload_needs_a_released_trigger() {
    let mut players = vec![player(0, 0, 0, 0, 1000), player(1, 0, 0, 0, 1000)];
    players[0].can_attack = CanAttack(false);
    players[1].can_attack = CanAttack(false);
    reload_projectile(&mut players, &vec![INPUT_SHOOT | INPUT_UP, INPUT_UP]);
    assert_eq!(players[0].can_attack, CanAttack(false));
    assert_eq!(players[1].can_attack, CanAttack(true));
}

#[test]
fn projectiles_fly_twenty_units_a_second() {
    let mut projectiles = vec![projectile(0, 0, 1000, 0), projectile(100, 100, -707, 707)];
    move_projectile(&mut projectiles, 50);
    assert_eq!(projectiles, vec![projectile(1000, 0, 1000, 0), projectile(-607, 807, -707, 707)]);
    move_projectile(&mut projectiles, 16);
    assert_eq!(projectiles[0].position, Vec2 { x: 1320, y: 0 });
    assert_eq!(projectiles[1].position, Vec2 { x: -607 - 226, y: 807 + 226 });
}

#[test]
fn projectile_beyond_the_world_is_removed() {
    let mut projectiles = vec![
        projectile(20501, 0, 1000, 0),
        projectile(20500, 0, 1000, 0),
        projectile(0, -20501, 0, -1000),
        projectile(-20500, 20500, 0, 1000),
        projectile(-30000, 30000, 0, 1000),
    ];
    let mut barriers = vec![tile(20501, 0, true)];
    projectile_barrier_collisions(&mut projectiles, &mut barriers);
    assert_eq!(projectiles, vec![projectile(-20500, 20500, 0, 1000)]);
    assert!(barriers.is_empty());
}

#[test]
fn projectile_leaving_the_world_goes_in_the_same_tick() {
    let mut world = empty_world(vec![player(0, 0, 0, 1000, 0), player(1, 0, 5000, 1000, 0)]);
    world.projectiles = vec![projectile(20400, 3000, 1000, 0)];
    world.step(&vec![0, 0], 16);
    assert!(world.projectiles.is_empty());
    assert_eq!(world.phase, GamePhase::ActiveRound);
}

#[test]
fn placed_barrier_falls_and_terrain_stands() {
    let mut projectiles = vec![projectile(-10000, 0, 1000, 0)];
    let mut barriers = vec![tile(-10000, 0, true)];
    projectile_barrier_collisions(&mut projectiles, &mut barriers);
    assert!(projectiles.is_empty());
    assert!(barriers.is_empty());

    let mut projectiles = vec![projectile(-10000, 0, 1000, 0)];
    let mut barriers = vec![tile(-10000, 0, false)];
    projectile_barrier_collisions(&mut projectiles, &mut barriers);
    assert!(projectiles.is_empty());
    assert_eq!(barriers, vec![tile(-10000, 0, false)]);
}

#[test]
fn placed_barrier_on_a_clicked_cell_is_shot_away() {
    let mut world = empty_world(vec![player(0, 0, 5000, 1000, 0), player(1, 0, -5000, 1000, 0)]);
    let click: u32 = INPUT_CLICK | (10 << 6) | (20 << 14);
    world.step(&vec![click, 0], 16);
    assert_eq!(world.barriers, vec![tile(-10000, 0, true)]);
    world.projectiles = vec![projectile(-10400, 100, 1000, 0)];
    world.step(&vec![0, 0], 16);
    assert!(world.projectiles.is_empty());
    assert!(world.barriers.is_empty());

    world.barriers = vec![tile(-10000, 0, false)];
    world.projectiles = vec![projectile(-10400, 100, 1000, 0)];
    world.step(&vec![0, 0], 16);
    assert!(world.projectiles.is_empty());
    assert_eq!(world.barriers, vec![tile(-10000, 0, false)]);
}

#[test]
fn a_projectile_destroys_only_the_first_barrier_it_strikes() {
    let mut projectiles = vec![projectile(500, 0, 1000, 0), projectile(1400, 0, 1000, 0)];
    let mut barriers = vec![
        tile(5000, 5000, true),
        tile(0, 0, false),
        tile(1000, 0, true),
        tile(1000, 0, true),
        tile(9000, 0, true),
    ];
    assert_eq!(first_hit(Vec2 { x: 500, y: 0 }, &barriers), Some(1));
    assert_eq!(first_hit(Vec2 { x: 1400, y: 0 }, &barriers), Some(2));
    assert_eq!(first_hit(Vec2 { x: 7000, y: 0 }, &barriers), None);
    projectile_barrier_collisions(&mut projectiles, &mut barriers);
    assert!(projectiles.is_empty());
    assert_eq!(
        barriers,
        vec![tile(5000, 5000, true), tile(0, 0, false), tile(1000, 0, true), tile(9000, 0, true)]
    );
}

#[test]
fn projectile_clear_of_barriers_flies_on() {
    let mut projectiles = vec![projectile(501, 0, 1000, 0), projectile(0, 500, 1000, 0)];
    let mut barriers = vec![tile(0, 0, true)];
    projectile_barrier_collisions(&mut projectiles, &mut barriers);
    assert_eq!(projectiles, vec![projectile(501, 0, 1000, 0)]);
    assert!(barriers.is_empty());
}

#[test]
fn circles_collide_when_closer_than_their_radii() {
    let origin = Vec2 { x: 0, y: 0 };
    assert!(is_colliding(origin, Vec2 { x: 524, y: 0 }, 500, 25));
    assert!(!is_colliding(origin, Vec2 { x: 525, y: 0 }, 500, 25));
    assert!(is_colliding(origin, Vec2 { x: 300, y: 400 }, 500, 25));
    assert!(!is_colliding(origin, Vec2 { x: 315, y: 420 }, 500, 25));
    assert!(is_colliding(Vec2 { x: -100, y: -100 }, Vec2 { x: 100, y: 100 }, 200, 100));
    assert!(!is_colliding(origin, origin, 0, 0));
}

#[test]
fn hit_player_leaves_and_opponent_scores() {
    let mut players = vec![player(0, 0, 0, 1000, 0), player(1, 5000, 0, -1000, 0)];
    let mut projectiles = vec![projectile(9000, 9000, 1000, 0), projectile(400, 25, -1000, 0)];
    assert!(player_is_hit(&players[0], &projectiles));
    assert!(!player_is_hit(&players[1], &projectiles));
    assert!(!projectile_strikes(&projectiles[0], &players));
    assert!(projectile_strikes(&projectiles[1], &players));
    let mut phase = GamePhase::ActiveRound;
    let mut scores = PlayerScores::new();
    check_player_collisions(&mut players, &mut projectiles, &mut phase, &mut scores);
    assert_eq!(projectiles, vec![projectile(9000, 9000, 1000, 0)]);
    assert_eq!(players, vec![player(1, 5000, 0, -1000, 0)]);
    assert_eq!(phase, GamePhase::RoundOver);
    assert_eq!(scores.get(0), 0);
    assert_eq!(scores.get(1), 1);
}

#[test]
fn hit_on_the_second_player_credits_the_first() {
    let mut players = vec![player(0, 0, 0, 1000, 0), player(1, 5000, 0, -1000, 0)];
    let mut projectiles = vec![projectile(5100, -100, 1000, 0)];
    let mut phase = GamePhase::ActiveRound;
    let mut scores = PlayerScores::new();
    scores.set(0, 4);
    check_player_collisions(&mut players, &mut projectiles, &mut phase, &mut scores);
    assert!(projectiles.is_empty());
    assert_eq!(players, vec![player(0, 0, 0, 1000, 0)]);
    assert_eq!(phase, GamePhase::RoundOver);
    assert_eq!(scores.get(0), 5);
    assert_eq!(scores.get(1), 0);
}

#[test]
fn no_hit_changes_nothing() {
    let before = vec![player(0, 0, 0, 1000, 0), player(1, 5000, 0, -1000, 0)];
    let mut players = before.clone();
    let mut projectiles = vec![projectile(2500, 0, 1000, 0), projectile(525, 0, 1000, 0)];
    let mut phase = GamePhase::ActiveRound;
    let mut scores = PlayerScores::new();
    check_player_collisions(&mut players, &mut projectiles, &mut phase, &mut scores);
    assert_eq!(projectiles, vec![projectile(2500, 0, 1000, 0), projectile(525, 0, 1000, 0)]);
    assert_eq!(players, before);
    assert_eq!(phase, GamePhase::ActiveRound);
    assert_eq!(scores, PlayerScores::new());
}

#[test]
fn both_players_hit_in_one_tick_both_score() {
    let mut players = vec![player(0, 0, 0, 1000, 0), player(1, 5000, 0, -1000, 0)];
    let mut projectiles = vec![projectile(100, 0, 1000, 0), projectile(5000, 100, -1000, 0)];
    let mut phase = GamePhase::ActiveRound;
    let mut scores = PlayerScores::new();
    check_player_collisions(&mut players, &mut projectiles, &mut phase, &mut scores);
    assert!(projectiles.is_empty());
    assert!(players.is_empty());
    assert_eq!(phase, GamePhase::RoundOver);
    assert_eq!(scores.get(0), 1);
    assert_eq!(scores.get(1), 1);
}

#[test]
fn shot_across_five_units_ends_the_round() {
    let mut world = empty_world(vec![player(0, 0, 0, 1000, 0), player(1, 5000, 0, -1000, 0)]);
    let inputs = vec![0, INPUT_SHOOT];
    let mut ticks = 0;
    while world.phase == GamePhase::ActiveRound && ticks < 100 {
        let transition = world.step(&inputs, 16);
        ticks += 1;
        if world.phase == GamePhase::ActiveRound {
            assert_eq!(transition, None);
            assert_eq!(world.projectiles.len(), 1);
            assert_eq!(world.projectiles[0].position, Vec2 { x: 4525 - 320 * ticks, y: 25 });
            assert_eq!(world.players.len(), 2);
        }
    }
    assert_eq!(ticks, 13);
    assert!(world.projectiles.is_empty());
    assert_eq!(world.phase, GamePhase::RoundOver);
    assert_eq!(world.clone().step(&inputs, 16), None);
    assert_eq!(world.players.len(), 1);
    assert_eq!(world.players[0].handle, 1);
    assert_eq!(world.scores.get(0), 0);
    assert_eq!(world.scores.get(1), 1);
}

#[test]
fn click_places_a_barrier_on_the_cell() {
    let mut barriers = vec![tile(0, 0, false)];
    let players = vec![player(0, 0, 0, 1000, 0), player(1, 0, 0, 1000, 0)];
    let click: u32 = INPUT_CLICK | (10 << 6) | (20 << 14);
    let corner: u32 = INPUT_CLICK | (63 << 6);
    place_barrier_on_click(&mut barriers, &vec![click, corner], &players);
    assert_eq!(
        barriers,
        vec![tile(0, 0, false), tile(-10000, 0, true), tile(43000, -20000, true)]
    );
    place_barrier_on_click(&mut barriers, &vec![INPUT_UP, INPUT_SHOOT], &players);
    assert_eq!(barriers.len(), 3);
}

#[test]
fn only_players_alive_place_barriers() {
    let mut barriers = Vec::new();
    let players = vec![player(1, 0, 0, 1000, 0)];
    let click: u32 = INPUT_CLICK | (1 << 6) | (2 << 14);
    place_barrier_on_click(&mut barriers, &vec![click, 0], &players);
    assert!(barriers.is_empty());
    place_barrier_on_click(&mut barriers, &vec![0, click], &players);
    assert_eq!(barriers, vec![tile(-19000, -18000, true)]);
}

#[test]
fn timer_fires_once_per_period() {
    let mut timer = RoundTimer::default();
    assert_eq!(timer, RoundTimer { elapsed: 0, period: 1000 });
    assert!(timer.tick(1000));
    assert_eq!(timer.elapsed, 0);
    assert!(!timer.tick(0));
    assert!(!timer.tick(400));
    assert!(!timer.tick(400));
    assert!(timer.tick(400));
    assert_eq!(timer.elapsed, 200);
    assert!(!timer.tick(799));
    assert!(timer.tick(1));
    assert_eq!(timer.elapsed, 0);
    assert!(timer.tick(u32::MAX));
    assert_eq!(timer.elapsed, u32::MAX % 1000);
}

#[test]
fn pause_timer_starts_the_next_round() {
    let mut timer = RoundTimer::default();
    let mut phase = GamePhase::RoundOver;
    assert!(!round_over_timer(&mut timer, &mut phase, 999));
    assert_eq!(phase, GamePhase::RoundOver);
    assert!(round_over_timer(&mut timer, &mut phase, 1));
    assert_eq!(phase, GamePhase::ActiveRound);
    assert_eq!(timer, RoundTimer { elapsed: 0, period: 1000 });
    assert_eq!(GamePhase::default(), GamePhase::ActiveRound);
}

#[test]
fn round_restarts_once_after_one_period() {
    let mut world = World::new(RandomSeed(5));
    world.phase = GamePhase::RoundOver;
    world.scores.set(1, 1);
    world.players.truncate(1);
    world.projectiles = vec![projectile(0, 0, 1000, 0)];
    world.barriers.push(tile(0, 0, true));
    let before = world.clone();
    assert_eq!(world.step(&vec![0, 0], 999), None);
    assert_eq!(world.phase, GamePhase::RoundOver);
    assert_eq!(world.timer.elapsed, 999);
    assert_eq!(world.players, before.players);
    assert_eq!(world.barriers, before.barriers);
    assert_eq!(world.projectiles, before.projectiles);
    assert_eq!(world.step(&vec![0, 0], 1), Some(GamePhase::ActiveRound));
    assert_eq!(world.phase, GamePhase::ActiveRound);
    assert_eq!(world.timer.elapsed, 0);
    assert_eq!(world.players.len(), 2);
    assert!(world.projectiles.is_empty());
    assert!(world.barriers.iter().all(|b| !b.player_placed));
    assert_eq!(world.scores.get(1), 1);
    assert_ne!(world.barriers, World::new(RandomSeed(5)).barriers);
    let restarted = world.clone();
    world.step(&vec![0, 0], 0);
    assert_eq!(world.barriers, restarted.barriers);
    assert_eq!(world.phase, GamePhase::ActiveRound);
}

#[test]
fn replay_from_a_snapshot_gives_the_same_world() {
    let mut world = World::new(RandomSeed(0xfeed));
    let script: Vec<(u32, u32)> = vec![
        (INPUT_UP, INPUT_SHOOT),
        (INPUT_UP | INPUT_RIGHT, INPUT_SHOOT),
        (INPUT_SHOOT, INPUT_CLICK | (3 << 6) | (4 << 14)),
        (0, INPUT_RIGHT),
        (INPUT_SHOOT | INPUT_UP, 0),
    ];
    for round in 0..40 {
        let (a, b) = script[round % script.len()];
        let inputs = vec![a, b];
        let snapshot = world.clone();
        world.step(&inputs, 16);
        let mut replay = snapshot.clone();
        replay.step(&inputs, 16);
        assert_eq!(replay, world);
        let mut again = snapshot;
        again.step(&inputs, 16);
        assert_eq!(again, world);
    }
}

#[test]
fn tick_runs_movement_before_shooting() {
    let mut world = empty_world(vec![player(0, 0, 0, 1000, 0), player(1, 0, 9000, 1000, 0)]);
    world.step(&vec![INPUT_UP | INPUT_SHOOT, 0], 100);
    assert_eq!(world.players[0].position, Vec2 { x: 0, y: 1000 });
    assert_eq!(world.players[0].can_attack, CanAttack(false));
    assert_eq!(world.projectiles, vec![projectile(25, 1000 + 500 + 25 + 2000, 0, 1000)]);
}

#[test]
fn tick_pushes_a_moving_player_out_of_a_barrier() {
    let mut world = empty_world(vec![player(0, 0, 0, 1000, 0), player(1, 0, 9000, 1000, 0)]);
    world.barriers = vec![tile(1500, 0, false)];
    world.step(&vec![INPUT_RIGHT, 0], 100);
    assert_eq!(world.players[0].position, Vec2 { x: 500, y: 0 });
    assert_eq!(world.barriers, vec![tile(1500, 0, false)]);
}

#[test]
fn three_players_play_on_until_one_remains() {
    let mut players = vec![
        player(0, 0, 0, 1000, 0),
        player(1, 5000, 0, -1000, 0),
        player(2, 0, 5000, 0, -1000),
    ];
    let mut phase = GamePhase::ActiveRound;
    let mut scores = PlayerScores::for_players(3);
    assert_eq!(scores.player_count(), 3);
    let mut projectiles = vec![projectile(100, 0, 1000, 0), projectile(2500, 2500, 0, 1000)];
    check_player_collisions(&mut players, &mut projectiles, &mut phase, &mut scores);
    assert_eq!(projectiles, vec![projectile(2500, 2500, 0, 1000)]);
    assert_eq!(players.len(), 2);
    assert_eq!(players[0].handle, 1);
    assert_eq!(players[1].handle, 2);
    assert_eq!(phase, GamePhase::ActiveRound);
    assert_eq!(scores, PlayerScores::for_players(3));
    let mut projectiles = vec![projectile(9000, 0, 1000, 0)];
    check_player_collisions(&mut players, &mut projectiles, &mut phase, &mut scores);
    assert_eq!(projectiles.len(), 1);
    assert_eq!(players.len(), 2);
    assert_eq!(phase, GamePhase::ActiveRound);
    let mut projectiles = vec![projectile(0, 5100, 1000, 0)];
    check_player_collisions(&mut players, &mut projectiles, &mut phase, &mut scores);
    assert!(projectiles.is_empty());
    assert_eq!(players.len(), 1);
    assert_eq!(players[0].handle, 1);
    assert_eq!(phase, GamePhase::RoundOver);
    assert_eq!(scores, PlayerScores::for_players(3));
}

#[test]
fn three_players_all_hit_at_once_leave_the_round_open() {
    let mut players = vec![
        player(0, 0, 0, 1000, 0),
        player(1, 5000, 0, -1000, 0),
        player(2, 0, 5000, 0, -1000),
    ];
    let mut projectiles = vec![
        projectile(0, 100, 1000, 0),
        projectile(5000, 100, 1000, 0),
        projectile(0, 5100, 1000, 0),
    ];
    let mut phase = GamePhase::ActiveRound;
    let mut scores = PlayerScores::for_players(3);
    check_player_collisions(&mut players, &mut projectiles, &mut phase, &mut scores);
    assert!(projectiles.is_empty());
    assert!(players.is_empty());
    assert_eq!(phase, GamePhase::ActiveRound);
}

#[test]
fn a_larger_session_spawns_one_player_for_each_score() {
    let world = World::with_players(RandomSeed(11), 4);
    assert_eq!(world.players.len(), 4);
    assert_eq!(world.scores.player_count(), 4);
    for (index, spawned) in world.players.iter().enumerate() {
        assert_eq!(spawned.handle, index);
    }
    assert_eq!(world, World::with_players(RandomSeed(11), 4));
    assert_eq!(world.barriers, World::new(RandomSeed(11)).barriers);
    let mut stepped = world.clone();
    stepped.step(&vec![INPUT_UP, 0, INPUT_SHOOT, INPUT_RIGHT], 16);
    let mut again = world.clone();
    again.step(&vec![INPUT_UP, 0, INPUT_SHOOT, INPUT_RIGHT], 16);
    assert_eq!(stepped, again);
}

#[test]
fn projectile_that_strikes_a_player_is_destroyed() {
    let mut players = vec![player(0, 0, 0, 1000, 0), player(1, 5000, 0, -1000, 0)];
    let mut projectiles = vec![projectile(250, 0, 1000, 0)];
    let mut phase = GamePhase::ActiveRound;
    let mut scores = PlayerScores::new();
    check_player_collisions(&mut players, &mut projectiles, &mut phase, &mut scores);
    assert!(projectiles.is_empty());
    assert_eq!(players, vec![player(1, 5000, 0, -1000, 0)]);
    assert_eq!(scores.get(1), 1);
    assert_eq!(phase, GamePhase::RoundOver);
}

#[test]
fn every_projectile_on_a_player_goes_and_the_others_keep_their_order() {
    let mut players = vec![player(0, 0, 0, 1000, 0), player(1, 5000, 0, -1000, 0)];
    let mut projectiles = vec![
        projectile(7000, 0, 1000, 0),
        projectile(100, 0, 1000, 0),
        projectile(-8000, 3, 1000, 0),
        projectile(0, -100, 1000, 0),
        projectile(2500, 0, 1000, 0),
    ];
    let mut phase = GamePhase::ActiveRound;
    let mut scores = PlayerScores::new();
    check_player_collisions(&mut players, &mut projectiles, &mut phase, &mut scores);
    assert_eq!(
        projectiles,
        vec![
            projectile(7000, 0, 1000, 0),
            projectile(-8000, 3, 1000, 0),
            projectile(2500, 0, 1000, 0),
        ]
    );
    assert_eq!(players, vec![player(1, 5000, 0, -1000, 0)]);
    assert_eq!(scores.get(1), 1);
}

#[test]
fn a_tick_removes_the_projectile_with_the_player_it_hits() {
    let mut world = empty_world(vec![player(0, 0, 0, 1000, 0), player(1, 5000, 0, -1000, 0)]);
    world.projectiles = vec![projectile(700, 0, -1000, 0), projectile(0, 9000, 0, 1000)];
    assert_eq!(world.step(&vec![0, 0], 16), Some(GamePhase::RoundOver));
    assert_eq!(world.projectiles, vec![projectile(0, 9320, 0, 1000)]);
    assert_eq!(world.players, vec![player(1, 5000, 0, -1000, 0)]);
    assert_eq!(world.scores.get(1), 1);
}

#[test]
fn a_trigger_held_for_many_ticks_by_both_players_fires_once_each() {
    let mut world = empty_world(vec![player(0, 0, -9000, 0, -1000), player(1, 0, 9000, 0, 1000)]);
    let held = vec![INPUT_SHOOT, INPUT_SHOOT | INPUT_RIGHT];
    let mut fired = 0;
    for _ in 0..40 {
        let before = world.projectiles.len();
        world.step(&held, 16);
        if world.projectiles.len() > before {
            fired += world.projectiles.len() - before;
        }
        assert_eq!(world.players[0].can_attack, CanAttack(false));
        assert_eq!(world.players[1].can_attack, CanAttack(false));
    }
    assert_eq!(fired, 2);
    assert_eq!(world.phase, GamePhase::ActiveRound);
}
