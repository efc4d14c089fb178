use arena_core::barriers::{create_world, stamp_rectangle, Barrier, Rect};
use arena_core::geometry::Vec2;
use arena_core::network_manager::RandomSeed;
use arena_core::player_module::{
    create_player, initialize_players, CanAttack, Color, Gun, MovementDirection, Player,
};
use arena_core::projectile::Projectile;
use arena_core::simulation::World;
use arena_core::utilities::{GamePhase, PlayerScores, RoundTimer};

fn terrain(seed: u64, scores: &PlayerScores) -> Vec<Barrier> {
    let mut barriers = Vec::new();
    create_world(&mut barriers, RandomSeed(seed), scores);
    barriers
}

fn spawn(seed: u64, scores: &PlayerScores, left: Vec<Player>) -> Vec<Player> {
    let mut players = left;
    let mut projectiles = vec![Projectile {
        direction: MovementDirection(Vec2 { x: 1000, y: 0 }),
        position: Vec2 { x: 0, y: 0 },
    }];
    initialize_players(&mut players, &mut projectiles, RandomSeed(seed), scores);
    assert!(projectiles.is_empty());
    players
}

#[test]
fn stamp_fills_the_rectangle_column_by_column() {
    let mut barriers = Vec::new();
    stamp_rectangle(&mut barriers, Rect { cell_x: 0, cell_y: 0, width: 2, height: 3 });
    let expected: Vec<Barrier> = vec![
        (-20000, -20000),
        (-20000, -19000),
        (-20000, -18000),
        (-19000, -20000),
        (-19000, -19000),
        (-19000, -18000),
    ]
    .into_iter()
    .map(|(x, y)| Barrier { position: Vec2 { x, y }, player_placed: false })
    .collect();
    assert_eq!(barriers, expected);
}

#[test]
fn stamp_keeps_what_was_there_and_reaches_the_far_corner() {
    let first = Barrier { position: Vec2 { x: 1, y: 2 }, player_placed: true };
    let mut barriers = vec![first];
    stamp_rectangle(&mut barriers, Rect { cell_x: 40, cell_y: 40, width: 1, height: 1 });
    assert_eq!(
        barriers,
        vec![first, Barrier { position: Vec2 { x: 20000, y: 20000 }, player_placed: false }]
    );
    stamp_rectangle(&mut barriers, Rect { cell_x: 20, cell_y: 20, width: 0, height: 5 });
    assert_eq!(barriers.len(), 2);
}

#[test]
fn same_seed_gives_the_same_terrain() {
    let scores = PlayerScores::new();
    for seed in [0u64, 1, 42, 0xdead_beef, u64::MAX] {
        assert_eq!(terrain(seed, &scores), terrain(seed, &scores));
    }
}

#[test]
fn terrain_replaces_earlier_barriers() {
    let scores = PlayerScores::new();
    let mut barriers = vec![Barrier { position: Vec2 { x: 0, y: 0 }, player_placed: true }; 5];
    create_world(&mut barriers, RandomSeed(9), &scores);
    assert_eq!(barriers, terrain(9, &scores));
    assert!(barriers.iter().all(|b| !b.player_placed));
}

#[test]
fn terrain_lies_on_the_grid() {
    let scores = PlayerScores::new();
    for seed in 0u64..50 {
        let barriers = terrain(seed, &scores);
        assert!(barriers.len() >= 20);
        assert!(barriers.len() <= 20 * 81);
        for barrier in &barriers {
            assert!(!barrier.player_placed);
            assert!(barrier.position.x >= -20000 && barrier.position.x <= 20000);
            assert!(barrier.position.y >= -20000 && barrier.position.y <= 20000);
            assert_eq!(barrier.position.x.rem_euclid(1000), 0);
            assert_eq!(barrier.position.y.rem_euclid(1000), 0);
        }
    }
}

#[test]
fn terrain_varies_with_seed_and_draws() {
    let scores = PlayerScores::new();
    let a = terrain(1, &scores);
    let b = terrain(2, &scores);
    assert_ne!(a, b);
    let sizes: Vec<usize> = (0u64..20).map(|seed| terrain(seed, &scores).len()).collect();
    assert!(sizes.iter().any(|&n| n > 20));
    let first = a[0].position;
    assert!(a.iter().any(|barrier| barrier.position != first));
}

#[test]
fn terrain_depends_on_the_scores() {
    let zero = PlayerScores::new();
    let mut one = PlayerScores::new();
    one.set(1, 1);
    assert_ne!(terrain(5, &zero), terrain(5, &one));
    let mut other = PlayerScores::new();
    other.set(0, 1);
    assert_eq!(terrain(5, &one), terrain(5, &other));
    assert_eq!(terrain(1234 ^ 1235 ^ 5, &zero), terrain(5, &one));
}

#[test]
fn create_player_is_ready_at_common_speed() {
    let color = Color { red: 1, green: 2, blue: 3 };
    let player = create_player(Vec2 { x: 5, y: -6 }, 1, color, Vec2 { x: 0, y: -1000 });
    assert_eq!(
        player,
        Player {
            speed: 10,
            handle: 1,
            color,
            position: Vec2 { x: 5, y: -6 },
            direction: MovementDirection(Vec2 { x: 0, y: -1000 }),
            can_attack: CanAttack(true),
            gun: Gun { offset: Vec2 { x: 0, y: -500 } },
        }
    );
}

#[test]
fn spawn_gives_each_handle_one_player_within_the_world() {
    let scores = PlayerScores::new();
    for seed in 0u64..50 {
        let players = spawn(seed, &scores, Vec::new());
        assert_eq!(players.len(), 2);
        for (index, player) in players.iter().enumerate() {
            assert_eq!(player.handle, index);
            assert_eq!(player.speed, 10);
            assert_eq!(player.can_attack, CanAttack(true));
            assert!(player.position.x >= -20500 && player.position.x < 20500);
            assert!(player.position.y >= -20500 && player.position.y < 20500);
            assert!(player.color.red < 1000 && player.color.green < 1000 && player.color.blue < 1000);
            let facing = player.direction.0;
            let square = facing.x * facing.x + facing.y * facing.y;
            assert!(square == 0 || (square > 997 * 997 && square <= 1002 * 1002));
            assert_eq!(player.gun.offset, Vec2 { x: facing.x / 2, y: facing.y / 2 });
        }
    }
}

#[test]
fn same_seed_gives_the_same_spawn() {
    let scores = PlayerScores::new();
    for seed in [0u64, 7, 0xabcdef, u64::MAX] {
        assert_eq!(spawn(seed, &scores, Vec::new()), spawn(seed, &scores, Vec::new()));
    }
    assert_ne!(spawn(1, &scores, Vec::new()), spawn(2, &scores, Vec::new()));
}

#[test]
fn spawn_depends_on_where_the_survivors_stood() {
    let scores = PlayerScores::new();
    let color = Color { red: 0, green: 0, blue: 0 };
    let at = |x: i64| vec![create_player(Vec2 { x, y: 0 }, 0, color, Vec2 { x: 1000, y: 0 })];
    let fresh = spawn(3, &scores, Vec::new());
    assert_eq!(spawn(3, &scores, at(999)), fresh);
    assert_eq!(spawn(3, &scores, at(-7000)), fresh);
    assert_ne!(spawn(3, &scores, at(7000)), fresh);
    assert_eq!(spawn(3, &scores, at(7000)), spawn(3, &scores, at(7999)));
    assert_eq!(spawn(3, &scores, at(7000)), spawn((1234 + 7) ^ 1234 ^ 3, &scores, Vec::new()));
}

#[test]
fn two_worlds_from_one_seed_are_equal() {
    for seed in [0u64, 99, 0x1234_5678_9abc_def0] {
        let a = World::new(RandomSeed(seed));
        let b = World::new(RandomSeed(seed));
        assert_eq!(a, b);
        assert_eq!(a.phase, GamePhase::ActiveRound);
        assert_eq!(a.timer, RoundTimer { elapsed: 0, period: 1000 });
        assert_eq!(a.seed, RandomSeed(seed));
        assert_eq!(a.scores, PlayerScores::new());
        assert_eq!(a.players.len(), 2);
        assert!(a.projectiles.is_empty());
        assert_eq!(a.barriers, terrain(seed, &PlayerScores::new()));
        assert_eq!(a.players, spawn(seed, &PlayerScores::new(), Vec::new()));
    }
    assert_ne!(World::new(RandomSeed(1)), World::new(RandomSeed(2)));
}

#[test]
fn terrain_has_twenty_rectangles_of_one_to_nine_cells() {
    let scores = PlayerScores::new();
    for seed in 0u64..200 {
        let barriers = terrain(seed, &scores);
        assert!(barriers.len() >= 20 && barriers.len() <= 1620);
        assert!(barriers.iter().all(|b| !b.player_placed));
        assert!(barriers.iter().all(|b| b.position.x.abs() <= 20000 && b.position.y.abs() <= 20000));
    }
}
