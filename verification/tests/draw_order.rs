use arena_core::barriers::{create_world, Barrier};
use arena_core::geometry::{normalize_or_zero, Vec2};
use arena_core::network_manager::RandomSeed;
use arena_core::player_module::{create_player, initialize_players, Color, Player};
use arena_core::utilities::PlayerScores;
use rand::Rng;
use rand_xoshiro::rand_core::SeedableRng;
use rand_xoshiro::Xoshiro256PlusPlus;

fn terrain_by_hand(seed: u64) -> Vec<Barrier> {
    let mut rng = Xoshiro256PlusPlus::seed_from_u64(seed);
    let mut tiles = Vec::new();
    for _ in 0..20 {
        let width: u32 = rng.gen_range(1..10);
        let height: u32 = rng.gen_range(1..10);
        let cell_x: u32 = rng.gen_range(0..=(41 - width));
        let cell_y: u32 = rng.gen_range(0..=(41 - height));
        for dx in 0..width {
            for dy in 0..height {
                tiles.push(Barrier {
                    position: Vec2 {
                        x: ((cell_x + dx) as i64 - 20) * 1000,
                        y: ((cell_y + dy) as i64 - 20) * 1000,
                    },
                    player_placed: false,
                });
            }
        }
    }
    tiles
}

fn spawn_by_hand(seed: u64, count: usize) -> Vec<Player> {
    let mut rng = Xoshiro256PlusPlus::seed_from_u64(seed);
    let mut positions = Vec::new();
    for _ in 0..count {
        let x: u32 = rng.gen_range(0..41000);
        let y: u32 = rng.gen_range(0..41000);
        positions.push(Vec2 { x: x as i64 - 20500, y: y as i64 - 20500 });
    }
    let mut players = Vec::new();
    for handle in 0..count {
        let red: u32 = rng.gen_range(0..1000);
        let green: u32 = rng.gen_range(0..1000);
        let blue: u32 = rng.gen_range(0..1000);
        let hx: u32 = rng.gen_range(0..2000);
        let hy: u32 = rng.gen_range(0..2000);
        let facing = normalize_or_zero(Vec2 { x: hx as i64 - 1000, y: hy as i64 - 1000 });
        players.push(create_player(positions[handle], handle, Color { red, green, blue }, facing));
    }
    players
}

#[test]
fn terrain_follows_the_order_of_draws() {
    let mut scores = PlayerScores::new();
    scores.set(0, 2);
    scores.set(1, 5);
    for session in [0u64, 1, 77, 0xffff_ffff_ffff_ffff, 0x0123_4567_89ab_cdef] {
        let mut barriers = Vec::new();
        create_world(&mut barriers, RandomSeed(session), &scores);
        assert_eq!(barriers, terrain_by_hand((1234 + 2 + 5) ^ session));
    }
}

#[test]
fn spawn_draws_all_positions_before_any_look() {
    let mut scores = PlayerScores::new();
    scores.set(1, 3);
    for session in [0u64, 5, 1 << 63, 0xdead_beef_dead_beef] {
        let mut players = Vec::new();
        let mut projectiles = Vec::new();
        initialize_players(&mut players, &mut projectiles, RandomSeed(session), &scores);
        assert_eq!(players, spawn_by_hand((1234 + 3) ^ session, 2));
    }
    let four = PlayerScores::for_players(4);
    let mut players = vec![create_player(
        Vec2 { x: 12999, y: 0 },
        0,
        Color { red: 0, green: 0, blue: 0 },
        Vec2 { x: 0, y: 1000 },
    )];
    let mut projectiles = Vec::new();
    initialize_players(&mut players, &mut projectiles, RandomSeed(9), &four);
    assert_eq!(players, spawn_by_hand((1234 + 12) ^ 9, 4));
}
