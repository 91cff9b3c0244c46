use zombie_survival::{
    press_key, release_key, BlueZombie, GameState, Key, Player, World, Zombie, ZombieSpawner,
};

fn world_with(zombies: Vec<Zombie>) -> World {
    World::with_entities(
        Player::new(400_000, 300_000),
        zombies,
        Vec::new(),
        ZombieSpawner::new(5000, 100, 1000),
    )
}

#[test]
fn opening_world() {
    let w = World::new();
    assert_eq!((w.player.x, w.player.y, w.player.health), (400_000, 300_000, 100));
    assert_eq!(
        w.zombies,
        vec![
            Zombie::new(100_000, 100_000),
            Zombie::new(700_000, 500_000),
            Zombie::new(200_000, 400_000)
        ]
    );
    assert!(w.blue_zombies.is_empty());
    assert_eq!(w.state, GameState::Playing);
    assert_eq!((w.score, w.clock), (0, 0));
    assert_eq!(w.spawner.spawn_interval, 5000);
}

#[test]
fn zombie_reaches_player_after_six_seconds() {
    let mut w = world_with(vec![Zombie::new(400_000, 0)]);
    w.step(6000, &vec![]);
    assert_eq!((w.zombies[0].x, w.zombies[0].y), (400_000, 300_000));
    assert_eq!(w.player.health, 90);
    assert_eq!(w.state, GameState::Playing);
}

#[test]
fn zombie_closes_in_tick_by_tick() {
    let mut w = world_with(vec![Zombie::new(400_000, 0)]);
    for _ in 0..368 {
        w.step(16, &vec![]);
    }
    assert_eq!(w.zombies[0].y, 294_400);
    assert_eq!(w.player.health, 100);
    w.step(16, &vec![]);
    assert_eq!(w.player.health, 90);
    for _ in 369..375 {
        w.step(16, &vec![]);
    }
    assert_eq!((w.zombies[0].x, w.zombies[0].y), (400_000, 300_000));
    assert_eq!(w.clock, 6000);
}

#[test]
fn ten_overlapping_zombies_deal_ten_hits() {
    let mut w = world_with(vec![Zombie::new(400_000, 300_000); 10]);
    w.step(16, &vec![]);
    assert_eq!(w.player.health, 0);
    assert_eq!(w.state, GameState::GameOver);
}

#[test]
fn damage_counts_each_kind() {
    let mut w = world_with(vec![Zombie::new(400_000, 300_000); 3]);
    w.blue_zombies = vec![BlueZombie::new(401_000, 300_000); 2];
    w.step(16, &vec![]);
    assert_eq!(w.player.health, 50);
    assert_eq!(w.state, GameState::Playing);
}

#[test]
fn game_over_stops_the_world() {
    let mut w = world_with(vec![Zombie::new(400_000, 300_000); 10]);
    w.step(16, &vec![]);
    assert_eq!(w.state, GameState::GameOver);
    let (clock, score, count) = (w.clock, w.score, w.zombies.len());
    let (px, py) = (w.player.x, w.player.y);
    for _ in 0..500 {
        w.step(1000, &vec![Key::Up]);
    }
    assert_eq!((w.clock, w.score, w.zombies.len()), (clock, score, count));
    assert_eq!((w.player.x, w.player.y, w.player.health), (px, py, 0));
    assert_eq!(w.state, GameState::GameOver);
}

#[test]
fn score_counts_seconds() {
    let mut w = world_with(vec![]);
    w.step(999, &vec![]);
    assert_eq!(w.score, 0);
    w.step(1, &vec![]);
    assert_eq!(w.score, 1);
    w.step(500, &vec![]);
    assert_eq!(w.score, 1);
    w.step(1500, &vec![]);
    assert_eq!(w.score, 2);
    assert_eq!(w.score_mark, 3000);
}

#[test]
fn spawner_adds_zombies_on_time() {
    let mut w = world_with(vec![]);
    w.step(4999, &vec![]);
    assert_eq!(w.zombies.len() + w.blue_zombies.len(), 0);
    w.step(1, &vec![]);
    assert_eq!(w.zombies.len() + w.blue_zombies.len(), 1);
    assert_eq!(w.spawner.spawn_interval, 4900);
}

#[test]
fn player_moves_with_keys_in_a_step() {
    let mut w = world_with(vec![]);
    w.step(100, &vec![Key::Left, Key::Down]);
    assert_eq!((w.player.x, w.player.y), (390_000, 310_000));
}

#[test]
fn tick_waits_for_the_tick_length() {
    let mut w = world_with(vec![Zombie::new(400_000, 0)]);
    assert!(!w.tick(15, &vec![]));
    assert_eq!((w.clock, w.zombies[0].y), (0, 0));
    assert!(w.tick(16, &vec![]));
    assert_eq!((w.clock, w.zombies[0].y), (16, 800));
}

#[test]
fn tick_caps_a_long_gap() {
    let mut w = world_with(vec![]);
    assert!(w.tick(10_000_000, &vec![]));
    assert_eq!(w.clock, 3_600_000);
}

#[test]
fn keys_are_held_once_and_released() {
    let mut keys = Vec::new();
    press_key(&mut keys, Key::Up);
    press_key(&mut keys, Key::Left);
    press_key(&mut keys, Key::Up);
    assert_eq!(keys, vec![Key::Up, Key::Left]);
    release_key(&mut keys, Key::Up);
    assert_eq!(keys, vec![Key::Left]);
    release_key(&mut keys, Key::Down);
    assert_eq!(keys, vec![Key::Left]);
}
