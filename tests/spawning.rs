use zombie_survival::{BlueZombie, Zombie, ZombieSpawner};

fn on_edge(x: i64, y: i64) -> bool {
    ((0..800_000).contains(&x) && (y == 0 || y == 600_000))
        || ((0..600_000).contains(&y) && (x == 0 || x == 800_000))
}

#[test]
fn spawner_starts_as_given() {
    let s = ZombieSpawner::new(5000, 100, 1000);
    assert_eq!(
        (s.last_spawn, s.spawn_interval, s.spawn_rate_decrease, s.min_spawn_interval),
        (0, 5000, 100, 1000)
    );
}

#[test]
fn spawn_interval_ramps_down_to_its_floor() {
    let mut s = ZombieSpawner::new(5000, 100, 1000);
    let mut zs: Vec<Zombie> = Vec::new();
    let mut bs: Vec<BlueZombie> = Vec::new();
    for n in 1..=60u64 {
        s.spawn_one(n * 10_000, 0, 1, false, &mut zs, &mut bs);
        let expected = std::cmp::max(1000, 5000 - 100 * n as i64) as u64;
        assert_eq!(s.spawn_interval, expected);
        assert_eq!(s.last_spawn, n * 10_000);
    }
    assert_eq!(zs.len(), 60);
    assert!(bs.is_empty());
}

#[test]
fn spawn_interval_below_floor_is_kept() {
    let mut s = ZombieSpawner::new(500, 100, 1000);
    let mut zs = Vec::new();
    let mut bs = Vec::new();
    s.spawn_one(10, 3, 5, true, &mut zs, &mut bs);
    assert_eq!(s.spawn_interval, 500);
}

#[test]
fn spawn_decrease_larger_than_interval_stops_at_floor() {
    let mut s = ZombieSpawner::new(1500, 2000, 1000);
    let mut zs = Vec::new();
    let mut bs = Vec::new();
    s.spawn_one(10, 3, 5, true, &mut zs, &mut bs);
    assert_eq!(s.spawn_interval, 1000);
}

#[test]
fn spawn_one_places_on_each_edge() {
    let mut s = ZombieSpawner::new(5000, 100, 1000);
    let mut zs = Vec::new();
    let mut bs = Vec::new();
    s.spawn_one(0, 0, 123, false, &mut zs, &mut bs);
    s.spawn_one(0, 1, 456, false, &mut zs, &mut bs);
    s.spawn_one(0, 2, 789, true, &mut zs, &mut bs);
    s.spawn_one(0, 3, 10, true, &mut zs, &mut bs);
    assert_eq!(zs, vec![Zombie::new(123, 0), Zombie::new(456, 600_000)]);
    assert_eq!(bs, vec![BlueZombie::new(0, 789), BlueZombie::new(800_000, 10)]);
}

#[test]
fn spawn_waits_for_the_interval() {
    let mut s = ZombieSpawner::new(5000, 100, 1000);
    let mut zs = Vec::new();
    let mut bs = Vec::new();
    s.spawn_zombies(4999, &mut zs, &mut bs);
    assert!(zs.is_empty() && bs.is_empty());
    assert_eq!((s.last_spawn, s.spawn_interval), (0, 5000));
    s.spawn_zombies(5000, &mut zs, &mut bs);
    assert_eq!(zs.len() + bs.len(), 1);
    assert_eq!((s.last_spawn, s.spawn_interval), (5000, 4900));
    s.spawn_zombies(9899, &mut zs, &mut bs);
    assert_eq!(zs.len() + bs.len(), 1);
}

#[test]
fn spawned_zombies_are_on_the_edge() {
    let mut s = ZombieSpawner::new(0, 0, 0);
    let mut zs: Vec<Zombie> = Vec::new();
    let mut bs: Vec<BlueZombie> = Vec::new();
    for t in 0..400u64 {
        s.spawn_zombies(t, &mut zs, &mut bs);
    }
    assert_eq!(zs.len() + bs.len(), 400);
    for z in &zs {
        assert!(on_edge(z.x, z.y));
        assert_eq!(z.speed, 50);
    }
    for b in &bs {
        assert!(on_edge(b.x, b.y));
        assert_eq!(b.speed, 85);
    }
    // a one in five chance of a blue zombie: both kinds show up
    assert!(!zs.is_empty() && !bs.is_empty());
    // the edge and the point along it vary
    let first = (zs[0].x, zs[0].y);
    assert!(zs.iter().any(|z| (z.x, z.y) != first));
}
