use zombie_survival::{advance, collides, isqrt, BlueZombie, Key, Player, Zombie, ZombieTrait};

#[test]
fn advance_moves_along_an_axis() {
    assert_eq!(advance(0, 0, 10_000, 0, 50, 100), (5_000, 0));
}

#[test]
fn advance_moves_along_a_diagonal() {
    assert_eq!(advance(0, 0, 3_000, 4_000, 10, 100), (600, 800));
}

#[test]
fn advance_toward_negative_offsets() {
    assert_eq!(advance(0, 0, -3_000, -4_000, 10, 100), (-600, -800));
}

#[test]
fn advance_rounds_each_axis_toward_zero() {
    // distance sqrt(2) * 1000 rounds down to 1414; 1000 * 1000 / 1414 = 707.2
    assert_eq!(advance(0, 0, 1_000, -1_000, 1, 1000), (707, -707));
}

#[test]
fn advance_at_target_stays() {
    assert_eq!(advance(7, 9, 7, 9, 100, 1000), (7, 9));
    assert_eq!(advance(-400, 12, -400, 12, 0, 0), (-400, 12));
}

#[test]
fn advance_overshoots_on_a_long_step() {
    assert_eq!(advance(0, 0, 1_000, 0, 100, 100), (10_000, 0));
}

#[test]
fn advance_gets_strictly_closer() {
    let (x, y) = advance(100_000, 100_000, 400_000, 300_000, 50, 16);
    let before = (300_000i128).pow(2) + (200_000i128).pow(2);
    let after = (400_000 - x as i128).pow(2) + (300_000 - y as i128).pow(2);
    assert!(after < before);
    assert!(x > 100_000 && y > 100_000);
}

#[test]
fn isqrt_rounds_down() {
    assert_eq!(isqrt(0), 0);
    assert_eq!(isqrt(1), 1);
    assert_eq!(isqrt(15), 3);
    assert_eq!(isqrt(16), 4);
    assert_eq!(isqrt(1_000_000_000_000_000_000_000_000), 1_000_000_000_000);
    assert_eq!(isqrt(1_000_000_000_000_000_000_000_000 - 1), 999_999_999_999);
}

#[test]
fn collides_with_itself() {
    assert!(collides(123, -456, 123, -456));
}

#[test]
fn collides_boundary_is_strict() {
    assert!(!collides(0, 0, 5_000, 0));
    assert!(!collides(0, 0, 0, -5_000));
    assert!(!collides(0, 0, 3_000, 4_000));
    assert!(collides(0, 0, 4_999, 0));
    assert!(collides(0, 0, 3_000, 3_999));
    assert!(!collides(0, 0, 100_000, 100_000));
}

#[test]
fn zombie_kinds_have_their_speeds() {
    let z = Zombie::new(1, 2);
    assert_eq!((z.x, z.y, z.speed), (1, 2, 50));
    let b = BlueZombie::new(3, 4);
    assert_eq!((b.x, b.y, b.speed), (3, 4, 85));
    assert_eq!(z.get_position(), (1, 2));
    assert_eq!(b.get_position(), (3, 4));
}

#[test]
fn zombies_chase_the_player() {
    let mut z = Zombie::new(400_000, 0);
    z.update(1000, 400_000, 300_000);
    assert_eq!((z.x, z.y), (400_000, 50_000));
    let mut b = BlueZombie::new(0, 300_000);
    b.update(1000, 400_000, 300_000);
    assert_eq!((b.x, b.y), (85_000, 300_000));
}

#[test]
fn player_starts_with_full_health() {
    let p = Player::new(400_000, 300_000);
    assert_eq!((p.x, p.y, p.speed, p.health), (400_000, 300_000, 100, 100));
}

#[test]
fn player_moves_by_held_keys() {
    let mut p = Player::new(0, 0);
    p.update(100, &vec![Key::Up]);
    assert_eq!((p.x, p.y), (0, -10_000));
    p.update(100, &vec![Key::Right, Key::Down]);
    assert_eq!((p.x, p.y), (10_000, 0));
    p.update(100, &vec![Key::Left, Key::Right, Key::Up]);
    assert_eq!((p.x, p.y), (10_000, -10_000));
    p.update(100, &vec![]);
    assert_eq!((p.x, p.y), (10_000, -10_000));
}

#[test]
fn take_damage_lowers_health() {
    let mut p = Player::new(0, 0);
    p.take_damage(10);
    assert_eq!(p.health, 90);
    p.take_damage(100);
    assert_eq!(p.health, -10);
    p.health = i32::MIN + 5;
    p.take_damage(10);
    assert_eq!(p.health, i32::MIN);
}

#[test]
fn player_collides_with_zombies() {
    let p = Player::new(400_000, 300_000);
    assert!(p.collides_with(&Zombie::new(400_000, 300_000)));
    assert!(p.collides_with(&BlueZombie::new(402_000, 301_000)));
    assert!(!p.collides_with(&Zombie::new(405_000, 300_000)));
}
