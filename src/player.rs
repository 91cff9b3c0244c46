//! The player: moved by held keys, damaged by touching zombies.
use vstd::prelude::*;
use crate::geometry::{clamp, clamp_coord, collides, collides_spec, in_bounds, MAX_SPEED, MAX_STEP_MS};
use crate::zombie::ZombieTrait;

verus! {

/// Speed of the player, in units per second.
pub const PLAYER_SPEED: i64 = 100;

/// Health the player starts with.
pub const PLAYER_HEALTH: i32 = 100;

/// A movement key. `Up` lowers `y`: the field's origin is its top left.
#[derive(Clone, Copy, Debug, PartialEq, Eq, Structural)]
pub enum Key {
    Up,
    Down,
    Left,
    Right,
}

pub open spec fn key_x(k: Key) -> int {
    match k {
        Key::Left => -1,
        Key::Right => 1,
        _ => 0,
    }
}

pub open spec fn key_y(k: Key) -> int {
    match k {
        Key::Up => -1,
        Key::Down => 1,
        _ => 0,
    }
}

/// Net number of steps along `x` that the held keys ask for.
pub open spec fn keys_x(ks: Seq<Key>) -> int
    decreases ks.len(),
{
    if ks.len() == 0 {
        0
    } else {
        keys_x(ks.drop_last()) + key_x(ks.last())
    }
}

/// Net number of steps along `y` that the held keys ask for.
pub open spec fn keys_y(ks: Seq<Key>) -> int
    decreases ks.len(),
{
    if ks.len() == 0 {
        0
    } else {
        keys_y(ks.drop_last()) + key_y(ks.last())
    }
}

/// `v` saturated to the range of `i32`.
pub open spec fn saturating_i32(v: int) -> int {
    if v < i32::MIN {
        i32::MIN as int
    } else if v > i32::MAX {
        i32::MAX as int
    } else {
        v
    }
}

#[derive(Clone, Copy, Debug, PartialEq, Eq, Structural)]
pub struct Player {
    pub x: i64,
    pub y: i64,
    pub speed: i64,
    pub health: i32,
}

impl Player {
    pub open spec fn wf(&self) -> bool {
        in_bounds(self.x as int) && in_bounds(self.y as int) && 0 <= self.speed <= MAX_SPEED
    }

    /// The player after holding `keys` for `elapsed_ms` milliseconds: each
    /// held key moves it `speed * elapsed_ms` sub-units along its axis, so
    /// two keys of different axes move it diagonally, and faster.
    pub open spec fn moved(self, elapsed_ms: int, keys: Seq<Key>) -> Player {
        let step = self.speed * elapsed_ms;
        Player {
            x: clamp_coord(self.x + step * keys_x(keys)) as i64,
            y: clamp_coord(self.y + step * keys_y(keys)) as i64,
            ..self
        }
    }

    pub fn new(x: i64, y: i64) -> (r: Player)
        ensures
            r == (Player { x, y, speed: PLAYER_SPEED, health: PLAYER_HEALTH }),
    {
        Player { x, y, speed: PLAYER_SPEED, health: PLAYER_HEALTH }
    }

    /// Moves the player by the keys held during the last `delta_ms`.
    pub fn update(&mut self, delta_ms: u64, keys_pressed: &Vec<Key>)
        requires
            old(self).wf(),
            delta_ms <= MAX_STEP_MS,
        ensures
            *final(self) == old(self).moved(delta_ms as int, keys_pressed@),
            final(self).wf(),
    {
        let mut cx: i128 = 0;
        let mut cy: i128 = 0;
        let mut i: usize = 0;
        while i < keys_pressed.len()
            invariant
                i <= keys_pressed@.len(),
                cx == keys_x(keys_pressed@.subrange(0, i as int)),
                cy == keys_y(keys_pressed@.subrange(0, i as int)),
                -i <= cx <= i,
                -i <= cy <= i,
            decreases keys_pressed@.len() - i,
        {
            let k = keys_pressed[i];
            assert(keys_pressed@.subrange(0, i + 1).drop_last() == keys_pressed@.subrange(
                0,
                i as int,
            ));
            match k {
                Key::Up => cy = cy - 1,
                Key::Down => cy = cy + 1,
                Key::Left => cx = cx - 1,
                Key::Right => cx = cx + 1,
            }
            i = i + 1;
        }
        assert(keys_pressed@.subrange(0, i as int) == keys_pressed@);
        let ghost len = keys_pressed@.len() as int;
        assert(self.speed * delta_ms <= 3_600_000_000_000 && self.speed * delta_ms >= 0)
            by (nonlinear_arith)
            requires
                0 <= self.speed <= 1_000_000,
                0 <= delta_ms <= 3_600_000,
        ;
        let step: i128 = self.speed as i128 * delta_ms as i128;
        assert(-3_600_000_000_000 * len <= step * cx <= 3_600_000_000_000 * len) by (
        nonlinear_arith)
            requires
                0 <= step <= 3_600_000_000_000,
                -len <= cx <= len,
        ;
        assert(-3_600_000_000_000 * len <= step * cy <= 3_600_000_000_000 * len) by (
        nonlinear_arith)
            requires
                0 <= step <= 3_600_000_000_000,
                -len <= cy <= len,
        ;
        self.x = clamp(self.x as i128 + step * cx);
        self.y = clamp(self.y as i128 + step * cy);
    }

    /// Lowers health by `damage`, saturating at the range of `i32`.
    pub fn take_damage(&mut self, damage: i32)
        ensures
            *final(self) == (Player {
                health: saturating_i32(old(self).health - damage) as i32,
                ..*old(self)
            }),
    {
        let h: i64 = self.health as i64 - damage as i64;
        self.health = if h < -2147483648 {
            -2147483648
        } else if h > 2147483647 {
            2147483647
        } else {
            h as i32
        };
    }

    /// Whether the player is closer than the collision radius to `zombie`.
    pub fn collides_with<T: ZombieTrait>(&self, zombie: &T) -> (r: bool)
        requires
            self.wf(),
            in_bounds(zombie.position().0),
            in_bounds(zombie.position().1),
        ensures
            r == collides_spec(
                self.x as int,
                self.y as int,
                zombie.position().0,
                zombie.position().1,
            ),
    {
        let (zombie_x, zombie_y) = zombie.get_position();
        collides(self.x, self.y, zombie_x, zombie_y)
    }
}

} // verus!
