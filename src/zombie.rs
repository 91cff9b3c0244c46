//! The basic zombie and the positional view shared by all zombies.
use vstd::prelude::*;
use crate::geometry::{advance, chase, clamp, in_bounds, MAX_SPEED, MAX_STEP_MS};

verus! {

/// Speed of a basic zombie, in units per second.
pub const ZOMBIE_SPEED: i64 = 50;

/// Anything with a position on the field.
pub trait ZombieTrait {
    spec fn position(&self) -> (int, int);

    fn get_position(&self) -> (r: (i64, i64))
        ensures
            (r.0 as int, r.1 as int) == self.position(),
    ;
}

#[derive(Clone, Copy, Debug, PartialEq, Eq, Structural)]
pub struct Zombie {
    pub x: i64,
    pub y: i64,
    pub speed: i64,
}

impl Zombie {
    pub open spec fn wf(&self) -> bool {
        in_bounds(self.x as int) && in_bounds(self.y as int) && 0 <= self.speed <= MAX_SPEED
    }

    /// This zombie after chasing `(tx, ty)` for `elapsed_ms` milliseconds.
    pub open spec fn chased(self, elapsed_ms: int, tx: int, ty: int) -> Zombie {
        let p = chase(self.x as int, self.y as int, tx, ty, self.speed as int, elapsed_ms);
        Zombie { x: p.0 as i64, y: p.1 as i64, ..self }
    }

    pub fn new(x: i64, y: i64) -> (r: Zombie)
        ensures
            r == (Zombie { x, y, speed: ZOMBIE_SPEED }),
    {
        Zombie { x, y, speed: ZOMBIE_SPEED }
    }

    /// Moves toward the player at this zombie's speed.
    pub fn update(&mut self, delta_ms: u64, player_x: i64, player_y: i64)
        requires
            old(self).wf(),
            in_bounds(player_x as int),
            in_bounds(player_y as int),
            delta_ms <= MAX_STEP_MS,
        ensures
            *final(self) == old(self).chased(delta_ms as int, player_x as int, player_y as int),
            final(self).wf(),
    {
        let p = advance(self.x, self.y, player_x, player_y, self.speed, delta_ms);
        self.x = clamp(p.0 as i128);
        self.y = clamp(p.1 as i128);
    }
}

impl ZombieTrait for Zombie {
    open spec fn position(&self) -> (int, int) {
        (self.x as int, self.y as int)
    }

    fn get_position(&self) -> (r: (i64, i64)) {
        (self.x, self.y)
    }
}

} // verus!
