//! The fast zombie, drawn in blue.
use vstd::prelude::*;
use crate::geometry::{advance, chase, clamp, in_bounds, MAX_SPEED, MAX_STEP_MS};
use crate::zombie::ZombieTrait;

verus! {

/// Speed of a blue zombie, in units per second.
pub const BLUE_ZOMBIE_SPEED: i64 = 85;

#[derive(Clone, Copy, Debug, PartialEq, Eq, Structural)]
pub struct BlueZombie {
    pub x: i64,
    pub y: i64,
    pub speed: i64,
}

impl BlueZombie {
    pub open spec fn wf(&self) -> bool {
        in_bounds(self.x as int) && in_bounds(self.y as int) && 0 <= self.speed <= MAX_SPEED
    }

    /// This zombie after chasing `(tx, ty)` for `elapsed_ms` milliseconds.
    pub open spec fn chased(self, elapsed_ms: int, tx: int, ty: int) -> BlueZombie {
        let p = chase(self.x as int, self.y as int, tx, ty, self.speed as int, elapsed_ms);
        BlueZombie { x: p.0 as i64, y: p.1 as i64, ..self }
    }

    pub fn new(x: i64, y: i64) -> (r: BlueZombie)
        ensures
            r == (BlueZombie { x, y, speed: BLUE_ZOMBIE_SPEED }),
    {
        BlueZombie { x, y, speed: BLUE_ZOMBIE_SPEED }
    }

    /// Moves toward the player at this zombie's speed.
    pub fn update(&mut self, delta_ms: u64, player_x: i64, player_y: i64)
        requires
            old(self).wf(),
            in_bounds(player_x as int),
            in_bounds(player_y as int),
            delta_ms <= MAX_STEP_MS,
        ensures
            *final(self) == old(self).chased(delta_ms as int, player_x as int, player_y as int),
            final(self).wf(),
    {
        let p = advance(self.x, self.y, player_x, player_y, self.speed, delta_ms);
        self.x = clamp(p.0 as i128);
        self.y = clamp(p.1 as i128);
    }
}

impl ZombieTrait for BlueZombie {
    open spec fn position(&self) -> (int, int) {
        (self.x as int, self.y as int)
    }

    fn get_position(&self) -> (r: (i64, i64)) {
        (self.x, self.y)
    }
}

} // verus!
