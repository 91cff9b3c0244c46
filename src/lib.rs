//! A small survival game simulation: a player chased by zombies on an
//! 800 by 600 field, with fixed-point positions and millisecond time.
pub mod blue_zombie;
pub mod game;
pub mod geometry;
pub mod player;
mod random;
pub mod render;
pub mod zombie_spawner;
pub mod zombie;

pub use blue_zombie::{BlueZombie, BLUE_ZOMBIE_SPEED};
pub use geometry::{
    advance, clamp, collides, isqrt, COLLISION_RADIUS, COORD_LIMIT, MAX_SPEED, MAX_STEP_MS, UNIT,
};
pub use zombie::{Zombie, ZombieTrait, ZOMBIE_SPEED};
pub use player::{Key, Player, PLAYER_HEALTH, PLAYER_SPEED};
pub use zombie_spawner::{ZombieSpawner, FIELD_HEIGHT, FIELD_WIDTH};
pub use game::{press_key, release_key, GameState, World, DAMAGE, SCORE_PERIOD_MS, TICK_MS};
