//! Timed spawning of zombies at the edges of the field, faster and faster.
use vstd::prelude::*;
use crate::blue_zombie::{BlueZombie, BLUE_ZOMBIE_SPEED};
use crate::random::{random_below, random_ratio};
use crate::zombie::{Zombie, ZOMBIE_SPEED};

verus! {

/// Width of the field, in sub-units (800 units).
pub const FIELD_WIDTH: i64 = 800_000;

/// Height of the field, in sub-units (600 units).
pub const FIELD_HEIGHT: i64 = 600_000;

/// Time from `since` to `now`, or zero when `now` is earlier.
pub open spec fn elapsed_since(now: int, since: int) -> int {
    if now >= since {
        now - since
    } else {
        0
    }
}

/// The spawn interval after one spawn: lowered by `decrease` but not below
/// `min`; an interval already at or below `min` is kept.
pub open spec fn next_interval(interval: int, decrease: int, min: int) -> int {
    if interval > min {
        if interval - decrease < min {
            min
        } else {
            interval - decrease
        }
    } else {
        interval
    }
}

/// The spawn interval after `n` spawns.
pub open spec fn interval_after(interval: int, decrease: int, min: int, n: nat) -> int
    decreases n,
{
    if n == 0 {
        interval
    } else {
        next_interval(interval_after(interval, decrease, min, (n - 1) as nat), decrease, min)
    }
}

/// Length of the edge numbered `edge`: top and bottom run along `x`, left
/// and right along `y`.
pub open spec fn edge_length(edge: int) -> int {
    if edge < 2 {
        FIELD_WIDTH as int
    } else {
        FIELD_HEIGHT as int
    }
}

/// The point `along` sub-units down edge `edge`: 0 top, 1 bottom, 2 left,
/// 3 right.
pub open spec fn edge_point(edge: int, along: int) -> (int, int) {
    if edge == 0 {
        (along, 0)
    } else if edge == 1 {
        (along, FIELD_HEIGHT as int)
    } else if edge == 2 {
        (0, along)
    } else {
        (FIELD_WIDTH as int, along)
    }
}

pub open spec fn on_x_edge(x: int) -> bool {
    x == 0 || x == FIELD_WIDTH
}

pub open spec fn on_y_edge(y: int) -> bool {
    y == 0 || y == FIELD_HEIGHT
}

/// A point on the border of the field.
pub open spec fn on_edge(x: int, y: int) -> bool {
    ||| 0 <= x < FIELD_WIDTH && on_y_edge(y)
    ||| 0 <= y < FIELD_HEIGHT && on_x_edge(x)
}

pub struct ZombieSpawner {
    /// Time of the last spawn, in milliseconds.
    pub last_spawn: u64,
    /// Time between spawns, in milliseconds.
    pub spawn_interval: u64,
    /// How much each spawn shortens the interval, in milliseconds.
    pub spawn_rate_decrease: u64,
    /// Shortest interval, in milliseconds.
    pub min_spawn_interval: u64,
}

impl ZombieSpawner {
    /// Whether a spawn is due at time `now`.
    pub open spec fn is_due(&self, now: int) -> bool {
        elapsed_since(now, self.last_spawn as int) >= self.spawn_interval
    }

    /// The spawner once it has spawned at time `now`.
    pub open spec fn after_spawn(self, now: int) -> ZombieSpawner {
        ZombieSpawner {
            last_spawn: now as u64,
            spawn_interval: next_interval(
                self.spawn_interval as int,
                self.spawn_rate_decrease as int,
                self.min_spawn_interval as int,
            ) as u64,
            ..self
        }
    }

    /// A spawner whose clock starts at time zero.
    pub fn new(spawn_interval: u64, spawn_rate_decrease: u64, min_spawn_interval: u64) -> (r:
        ZombieSpawner)
        ensures
            r == (ZombieSpawner {
                last_spawn: 0,
                spawn_interval,
                spawn_rate_decrease,
                min_spawn_interval,
            }),
    {
        ZombieSpawner { last_spawn: 0, spawn_interval, spawn_rate_decrease, min_spawn_interval }
    }

    /// Whether a spawn is due at time `now`.
    pub fn due(&self, now: u64) -> (r: bool)
        ensures
            r == self.is_due(now as int),
    {
        let elapsed: u64 = if now >= self.last_spawn {
            now - self.last_spawn
        } else {
            0
        };
        elapsed >= self.spawn_interval
    }

    /// Spawns one zombie `along` sub-units down edge `edge` at time `now`:
    /// a blue one when `fast`, else a basic one. Records the time and
    /// shortens the interval.
    pub fn spawn_one(
        &mut self,
        now: u64,
        edge: u64,
        along: i64,
        fast: bool,
        zombies: &mut Vec<Zombie>,
        blue_zombies: &mut Vec<BlueZombie>,
    )
        requires
            edge < 4,
            0 <= along < edge_length(edge as int),
        ensures
            *final(self) == old(self).after_spawn(now as int),
            fast ==> final(zombies)@ == old(zombies)@,
            fast ==> final(blue_zombies)@ == old(blue_zombies)@.push(
                (BlueZombie {
                    x: edge_point(edge as int, along as int).0 as i64,
                    y: edge_point(edge as int, along as int).1 as i64,
                    speed: BLUE_ZOMBIE_SPEED,
                }),
            ),
            !fast ==> final(blue_zombies)@ == old(blue_zombies)@,
            !fast ==> final(zombies)@ == old(zombies)@.push(
                (Zombie {
                    x: edge_point(edge as int, along as int).0 as i64,
                    y: edge_point(edge as int, along as int).1 as i64,
                    speed: ZOMBIE_SPEED,
                }),
            ),
    {
        let (x, y): (i64, i64) = if edge == 0 {
            (along, 0)
        } else if edge == 1 {
            (along, FIELD_HEIGHT)
        } else if edge == 2 {
            (0, along)
        } else {
            (FIELD_WIDTH, along)
        };
        if fast {
            blue_zombies.push(BlueZombie::new(x, y));
        } else {
            zombies.push(Zombie::new(x, y));
        }
        self.last_spawn = now;
        if self.spawn_interval > self.min_spawn_interval {
            self.spawn_interval = self.spawn_interval.saturating_sub(self.spawn_rate_decrease);
            if self.spawn_interval < self.min_spawn_interval {
                self.spawn_interval = self.min_spawn_interval;
            }
        }
    }

    /// When a spawn is due at `now`, spawns a zombie at a random point of a
    /// random edge, blue with chance one in five; otherwise does nothing.
    pub fn spawn_zombies(
        &mut self,
        now: u64,
        zombies: &mut Vec<Zombie>,
        blue_zombies: &mut Vec<BlueZombie>,
    )
        ensures
            !old(self).is_due(now as int) ==> {
                &&& *final(self) == *old(self)
                &&& final(zombies)@ == old(zombies)@
                &&& final(blue_zombies)@ == old(blue_zombies)@
            },
            old(self).is_due(now as int) ==> {
                &&& *final(self) == old(self).after_spawn(now as int)
                &&& spawned_one(old(zombies)@, old(blue_zombies)@, final(zombies)@, final(blue_zombies)@)
            },
    {
        if self.due(now) {
            let edge = random_below(4);
            let length: u64 = if edge < 2 {
                FIELD_WIDTH as u64
            } else {
                FIELD_HEIGHT as u64
            };
            let along = random_below(length) as i64;
            let fast = random_ratio(1, 5);
            self.spawn_one(now, edge, along, fast, zombies, blue_zombies);
            proof {
                lemma_spawn_on_edge(edge as int, along as int);
                if fast {
                    assert(blue_zombies@.drop_last() =~= old(blue_zombies)@);
                } else {
                    assert(zombies@.drop_last() =~= old(zombies)@);
                }
            }
        }
    }
}

/// Exactly one zombie was added, at the end of one of the two lists, at a
/// point on the border of the field, with the speed of its kind.
pub open spec fn spawned_one(
    zombies: Seq<Zombie>,
    blue_zombies: Seq<BlueZombie>,
    new_zombies: Seq<Zombie>,
    new_blue_zombies: Seq<BlueZombie>,
) -> bool {
    ||| {
        &&& new_blue_zombies == blue_zombies
        &&& new_zombies.len() == zombies.len() + 1
        &&& new_zombies.drop_last() == zombies
        &&& on_edge(new_zombies.last().x as int, new_zombies.last().y as int)
        &&& new_zombies.last().speed == ZOMBIE_SPEED
    }
    ||| {
        &&& new_zombies == zombies
        &&& new_blue_zombies.len() == blue_zombies.len() + 1
        &&& new_blue_zombies.drop_last() == blue_zombies
        &&& on_edge(new_blue_zombies.last().x as int, new_blue_zombies.last().y as int)
        &&& new_blue_zombies.last().speed == BLUE_ZOMBIE_SPEED
    }
}

/// Every spawn point lies on the border of the field; unless it is the
/// first point of its edge, exactly one of its coordinates is on an edge
/// line (`x` at 0 or the width, or `y` at 0 or the height).
pub proof fn lemma_spawn_on_edge(edge: int, along: int)
    requires
        0 <= edge < 4,
        0 <= along < edge_length(edge),
    ensures
        on_edge(edge_point(edge, along).0, edge_point(edge, along).1),
        along > 0 ==> (on_x_edge(edge_point(edge, along).0) != on_y_edge(
            edge_point(edge, along).1,
        )),
{
}

/// From an interval at or above `min`, `n` spawns leave
/// `max(min, interval - n * decrease)`; and an interval at `min` stays there.
pub proof fn lemma_interval_ramp(interval: int, decrease: int, min: int, n: nat)
    requires
        interval >= min,
        decrease >= 0,
    ensures
        interval_after(interval, decrease, min, n) == if interval - n * decrease < min {
            min
        } else {
            interval - n * decrease
        },
        next_interval(min, decrease, min) == min,
    decreases n,
{
    if n > 0 {
        lemma_interval_ramp(interval, decrease, min, (n - 1) as nat);
        let k = (n - 1) as int;
        assert(n * decrease == k * decrease + decrease) by (nonlinear_arith)
            requires
                k == n - 1,
        ;
        let prev = interval_after(interval, decrease, min, (n - 1) as nat);
        assert(interval_after(interval, decrease, min, n) == next_interval(prev, decrease, min));
        if interval - k * decrease < min {
            assert(prev == min);
        } else {
            assert(prev == interval - k * decrease);
        }
    } else {
        assert(n * decrease == 0) by (nonlinear_arith)
            requires
                n == 0,
        ;
    }
}

} // verus!
