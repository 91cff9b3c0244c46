//! The game: a world stepped at a fixed tick, with a two-state lifecycle.
use vstd::prelude::*;
use crate::blue_zombie::BlueZombie;
use crate::geometry::{collides_spec, in_bounds, MAX_STEP_MS};
use crate::player::{saturating_i32, Key, Player, PLAYER_HEALTH, PLAYER_SPEED};
use crate::zombie::{Zombie, ZombieTrait, ZOMBIE_SPEED};
use crate::zombie_spawner::{spawned_one, ZombieSpawner};

verus! {

/// Shortest real time between two simulation steps, in milliseconds.
pub const TICK_MS: u64 = 16;

/// Health lost for each zombie touching the player in a step.
pub const DAMAGE: i32 = 10;

/// Time between two score points, in milliseconds.
pub const SCORE_PERIOD_MS: u64 = 1000;

#[derive(Clone, Copy, Debug, PartialEq, Eq, Structural)]
pub enum GameState {
    Playing,
    GameOver,
}

/// How many of `zs` collide with the point `(px, py)`.
pub open spec fn hits<T: ZombieTrait>(px: int, py: int, zs: Seq<T>) -> nat
    decreases zs.len(),
{
    if zs.len() == 0 {
        0
    } else {
        hits(px, py, zs.drop_last()) + if collides_spec(
            px,
            py,
            zs.last().position().0,
            zs.last().position().1,
        ) {
            1nat
        } else {
            0nat
        }
    }
}

/// `ks` with every `key` taken out, the rest in order.
pub open spec fn without(ks: Seq<Key>, key: Key) -> Seq<Key>
    decreases ks.len(),
{
    if ks.len() == 0 {
        ks
    } else if ks.last() == key {
        without(ks.drop_last(), key)
    } else {
        without(ks.drop_last(), key).push(ks.last())
    }
}

/// Records `key` as held; a key already held is not added twice.
pub fn press_key(keys: &mut Vec<Key>, key: Key)
    ensures
        old(keys)@.contains(key) ==> final(keys)@ == old(keys)@,
        !old(keys)@.contains(key) ==> final(keys)@ == old(keys)@.push(key),
{
    let mut i: usize = 0;
    while i < keys.len()
        invariant
            i <= keys@.len(),
            forall|j: int| 0 <= j < i ==> keys@[j] != key,
        decreases keys@.len() - i,
    {
        if keys[i] == key {
            return;
        }
        i = i + 1;
    }
    keys.push(key);
}

/// Records `key` as released.
pub fn release_key(keys: &mut Vec<Key>, key: Key)
    ensures
        final(keys)@ == without(old(keys)@, key),
{
    let mut kept: Vec<Key> = Vec::new();
    let mut i: usize = 0;
    while i < keys.len()
        invariant
            i <= keys@.len(),
            kept@ == without(keys@.subrange(0, i as int), key),
        decreases keys@.len() - i,
    {
        assert(keys@.subrange(0, i + 1).drop_last() == keys@.subrange(0, i as int));
        if keys[i] != key {
            kept.push(keys[i]);
        }
        i = i + 1;
    }
    assert(keys@.subrange(0, i as int) == keys@);
    *keys = kept;
}

pub struct World {
    pub player: Player,
    pub zombies: Vec<Zombie>,
    pub blue_zombies: Vec<BlueZombie>,
    pub spawner: ZombieSpawner,
    pub state: GameState,
    pub score: u64,
    /// Simulated time, in milliseconds since the start.
    pub clock: u64,
    /// Time of the last score point, in milliseconds.
    pub score_mark: u64,
}

/// What one step does to a world that is playing: the player moves by the
/// held keys; every zombie chases the player's new position; each zombie
/// that then touches the player costs `DAMAGE` health; the game is over
/// once health is at or below zero; a score point is added once a second;
/// and the spawner may add one zombie.
pub open spec fn step_result(pre: World, post: World, delta_ms: int, keys: Seq<Key>) -> bool {
    let p = pre.player.moved(delta_ms, keys);
    let zs = pre.zombies@.map_values(|z: Zombie| z.chased(delta_ms, p.x as int, p.y as int));
    let bs = pre.blue_zombies@.map_values(
        |b: BlueZombie| b.chased(delta_ms, p.x as int, p.y as int),
    );
    let n = hits(p.x as int, p.y as int, zs) + hits(p.x as int, p.y as int, bs);
    let health = saturating_i32(p.health - DAMAGE * n);
    let clock = pre.clock + delta_ms;
    &&& post.player == (Player { health: health as i32, ..p })
    &&& post.state == if health <= 0 {
        GameState::GameOver
    } else {
        GameState::Playing
    }
    &&& post.clock == clock
    &&& if clock - pre.score_mark >= SCORE_PERIOD_MS {
        post.score == pre.score + 1 && post.score_mark == clock
    } else {
        post.score == pre.score && post.score_mark == pre.score_mark
    }
    &&& if pre.spawner.is_due(clock) {
        &&& post.spawner == pre.spawner.after_spawn(clock)
        &&& spawned_one(zs, bs, post.zombies@, post.blue_zombies@)
    } else {
        &&& post.spawner == pre.spawner
        &&& post.zombies@ == zs
        &&& post.blue_zombies@ == bs
    }
}

/// The simulated length of a step after `elapsed_ms` of real time.
pub open spec fn step_length(elapsed_ms: int) -> int {
    if elapsed_ms > MAX_STEP_MS {
        MAX_STEP_MS as int
    } else {
        elapsed_ms
    }
}

/// A playing world is over after a step exactly when that step leaves the
/// player's health at or below zero.
pub proof fn lemma_over_when_health_spent(pre: World, post: World, delta_ms: int, keys: Seq<Key>)
    requires
        step_result(pre, post, delta_ms, keys),
    ensures
        (post.state == GameState::GameOver) == (post.player.health <= 0),
{
}

/// A world left exactly as it was.
pub open spec fn unchanged(pre: World, post: World) -> bool {
    &&& post.player == pre.player
    &&& post.zombies@ == pre.zombies@
    &&& post.blue_zombies@ == pre.blue_zombies@
    &&& post.spawner == pre.spawner
    &&& post.state == pre.state
    &&& post.score == pre.score
    &&& post.clock == pre.clock
    &&& post.score_mark == pre.score_mark
}

impl World {
    pub open spec fn wf(&self) -> bool {
        &&& self.player.wf()
        &&& forall|i: int| 0 <= i < self.zombies@.len() ==> #[trigger] self.zombies@[i].wf()
        &&& forall|i: int|
            0 <= i < self.blue_zombies@.len() ==> #[trigger] self.blue_zombies@[i].wf()
        &&& self.score_mark <= self.clock
        &&& self.score * SCORE_PERIOD_MS <= self.score_mark
    }

    /// A world from its parts, at time zero, playing, with no score.
    pub fn with_entities(
        player: Player,
        zombies: Vec<Zombie>,
        blue_zombies: Vec<BlueZombie>,
        spawner: ZombieSpawner,
    ) -> (r: World)
        ensures
            r == (World {
                player,
                zombies,
                blue_zombies,
                spawner,
                state: GameState::Playing,
                score: 0,
                clock: 0,
                score_mark: 0,
            }),
    {
        World {
            player,
            zombies,
            blue_zombies,
            spawner,
            state: GameState::Playing,
            score: 0,
            clock: 0,
            score_mark: 0,
        }
    }

    /// The opening world: the player at the centre, three zombies, and a
    /// spawner that starts at five seconds and shortens by a tenth of a
    /// second per spawn, down to one second.
    pub fn new() -> (r: World)
        ensures
            r.wf(),
            r.player == (Player { x: 400_000, y: 300_000, speed: PLAYER_SPEED, health: PLAYER_HEALTH }),
            r.zombies@ == seq![
                Zombie { x: 100_000, y: 100_000, speed: ZOMBIE_SPEED },
                Zombie { x: 700_000, y: 500_000, speed: ZOMBIE_SPEED },
                Zombie { x: 200_000, y: 400_000, speed: ZOMBIE_SPEED },
            ],
            r.blue_zombies@.len() == 0,
            r.spawner == (ZombieSpawner {
                last_spawn: 0,
                spawn_interval: 5000,
                spawn_rate_decrease: 100,
                min_spawn_interval: 1000,
            }),
            r.state == GameState::Playing,
            r.score == 0,
            r.clock == 0,
            r.score_mark == 0,
    {
        let zombies = vec![
            Zombie::new(100_000, 100_000),
            Zombie::new(700_000, 500_000),
            Zombie::new(200_000, 400_000),
        ];
        let r = World::with_entities(
            Player::new(400_000, 300_000),
            zombies,
            Vec::new(),
            ZombieSpawner::new(5000, 100, 1000),
        );
        assert(r.zombies@ =~= seq![
            Zombie { x: 100_000, y: 100_000, speed: ZOMBIE_SPEED },
            Zombie { x: 700_000, y: 500_000, speed: ZOMBIE_SPEED },
            Zombie { x: 200_000, y: 400_000, speed: ZOMBIE_SPEED },
        ]);
        r
    }

    /// Called with the real time `elapsed_ms` since the last step: steps the
    /// world once `TICK_MS` have passed, and tells whether it did. A gap
    /// longer than `MAX_STEP_MS` is stepped as `MAX_STEP_MS`.
    pub fn tick(&mut self, elapsed_ms: u64, keys_pressed: &Vec<Key>) -> (stepped: bool)
        requires
            old(self).wf(),
            old(self).clock + step_length(elapsed_ms as int) <= u64::MAX,
        ensures
            final(self).wf(),
            stepped == (elapsed_ms >= TICK_MS),
            !stepped || old(self).state == GameState::GameOver ==> unchanged(
                *old(self),
                *final(self),
            ),
            stepped && old(self).state == GameState::Playing ==> step_result(
                *old(self),
                *final(self),
                step_length(elapsed_ms as int),
                keys_pressed@,
            ),
    {
        if elapsed_ms < TICK_MS {
            return false;
        }
        let delta: u64 = if elapsed_ms > MAX_STEP_MS {
            MAX_STEP_MS
        } else {
            elapsed_ms
        };
        self.step(delta, keys_pressed);
        true
    }

    /// One simulation step of `delta_ms` milliseconds with `keys_pressed`
    /// held. A world that is over is left as it is.
    pub fn step(&mut self, delta_ms: u64, keys_pressed: &Vec<Key>)
        requires
            old(self).wf(),
            delta_ms <= MAX_STEP_MS,
            old(self).clock + delta_ms <= u64::MAX,
        ensures
            final(self).wf(),
            old(self).state == GameState::GameOver ==> unchanged(*old(self), *final(self)),
            old(self).state == GameState::Playing ==> step_result(
                *old(self),
                *final(self),
                delta_ms as int,
                keys_pressed@,
            ),
    {
        if self.state == GameState::GameOver {
            return;
        }
        let ghost pre = *self;
        self.player.update(delta_ms, keys_pressed);
        let px = self.player.x;
        let py = self.player.y;
        let ghost p = self.player;

        let mut i: usize = 0;
        while i < self.zombies.len()
            invariant
                self.player == p,
                p.wf(),
                self.spawner == pre.spawner,
                self.state == pre.state,
                self.score == pre.score,
                self.clock == pre.clock,
                self.score_mark == pre.score_mark,
                pre.wf(),
                pre.clock + delta_ms <= u64::MAX,
                self.blue_zombies@ == pre.blue_zombies@,
                forall|j: int| 0 <= j < i ==> #[trigger] self.zombies@[j].wf(),
                self.zombies@.len() == pre.zombies@.len(),
                i <= self.zombies@.len(),
                forall|j: int| 0 <= j < pre.zombies@.len() ==> #[trigger] pre.zombies@[j].wf(),
                forall|j: int|
                    0 <= j < i ==> #[trigger] self.zombies@[j] == pre.zombies@[j].chased(
                        delta_ms as int,
                        px as int,
                        py as int,
                    ),
                forall|j: int| i <= j < self.zombies@.len() ==> #[trigger] self.zombies@[j] == pre.zombies@[j],
                delta_ms <= MAX_STEP_MS,
                px == p.x,
                py == p.y,
            decreases self.zombies@.len() - i,
        {
            let mut z = self.zombies[i];
            z.update(delta_ms, px, py);
            self.zombies.set(i, z);
            i = i + 1;
        }
        let ghost zs = pre.zombies@.map_values(|z: Zombie| z.chased(delta_ms as int, px as int, py as int));
        assert(self.zombies@ =~= zs);

        let mut i: usize = 0;
        while i < self.blue_zombies.len()
            invariant
                self.player == p,
                p.wf(),
                self.spawner == pre.spawner,
                self.state == pre.state,
                self.score == pre.score,
                self.clock == pre.clock,
                self.score_mark == pre.score_mark,
                pre.wf(),
                pre.clock + delta_ms <= u64::MAX,
                forall|j: int| 0 <= j < zs.len() ==> #[trigger] zs[j].wf(),
                forall|j: int| 0 <= j < i ==> #[trigger] self.blue_zombies@[j].wf(),
                self.zombies@ == zs,
                self.blue_zombies@.len() == pre.blue_zombies@.len(),
                i <= self.blue_zombies@.len(),
                forall|j: int|
                    0 <= j < pre.blue_zombies@.len() ==> #[trigger] pre.blue_zombies@[j].wf(),
                forall|j: int|
                    0 <= j < i ==> #[trigger] self.blue_zombies@[j] == pre.blue_zombies@[j].chased(
                        delta_ms as int,
                        px as int,
                        py as int,
                    ),
                forall|j: int|
                    i <= j < self.blue_zombies@.len() ==> #[trigger] self.blue_zombies@[j]
                        == pre.blue_zombies@[j],
                delta_ms <= MAX_STEP_MS,
                px == p.x,
                py == p.y,
            decreases self.blue_zombies@.len() - i,
        {
            let mut b = self.blue_zombies[i];
            b.update(delta_ms, px, py);
            self.blue_zombies.set(i, b);
            i = i + 1;
        }
        let ghost bs = pre.blue_zombies@.map_values(
            |b: BlueZombie| b.chased(delta_ms as int, px as int, py as int),
        );
        assert(self.blue_zombies@ =~= bs);

        let mut i: usize = 0;
        while i < self.zombies.len()
            invariant
                self.player == (Player {
                    health: saturating_i32(p.health - DAMAGE * hits(px as int, py as int, zs.subrange(0, i as int))) as i32,
                    ..p
                }),
                p.wf(),
                self.spawner == pre.spawner,
                self.state == pre.state,
                self.score == pre.score,
                self.clock == pre.clock,
                self.score_mark == pre.score_mark,
                pre.wf(),
                pre.clock + delta_ms <= u64::MAX,
                self.blue_zombies@ == bs,
                forall|j: int| 0 <= j < bs.len() ==> #[trigger] bs[j].wf(),
                self.zombies@ == zs,
                i <= zs.len(),
                forall|j: int| 0 <= j < zs.len() ==> #[trigger] zs[j].wf(),
                px == p.x,
                py == p.y,
            decreases zs.len() - i,
        {
            assert(zs.subrange(0, i + 1).drop_last() == zs.subrange(0, i as int));
            assert(zs[i as int].wf());
            assert(self.player.wf());
            if self.player.collides_with(&self.zombies[i]) {
                self.player.take_damage(DAMAGE);
            }
            i = i + 1;
        }
        assert(zs.subrange(0, i as int) == zs);
        let ghost hz = hits(px as int, py as int, zs);

        let mut i: usize = 0;
        while i < self.blue_zombies.len()
            invariant
                self.player == (Player {
                    health: saturating_i32(
                        p.health - DAMAGE * (hz + hits(px as int, py as int, bs.subrange(0, i as int))),
                    ) as i32,
                    ..p
                }),
                p.wf(),
                self.spawner == pre.spawner,
                self.state == pre.state,
                self.score == pre.score,
                self.clock == pre.clock,
                self.score_mark == pre.score_mark,
                pre.wf(),
                pre.clock + delta_ms <= u64::MAX,
                forall|j: int| 0 <= j < zs.len() ==> #[trigger] zs[j].wf(),
                self.blue_zombies@ == bs,
                self.zombies@ == zs,
                i <= bs.len(),
                forall|j: int| 0 <= j < bs.len() ==> #[trigger] bs[j].wf(),
                px == p.x,
                py == p.y,
                hz == hits(px as int, py as int, zs),
            decreases bs.len() - i,
        {
            assert(bs.subrange(0, i + 1).drop_last() == bs.subrange(0, i as int));
            assert(bs[i as int].wf());
            assert(self.player.wf());
            if self.player.collides_with(&self.blue_zombies[i]) {
                self.player.take_damage(DAMAGE);
            }
            i = i + 1;
        }
        assert(bs.subrange(0, i as int) == bs);

        if self.player.health <= 0 {
            self.state = GameState::GameOver;
        }
        self.clock = self.clock + delta_ms;
        if self.clock - self.score_mark >= SCORE_PERIOD_MS {
            self.score = self.score + 1;
            self.score_mark = self.clock;
        }
        self.spawner.spawn_zombies(self.clock, &mut self.zombies, &mut self.blue_zombies);
        proof {
            assert forall|j: int| 0 <= j < self.zombies@.len() implies #[trigger] self.zombies@[j].wf() by {
                if self.zombies@.len() != zs.len() && j < zs.len() {
                    assert(self.zombies@.drop_last()[j] == self.zombies@[j]);
                }
            }
            assert forall|j: int| 0 <= j < self.blue_zombies@.len() implies #[trigger] self.blue_zombies@[j].wf() by {
                if self.blue_zombies@.len() != bs.len() && j < bs.len() {
                    assert(self.blue_zombies@.drop_last()[j] == self.blue_zombies@[j]);
                }
            }
        }
    }
}

} // verus!
