//! The collision pass: every bullet against the enemies and the player.

use vstd::prelude::*;
use crate::entity::{Bullet, Enemy, Player};
use crate::store::{bullet_ids_distinct, enemy_ids_distinct, Game, GameState, PlayerTest};

verus! {

/// The bullet's box and the enemy's box intersect.
pub open spec fn hits_enemy(bullet: Bullet, enemy: Enemy) -> bool {
    enemy.bounding_box().overlaps(bullet.bounding_box())
}

/// There is a player, and the bullet's box and the player's box intersect.
pub open spec fn hits_player(bullet: Bullet, player: Option<Player>) -> bool {
    match player {
        Some(p) => p.bounding_box().overlaps(bullet.bounding_box()),
        None => false,
    }
}

/// `k` is the place of the first enemy that the bullet hits, or the number
/// of enemies where it hits none.
pub open spec fn is_first_hit(enemies: Seq<Enemy>, bullet: Bullet, k: int) -> bool {
    &&& 0 <= k <= enemies.len()
    &&& forall|j: int| 0 <= j < k ==> !hits_enemy(bullet, #[trigger] enemies[j])
    &&& k < enemies.len() ==> hits_enemy(bullet, enemies[k])
}

/// The place of the first enemy that the bullet hits, or the number of
/// enemies where it hits none.
pub open spec fn first_hit(enemies: Seq<Enemy>, bullet: Bullet) -> int {
    choose|k: int| is_first_hit(enemies, bullet, k)
}

/// There is one first hit and no other.
pub proof fn lemma_first_hit_unique(enemies: Seq<Enemy>, bullet: Bullet, k: int)
    requires
        is_first_hit(enemies, bullet, k),
    ensures
        first_hit(enemies, bullet) == k,
{
    let c = first_hit(enemies, bullet);
    assert(is_first_hit(enemies, bullet, c));
    if c < k {
        assert(!hits_enemy(bullet, enemies[c]));
    }
    if k < c {
        assert(!hits_enemy(bullet, enemies[k]));
    }
}

/// Every list of enemies has a first hit for every bullet.
pub proof fn lemma_first_hit_exists(enemies: Seq<Enemy>, bullet: Bullet)
    ensures
        is_first_hit(enemies, bullet, first_hit(enemies, bullet)),
    decreases enemies.len(),
{
    if enemies.len() == 0 {
        assert(is_first_hit(enemies, bullet, 0));
    } else {
        let front = enemies.drop_last();
        lemma_first_hit_exists(front, bullet);
        let k = first_hit(front, bullet);
        if k < front.len() {
            assert(enemies[k] == front[k]);
            assert forall|j: int| 0 <= j < k implies !hits_enemy(bullet, #[trigger] enemies[j]) by {
                assert(enemies[j] == front[j]);
            }
            assert(is_first_hit(enemies, bullet, k));
        } else {
            assert forall|j: int| 0 <= j < k implies !hits_enemy(bullet, #[trigger] enemies[j]) by {
                assert(enemies[j] == front[j]);
            }
            if hits_enemy(bullet, enemies.last()) {
                assert(is_first_hit(enemies, bullet, k));
            } else {
                assert(is_first_hit(enemies, bullet, k + 1));
            }
        }
    }
}

/// What a pass has come to after some of the bullets.
#[verifier::ext_equal]
pub struct Sweep {
    /// The enemies that are left.
    pub enemies: Seq<Enemy>,
    /// The bullets that were tested and are left.
    pub bullets: Seq<Bullet>,
    /// How often a bullet was found to hit the player.
    pub player_hits: nat,
}

/// The pass after one more bullet. The bullet takes out the first enemy
/// that it hits among those left, and no other. It is tested against the
/// player unless it took out an enemy and `test` says to skip it then. It
/// stays only if it hit nothing.
pub open spec fn resolve(prev: Sweep, bullet: Bullet, player: Option<Player>, test: PlayerTest) -> Sweep {
    let k = first_hit(prev.enemies, bullet);
    let hit_enemy = k < prev.enemies.len();
    let hit_player = (test == PlayerTest::Always || !hit_enemy) && hits_player(bullet, player);
    Sweep {
        enemies: if hit_enemy {
            prev.enemies.remove(k)
        } else {
            prev.enemies
        },
        bullets: if hit_enemy || hit_player {
            prev.bullets
        } else {
            prev.bullets.push(bullet)
        },
        player_hits: if hit_player {
            prev.player_hits + 1
        } else {
            prev.player_hits
        },
    }
}

/// The pass over all of `bullets`, first to last, each against the enemies
/// that the bullets before it have left.
pub open spec fn sweep(
    bullets: Seq<Bullet>,
    enemies: Seq<Enemy>,
    player: Option<Player>,
    test: PlayerTest,
) -> Sweep
    decreases bullets.len(),
{
    if bullets.len() == 0 {
        Sweep { enemies, bullets: Seq::empty(), player_hits: 0 }
    } else {
        resolve(sweep(bullets.drop_last(), enemies, player, test), bullets.last(), player, test)
    }
}

/// The player after `hits` hits: each takes one point of health, and health
/// stays at 0 once it is there.
pub open spec fn damaged(player: Option<Player>, hits: nat) -> Option<Player> {
    match player {
        Some(p) => Some(
            Player {
                position: p.position,
                health: if p.health >= hits {
                    (p.health - hits) as u32
                } else {
                    0
                },
            },
        ),
        None => None,
    }
}

impl GameState {
    /// The state after the collision pass.
    pub open spec fn check_collision(self) -> GameState {
        let s = sweep(self.bullets, self.enemies, self.player, self.player_test);
        GameState {
            player: damaged(self.player, s.player_hits),
            enemies: s.enemies,
            bullets: s.bullets,
            enemy_direction: self.enemy_direction,
            player_test: self.player_test,
            next_id: self.next_id,
        }
    }
}

/// Finds the first enemy that the bullet hits.
pub fn find_first_hit(enemies: &Vec<Enemy>, bullet: &Bullet) -> (k: usize)
    ensures
        k == first_hit(enemies@, *bullet),
        is_first_hit(enemies@, *bullet, k as int),
{
    let bullet_box = bullet.aabb();
    let mut k: usize = 0;
    while k < enemies.len()
        invariant
            0 <= k <= enemies.len(),
            bullet_box == bullet.bounding_box(),
            forall|j: int| 0 <= j < k ==> !hits_enemy(*bullet, #[trigger] enemies@[j]),
        decreases enemies.len() - k,
    {
        let enemy_box = enemies[k].aabb();
        if enemy_box.intersects(&bullet_box) {
            proof {
                lemma_first_hit_unique(enemies@, *bullet, k as int);
            }
            return k;
        }
        k += 1;
    }
    proof {
        lemma_first_hit_unique(enemies@, *bullet, k as int);
    }
    k
}

/// Whether the bullet hits the player.
pub fn bullet_hits_player(bullet: &Bullet, player: &Option<Player>) -> (r: bool)
    ensures
        r == hits_player(*bullet, *player),
{
    match player {
        Some(p) => p.aabb().intersects(&bullet.aabb()),
        None => false,
    }
}

/// A pass makes nothing up: what it leaves was there before. It removes at
/// most one enemy for each bullet that it removes, and counts at most one
/// hit on the player for each.
pub proof fn lemma_sweep_removes(
    bullets: Seq<Bullet>,
    enemies: Seq<Enemy>,
    player: Option<Player>,
    test: PlayerTest,
)
    ensures
        forall|e: Enemy| #[trigger]
            sweep(bullets, enemies, player, test).enemies.contains(e) ==> enemies.contains(e),
        forall|b: Bullet| #[trigger]
            sweep(bullets, enemies, player, test).bullets.contains(b) ==> bullets.contains(b),
        sweep(bullets, enemies, player, test).enemies.len() <= enemies.len(),
        sweep(bullets, enemies, player, test).bullets.len() <= bullets.len(),
        enemies.len() - sweep(bullets, enemies, player, test).enemies.len() <= bullets.len()
            - sweep(bullets, enemies, player, test).bullets.len(),
        sweep(bullets, enemies, player, test).player_hits <= bullets.len() - sweep(
            bullets,
            enemies,
            player,
            test,
        ).bullets.len(),
    decreases bullets.len(),
{
    let s = sweep(bullets, enemies, player, test);
    if bullets.len() > 0 {
        let front = bullets.drop_last();
        let prev = sweep(front, enemies, player, test);
        lemma_sweep_removes(front, enemies, player, test);
        lemma_first_hit_exists(prev.enemies, bullets.last());
        let k = first_hit(prev.enemies, bullets.last());
        assert forall|e: Enemy| #[trigger] s.enemies.contains(e) implies enemies.contains(e) by {
            let m = choose|m: int| 0 <= m < s.enemies.len() && s.enemies[m] == e;
            if k < prev.enemies.len() {
                if m < k {
                    assert(prev.enemies[m] == e);
                } else {
                    assert(prev.enemies[m + 1] == e);
                }
            } else {
                assert(prev.enemies[m] == e);
            }
            assert(prev.enemies.contains(e));
        }
        assert forall|b: Bullet| #[trigger] s.bullets.contains(b) implies bullets.contains(b) by {
            let m = choose|m: int| 0 <= m < s.bullets.len() && s.bullets[m] == b;
            if m < prev.bullets.len() {
                assert(prev.bullets[m] == b);
                assert(prev.bullets.contains(b));
                assert(front.contains(b));
                let f = choose|f: int| 0 <= f < front.len() && front[f] == b;
                assert(bullets[f] == b);
            } else {
                assert(bullets[bullets.len() - 1] == b);
            }
        }
    }
}

/// A pass keeps identifiers distinct.
pub proof fn lemma_sweep_distinct(
    bullets: Seq<Bullet>,
    enemies: Seq<Enemy>,
    player: Option<Player>,
    test: PlayerTest,
)
    requires
        enemy_ids_distinct(enemies),
        bullet_ids_distinct(bullets),
    ensures
        enemy_ids_distinct(sweep(bullets, enemies, player, test).enemies),
        bullet_ids_distinct(sweep(bullets, enemies, player, test).bullets),
    decreases bullets.len(),
{
    let s = sweep(bullets, enemies, player, test);
    if bullets.len() > 0 {
        let front = bullets.drop_last();
        let last = bullets.last();
        let prev = sweep(front, enemies, player, test);
        assert(bullet_ids_distinct(front)) by {
            assert forall|i: int, j: int| 0 <= i < j < front.len() implies (#[trigger] front[i]).id != (
            #[trigger] front[j]).id by {
                assert(bullets[i] == front[i] && bullets[j] == front[j]);
            }
        }
        lemma_sweep_distinct(front, enemies, player, test);
        lemma_sweep_removes(front, enemies, player, test);
        lemma_first_hit_exists(prev.enemies, last);
        let k = first_hit(prev.enemies, last);
        assert forall|i: int, j: int| 0 <= i < j < s.enemies.len() implies (#[trigger] s.enemies[i]).id
            != (#[trigger] s.enemies[j]).id by {
            if k < prev.enemies.len() {
                let i0 = if i < k { i } else { i + 1 };
                let j0 = if j < k { j } else { j + 1 };
                assert(s.enemies[i] == prev.enemies[i0]);
                assert(s.enemies[j] == prev.enemies[j0]);
            }
        }
        assert forall|i: int, j: int| 0 <= i < j < s.bullets.len() implies (#[trigger] s.bullets[i]).id
            != (#[trigger] s.bullets[j]).id by {
            if j < prev.bullets.len() {
                assert(s.bullets[i] == prev.bullets[i]);
                assert(s.bullets[j] == prev.bullets[j]);
            } else {
                assert(s.bullets[j] == last);
                assert(s.bullets[i] == prev.bullets[i]);
                assert(prev.bullets.contains(prev.bullets[i]));
                assert(front.contains(prev.bullets[i]));
                let f = choose|f: int| 0 <= f < front.len() && front[f] == prev.bullets[i];
                assert(bullets[f] == front[f]);
                assert(bullets[bullets.len() - 1] == last);
            }
        }
    }
}

/// The test that picks the bullets that touch the player.
pub open spec fn touching(player: Option<Player>) -> spec_fn(Bullet) -> bool {
    |b: Bullet| hits_player(b, player)
}

/// The hits that a pass counts are hits: there are no more of them than
/// bullets that touch the player. Where every bullet is tested against the
/// player, and where there are no enemies, there are as many.
pub proof fn lemma_player_hits(
    bullets: Seq<Bullet>,
    enemies: Seq<Enemy>,
    player: Option<Player>,
    test: PlayerTest,
)
    ensures
        sweep(bullets, enemies, player, test).player_hits <= bullets.filter(touching(player)).len(),
        test == PlayerTest::Always || enemies.len() == 0 ==> sweep(
            bullets,
            enemies,
            player,
            test,
        ).player_hits == bullets.filter(touching(player)).len(),
        player is None ==> sweep(bullets, enemies, player, test).player_hits == 0,
    decreases bullets.len(),
{
    reveal(Seq::filter);
    if bullets.len() > 0 {
        let front = bullets.drop_last();
        let prev = sweep(front, enemies, player, test);
        lemma_player_hits(front, enemies, player, test);
        lemma_sweep_removes(front, enemies, player, test);
        lemma_first_hit_exists(prev.enemies, bullets.last());
    }
}

/// What a pass leaves is clear of collisions: no bullet that is left
/// touches the player or an enemy that is left.
pub proof fn lemma_survivors_clear(
    bullets: Seq<Bullet>,
    enemies: Seq<Enemy>,
    player: Option<Player>,
    test: PlayerTest,
)
    ensures
        forall|m: int|
            0 <= m < sweep(bullets, enemies, player, test).bullets.len() ==> !hits_player(
                #[trigger] sweep(bullets, enemies, player, test).bullets[m],
                player,
            ),
        forall|m: int, k: int|
            0 <= m < sweep(bullets, enemies, player, test).bullets.len() && 0 <= k < sweep(
                bullets,
                enemies,
                player,
                test,
            ).enemies.len() ==> !hits_enemy(
                #[trigger] sweep(bullets, enemies, player, test).bullets[m],
                #[trigger] sweep(bullets, enemies, player, test).enemies[k],
            ),
    decreases bullets.len(),
{
    let s = sweep(bullets, enemies, player, test);
    if bullets.len() > 0 {
        let front = bullets.drop_last();
        let last = bullets.last();
        let prev = sweep(front, enemies, player, test);
        lemma_survivors_clear(front, enemies, player, test);
        lemma_first_hit_exists(prev.enemies, last);
        let hit = first_hit(prev.enemies, last);
        assert forall|m: int| 0 <= m < s.bullets.len() implies !hits_player(
            #[trigger] s.bullets[m],
            player,
        ) by {
            if m < prev.bullets.len() {
                assert(s.bullets[m] == prev.bullets[m]);
            }
        }
        assert forall|m: int, k: int|
            0 <= m < s.bullets.len() && 0 <= k < s.enemies.len() implies !hits_enemy(
            #[trigger] s.bullets[m],
            #[trigger] s.enemies[k],
        ) by {
            let k0 = if hit < prev.enemies.len() && k >= hit { k + 1 } else { k };
            assert(s.enemies[k] == prev.enemies[k0]);
            if m < prev.bullets.len() {
                assert(s.bullets[m] == prev.bullets[m]);
            } else {
                assert(s.bullets[m] == last);
            }
        }
    }
}

/// What touches nothing stays: an enemy that no bullet of the pass hits is
/// left, and so is a bullet that hits neither the player nor any enemy.
pub proof fn lemma_untouched_stay(
    bullets: Seq<Bullet>,
    enemies: Seq<Enemy>,
    player: Option<Player>,
    test: PlayerTest,
)
    ensures
        forall|k: int|
            0 <= k < enemies.len() && (forall|m: int|
                0 <= m < bullets.len() ==> !hits_enemy(#[trigger] bullets[m], enemies[k])) ==> sweep(
                bullets,
                enemies,
                player,
                test,
            ).enemies.contains(#[trigger] enemies[k]),
        forall|m: int|
            0 <= m < bullets.len() && !hits_player(bullets[m], player) && (forall|k: int|
                0 <= k < enemies.len() ==> !hits_enemy(bullets[m], #[trigger] enemies[k])) ==> sweep(
                bullets,
                enemies,
                player,
                test,
            ).bullets.contains(#[trigger] bullets[m]),
    decreases bullets.len(),
{
    let s = sweep(bullets, enemies, player, test);
    if bullets.len() == 0 {
        assert forall|k: int| 0 <= k < enemies.len() implies s.enemies.contains(
            #[trigger] enemies[k],
        ) by {
            assert(s.enemies[k] == enemies[k]);
        }
    } else {
        let front = bullets.drop_last();
        let last = bullets.last();
        let prev = sweep(front, enemies, player, test);
        lemma_untouched_stay(front, enemies, player, test);
        lemma_sweep_removes(front, enemies, player, test);
        lemma_first_hit_exists(prev.enemies, last);
        let hit = first_hit(prev.enemies, last);
        assert forall|k: int|
            0 <= k < enemies.len() && (forall|m: int|
                0 <= m < bullets.len() ==> !hits_enemy(
                    #[trigger] bullets[m],
                    enemies[k],
                )) implies s.enemies.contains(#[trigger] enemies[k]) by {
            assert forall|m: int| 0 <= m < front.len() implies !hits_enemy(
                #[trigger] front[m],
                enemies[k],
            ) by {
                assert(front[m] == bullets[m]);
            }
            assert(prev.enemies.contains(enemies[k]));
            let at = choose|at: int| 0 <= at < prev.enemies.len() && prev.enemies[at] == enemies[k];
            assert(!hits_enemy(bullets[bullets.len() - 1], enemies[k]));
            if hit < prev.enemies.len() {
                assert(at != hit);
                let now = if at < hit { at } else { at - 1 };
                assert(s.enemies[now] == enemies[k]);
            } else {
                assert(s.enemies[at] == enemies[k]);
            }
        }
        assert forall|m: int|
            0 <= m < bullets.len() && !hits_player(bullets[m], player) && (forall|k: int|
                0 <= k < enemies.len() ==> !hits_enemy(
                    bullets[m],
                    #[trigger] enemies[k],
                )) implies s.bullets.contains(#[trigger] bullets[m]) by {
            if m < front.len() {
                assert(front[m] == bullets[m]);
                assert(prev.bullets.contains(front[m]));
                let at = choose|at: int| 0 <= at < prev.bullets.len() && prev.bullets[at] == front[m];
                assert(s.bullets[at] == bullets[m]);
            } else {
                assert(bullets[m] == last);
                if hit < prev.enemies.len() {
                    assert(prev.enemies.contains(prev.enemies[hit]));
                    let from = choose|from: int|
                        0 <= from < enemies.len() && enemies[from] == prev.enemies[hit];
                    assert(!hits_enemy(last, enemies[from]));
                }
                assert(s.bullets[s.bullets.len() - 1] == last);
            }
        }
    }
}

/// The collision pass takes from the player's health one point for each
/// hit that it counts, down to 0. It never adds to it, and it leaves the
/// player where it stands.
pub proof fn lemma_collision_health(state: GameState)
    ensures
        state.check_collision().health() <= state.health(),
        state.check_collision().health() == vstd::math::max(
            0,
            state.health() - sweep(
                state.bullets,
                state.enemies,
                state.player,
                state.player_test,
            ).player_hits,
        ),
        state.bullets.filter(touching(state.player)).len() == 0 ==> state.check_collision().player
            == state.player,
        state.player matches Some(p) ==> state.check_collision().player is Some
            && state.check_collision().player->0.position == p.position,
        state.player is None ==> state.check_collision().player is None,
{
    lemma_player_hits(state.bullets, state.enemies, state.player, state.player_test);
}

/// While the player's health lasts, the collision pass takes exactly one
/// point for each bullet that it finds to hit the player. Where every
/// bullet is tested against the player, that is one point for each bullet
/// that touches the player.
pub proof fn lemma_health_drops_by_hits(state: GameState)
    requires
        state.health() >= sweep(
            state.bullets,
            state.enemies,
            state.player,
            state.player_test,
        ).player_hits,
    ensures
        state.check_collision().health() == state.health() - sweep(
            state.bullets,
            state.enemies,
            state.player,
            state.player_test,
        ).player_hits,
        state.player_test == PlayerTest::Always ==> state.check_collision().health()
            == state.health() - state.bullets.filter(touching(state.player)).len(),
{
    lemma_player_hits(state.bullets, state.enemies, state.player, state.player_test);
}

/// The collision pass keeps a well-formed state well-formed.
pub proof fn lemma_check_collision_wf(state: GameState)
    requires
        state.wf(),
    ensures
        state.check_collision().wf(),
{
    let s = sweep(state.bullets, state.enemies, state.player, state.player_test);
    lemma_sweep_removes(state.bullets, state.enemies, state.player, state.player_test);
    lemma_sweep_distinct(state.bullets, state.enemies, state.player, state.player_test);
    assert forall|i: int| 0 <= i < s.enemies.len() implies (#[trigger] s.enemies[i]).id
        < state.next_id by {
        assert(s.enemies.contains(s.enemies[i]));
        let m = choose|m: int| 0 <= m < state.enemies.len() && state.enemies[m] == s.enemies[i];
        assert(state.enemies[m].id < state.next_id);
    }
    assert forall|i: int| 0 <= i < s.bullets.len() implies (#[trigger] s.bullets[i]).id
        < state.next_id by {
        assert(s.bullets.contains(s.bullets[i]));
        let m = choose|m: int| 0 <= m < state.bullets.len() && state.bullets[m] == s.bullets[i];
        assert(state.bullets[m].id < state.next_id);
    }
}

impl Game {
    /// Runs the collision pass. Each bullet, first to last, is tested
    /// against the enemies that are left and takes out the first that it
    /// hits, and no other. It is then tested against the player, unless it
    /// took out an enemy and the store was made with
    /// [`PlayerTest::SkipResolved`]; a hit costs the player one point of
    /// health, down to 0. A bullet that hit anything is removed.
    pub fn check_collision(&mut self)
        requires
            old(self).wf(),
        ensures
            final(self).wf(),
            final(self)@ == old(self)@.check_collision(),
            final(self)@.health() <= old(self)@.health(),
            final(self)@.enemies.len() <= old(self)@.enemies.len(),
            final(self)@.bullets.len() <= old(self)@.bullets.len(),
    {
        let ghost before = self@;
        let ghost mut hits: nat = 0;
        let mut survivors: Vec<Bullet> = Vec::new();
        let n: usize = self.bullets.len();
        let mut i: usize = 0;
        while i < n
            invariant
                i <= n,
                n == before.bullets.len(),
                self.bullets@ == before.bullets,
                self.enemy_direction == before.enemy_direction,
                self.player_test == before.player_test,
                self.next_id == before.next_id,
                self.player == damaged(before.player, hits),
                self.enemies@ == sweep(
                    before.bullets.take(i as int),
                    before.enemies,
                    before.player,
                    before.player_test,
                ).enemies,
                survivors@ == sweep(
                    before.bullets.take(i as int),
                    before.enemies,
                    before.player,
                    before.player_test,
                ).bullets,
                hits == sweep(
                    before.bullets.take(i as int),
                    before.enemies,
                    before.player,
                    before.player_test,
                ).player_hits,
            decreases n - i,
        {
            let bullet: Bullet = self.bullets[i];
            proof {
                let upto = before.bullets.take(i + 1);
                assert(upto.drop_last() =~= before.bullets.take(i as int));
                assert(upto.last() == bullet);
            }
            let k: usize = find_first_hit(&self.enemies, &bullet);
            let hit_enemy: bool = k < self.enemies.len();
            if hit_enemy {
                self.enemies.remove(k);
            }
            let tested: bool = match self.player_test {
                PlayerTest::Always => true,
                PlayerTest::SkipResolved => !hit_enemy,
            };
            let hit_player: bool = tested && bullet_hits_player(&bullet, &self.player);
            if hit_player {
                match self.player {
                    Some(p) => {
                        let health: u32 = if p.health > 0 {
                            p.health - 1
                        } else {
                            0
                        };
                        self.player = Some(Player { position: p.position, health });
                    },
                    None => {},
                }
                proof {
                    hits = hits + 1;
                }
            }
            if !hit_enemy && !hit_player {
                survivors.push(bullet);
            }
            i += 1;
        }
        self.bullets = survivors;
        proof {
            assert(before.bullets.take(n as int) =~= before.bullets);
            assert(self@ =~= before.check_collision());
            lemma_check_collision_wf(before);
            lemma_sweep_removes(before.bullets, before.enemies, before.player, before.player_test);
        }
    }
}

} // verus!
