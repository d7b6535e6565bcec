//! The flight of the bullets and their removal beyond the playfield.

use vstd::prelude::*;
use crate::config::{BULLET_SPEED, PLAYGROUND_HEIGHT};
use crate::entity::Bullet;
use crate::geometry::{saturate, Position};
use crate::store::{bullet_ids_below, bullet_ids_distinct, Game, GameState};

verus! {

/// The bullet after `dt` microseconds of flight.
pub open spec fn advanced(bullet: Bullet, dt: int) -> Bullet {
    Bullet {
        id: bullet.id,
        position: Position {
            x: bullet.position.x,
            z: saturate(bullet.position.z + BULLET_SPEED * dt),
        },
    }
}

/// The bullet has not passed the far boundary of the playfield.
pub open spec fn in_playfield(bullet: Bullet) -> bool {
    bullet.position.z <= PLAYGROUND_HEIGHT
}

/// The flight of `dt` microseconds, as a function on bullets.
pub open spec fn flight(dt: int) -> spec_fn(Bullet) -> Bullet {
    |b: Bullet| advanced(b, dt)
}

/// The test that picks the bullets within the playfield.
pub open spec fn within() -> spec_fn(Bullet) -> bool {
    |b: Bullet| in_playfield(b)
}

/// The bullets after `dt` microseconds: each has flown forward, and those
/// that have passed the far boundary are gone.
pub open spec fn advance_bullets(bullets: Seq<Bullet>, dt: int) -> Seq<Bullet> {
    bullets.map_values(flight(dt)).filter(within())
}

impl GameState {
    /// The state after the bullets' flight.
    pub open spec fn move_bullet(self, dt: int) -> GameState {
        GameState { bullets: advance_bullets(self.bullets, dt), ..self }
    }
}

/// `after` is a bullet of the list as it is after a flight of `dt`
/// microseconds that ended within the playfield.
pub open spec fn flown_from(after: Bullet, bullets: Seq<Bullet>, dt: int) -> bool {
    exists|j: int|
        0 <= j < bullets.len() && after == advanced(#[trigger] bullets[j], dt)
            && bullets[j].position.z + BULLET_SPEED * dt <= PLAYGROUND_HEIGHT
}

/// What one more bullet at the end of the list adds to the outcome.
pub proof fn lemma_advance_push(bullets: Seq<Bullet>, bullet: Bullet, dt: int)
    ensures
        advance_bullets(bullets.push(bullet), dt) == if in_playfield(advanced(bullet, dt)) {
            advance_bullets(bullets, dt).push(advanced(bullet, dt))
        } else {
            advance_bullets(bullets, dt)
        },
{
    reveal(Seq::filter);
    let all = bullets.push(bullet).map_values(flight(dt));
    assert(all.drop_last() =~= bullets.map_values(flight(dt)));
    assert(all.last() == advanced(bullet, dt));
}

/// A bullet stays exactly when its flight ends within the playfield, and a
/// bullet that stays has flown the full way and has kept its identifier
/// and its place across the playfield. No bullet is made up.
pub proof fn lemma_advance_bullets(bullets: Seq<Bullet>, dt: int)
    requires
        0 <= dt,
    ensures
        advance_bullets(bullets, dt).len() <= bullets.len(),
        forall|m: int|
            0 <= m < advance_bullets(bullets, dt).len() ==> flown_from(
                #[trigger] advance_bullets(bullets, dt)[m],
                bullets,
                dt,
            ),
        forall|j: int|
            0 <= j < bullets.len() && bullets[j].position.z + BULLET_SPEED * dt <= PLAYGROUND_HEIGHT
                ==> advance_bullets(bullets, dt).contains(advanced(#[trigger] bullets[j], dt)),
        forall|m: int|
            0 <= m < advance_bullets(bullets, dt).len() ==> (#[trigger] advance_bullets(
                bullets,
                dt,
            )[m]).position.z <= PLAYGROUND_HEIGHT,
    decreases bullets.len(),
{
    let out = advance_bullets(bullets, dt);
    if bullets.len() == 0 {
        reveal(Seq::filter);
        assert(bullets.map_values(flight(dt)) =~= Seq::<Bullet>::empty());
    } else {
        let front = bullets.drop_last();
        let last = bullets.last();
        let prev = advance_bullets(front, dt);
        assert(bullets =~= front.push(last));
        lemma_advance_push(front, last, dt);
        lemma_advance_bullets(front, dt);
        assert(BULLET_SPEED * dt >= 0) by (nonlinear_arith)
            requires
                BULLET_SPEED == 5,
                dt >= 0,
        ;
        assert forall|m: int| 0 <= m < out.len() implies flown_from(#[trigger] out[m], bullets, dt) by {
            if m < prev.len() {
                assert(out[m] == prev[m]);
                assert(flown_from(prev[m], front, dt));
                let j = choose|j: int|
                    0 <= j < front.len() && prev[m] == advanced(#[trigger] front[j], dt)
                        && front[j].position.z + BULLET_SPEED * dt <= PLAYGROUND_HEIGHT;
                assert(bullets[j] == front[j]);
            } else {
                assert(out[m] == advanced(bullets[bullets.len() - 1], dt));
            }
        }
        assert forall|j: int|
            0 <= j < bullets.len() && bullets[j].position.z + BULLET_SPEED * dt
                <= PLAYGROUND_HEIGHT implies out.contains(advanced(#[trigger] bullets[j], dt)) by {
            if j < front.len() {
                assert(front[j] == bullets[j]);
                assert(prev.contains(advanced(front[j], dt)));
                let m = choose|m: int| 0 <= m < prev.len() && prev[m] == advanced(front[j], dt);
                assert(out[m] == prev[m]);
            } else {
                assert(out[out.len() - 1] == advanced(last, dt));
            }
        }
        assert forall|m: int| 0 <= m < out.len() implies (#[trigger] out[m]).position.z
            <= PLAYGROUND_HEIGHT by {
            if m < prev.len() {
                assert(out[m] == prev[m]);
            }
        }
    }
}

/// Flights add up: two flights, one after the other, leave the bullets
/// that one flight of the whole time leaves, in the same places. So a
/// bullet is gone with the first flight that takes it beyond the far
/// boundary, counted from where it started, and stays until then.
pub proof fn lemma_flights_add_up(bullets: Seq<Bullet>, first: int, second: int)
    requires
        0 <= first,
        0 <= second,
    ensures
        advance_bullets(advance_bullets(bullets, first), second) == advance_bullets(
            bullets,
            first + second,
        ),
    decreases bullets.len(),
{
    if bullets.len() == 0 {
        reveal(Seq::filter);
        assert(bullets.map_values(flight(first)) =~= Seq::<Bullet>::empty());
        assert(bullets.map_values(flight(first + second)) =~= Seq::<Bullet>::empty());
        assert(advance_bullets(bullets, first).map_values(flight(second)) =~= Seq::<Bullet>::empty());
    } else {
        let front = bullets.drop_last();
        let last = bullets.last();
        assert(bullets =~= front.push(last));
        lemma_flights_add_up(front, first, second);
        lemma_advance_push(front, last, first);
        lemma_advance_push(front, last, first + second);
        lemma_advance_push(advance_bullets(front, first), advanced(last, first), second);
        assert(BULLET_SPEED * (first + second) == BULLET_SPEED * first + BULLET_SPEED * second
            && BULLET_SPEED * first >= 0 && BULLET_SPEED * second >= 0) by (nonlinear_arith)
            requires
                BULLET_SPEED == 5,
                first >= 0,
                second >= 0,
        ;
    }
}

/// The flight keeps identifiers distinct and below the bound that held
/// them.
pub proof fn lemma_advance_ids(bullets: Seq<Bullet>, dt: int, bound: nat)
    requires
        0 <= dt,
        bullet_ids_distinct(bullets),
        bullet_ids_below(bullets, bound),
    ensures
        bullet_ids_distinct(advance_bullets(bullets, dt)),
        bullet_ids_below(advance_bullets(bullets, dt), bound),
    decreases bullets.len(),
{
    let out = advance_bullets(bullets, dt);
    lemma_advance_bullets(bullets, dt);
    assert forall|m: int| 0 <= m < out.len() implies (#[trigger] out[m]).id < bound by {
        assert(flown_from(out[m], bullets, dt));
        let j = choose|j: int|
            0 <= j < bullets.len() && out[m] == advanced(#[trigger] bullets[j], dt)
                && bullets[j].position.z + BULLET_SPEED * dt <= PLAYGROUND_HEIGHT;
        assert(bullets[j].id < bound);
    }
    if bullets.len() > 0 {
        let front = bullets.drop_last();
        let last = bullets.last();
        let prev = advance_bullets(front, dt);
        assert(bullets =~= front.push(last));
        lemma_advance_push(front, last, dt);
        assert(bullet_ids_distinct(front)) by {
            assert forall|i: int, j: int| 0 <= i < j < front.len() implies (#[trigger] front[i]).id != (
            #[trigger] front[j]).id by {
                assert(bullets[i] == front[i] && bullets[j] == front[j]);
            }
        }
        assert(bullet_ids_below(front, bound)) by {
            assert forall|i: int| 0 <= i < front.len() implies (#[trigger] front[i]).id < bound by {
                assert(bullets[i] == front[i]);
            }
        }
        lemma_advance_ids(front, dt, bound);
        lemma_advance_bullets(front, dt);
        assert forall|i: int, j: int| 0 <= i < j < out.len() implies (#[trigger] out[i]).id != (
        #[trigger] out[j]).id by {
            if j < prev.len() {
                assert(out[i] == prev[i] && out[j] == prev[j]);
            } else {
                assert(out[j] == advanced(last, dt));
                assert(out[i] == prev[i]);
                assert(flown_from(prev[i], front, dt));
                let f = choose|f: int|
                    0 <= f < front.len() && prev[i] == advanced(#[trigger] front[f], dt)
                        && front[f].position.z + BULLET_SPEED * dt <= PLAYGROUND_HEIGHT;
                assert(bullets[f] == front[f]);
                assert(bullets[bullets.len() - 1] == last);
            }
        }
    }
}

/// Where a bullet at depth `z` is after `dt` microseconds, if that is
/// still within the playfield.
pub fn advance_depth(z: i64, dt: u64) -> (r: Option<i64>)
    ensures
        r == if z + BULLET_SPEED * dt <= PLAYGROUND_HEIGHT {
            Some((z + BULLET_SPEED * dt) as i64)
        } else {
            None::<i64>
        },
        r matches Some(d) ==> d == saturate(z + BULLET_SPEED * dt) && z <= d <= PLAYGROUND_HEIGHT,
        r is None ==> saturate(z + BULLET_SPEED * dt) > PLAYGROUND_HEIGHT,
{
    let speed: i128 = BULLET_SPEED as i128;
    assert(speed == 5);
    let target: i128 = z as i128 + speed * (dt as i128);
    if target <= PLAYGROUND_HEIGHT as i128 {
        Some(target as i64)
    } else {
        None
    }
}

impl Game {
    /// Moves every bullet forward for `dt` microseconds and removes those
    /// that have passed the far boundary of the playfield.
    pub fn move_bullet(&mut self, dt: u64)
        requires
            old(self).wf(),
        ensures
            final(self).wf(),
            final(self)@ == old(self)@.move_bullet(dt as int),
            final(self)@.bullets.len() <= old(self)@.bullets.len(),
            forall|m: int|
                0 <= m < final(self)@.bullets.len() ==> (#[trigger] final(self)@.bullets[m]).position.z
                    <= PLAYGROUND_HEIGHT,
    {
        let ghost before = self@;
        let n: usize = self.bullets.len();
        let mut kept: Vec<Bullet> = Vec::new();
        let mut i: usize = 0;
        while i < n
            invariant
                i <= n,
                n == before.bullets.len(),
                self@ == before,
                kept@ == advance_bullets(before.bullets.take(i as int), dt as int),
            decreases n - i,
        {
            let b: Bullet = self.bullets[i];
            proof {
                assert(before.bullets.take(i + 1) =~= before.bullets.take(i as int).push(b));
                lemma_advance_push(before.bullets.take(i as int), b, dt as int);
            }
            match advance_depth(b.position.z, dt) {
                Some(z) => {
                    kept.push(Bullet { id: b.id, position: Position { x: b.position.x, z } });
                },
                None => {},
            }
            i += 1;
        }
        self.bullets = kept;
        proof {
            assert(before.bullets.take(n as int) =~= before.bullets);
            assert(self@ =~= before.move_bullet(dt as int));
            lemma_advance_bullets(before.bullets, dt as int);
            lemma_advance_ids(before.bullets, dt as int, before.next_id);
        }
    }
}

} // verus!
