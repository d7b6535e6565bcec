//! Keyboard events as the simulation reads them.

use vstd::prelude::*;

verus! {

/// The keys that the simulation tells apart.
#[derive(Clone, Copy, Debug, PartialEq, Eq, Structural)]
pub enum KeyCode {
    ArrowLeft,
    ArrowRight,
    Space,
    /// Any other key.
    Other,
}

/// What a key changed to.
#[derive(Clone, Copy, Debug, PartialEq, Eq, Structural)]
pub enum ButtonState {
    Pressed,
    Released,
}

/// One transition of one key.
#[derive(Clone, Copy, Debug, PartialEq, Eq, Structural)]
pub struct KeyboardInput {
    pub key_code: KeyCode,
    pub state: ButtonState,
}

impl KeyboardInput {
    /// The event reports that the fire key went from released to pressed.
    pub open spec fn is_fire(self) -> bool {
        self.state == ButtonState::Pressed && self.key_code == KeyCode::Space
    }

    /// Computes [`KeyboardInput::is_fire`].
    pub fn fires(&self) -> (r: bool)
        ensures
            r == self.is_fire(),
    {
        self.state == ButtonState::Pressed && self.key_code == KeyCode::Space
    }
}

/// The test that picks the events that fire a bullet.
pub open spec fn fire_events() -> spec_fn(KeyboardInput) -> bool {
    |e: KeyboardInput| e.is_fire()
}

/// The number of events in the batch that fire a bullet.
pub open spec fn count_fire(events: Seq<KeyboardInput>) -> nat {
    events.filter(fire_events()).len()
}

/// One more event adds one to the count if it fires, and nothing if not.
pub proof fn lemma_count_fire_push(events: Seq<KeyboardInput>, event: KeyboardInput)
    ensures
        count_fire(events.push(event)) == count_fire(events) + if event.is_fire() {
            1nat
        } else {
            0nat
        },
{
    reveal(Seq::filter);
    let all = events.push(event);
    assert(all.drop_last() =~= events);
    assert(all.last() == event);
}

/// A batch holds at least as many firing events as any of its beginnings,
/// and no more than it holds events.
pub proof fn lemma_count_fire_take(events: Seq<KeyboardInput>, n: int)
    requires
        0 <= n <= events.len(),
    ensures
        count_fire(events.take(n)) <= count_fire(events) <= events.len(),
    decreases events.len() - n,
{
    if n == events.len() {
        assert(events.take(n) =~= events);
        events.lemma_filter_len(fire_events());
    } else {
        lemma_count_fire_take(events, n + 1);
        assert(events.take(n + 1) =~= events.take(n).push(events[n]));
        lemma_count_fire_push(events.take(n), events[n]);
    }
}

/// Computes [`count_fire`].
pub fn fire_count(events: &Vec<KeyboardInput>) -> (n: usize)
    ensures
        n == count_fire(events@),
{
    let mut n: usize = 0;
    let mut i: usize = 0;
    while i < events.len()
        invariant
            i <= events.len(),
            n == count_fire(events@.take(i as int)),
            n <= i,
        decreases events.len() - i,
    {
        proof {
            assert(events@.take(i + 1) =~= events@.take(i as int).push(events@[i as int]));
            lemma_count_fire_push(events@.take(i as int), events@[i as int]);
        }
        if events[i].fires() {
            n += 1;
        }
        i += 1;
    }
    proof {
        assert(events@.take(events@.len() as int) =~= events@);
    }
    n
}

} // verus!
