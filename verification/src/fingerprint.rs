//! The fingerprint of a world: a 64-bit digest of the state of every live
//! ship, taken in registry order.

use vstd::prelude::*;
use vstd::bytes::{spec_u64_to_le_bytes, u64_to_le_bytes};
use vstd::std_specs::hash::DefaultHasherAdditionalSpecFns;
use std::collections::hash_map::DefaultHasher;
use std::hash::Hasher;
use crate::model::WorldView;
use crate::ship::{ShipHandle, ShipState};
use crate::world::World;

verus! {

/// The eight bytes fed to the hasher for one quantity, lowest byte first.
pub open spec fn word_bytes(word: i64) -> Seq<u8> {
    spec_u64_to_le_bytes(word as u64)
}

/// The quantities of one ship that enter the fingerprint, in order: position,
/// heading, velocity, angular velocity, health.
pub open spec fn ship_words(s: ShipState) -> Seq<i64> {
    seq![
        s.body.position.x,
        s.body.position.y,
        s.body.heading,
        s.body.velocity.x,
        s.body.velocity.y,
        s.body.angular_velocity,
        s.data.health,
    ]
}

/// The quantities of all the ships listed in `ships`, ship after ship.
pub open spec fn world_words(ships: Seq<u64>, data: Map<u64, ShipState>) -> Seq<i64>
    decreases ships.len(),
{
    if ships.len() == 0 {
        Seq::empty()
    } else {
        world_words(ships.drop_last(), data) + ship_words(data[ships.last()])
    }
}

/// The sequence of writes that feeding `words` to a hasher amounts to.
pub open spec fn writes_of(words: Seq<i64>) -> Seq<Seq<u8>> {
    words.map_values(|w: i64| word_bytes(w))
}

/// The fingerprint of a world.
pub open spec fn fingerprint(w: WorldView) -> u64 {
    DefaultHasher::spec_finish(writes_of(world_words(w.ships, w.ship_data)))
}

/// Feeds one quantity to the hasher.
fn write_word(state: &mut DefaultHasher, word: i64)
    ensures
        final(state)@ == old(state)@.push(word_bytes(word)),
{
    let bytes = u64_to_le_bytes(#[verifier::truncate] (word as u64));
    state.write(bytes.as_slice());
}

/// Feeds the quantities of one ship to the hasher.
fn write_ship(state: &mut DefaultHasher, s: ShipState)
    ensures
        final(state)@ == old(state)@ + writes_of(ship_words(s)),
{
    write_word(state, s.body.position.x);
    write_word(state, s.body.position.y);
    write_word(state, s.body.heading);
    write_word(state, s.body.velocity.x);
    write_word(state, s.body.velocity.y);
    write_word(state, s.body.angular_velocity);
    write_word(state, s.data.health);
    assert(state@ =~= old(state)@ + writes_of(ship_words(s)));
}

impl World {
    /// Digest of position, heading, velocity, angular velocity and health of
    /// every live ship, in registry order.
    pub fn hash(&self) -> (h: u64)
        requires
            self.wf(),
        ensures
            h == fingerprint(self@),
    {
        let mut state = DefaultHasher::new();
        let ships = self.ships();
        let mut i: usize = 0;
        assert(writes_of(world_words(self@.ships.take(0), self@.ship_data)) =~= Seq::<
            Seq<u8>,
        >::empty());
        while i < ships.len()
            invariant
                self.wf(),
                ships@ == self@.ships,
                i <= ships@.len(),
                state@ == writes_of(world_words(self@.ships.take(i as int), self@.ship_data)),
            decreases ships@.len() - i,
        {
            let index = ships.get(i);
            proof {
                let before = self@.ships.take(i as int);
                let after = self@.ships.take(i + 1);
                assert(after.drop_last() =~= before);
                assert(after.last() == index);
                assert(self@.ships.contains(index));
                assert(writes_of(world_words(after, self@.ship_data)) =~= writes_of(
                    world_words(before, self@.ship_data),
                ) + writes_of(ship_words(self@.ship_data[index])));
            }
            match self.ship_state(ShipHandle(index)) {
                Ok(s) => {
                    write_ship(&mut state, s);
                },
                Err(_) => {},
            }
            i += 1;
        }
        assert(self@.ships.take(i as int) =~= self@.ships);
        state.finish()
    }
}

} // verus!
