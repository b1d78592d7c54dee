use crate::progress::TileState;
use crate::tile::{lemma_key_injective, TileCoord};
use std::collections::HashMap;
use vstd::prelude::*;

verus! {

broadcast use vstd::std_specs::hash::group_hash_axioms;

/// The state of every tile seen so far, keyed by tile.
///
/// Entries are only added or overwritten, never removed: the geodata does not
/// change while the program runs, so a finished tile stays valid.
pub struct TileCache<T> {
    states: HashMap<u128, TileState<T>>,
}

impl<T> View for TileCache<T> {
    type V = Map<TileCoord, TileState<T>>;

    closed spec fn view(&self) -> Map<TileCoord, TileState<T>> {
        Map::new(
            |c: TileCoord| self.states@.contains_key(c.spec_key()),
            |c: TileCoord| self.states@[c.spec_key()],
        )
    }
}

impl<T> TileCache<T> {
    pub fn new() -> (r: Self)
        ensures
            r@ == Map::<TileCoord, TileState<T>>::empty(),
    {
        let r = TileCache { states: HashMap::new() };
        assert(r@ =~= Map::<TileCoord, TileState<T>>::empty());
        r
    }

    /// The state of `coord`, if the cache has seen it.
    pub fn get(&self, coord: &TileCoord) -> (r: Option<&TileState<T>>)
        ensures
            r matches Some(s) ==> self@.contains_key(*coord) && *s == self@[*coord],
            r is None ==> !self@.contains_key(*coord),
    {
        let key = coord.key();
        self.states.get(&key)
    }

    /// Sets the state of `coord`.
    pub fn insert(&mut self, coord: TileCoord, state: TileState<T>)
        ensures
            final(self)@ == old(self)@.insert(coord, state),
    {
        let key = coord.key();
        self.states.insert(key, state);
        proof {
            assert forall|c: TileCoord| #[trigger] self@.contains_key(c) == old(self)@.insert(
                coord,
                state,
            ).contains_key(c) by {
                lemma_key_injective(c, coord);
            }
            assert forall|c: TileCoord| self@.contains_key(c) implies #[trigger] self@[c] == old(
                self,
            )@.insert(coord, state)[c] by {
                lemma_key_injective(c, coord);
            }
            assert(self@ =~= old(self)@.insert(coord, state));
        }
    }
}

} // verus!
