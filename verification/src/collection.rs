//! The collection: the ordered set of decks a learner owns. It is built
//! empty (or from persisted records, see `persist`) and only ever grows by
//! appending decks.

use vstd::prelude::*;
use crate::deck::Deck;

verus! {

/// An ordered collection of decks.
pub struct Collection {
    pub decks: Vec<Deck>,
}

impl Collection {
    /// An empty collection.
    pub fn new() -> (c: Collection)
        ensures
            c.decks@ == Seq::<Deck>::empty(),
    {
        Collection { decks: Vec::new() }
    }

    /// Appends a deck at the end; earlier decks are unmoved.
    pub fn add_deck(&mut self, deck: Deck)
        ensures
            final(self).decks@ == old(self).decks@.push(deck),
    {
        self.decks.push(deck);
    }
}

impl Default for Collection {
    /// The default collection is the empty one.
    fn default() -> (c: Collection)
        ensures
            c.decks@ == Seq::<Deck>::empty(),
    {
        Collection::new()
    }
}

} // verus!
