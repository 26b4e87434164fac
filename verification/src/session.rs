//! The study-session state machine, and the small presentation modes that
//! drive it: one session walks the due positions of one deck, captured once
//! at session start, rating one card per step until the list is exhausted.

use vstd::prelude::*;
use crate::card::spec_review;
use crate::deck::{due_indices_of, lemma_due_indices, Deck};

verus! {

/// Which screen the caller is on.
#[derive(Debug, Clone, Copy, PartialEq, Eq, Structural)]
pub enum CurrentScreen {
    Main,
    Studying,
    AddingDeck,
    Exiting,
}

/// Which text field of the deck-adding form is being edited.
#[derive(Debug, Clone, Copy, PartialEq, Eq, Structural)]
pub enum CurrentlyEditing {
    Name,
    Path,
}

/// The next edit mode: entering editing lands on the name field, and from
/// then on the two fields alternate.
pub fn toggle_editing(current: &Option<CurrentlyEditing>) -> (next: CurrentlyEditing)
    ensures
        (match *current {
            Some(CurrentlyEditing::Name) => next == CurrentlyEditing::Path,
            Some(CurrentlyEditing::Path) => next == CurrentlyEditing::Name,
            None => next == CurrentlyEditing::Name,
        }),
{
    match current {
        Some(CurrentlyEditing::Name) => CurrentlyEditing::Path,
        Some(CurrentlyEditing::Path) => CurrentlyEditing::Name,
        None => CurrentlyEditing::Name,
    }
}

/// One pass over a deck's due cards: the due positions captured at start,
/// the cursor into them, and whether the answer is shown.
pub struct StudyState {
    /// Which deck of the collection is being studied.
    pub deck_index: usize,
    /// The cursor into `indexes`: how many due cards were already rated.
    pub card_index: usize,
    /// Whether the current card's answer is revealed.
    pub is_answer_visible: bool,
    /// The deck positions that were due when the session started.
    pub indexes: Vec<usize>,
}

impl StudyState {
    /// The session points at a card of `deck`: the cursor is within the
    /// captured list and every captured position is a position of `deck`.
    pub open spec fn valid_for(self, deck: Deck) -> bool {
        &&& self.card_index < self.indexes@.len()
        &&& forall|k: int| 0 <= k < self.indexes@.len()
            ==> #[trigger] self.indexes@[k] < deck.cards@.len()
    }

    /// Starts a session over the cards of `deck` due on day `today`. With
    /// nothing due the session is refused; otherwise it begins at the first
    /// due position with the answer hidden.
    pub fn start(deck_index: usize, deck: &Deck, today: u32) -> (r: Option<StudyState>)
        ensures
            (match r {
                Some(s) => due_indices_of(deck.cards@, today).len() > 0
                    && s.deck_index == deck_index
                    && s.card_index == 0
                    && !s.is_answer_visible
                    && s.indexes@ == due_indices_of(deck.cards@, today)
                    && s.valid_for(*deck),
                None => due_indices_of(deck.cards@, today).len() == 0,
            }),
    {
        let ncards: usize = deck.get_card_count();
        let due = deck.get_cards_to_review_indices(today);
        if due.len() == 0 {
            return None;
        }
        proof {
            assert(deck.cards@.len() == ncards <= usize::MAX);
            lemma_due_indices(deck.cards@, today);
        }
        Some(StudyState {
            deck_index,
            card_index: 0,
            is_answer_visible: false,
            indexes: due,
        })
    }

    /// Flips whether the answer is shown; nothing else moves.
    pub fn toggle_answer(&mut self)
        ensures
            final(self).is_answer_visible == !old(self).is_answer_visible,
            final(self).deck_index == old(self).deck_index,
            final(self).card_index == old(self).card_index,
            final(self).indexes == old(self).indexes,
    {
        self.is_answer_visible = !self.is_answer_visible;
    }

    /// Rates the current due card of `deck` and advances the session.
    ///
    /// The card at the current captured position is reviewed with `quality`
    /// on day `today` and every other card is untouched. The session finishes
    /// exactly when the rated card was the last captured one — never earlier;
    /// otherwise the cursor moves one forward and the answer is hidden again.
    pub fn rate_current_card(&mut self, deck: &mut Deck, quality: u32, today: u32) -> (finished:
        bool)
        requires
            old(self).valid_for(*old(deck)),
        ensures
            ({
                let idx = old(self).indexes@[old(self).card_index as int] as int;
                &&& final(deck).name == old(deck).name
                &&& final(deck).cards@ == old(deck).cards@.update(
                    idx,
                    spec_review(old(deck).cards@[idx], quality, today),
                )
                &&& finished == (old(self).card_index + 1 == old(self).indexes@.len())
                &&& (finished ==> *final(self) == *old(self))
                &&& (!finished ==> final(self).card_index == old(self).card_index + 1
                    && !final(self).is_answer_visible
                    && final(self).deck_index == old(self).deck_index
                    && final(self).indexes == old(self).indexes
                    && final(self).valid_for(*final(deck)))
            }),
    {
        let idx = self.indexes[self.card_index];
        deck.review_card(idx, quality, today);
        if self.card_index >= self.indexes.len() - 1 {
            true
        } else {
            self.card_index = self.card_index + 1;
            self.is_answer_visible = false;
            false
        }
    }
}

} // verus!
