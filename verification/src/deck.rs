//! A named, ordered collection of cards, with the query that selects which
//! card positions are due on a given day and the bulk construction of a deck
//! from imported question/answer records.

use vstd::prelude::*;
use crate::card::{blank, spec_review, FlashCard, FlashCardError};

verus! {

/// One imported question/answer pair, before validation.
pub struct CardRecord {
    pub question: String,
    pub answer: String,
}

/// The validation outcome of one imported record: the question is checked
/// first, then the answer; a non-blank pair passes.
pub open spec fn record_error(r: CardRecord) -> Option<FlashCardError> {
    if blank(r.question@) {
        Some(FlashCardError::EmptyQuestion)
    } else if blank(r.answer@) {
        Some(FlashCardError::EmptyAnswer)
    } else {
        None
    }
}

/// The first validation error among the records, in order, if any.
pub open spec fn records_error(rs: Seq<CardRecord>) -> Option<FlashCardError>
    decreases rs.len(),
{
    if rs.len() == 0 {
        None
    } else if record_error(rs[0]) is Some {
        record_error(rs[0])
    } else {
        records_error(rs.drop_first())
    }
}

/// A card built from record `r` on day `today`: same texts, fresh
/// scheduling state, due immediately.
pub open spec fn fresh_from(c: FlashCard, r: CardRecord, today: u32) -> bool {
    &&& c.question == r.question
    &&& c.answer == r.answer
    &&& c.ef_centi == 250
    &&& c.repetitions == 0
    &&& c.interval == 0
    &&& c.last_review_day == today
    &&& c.next_review_day == today as u64
}

/// The positions of the cards due on day `today` (next review day at or
/// before `today`), in ascending position order.
pub open spec fn due_indices_of(cards: Seq<FlashCard>, today: u32) -> Seq<usize>
    decreases cards.len(),
{
    if cards.len() == 0 {
        Seq::empty()
    } else {
        let prefix = due_indices_of(cards.drop_last(), today);
        if cards.last().next_review_day <= today {
            prefix.push((cards.len() - 1) as usize)
        } else {
            prefix
        }
    }
}

/// Law: the due positions are exactly the positions of the due cards, each
/// in range, listed in strictly ascending (insertion) order.
pub proof fn lemma_due_indices(cards: Seq<FlashCard>, today: u32)
    requires
        cards.len() <= usize::MAX,
    ensures
        forall|k: int| 0 <= k < due_indices_of(cards, today).len() ==> (
            #[trigger] due_indices_of(cards, today)[k] < cards.len()
            && cards[due_indices_of(cards, today)[k] as int].next_review_day <= today
        ),
        forall|k1: int, k2: int| 0 <= k1 < k2 < due_indices_of(cards, today).len()
            ==> #[trigger] due_indices_of(cards, today)[k1]
                < #[trigger] due_indices_of(cards, today)[k2],
        forall|j: int| 0 <= j < cards.len() && #[trigger] cards[j].next_review_day <= today
            ==> due_indices_of(cards, today).contains(j as usize),
    decreases cards.len(),
{
    if cards.len() > 0 {
        let rest = cards.drop_last();
        lemma_due_indices(rest, today);
        let prefix = due_indices_of(rest, today);
        let whole = due_indices_of(cards, today);
        assert(forall|j: int| 0 <= j < rest.len() ==> #[trigger] rest[j] == cards[j]);
        if cards.last().next_review_day <= today {
            assert(whole == prefix.push((cards.len() - 1) as usize));
        } else {
            assert(whole == prefix);
        }
        assert forall|k: int| 0 <= k < whole.len() implies (
            #[trigger] whole[k] < cards.len()
            && cards[whole[k] as int].next_review_day <= today
        ) by {
            if k < prefix.len() {
                assert(whole[k] == prefix[k]);
                assert(prefix[k] < rest.len());
                assert(rest[prefix[k] as int] == cards[prefix[k] as int]);
            } else {
                assert(whole[k] == (cards.len() - 1) as usize);
                assert(cards[cards.len() - 1] == cards.last());
            }
        }
        assert forall|k1: int, k2: int| 0 <= k1 < k2 < whole.len()
            implies #[trigger] whole[k1] < #[trigger] whole[k2] by {
            if k2 < prefix.len() {
                assert(whole[k1] == prefix[k1] && whole[k2] == prefix[k2]);
            } else {
                assert(whole[k2] == (cards.len() - 1) as usize);
                assert(whole[k1] == prefix[k1]);
                assert(prefix[k1] < rest.len());
            }
        }
        assert forall|j: int| 0 <= j < cards.len() && #[trigger] cards[j].next_review_day <= today
            implies whole.contains(j as usize) by {
            if j == cards.len() - 1 {
                assert(whole[whole.len() - 1] == j as usize);
            } else {
                assert(rest[j] == cards[j]);
                assert(prefix.contains(j as usize));
                let k = choose|k: int| 0 <= k < prefix.len() && prefix[k] == j as usize;
                assert(whole[k] == j as usize);
            }
        }
    }
}

/// An ordered deck of cards under a display name.
pub struct Deck {
    pub name: String,
    pub cards: Vec<FlashCard>,
}

impl Deck {
    /// An empty deck under the given name.
    pub fn new(name: String) -> (d: Deck)
        ensures
            d.name == name,
            d.cards@ == Seq::<FlashCard>::empty(),
    {
        Deck { name, cards: Vec::new() }
    }

    /// Builds a whole deck from imported records: every record must pass the
    /// card validation, in order; on the first failure the whole load fails
    /// with that record's error and no deck is produced.
    #[verifier::loop_isolation(false)]
    pub fn new_from_records(name: String, records: Vec<CardRecord>, today: u32) -> (r: Result<
        Deck,
        FlashCardError,
    >)
        ensures
            (match r {
                Ok(d) => records_error(records@) is None
                    && d.name == name
                    && d.cards@.len() == records@.len()
                    && forall|i: int| 0 <= i < records@.len()
                        ==> fresh_from(#[trigger] d.cards@[i], records@[i], today),
                Err(e) => records_error(records@) == Some(e),
            }),
    {
        let ghost orig = records@;
        let mut rest = records;
        let mut deck = Deck::new(name);
        proof {
            assert(orig.subrange(0, orig.len() as int) =~= orig);
        }
        while rest.len() > 0
            invariant
                deck.cards@.len() + rest@.len() == orig.len(),
                rest@ == orig.subrange(deck.cards@.len() as int, orig.len() as int),
                forall|i: int| 0 <= i < deck.cards@.len()
                    ==> record_error(#[trigger] orig[i]) is None,
                forall|i: int| 0 <= i < deck.cards@.len()
                    ==> fresh_from(#[trigger] deck.cards@[i], orig[i], today),
                deck.name == name,
            decreases rest@.len(),
        {
            let ghost k = deck.cards@.len() as int;
            assert(rest@[0] == orig[k]);
            let rec = rest.remove(0);
            let ghost grec = rec;
            match FlashCard::new(rec.question, rec.answer, today) {
                Ok(c) => {
                    deck.add_card(c);
                },
                Err(e) => {
                    proof {
                        assert(grec == orig[k]);
                        assert(record_error(grec) == Some(e));
                        lemma_records_error_at(orig, k);
                    }
                    return Err(e);
                },
            }
            proof {
                assert(rest@ =~= orig.subrange(deck.cards@.len() as int, orig.len() as int));
            }
        }
        proof {
            lemma_records_error_none(orig);
        }
        Ok(deck)
    }

    /// Appends a card at the end; earlier positions are unmoved.
    pub fn add_card(&mut self, card: FlashCard)
        ensures
            final(self).name == old(self).name,
            final(self).cards@ == old(self).cards@.push(card),
    {
        self.cards.push(card);
    }

    /// How many cards are due on day `today`.
    pub fn get_review_count(&self, today: u32) -> (n: usize)
        ensures
            n == due_indices_of(self.cards@, today).len(),
    {
        self.get_cards_to_review_indices(today).len()
    }

    /// The positions of the cards due on day `today`, ascending.
    pub fn get_cards_to_review_indices(&self, today: u32) -> (r: Vec<usize>)
        ensures
            r@ == due_indices_of(self.cards@, today),
    {
        let mut r: Vec<usize> = Vec::new();
        let mut i: usize = 0;
        while i < self.cards.len()
            invariant
                0 <= i <= self.cards@.len(),
                r@ == due_indices_of(self.cards@.take(i as int), today),
            decreases self.cards@.len() - i,
        {
            proof {
                assert(self.cards@.take(i + 1).drop_last() =~= self.cards@.take(i as int));
                assert(self.cards@.take(i + 1).last() == self.cards@[i as int]);
            }
            if self.cards[i].get_date() <= today as u64 {
                r.push(i);
            }
            i += 1;
        }
        proof {
            assert(self.cards@.take(self.cards@.len() as int) =~= self.cards@);
        }
        r
    }

    pub fn get_name(&self) -> (r: String)
        ensures
            r == self.name,
    {
        self.name.clone()
    }

    pub fn get_card_count(&self) -> (n: usize)
        ensures
            n == self.cards@.len(),
    {
        self.cards.len()
    }

    /// The card at `index`, or nothing when `index` is out of range.
    pub fn get_card(&self, index: usize) -> (r: Option<&FlashCard>)
        ensures
            (match r {
                Some(c) => index < self.cards@.len() && *c == self.cards@[index as int],
                None => index >= self.cards@.len(),
            }),
    {
        if index < self.cards.len() {
            Some(&self.cards[index])
        } else {
            None
        }
    }

    /// Reviews the card at `index` with the given rating on day `today`;
    /// every other card is untouched.
    pub fn review_card(&mut self, index: usize, quality: u32, today: u32)
        requires
            index < old(self).cards@.len(),
        ensures
            final(self).name == old(self).name,
            final(self).cards@ == old(self).cards@.update(
                index as int,
                spec_review(old(self).cards@[index as int], quality, today),
            ),
    {
        let card: &mut FlashCard = &mut self.cards[index];
        card.review(quality, today);
        proof {
            assert(self.cards@ =~= old(self).cards@.update(
                index as int,
                spec_review(old(self).cards@[index as int], quality, today),
            ));
        }
    }
}

/// The first `k` records pass validation and record `k` fails: then the
/// whole sequence's first error is record `k`'s.
proof fn lemma_records_error_at(rs: Seq<CardRecord>, k: int)
    requires
        0 <= k < rs.len(),
        forall|i: int| 0 <= i < k ==> record_error(#[trigger] rs[i]) is None,
        record_error(rs[k]) is Some,
    ensures
        records_error(rs) == record_error(rs[k]),
    decreases k,
{
    if k > 0 {
        assert(forall|i: int| 0 <= i < k - 1
            ==> record_error(#[trigger] rs.drop_first()[i]) is None);
        assert(rs.drop_first()[k - 1] == rs[k]);
        lemma_records_error_at(rs.drop_first(), k - 1);
    }
}

/// Every record passes validation: then the sequence has no first error.
proof fn lemma_records_error_none(rs: Seq<CardRecord>)
    requires
        forall|i: int| 0 <= i < rs.len() ==> record_error(#[trigger] rs[i]) is None,
    ensures
        records_error(rs) is None,
    decreases rs.len(),
{
    if rs.len() > 0 {
        assert(forall|i: int| 0 <= i < rs.len() - 1
            ==> record_error(#[trigger] rs.drop_first()[i]) is None);
        lemma_records_error_none(rs.drop_first());
    }
}

} // verus!
