//! The persisted shape of a collection: plain records carrying exactly the
//! fields of the document the caller stores — for each card its identifier,
//! texts, ease factor (in hundredths), repetition count, interval and the
//! two review day numbers. Converting a collection to records and records
//! back to a collection are exact inverses, so the records determine the
//! collection completely; turning records into a stored document and back is
//! the caller's side of the boundary.

use vstd::prelude::*;
use crate::card::FlashCard;
use crate::collection::Collection;
use crate::deck::Deck;

verus! {

/// One card as persisted.
pub struct CardData {
    pub id: u128,
    pub question: String,
    pub answer: String,
    pub ef_centi: u32,
    pub repetitions: u32,
    pub interval: u32,
    pub last_review_day: u32,
    pub next_review_day: u64,
}

/// One deck as persisted.
pub struct DeckData {
    pub name: String,
    pub cards: Vec<CardData>,
}

/// A whole collection as persisted.
pub struct CollectionData {
    pub decks: Vec<DeckData>,
}

/// The card a persisted record stands for.
pub open spec fn card_of_data(d: CardData) -> FlashCard {
    FlashCard {
        id: d.id,
        question: d.question,
        answer: d.answer,
        ef_centi: d.ef_centi,
        repetitions: d.repetitions,
        interval: d.interval,
        last_review_day: d.last_review_day,
        next_review_day: d.next_review_day,
    }
}

/// The persisted record of a card.
pub open spec fn data_of_card(c: FlashCard) -> CardData {
    CardData {
        id: c.id,
        question: c.question,
        answer: c.answer,
        ef_centi: c.ef_centi,
        repetitions: c.repetitions,
        interval: c.interval,
        last_review_day: c.last_review_day,
        next_review_day: c.next_review_day,
    }
}

/// Law: reading back a card's persisted record yields the card unchanged —
/// identifier and scheduling state included.
pub proof fn lemma_card_data_round_trip(c: FlashCard)
    ensures
        card_of_data(data_of_card(c)) == c,
{
}

/// Law: persisting the card a record stands for writes that record again:
/// the record shape carries no more than a card holds.
pub proof fn lemma_data_card_round_trip(d: CardData)
    ensures
        data_of_card(card_of_data(d)) == d,
{
}

/// What a deck, or a persisted deck record, stands for: a name and the
/// sequence of its cards.
pub ghost struct DeckModel {
    pub name: String,
    pub cards: Seq<FlashCard>,
}

impl View for Deck {
    type V = DeckModel;

    open spec fn view(&self) -> DeckModel {
        DeckModel { name: self.name, cards: self.cards@ }
    }
}

impl View for DeckData {
    type V = DeckModel;

    open spec fn view(&self) -> DeckModel {
        DeckModel {
            name: self.name,
            cards: self.cards@.map_values(|c: CardData| card_of_data(c)),
        }
    }
}

impl View for Collection {
    type V = Seq<DeckModel>;

    open spec fn view(&self) -> Seq<DeckModel> {
        self.decks@.map_values(|d: Deck| d@)
    }
}

impl View for CollectionData {
    type V = Seq<DeckModel>;

    open spec fn view(&self) -> Seq<DeckModel> {
        self.decks@.map_values(|d: DeckData| d@)
    }
}

/// Law: the persisted records are faithful: two record sets that stand for
/// the same collection carry the same decks, name for name and card record
/// for card record — a record is recovered exactly from the card it stands
/// for, so nothing of the model is lost in the record form.
pub proof fn lemma_records_faithful(a: CollectionData, b: CollectionData)
    requires
        a@ == b@,
    ensures
        a.decks@.len() == b.decks@.len(),
        forall|i: int| 0 <= i < a.decks@.len()
            ==> #[trigger] a.decks@[i].name == b.decks@[i].name
                && a.decks@[i].cards@ == b.decks@[i].cards@,
{
    assert(a@.len() == a.decks@.len());
    assert(b@.len() == b.decks@.len());
    assert forall|i: int| 0 <= i < a.decks@.len()
        implies #[trigger] a.decks@[i].name == b.decks@[i].name
            && a.decks@[i].cards@ == b.decks@[i].cards@ by {
        assert(a@[i] == a.decks@[i]@);
        assert(b@[i] == b.decks@[i]@);
        let ac = a.decks@[i].cards@;
        let bc = b.decks@[i].cards@;
        assert(a.decks@[i]@.cards == ac.map_values(|c: CardData| card_of_data(c)));
        assert(b.decks@[i]@.cards == bc.map_values(|c: CardData| card_of_data(c)));
        assert(ac.len() == bc.len());
        assert forall|j: int| 0 <= j < ac.len() implies ac[j] == bc[j] by {
            assert(a.decks@[i]@.cards[j] == card_of_data(ac[j]));
            assert(b.decks@[i]@.cards[j] == card_of_data(bc[j]));
            assert(card_of_data(ac[j]) == card_of_data(bc[j]));
            lemma_data_card_round_trip(ac[j]);
            lemma_data_card_round_trip(bc[j]);
        }
        assert(ac =~= bc);
    }
}

impl FlashCard {
    /// This card's persisted record.
    pub fn to_data(&self) -> (d: CardData)
        ensures
            d == data_of_card(*self),
    {
        CardData {
            id: self.id,
            question: self.question.clone(),
            answer: self.answer.clone(),
            ef_centi: self.ef_centi,
            repetitions: self.repetitions,
            interval: self.interval,
            last_review_day: self.last_review_day,
            next_review_day: self.next_review_day,
        }
    }
}

impl CardData {
    /// The card this record stands for.
    pub fn into_card(self) -> (c: FlashCard)
        ensures
            c == card_of_data(self),
    {
        FlashCard {
            id: self.id,
            question: self.question,
            answer: self.answer,
            ef_centi: self.ef_centi,
            repetitions: self.repetitions,
            interval: self.interval,
            last_review_day: self.last_review_day,
            next_review_day: self.next_review_day,
        }
    }
}

impl Deck {
    /// This deck's persisted record: the same name over the records of the
    /// same cards in the same order.
    #[verifier::loop_isolation(false)]
    pub fn to_data(&self) -> (d: DeckData)
        ensures
            d@ == self@,
    {
        let mut cards: Vec<CardData> = Vec::new();
        let mut i: usize = 0;
        while i < self.cards.len()
            invariant
                0 <= i <= self.cards@.len(),
                cards@.len() == i,
                forall|j: int| 0 <= j < i
                    ==> #[trigger] cards@[j] == data_of_card(self.cards@[j]),
            decreases self.cards@.len() - i,
        {
            cards.push(self.cards[i].to_data());
            i += 1;
        }
        let d = DeckData { name: self.name.clone(), cards };
        proof {
            assert(d@.cards =~= self@.cards);
        }
        d
    }
}

impl DeckData {
    /// The deck this record stands for.
    #[verifier::loop_isolation(false)]
    pub fn into_deck(self) -> (d: Deck)
        ensures
            d@ == self@,
    {
        let ghost orig = self.cards@;
        let mut rest = self.cards;
        let mut cards: Vec<FlashCard> = Vec::new();
        proof {
            assert(orig.subrange(0, orig.len() as int) =~= orig);
        }
        while rest.len() > 0
            invariant
                cards@.len() + rest@.len() == orig.len(),
                rest@ == orig.subrange(cards@.len() as int, orig.len() as int),
                forall|j: int| 0 <= j < cards@.len()
                    ==> #[trigger] cards@[j] == card_of_data(orig[j]),
            decreases rest@.len(),
        {
            let ghost k = cards@.len() as int;
            assert(rest@[0] == orig[k]);
            let rec = rest.remove(0);
            cards.push(rec.into_card());
            proof {
                assert(rest@ =~= orig.subrange(cards@.len() as int, orig.len() as int));
            }
        }
        let d = Deck { name: self.name, cards };
        proof {
            assert(d@.cards =~= self@.cards);
        }
        d
    }
}

impl Collection {
    /// The whole collection's persisted records, deck by deck.
    #[verifier::loop_isolation(false)]
    pub fn to_data(&self) -> (d: CollectionData)
        ensures
            d@ == self@,
    {
        let mut decks: Vec<DeckData> = Vec::new();
        let mut i: usize = 0;
        while i < self.decks.len()
            invariant
                0 <= i <= self.decks@.len(),
                decks@.len() == i,
                forall|j: int| 0 <= j < i ==> #[trigger] decks@[j]@ == self.decks@[j]@,
            decreases self.decks@.len() - i,
        {
            decks.push(self.decks[i].to_data());
            i += 1;
        }
        let d = CollectionData { decks };
        proof {
            assert(d@ =~= self@);
        }
        d
    }
}

impl CollectionData {
    /// The collection these records stand for.
    #[verifier::loop_isolation(false)]
    pub fn into_collection(self) -> (c: Collection)
        ensures
            c@ == self@,
    {
        let ghost orig = self.decks@;
        let mut rest = self.decks;
        let mut decks: Vec<Deck> = Vec::new();
        proof {
            assert(orig.subrange(0, orig.len() as int) =~= orig);
        }
        while rest.len() > 0
            invariant
                decks@.len() + rest@.len() == orig.len(),
                rest@ == orig.subrange(decks@.len() as int, orig.len() as int),
                forall|j: int| 0 <= j < decks@.len()
                    ==> #[trigger] decks@[j]@ == orig[j]@,
            decreases rest@.len(),
        {
            let ghost k = decks@.len() as int;
            assert(rest@[0] == orig[k]);
            let rec = rest.remove(0);
            decks.push(rec.into_deck());
            proof {
                assert(rest@ =~= orig.subrange(decks@.len() as int, orig.len() as int));
            }
        }
        let c = Collection { decks };
        proof {
            assert(c@ =~= self@);
        }
        c
    }
}

} // verus!
