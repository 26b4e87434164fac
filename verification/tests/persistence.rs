use flashcards::card::FlashCard;
use flashcards::collection::Collection;
use flashcards::deck::Deck;

fn sample_collection() -> Collection {
    let mut deck = Deck::new("geography".to_string());
    let mut card = FlashCard::new("capital".to_string(), "city".to_string(), 739000).unwrap();
    card.review(5, 739000);
    card.review(3, 739001);
    deck.add_card(card);
    deck.add_card(FlashCard::new("river".to_string(), "water".to_string(), 739001).unwrap());
    let mut collection = Collection::new();
    collection.add_deck(deck);
    collection.add_deck(Deck::new("empty".to_string()));
    collection
}

fn assert_same_card(a: &FlashCard, b: &FlashCard) {
    assert_eq!(a.id, b.id);
    assert_eq!(a.get_question(), b.get_question());
    assert_eq!(a.get_answer(), b.get_answer());
    assert_eq!(a.ef_centi, b.ef_centi);
    assert_eq!(a.repetitions, b.repetitions);
    assert_eq!(a.interval, b.interval);
    assert_eq!(a.last_review_day, b.last_review_day);
    assert_eq!(a.next_review_day, b.next_review_day);
}

#[test]
fn collection_round_trips_through_records() {
    let original = sample_collection();
    let restored = original.to_data().into_collection();
    assert_eq!(restored.decks.len(), original.decks.len());
    for (restored_deck, original_deck) in restored.decks.iter().zip(original.decks.iter()) {
        assert_eq!(restored_deck.get_name(), original_deck.get_name());
        assert_eq!(restored_deck.get_card_count(), original_deck.get_card_count());
        for (a, b) in restored_deck.cards.iter().zip(original_deck.cards.iter()) {
            assert_same_card(a, b);
        }
    }
}

#[test]
fn card_record_carries_every_field() {
    let mut card = FlashCard::new("q".to_string(), "a".to_string(), 100).unwrap();
    card.review(4, 100);
    let data = card.to_data();
    assert_eq!(data.id, card.id);
    assert_eq!(data.question, "q");
    assert_eq!(data.answer, "a");
    assert_eq!(data.ef_centi, 250);
    assert_eq!(data.repetitions, 1);
    assert_eq!(data.interval, 1);
    assert_eq!(data.last_review_day, 100);
    assert_eq!(data.next_review_day, 101);
    let back = data.into_card();
    assert_same_card(&back, &card);
}
