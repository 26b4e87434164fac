use flashcards::card::{FlashCard, FlashCardError};
use flashcards::collection::Collection;
use flashcards::deck::{CardRecord, Deck};
use flashcards::session::{toggle_editing, CurrentlyEditing, StudyState};

fn card_due_on(day: u32) -> FlashCard {
    FlashCard::new("q".to_string(), "a".to_string(), day).unwrap()
}

fn record(q: &str, a: &str) -> CardRecord {
    CardRecord { question: q.to_string(), answer: a.to_string() }
}

#[test]
fn due_indices_on_boundary_day() {
    let d: u32 = 739000;
    let mut deck = Deck::new("deck".to_string());
    deck.add_card(card_due_on(d - 1));
    deck.add_card(card_due_on(d));
    deck.add_card(card_due_on(d + 1));
    assert_eq!(deck.get_cards_to_review_indices(d), vec![0, 1]);
    assert_eq!(deck.get_review_count(d), 2);
    assert_eq!(deck.get_card_count(), 3);
}

#[test]
fn due_indices_empty_deck() {
    let deck = Deck::new("deck".to_string());
    assert_eq!(deck.get_cards_to_review_indices(1000), Vec::<usize>::new());
    assert_eq!(deck.get_review_count(1000), 0);
}

#[test]
fn get_card_bounds() {
    let mut deck = Deck::new("deck".to_string());
    deck.add_card(card_due_on(10));
    assert_eq!(deck.get_card(0).unwrap().last_review_day, 10);
    assert!(deck.get_card(1).is_none());
    assert_eq!(deck.get_name(), "deck");
}

#[test]
fn bulk_load_builds_whole_deck() {
    let today: u32 = 5000;
    let records = vec![record("q1", "a1"), record("q2", "a2"), record("q3", "a3")];
    let deck = Deck::new_from_records("loaded".to_string(), records, today).unwrap();
    assert_eq!(deck.get_card_count(), 3);
    assert_eq!(deck.get_name(), "loaded");
    assert_eq!(deck.get_card(0).unwrap().get_question(), "q1");
    assert_eq!(deck.get_card(2).unwrap().get_answer(), "a3");
    assert_eq!(deck.get_card(1).unwrap().ef_centi, 250);
    assert_eq!(deck.get_card(1).unwrap().next_review_day, today as u64);
}

#[test]
fn bulk_load_is_all_or_nothing() {
    let records = vec![record("q1", "a1"), record("  ", "a2")];
    let r = Deck::new_from_records("x".to_string(), records, 1);
    assert!(matches!(r, Err(FlashCardError::EmptyQuestion)));
    let records = vec![record("q1", "a1"), record("q2", " ")];
    let r = Deck::new_from_records("x".to_string(), records, 1);
    assert!(matches!(r, Err(FlashCardError::EmptyAnswer)));
}

#[test]
fn bulk_load_of_nothing_is_an_empty_deck() {
    let deck = Deck::new_from_records("x".to_string(), Vec::new(), 1).unwrap();
    assert_eq!(deck.get_card_count(), 0);
}

#[test]
fn session_refused_when_nothing_due() {
    let d: u32 = 1000;
    let mut deck = Deck::new("deck".to_string());
    deck.add_card(card_due_on(d + 1));
    assert!(StudyState::start(0, &deck, d).is_none());
}

#[test]
fn session_finishes_exactly_on_third_rating() {
    let d: u32 = 1000;
    let mut deck = Deck::new("deck".to_string());
    for _ in 0..3 {
        deck.add_card(card_due_on(d));
    }
    let mut session = StudyState::start(0, &deck, d).unwrap();
    assert_eq!(session.indexes, vec![0, 1, 2]);
    assert_eq!(session.card_index, 0);
    assert!(!session.rate_current_card(&mut deck, 5, d));
    assert_eq!(session.card_index, 1);
    assert!(!session.rate_current_card(&mut deck, 2, d));
    assert_eq!(session.card_index, 2);
    assert!(session.rate_current_card(&mut deck, 4, d));
    // the three ratings reached the three cards
    assert_eq!(deck.get_card(0).unwrap().repetitions, 1);
    assert_eq!(deck.get_card(1).unwrap().interval, 1);
    assert_eq!(deck.get_card(1).unwrap().repetitions, 0);
    assert_eq!(deck.get_card(2).unwrap().repetitions, 1);
}

#[test]
fn advancing_hides_the_answer_again() {
    let d: u32 = 1000;
    let mut deck = Deck::new("deck".to_string());
    deck.add_card(card_due_on(d));
    deck.add_card(card_due_on(d));
    let mut session = StudyState::start(0, &deck, d).unwrap();
    assert!(!session.is_answer_visible);
    session.toggle_answer();
    assert!(session.is_answer_visible);
    session.rate_current_card(&mut deck, 4, d);
    assert!(!session.is_answer_visible);
}

#[test]
fn session_captures_due_set_at_start() {
    let d: u32 = 1000;
    let mut deck = Deck::new("deck".to_string());
    deck.add_card(card_due_on(d));
    deck.add_card(card_due_on(d + 3));
    let session = StudyState::start(7, &deck, d).unwrap();
    assert_eq!(session.deck_index, 7);
    // only position 0 was due at session start
    assert_eq!(session.indexes, vec![0]);
}

#[test]
fn editing_mode_alternates_from_name() {
    assert!(matches!(toggle_editing(&None), CurrentlyEditing::Name));
    assert!(matches!(
        toggle_editing(&Some(CurrentlyEditing::Name)),
        CurrentlyEditing::Path
    ));
    assert!(matches!(
        toggle_editing(&Some(CurrentlyEditing::Path)),
        CurrentlyEditing::Name
    ));
}

#[test]
fn collection_grows_by_appending() {
    let mut collection = Collection::new();
    assert_eq!(collection.decks.len(), 0);
    collection.add_deck(Deck::new("first".to_string()));
    collection.add_deck(Deck::new("second".to_string()));
    assert_eq!(collection.decks.len(), 2);
    assert_eq!(collection.decks[0].get_name(), "first");
    assert_eq!(collection.decks[1].get_name(), "second");
    let by_default: Collection = Default::default();
    assert_eq!(by_default.decks.len(), 0);
}
