use ap_core::cards::{CardDbEntry, CardsDatabase};
use ap_core::gre::DeckMessage;
use ap_core::models::{process_raw_decklist, quantities, Deck};

#[test]
fn test_quantities() {
    let deck = vec![1, 2, 3, 1, 2, 3, 1, 2, 3, 4];
    let quantities = quantities(&deck);
    assert_eq!(quantities.get(&1), Some(&3));
    assert_eq!(quantities.get(&2), Some(&3));
    assert_eq!(quantities.get(&3), Some(&3));
    assert_eq!(quantities.get(&4), Some(&1));
}

#[test]
fn test_process_raw_decklist() {
    let raw_decklist = "[1, 2, 3, 4]";
    let deck = process_raw_decklist(raw_decklist);
    assert_eq!(deck, vec![1, 2, 3, 4]);
}

#[test]
fn test_deck_from_raw_decklist() {
    let deck = Deck::from_raw_decklist("Test Deck".to_string(), 0, "[1, 2, 3]", "[4, 5, 6]");
    assert_eq!(deck.name, "Test Deck");
    assert_eq!(deck.game_number, 0);
    assert_eq!(deck.mainboard, vec![1, 2, 3]);
    assert_eq!(deck.sideboard, vec![4, 5, 6]);
}

#[test]
fn test_deck_display() {
    let deck = Deck::new("Test Deck".to_string(), 0, vec![1, 2, 3], vec![4, 5, 6]);
    let display = deck.to_display_string();
    assert_eq!(
        display,
        "Test Deck\nMainboard:\n1\n2\n3\n\nSideboard:\n4\n5\n6\n"
    );
}

#[test]
fn test_deck_from_deck_message() {
    let deck_message = DeckMessage {
        deck_cards: vec![1, 2, 3],
        sideboard_cards: vec![4, 5, 6],
    };
    let deck = Deck::from(deck_message);
    assert_eq!(deck.name, "Found Deck");
    assert_eq!(deck.game_number, 0);
    assert_eq!(deck.mainboard, vec![1, 2, 3]);
    assert_eq!(deck.sideboard, vec![4, 5, 6]);
}

#[test]
fn test_deck_from_deck_message_ref() {
    let deck_message = DeckMessage {
        deck_cards: vec![1, 2, 3],
        sideboard_cards: vec![4, 5, 6],
    };
    let deck = Deck::from(&deck_message);
    assert_eq!(deck.name, "Found Deck");
    assert_eq!(deck.game_number, 0);
    assert_eq!(deck.mainboard, vec![1, 2, 3]);
    assert_eq!(deck.sideboard, vec![4, 5, 6]);
}

#[test]
fn test_deck_quantities() {
    let deck = Deck::new(
        "Test Deck".to_string(),
        0,
        vec![1, 2, 3, 1, 2, 3, 1, 2, 3, 4],
        vec![4, 5, 6],
    );
    let quantities = deck.quantities();
    assert_eq!(quantities.get(&1), Some(&3));
    assert_eq!(quantities.get(&2), Some(&3));
    assert_eq!(quantities.get(&3), Some(&3));
    assert_eq!(quantities.get(&4), Some(&1));
}

#[test]
fn test_deck_sideboard_quantities() {
    let deck = Deck::new(
        "Test Deck".to_string(),
        0,
        vec![1, 2, 3, 1, 2, 3, 1, 2, 3, 4],
        vec![4, 5, 6],
    );
    let quantities = deck.sideboard_quantities();
    assert_eq!(quantities.get(&4), Some(&1));
    assert_eq!(quantities.get(&5), Some(&1));
    assert_eq!(quantities.get(&6), Some(&1));
}

#[test]
fn test_resolved_deck_display() {
    let entry = CardDbEntry {
        id: 7,
        set: "tst".to_string(),
        name: "swamp".to_string(),
        lang: "en".to_string(),
        image_uri: None,
        mana_cost: None,
        type_line: "Land".to_string(),
        layout: "normal".to_string(),
        colors: None,
        color_identity: vec!["B".to_string()],
        card_faces: None,
    };
    let db = CardsDatabase::new(vec![(7, entry)]);
    let message = DeckMessage {
        deck_cards: vec![7, 7, 9],
        sideboard_cards: vec![7],
    };
    let deck = ap_core::deck::Deck::new("mine".to_string(), &message, &db);
    assert_eq!(deck.mainboard, vec!["swamp", "swamp", "9"]);
    assert_eq!(deck.sideboard, vec!["swamp"]);
    let text = deck.to_display_string();
    assert_eq!(text, "Deck: mine\n\n9 x1\nswamp x2\n\nSideboard:\nswamp x1");
}

#[test]
fn test_display_renders_negative_identifiers() {
    let deck = Deck::new("D".to_string(), 0, vec![-5, 12], vec![]);
    assert_eq!(deck.to_display_string(), "D\nMainboard:\n-5\n12\n\nSideboard:\n");
}
