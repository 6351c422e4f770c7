use shuftlib::cards::{
    Deck, FrenchCard, FrenchRank, FrenchWithJoker, ItalianCard, ItalianRank, Joker, Suit,
};

#[test]
fn should_shuffle() {
    let sorted_deck = Deck::italian();

    let mut shuffled_deck = Deck::italian();
    shuffled_deck.shuffle();

    let mut count_of_different_cards = 0;
    for i in 0..sorted_deck.len() {
        if sorted_deck.get(i) != shuffled_deck.get(i) {
            count_of_different_cards += 1;
        }
    }

    assert_ne!(count_of_different_cards, 0);
}

#[test]
fn cards_should_shuffle() {
    let sorted_deck = Deck::italian();

    let mut shuffled_deck = Deck::italian();
    shuffled_deck.shuffle();

    let mut count_of_different_cards = 0;
    for i in 0..sorted_deck.len() {
        if sorted_deck.get(i) != shuffled_deck.get(i) {
            count_of_different_cards += 1;
        }
    }

    assert_ne!(count_of_different_cards, 0);
}

#[test]
fn italian_deck_holds_each_card_once() {
    let deck = Deck::italian();
    assert_eq!(deck.len(), 40);
    assert!(!deck.is_empty());

    // The deck lists the suits in order, the ten ranks within each.
    assert_eq!(
        *deck.get(0),
        ItalianCard::new(ItalianRank::Ace, Suit::Hearts)
    );
    assert_eq!(
        *deck.get(10),
        ItalianCard::new(ItalianRank::Ace, Suit::Diamonds)
    );
    assert_eq!(
        *deck.get(39),
        ItalianCard::new(ItalianRank::King, Suit::Spades)
    );

    for i in 0..deck.len() {
        for j in 0..i {
            assert_ne!(deck.get(i), deck.get(j));
        }
    }
}

#[test]
fn french_deck_holds_each_card_once() {
    let deck = Deck::french();
    assert_eq!(deck.len(), 52);
    assert_eq!(
        *deck.get(0),
        FrenchCard::new(FrenchRank::Ace, Suit::Hearts)
    );
    assert_eq!(
        *deck.get(51),
        FrenchCard::new(FrenchRank::King, Suit::Spades)
    );

    for i in 0..deck.len() {
        for j in 0..i {
            assert_ne!(deck.get(i), deck.get(j));
        }
    }
}

#[test]
fn jokers_go_on_top_of_a_french_deck() {
    let deck = Deck::french_with_jokers(3);
    assert_eq!(deck.len(), 55);
    for i in 0..52 {
        assert!(matches!(deck.get(i), FrenchWithJoker::Normal(_)));
    }
    for i in 52..55 {
        assert_eq!(*deck.get(i), FrenchWithJoker::Joker(Joker));
    }
}

#[test]
fn push_and_draw_work_as_a_stack() {
    let mut deck: Deck<ItalianCard> = Deck::new();
    assert!(deck.is_empty());
    assert_eq!(deck.draw(), None);

    let ace = ItalianCard::new(ItalianRank::Ace, Suit::Hearts);
    let two = ItalianCard::new(ItalianRank::Two, Suit::Clubs);
    deck.push(ace);
    deck.push(two);
    assert_eq!(deck.len(), 2);
    assert_eq!(deck.draw(), Some(two));
    assert_eq!(deck.draw(), Some(ace));
    assert_eq!(deck.draw(), None);
}

#[test]
fn a_deck_can_be_built_from_a_vec() {
    let cards = vec![
        ItalianCard::new(ItalianRank::Three, Suit::Spades),
        ItalianCard::new(ItalianRank::Seven, Suit::Diamonds),
    ];
    let deck = Deck::from_vec(cards.clone());
    assert_eq!(deck.len(), 2);
    assert_eq!(*deck.get(0), cards[0]);
    assert_eq!(*deck.get(1), cards[1]);

    let empty: Deck<FrenchCard> = Deck::with_capacity(10);
    assert!(empty.is_empty());
}

#[test]
fn shuffling_keeps_exactly_the_same_cards() {
    let mut deck = Deck::italian();
    deck.shuffle();
    assert_eq!(deck.len(), 40);

    // Every card of the fresh deck is still there exactly once.
    let reference = Deck::italian();
    for i in 0..reference.len() {
        let wanted = *reference.get(i);
        let mut count = 0;
        for j in 0..deck.len() {
            if *deck.get(j) == wanted {
                count += 1;
            }
        }
        assert_eq!(count, 1);
    }
}

#[test]
fn shuffle_card_inserts_inside_the_deck() {
    let mut deck = Deck::italian();
    let extra = ItalianCard::new(ItalianRank::Ace, Suit::Hearts);
    deck.shuffle_card(extra);
    assert_eq!(deck.len(), 41);

    let mut count = 0;
    for i in 0..deck.len() {
        if *deck.get(i) == extra {
            count += 1;
        }
    }
    assert_eq!(count, 2);
}

#[test]
fn cards_report_their_rank_and_suit() {
    let card = ItalianCard::new(ItalianRank::Knight, Suit::Diamonds);
    assert_eq!(card.rank(), ItalianRank::Knight);
    assert_eq!(card.suit(), Suit::Diamonds);

    let card = FrenchCard::new(FrenchRank::Queen, Suit::Spades);
    assert_eq!(card.rank(), FrenchRank::Queen);
    assert_eq!(card.suit(), Suit::Spades);
}

#[test]
fn default_cards_are_the_documented_aces() {
    assert_eq!(
        ItalianCard::default(),
        ItalianCard::new(ItalianRank::Ace, Suit::Clubs)
    );
    assert_eq!(
        FrenchCard::default(),
        FrenchCard::new(FrenchRank::Ace, Suit::Hearts)
    );
    assert_eq!(
        FrenchWithJoker::default(),
        FrenchWithJoker::Normal(FrenchCard::new(FrenchRank::Ace, Suit::Hearts))
    );
    let empty: Deck<ItalianCard> = Deck::default();
    assert!(empty.is_empty());
}
