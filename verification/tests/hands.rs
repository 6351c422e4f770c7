use shuftlib::cards::{ItalianRank, Suit};
use shuftlib::hands::{OngoingHand, OngoingTrick, Player, PlayerId, TrickTakingGame};
use shuftlib::tressette::{TressetteCard, TressetteRules};

#[test]
fn player_id_rejects_out_of_range_values() {
    assert!(PlayerId::new(0, 4).is_some());
    assert!(PlayerId::new(3, 4).is_some());
    assert!(PlayerId::new(4, 4).is_none());
    assert!(PlayerId::new(7, 4).is_none());
    assert!(PlayerId::new(0, 0).is_none());
}

#[test]
fn incrementing_wraps_and_never_revisits_early() {
    let start = PlayerId::new(1, 4).unwrap();
    let mut id = start;
    let mut seen = vec![id.value()];
    for _ in 0..3 {
        id.inc();
        // Fewer than `players` increments never revisit a seat.
        assert!(!seen.contains(&id.value()));
        seen.push(id.value());
    }
    id.inc();
    // The fourth increment is back at the start.
    assert_eq!(id, start);
}

#[test]
fn players_hold_given_cards_and_drop_removed_ones() {
    let id = PlayerId::new(2, 4).unwrap();
    let mut player: Player<TressetteRules> = Player::new(id);
    assert_eq!(player.id(), id);
    assert_eq!(player.hand().len(), 0);

    let ace = TressetteCard::new(ItalianRank::Ace, Suit::Spades);
    let two = TressetteCard::new(ItalianRank::Two, Suit::Spades);
    player.give(ace);
    player.give(two);
    player.give(ace);
    assert_eq!(player.hand().len(), 3);

    // Removal takes out every copy of the card and keeps the order.
    player.remove(ace);
    assert_eq!(player.hand().len(), 1);
    assert_eq!(player.hand()[0], two);
}

#[test]
fn a_trick_records_plays_in_turn_order() {
    let first = PlayerId::new(2, 4).unwrap();
    let mut trick: OngoingTrick<TressetteRules> = OngoingTrick::new(first);
    assert_eq!(trick.first_to_play(), first);
    assert_eq!(trick.next_to_play(), first);
    assert!(trick.cards().iter().all(|c| c.is_none()));

    let card = TressetteCard::new(ItalianRank::Five, Suit::Hearts);
    trick.play(card);
    // The card lands in the slot of the seat that led.
    assert_eq!(trick.cards()[2], Some(card));
    assert_eq!(trick.next_to_play().value(), 3);
    trick.play(card);
    assert_eq!(trick.next_to_play().value(), 0);
}

#[test]
fn finishing_needs_every_seat_to_have_played() {
    let cards = [
        TressetteCard::new(ItalianRank::Ace, Suit::Hearts),
        TressetteCard::new(ItalianRank::Two, Suit::Hearts),
        TressetteCard::new(ItalianRank::Three, Suit::Hearts),
        TressetteCard::new(ItalianRank::Four, Suit::Hearts),
    ];
    let first = PlayerId::new(0, 4).unwrap();

    for played in 0..4 {
        let mut trick: OngoingTrick<TressetteRules> = OngoingTrick::new(first);
        for &card in cards.iter().take(played) {
            trick.play(card);
        }
        // With any seat still to play, no trick comes out.
        assert!(trick.finish().is_none());
    }

    let mut trick: OngoingTrick<TressetteRules> = OngoingTrick::new(first);
    for &card in cards.iter() {
        trick.play(card);
    }
    let done = trick.finish().unwrap();
    for i in 0..4 {
        assert_eq!(done.cards()[i], cards[i]);
    }
    // The three of hearts is the strongest card of the leading suit.
    assert_eq!(done.taker(), PlayerId::new(2, 4).unwrap());
    assert_eq!(done.taken_with(), cards[2]);
}

#[test]
fn an_ongoing_hand_fills_slot_by_slot() {
    let hand: OngoingHand<TressetteRules> = OngoingHand::new();
    assert_eq!(hand.index(), 0);
    assert!(hand.current_trick().is_none());
    assert_eq!(hand.tricks().len(), 10);
    assert!(hand.tricks().iter().all(|t| t.is_none()));

    // A hand with empty slots cannot be finished.
    assert!(hand.finish().is_none());

    let cards = [
        TressetteCard::new(ItalianRank::Ace, Suit::Hearts),
        TressetteCard::new(ItalianRank::Two, Suit::Hearts),
        TressetteCard::new(ItalianRank::Three, Suit::Hearts),
        TressetteCard::new(ItalianRank::Four, Suit::Hearts),
    ];
    let first = PlayerId::new(0, 4).unwrap();

    let mut hand: OngoingHand<TressetteRules> = OngoingHand::new();
    for slot in 0..TressetteRules::tricks() {
        let mut trick: OngoingTrick<TressetteRules> = OngoingTrick::new(first);
        for &card in cards.iter() {
            trick.play(card);
        }
        hand.add(trick.finish().unwrap(), slot);
    }
    let done = hand.finish().unwrap();
    assert_eq!(done.tricks().len(), 10);
    for trick in done.tricks().iter() {
        assert_eq!(trick.taker().value(), 2);
    }
}

#[test]
fn one_slot_missing_keeps_the_hand_open() {
    let cards = [
        TressetteCard::new(ItalianRank::Ace, Suit::Hearts),
        TressetteCard::new(ItalianRank::Two, Suit::Hearts),
        TressetteCard::new(ItalianRank::Three, Suit::Hearts),
        TressetteCard::new(ItalianRank::Four, Suit::Hearts),
    ];
    let first = PlayerId::new(0, 4).unwrap();

    let mut hand: OngoingHand<TressetteRules> = OngoingHand::new();
    // Fill every slot but the seventh.
    for slot in 0..TressetteRules::tricks() {
        if slot == 6 {
            continue;
        }
        let mut trick: OngoingTrick<TressetteRules> = OngoingTrick::new(first);
        for &card in cards.iter() {
            trick.play(card);
        }
        hand.add(trick.finish().unwrap(), slot);
    }
    assert!(hand.finish().is_none());
}
