use shuftlib::cards::{Deck, ItalianCard, ItalianRank, Suit};
use shuftlib::hands::{OngoingHand, OngoingTrick, Player, PlayerId, TrickTakingGame};
use shuftlib::tressette::{self, TressetteCard, TressetteRules};

#[test]
fn tressette_works() {
    let mut first = true;
    let mut leading_suit = None;
    let first_to_play = PlayerId::new(0, 4).unwrap();
    let mut score = (0, 0);
    let mut players = [
        Player::<TressetteRules>::new(PlayerId::new(0, 4).unwrap()),
        Player::<TressetteRules>::new(PlayerId::new(1, 4).unwrap()),
        Player::<TressetteRules>::new(PlayerId::new(2, 4).unwrap()),
        Player::<TressetteRules>::new(PlayerId::new(3, 4).unwrap()),
    ];
    let mut hands = Vec::new();

    while !TressetteRules::is_completed(score) {
        let mut ongoing_hand = OngoingHand::<TressetteRules>::new();
        let mut deck = Deck::italian();
        deck.shuffle();

        for i in 0..deck.len() {
            let card = *deck.get(i);
            let player_index = (i / 5) % 4;
            players[player_index].give(TressetteCard::from(card));
        }

        for trick_id in 0..TressetteRules::tricks() {
            let mut ongoing_trick = OngoingTrick::<TressetteRules>::new(first_to_play);
            for _ in 0..TressetteRules::players() {
                let next_to_play = ongoing_trick.next_to_play();
                let playable =
                    TressetteRules::playable(&players[next_to_play.value()], leading_suit);
                TressetteRules::play(
                    &mut players[next_to_play.value()],
                    playable[0],
                    &mut ongoing_trick,
                );

                if first {
                    leading_suit = Some(playable[0].suit());
                    first = !first;
                }
            }
            first = !first;
            ongoing_hand.add(ongoing_trick.finish().unwrap(), trick_id);
        }
        let hand = ongoing_hand.finish().unwrap();
        TressetteRules::compute_score(&hand, &mut score);
        hands.push(hand);
    }

    assert_eq!((score.0 + score.1) % 11, 0);
    assert_ne!(score.0, score.1);
    assert!(score.0 >= tressette::SCORE_TO_WIN || score.1 >= tressette::SCORE_TO_WIN);
}

#[test]
fn the_strongest_card_of_the_leading_suit_takes() {
    let cards = vec![
        TressetteCard::new(ItalianRank::Ace, Suit::Hearts),
        TressetteCard::new(ItalianRank::Two, Suit::Hearts),
        TressetteCard::new(ItalianRank::Three, Suit::Hearts),
        TressetteCard::new(ItalianRank::Four, Suit::Hearts),
    ];
    // The three is the strongest rank, whoever leads.
    let taker = TressetteRules::determine_taker(&cards, PlayerId::new(2, 4).unwrap());
    assert_eq!(taker, PlayerId::new(2, 4).unwrap());
    let taker = TressetteRules::determine_taker(&cards, PlayerId::new(0, 4).unwrap());
    assert_eq!(taker, PlayerId::new(2, 4).unwrap());
}

#[test]
fn cards_off_the_leading_suit_never_take() {
    let cards = vec![
        TressetteCard::new(ItalianRank::Five, Suit::Clubs),
        TressetteCard::new(ItalianRank::Three, Suit::Hearts),
        TressetteCard::new(ItalianRank::Three, Suit::Spades),
        TressetteCard::new(ItalianRank::Seven, Suit::Clubs),
    ];
    // Seat 0 leads clubs: only the two clubs compete, and the seven
    // beats the five.
    let taker = TressetteRules::determine_taker(&cards, PlayerId::new(0, 4).unwrap());
    assert_eq!(taker, PlayerId::new(3, 4).unwrap());
    // Seat 2 leads spades and nobody else follows: the leader takes.
    let taker = TressetteRules::determine_taker(&cards, PlayerId::new(2, 4).unwrap());
    assert_eq!(taker, PlayerId::new(2, 4).unwrap());
}

#[test]
fn playable_follows_the_leading_suit_when_possible() {
    let mut player: Player<TressetteRules> = Player::new(PlayerId::new(0, 4).unwrap());
    let spade_ace = TressetteCard::new(ItalianRank::Ace, Suit::Spades);
    let spade_two = TressetteCard::new(ItalianRank::Two, Suit::Spades);
    let heart_ace = TressetteCard::new(ItalianRank::Ace, Suit::Hearts);
    player.give(spade_ace);
    player.give(spade_two);
    player.give(heart_ace);

    // Leading: the whole hand is playable.
    let playable = TressetteRules::playable(&player, None);
    assert_eq!(playable, vec![spade_ace, spade_two, heart_ace]);

    // Holding the leading suit: exactly those cards, in hand order.
    let playable = TressetteRules::playable(&player, Some(Suit::Spades));
    assert_eq!(playable, vec![spade_ace, spade_two]);

    // Void in the leading suit: the whole hand again.
    let playable = TressetteRules::playable(&player, Some(Suit::Clubs));
    assert_eq!(playable, vec![spade_ace, spade_two, heart_ace]);
}

#[test]
fn play_moves_a_card_from_hand_to_trick() {
    let first = PlayerId::new(1, 4).unwrap();
    let mut player: Player<TressetteRules> = Player::new(first);
    let card = TressetteCard::new(ItalianRank::King, Suit::Diamonds);
    player.give(card);

    let mut trick: OngoingTrick<TressetteRules> = OngoingTrick::new(first);
    TressetteRules::play(&mut player, card, &mut trick);
    assert_eq!(player.hand().len(), 0);
    assert_eq!(trick.cards()[1], Some(card));
    assert_eq!(trick.next_to_play().value(), 2);
}

#[test]
fn card_values_match_the_tressette_table() {
    let ace = TressetteCard::new(ItalianRank::Ace, Suit::Hearts);
    let two = TressetteCard::new(ItalianRank::Two, Suit::Spades);
    let king = TressetteCard::new(ItalianRank::King, Suit::Diamonds);
    let four = TressetteCard::new(ItalianRank::Four, Suit::Clubs);
    // Values are counted in thirds of a point.
    assert_eq!(ace.value(), 3);
    assert_eq!(two.value(), 1);
    assert_eq!(king.value(), 1);
    assert_eq!(four.value(), 0);
}

#[test]
fn the_whole_deck_is_worth_eleven_points_with_the_bonus() {
    let deck = Deck::italian();
    let mut thirds: u32 = 0;
    for i in 0..deck.len() {
        thirds += TressetteCard::from(*deck.get(i)).value() as u32;
    }
    // 10 points and two thirds of card values; the bonus point for the
    // last trick makes every hand worth 11.
    assert_eq!(thirds, 32);
    assert_eq!(thirds / 3 + 1, 11);
}

#[test]
fn rank_strength_follows_the_fixed_order() {
    let order = [
        ItalianRank::Four,
        ItalianRank::Five,
        ItalianRank::Six,
        ItalianRank::Seven,
        ItalianRank::Jack,
        ItalianRank::Knight,
        ItalianRank::King,
        ItalianRank::Ace,
        ItalianRank::Two,
        ItalianRank::Three,
    ];
    for (i, &rank) in order.iter().enumerate() {
        assert_eq!(TressetteCard::new(rank, Suit::Hearts).strength(), i as u8);
    }
}

#[test]
fn a_game_ends_only_with_a_clear_leader_at_the_target() {
    assert!(!TressetteRules::is_completed((0, 0)));
    assert!(!TressetteRules::is_completed((30, 30)));
    assert!(!TressetteRules::is_completed((30, 22)));
    assert!(!TressetteRules::is_completed((31, 31)));
    assert!(!TressetteRules::is_completed((40, 40)));
    assert!(TressetteRules::is_completed((31, 30)));
    assert!(TressetteRules::is_completed((30, 31)));
    assert!(TressetteRules::is_completed((33, 44)));
    assert!(TressetteRules::is_completed((255, 0)));
}

#[test]
fn one_unshuffled_hand_scores_eleven_points() {
    let first_to_play = PlayerId::new(0, 4).unwrap();
    let mut players = [
        Player::<TressetteRules>::new(PlayerId::new(0, 4).unwrap()),
        Player::<TressetteRules>::new(PlayerId::new(1, 4).unwrap()),
        Player::<TressetteRules>::new(PlayerId::new(2, 4).unwrap()),
        Player::<TressetteRules>::new(PlayerId::new(3, 4).unwrap()),
    ];

    let deck = Deck::italian();
    for i in 0..deck.len() {
        players[(i / 5) % 4].give(TressetteCard::from(*deck.get(i)));
    }

    let mut ongoing_hand = OngoingHand::<TressetteRules>::new();
    for trick_id in 0..TressetteRules::tricks() {
        let mut trick = OngoingTrick::<TressetteRules>::new(first_to_play);
        let mut leading_suit = None;
        for turn in 0..TressetteRules::players() {
            let seat = trick.next_to_play().value();
            let playable = TressetteRules::playable(&players[seat], leading_suit);
            let card = playable[0];
            if turn == 0 {
                leading_suit = Some(card.suit());
            }
            TressetteRules::play(&mut players[seat], card, &mut trick);
        }
        ongoing_hand.add(trick.finish().unwrap(), trick_id);
    }

    let hand = ongoing_hand.finish().unwrap();
    let mut score = (3, 7);
    TressetteRules::compute_score(&hand, &mut score);
    // One full deck always distributes exactly 11 points.
    assert_eq!(score.0 as u32 + score.1 as u32, 3 + 7 + 11);
}

#[test]
fn a_tressette_card_reports_what_it_was_built_from() {
    let card = TressetteCard::new(ItalianRank::Knight, Suit::Diamonds);
    assert_eq!(card.rank(), ItalianRank::Knight);
    assert_eq!(card.suit(), Suit::Diamonds);

    let italian = ItalianCard::new(ItalianRank::Seven, Suit::Clubs);
    let card = TressetteCard::from(italian);
    assert_eq!(card.card, italian);
    assert_eq!(card, TressetteCard::new(ItalianRank::Seven, Suit::Clubs));

    assert_eq!(
        TressetteCard::default().card,
        ItalianCard::new(ItalianRank::Ace, Suit::Clubs)
    );
}
