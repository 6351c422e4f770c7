//! The rules of the tressette game: its card type with the game's own
//! rank strength and card values, the taker of a trick, the legal moves
//! of a player, and the scoring of a completed hand.

use crate::cards::{ItalianCard, ItalianRank, Suit};
use crate::hands::{Hand, OngoingTrick, Player, PlayerId, Trick, TrickTakingGame};
use vstd::prelude::*;

verus! {

/// The score a team has to reach to win a game of tressette.
pub const SCORE_TO_WIN: u8 = 31;

/// Representation of a card used in variations of the tressette game.
/// It's just a new type over `ItalianCard`.
#[derive(Debug, Clone, Copy, PartialEq, Eq, Structural, Hash)]
pub struct TressetteCard {
    /// The underlying Italian card.
    pub card: ItalianCard,
}

/// The strength that the tressette rules give each rank when a trick is
/// resolved, lowest to highest: 4, 5, 6, 7, jack, knight, king, ace, 2,
/// 3. This is an explicit total order, not the declaration order of the
/// ranks.
pub open spec fn rank_strength(rank: ItalianRank) -> int {
    match rank {
        ItalianRank::Four => 0,
        ItalianRank::Five => 1,
        ItalianRank::Six => 2,
        ItalianRank::Seven => 3,
        ItalianRank::Jack => 4,
        ItalianRank::Knight => 5,
        ItalianRank::King => 6,
        ItalianRank::Ace => 7,
        ItalianRank::Two => 8,
        ItalianRank::Three => 9,
    }
}

/// The value of a card by the rules of tressette, counted in thirds of a
/// point: an ace is worth a full point, the 2, the 3 and the figures a
/// third each, and the 4, 5, 6 and 7 nothing.
pub open spec fn card_thirds(c: TressetteCard) -> int {
    match c.card.rank {
        ItalianRank::Ace => 3,
        ItalianRank::Two => 1,
        ItalianRank::Three => 1,
        ItalianRank::Jack => 1,
        ItalianRank::Knight => 1,
        ItalianRank::King => 1,
        ItalianRank::Four => 0,
        ItalianRank::Five => 0,
        ItalianRank::Six => 0,
        ItalianRank::Seven => 0,
    }
}

impl TressetteCard {
    /// Generates a new tressette card starting from an Italian rank and
    /// a suit.
    pub fn new(rank: ItalianRank, suit: Suit) -> (c: Self)
        ensures
            c.card == (ItalianCard { rank, suit }),
    {
        TressetteCard { card: ItalianCard::new(rank, suit) }
    }

    /// The rank of the card.
    pub fn rank(&self) -> (r: ItalianRank)
        ensures
            r == self.card.rank,
    {
        self.card.rank
    }

    /// The suit of the card.
    pub fn suit(&self) -> (s: Suit)
        ensures
            s == self.card.suit,
    {
        self.card.suit
    }

    /// Returns the strength of the card under the fixed tressette rank
    /// order; when a trick is resolved, the strongest card of the
    /// leading suit takes it.
    pub fn strength(&self) -> (s: u8)
        ensures
            s as int == rank_strength(self.card.rank),
    {
        match self.card.rank {
            ItalianRank::Four => 0,
            ItalianRank::Five => 1,
            ItalianRank::Six => 2,
            ItalianRank::Seven => 3,
            ItalianRank::Jack => 4,
            ItalianRank::Knight => 5,
            ItalianRank::King => 6,
            ItalianRank::Ace => 7,
            ItalianRank::Two => 8,
            ItalianRank::Three => 9,
        }
    }

    /// Gets the value of the card by the rules of the tressette game,
    /// counted in thirds of a point: 3 for an ace, 1 for the 2, the 3
    /// and the figures, 0 for the rest.
    pub fn value(&self) -> (v: u8)
        ensures
            v as int == card_thirds(*self),
    {
        match self.card.rank {
            ItalianRank::Ace => 3,
            ItalianRank::Two => 1,
            ItalianRank::Three => 1,
            ItalianRank::Jack => 1,
            ItalianRank::Knight => 1,
            ItalianRank::King => 1,
            ItalianRank::Four => 0,
            ItalianRank::Five => 0,
            ItalianRank::Six => 0,
            ItalianRank::Seven => 0,
        }
    }
}

impl crate::cards::Card for TressetteCard {
    fn eq_card(&self, other: &Self) -> (r: bool) {
        *self == *other
    }
}

impl Default for TressetteCard {
    /// The ace of clubs, the default Italian card.
    fn default() -> (c: Self)
        ensures
            c.card == (ItalianCard { rank: ItalianRank::Ace, suit: Suit::Clubs }),
    {
        TressetteCard { card: ItalianCard::default() }
    }
}

impl From<ItalianCard> for TressetteCard {
    fn from(card: ItalianCard) -> (c: Self) {
        TressetteCard { card }
    }
}

impl vstd::std_specs::convert::FromSpecImpl<ItalianCard> for TressetteCard {
    open spec fn obeys_from_spec() -> bool {
        true
    }

    open spec fn from_spec(card: ItalianCard) -> TressetteCard {
        TressetteCard { card }
    }
}

/// Contains the rules of the tressette game.
#[derive(Clone, Debug, Default)]
pub struct TressetteRules {}

/// What it means for seat `taker` to win a trick under the tressette
/// rules: its card follows the suit led by seat `first`, no card of that
/// suit is stronger, and every later card of that suit is strictly
/// weaker, so that among equally strong cards the last one played takes.
pub open spec fn is_trick_taker(cards: Seq<TressetteCard>, first: int, taker: int) -> bool {
    let lead = cards[first].card.suit;
    &&& 0 <= taker < cards.len()
    &&& cards[taker].card.suit == lead
    &&& forall|j: int|
        0 <= j < cards.len() && (#[trigger] cards[j]).card.suit == lead ==> rank_strength(
            cards[j].card.rank,
        ) <= rank_strength(cards[taker].card.rank)
    &&& forall|j: int|
        taker < j < cards.len() && (#[trigger] cards[j]).card.suit == lead ==> rank_strength(
            cards[j].card.rank,
        ) < rank_strength(cards[taker].card.rank)
}

impl TrickTakingGame for TressetteRules {
    type CardType = TressetteCard;

    open spec fn spec_players() -> int {
        4
    }

    open spec fn spec_tricks() -> int {
        10
    }

    proof fn counts_positive() {
    }

    fn players() -> (n: usize) {
        4
    }

    fn tricks() -> (n: usize) {
        10
    }

    /// Contains the logic to determine who won the trick in a standard
    /// tressette game: the winner of the trick is always the seat that
    /// played the strongest card of the same suit as the first card
    /// played that trick. The seat that led always follows its own suit,
    /// so a winner always exists; among equally strong cards of the
    /// leading suit, which a 40-card deck never produces, the last one
    /// played takes the trick.
    fn determine_taker(cards: &Vec<TressetteCard>, first_to_play: PlayerId) -> (taker: PlayerId)
        ensures
            is_trick_taker(cards@, first_to_play.spec_value(), taker.spec_value()),
    {
        let first = first_to_play.value();
        let leading_suit = cards[first].suit();
        let mut best: usize = first;
        let mut best_strength: u8 = cards[first].strength();
        let mut i: usize = 0;
        while i < cards.len()
            invariant
                cards@.len() == 4,
                0 <= first < 4,
                leading_suit == cards@[first as int].card.suit,
                i <= 4,
                best < 4,
                cards@[best as int].card.suit == leading_suit,
                best_strength as int == rank_strength(cards@[best as int].card.rank),
                forall|j: int|
                    0 <= j < i && (#[trigger] cards@[j]).card.suit == leading_suit
                        ==> rank_strength(cards@[j].card.rank) <= best_strength as int,
                forall|j: int|
                    best < j < i && (#[trigger] cards@[j]).card.suit == leading_suit
                        ==> rank_strength(cards@[j].card.rank) < best_strength as int,
            decreases cards@.len() - i,
        {
            let c = &cards[i];
            if c.suit() == leading_suit {
                let s = c.strength();
                if s >= best_strength {
                    best = i;
                    best_strength = s;
                }
            }
            i += 1;
        }
        match PlayerId::new(best, 4) {
            Some(id) => id,
            None => vstd::pervasive::unreached(),
        }
    }
}

/// The cards of `s` whose suit is `suit`, in the order they appear.
pub open spec fn suit_cards(s: Seq<TressetteCard>, suit: Suit) -> Seq<TressetteCard>
    decreases s.len(),
{
    if s.len() == 0 {
        Seq::empty()
    } else if s.last().card.suit == suit {
        suit_cards(s.drop_last(), suit).push(s.last())
    } else {
        suit_cards(s.drop_last(), suit)
    }
}

/// Whether `s` holds at least one card of suit `suit`.
pub open spec fn has_suit(s: Seq<TressetteCard>, suit: Suit) -> bool {
    exists|i: int| 0 <= i < s.len() && (#[trigger] s[i]).card.suit == suit
}

/// Law: the same-suit selection is a subset of the cards it was taken
/// from, and every card of it is of the asked suit.
pub proof fn lemma_suit_cards_subset(s: Seq<TressetteCard>, suit: Suit)
    ensures
        suit_cards(s, suit).len() <= s.len(),
        forall|i: int|
            0 <= i < suit_cards(s, suit).len() ==> s.contains(#[trigger] suit_cards(s, suit)[i])
                && suit_cards(s, suit)[i].card.suit == suit,
    decreases s.len(),
{
    if s.len() > 0 {
        lemma_suit_cards_subset(s.drop_last(), suit);
        assert forall|i: int| 0 <= i < s.drop_last().len() implies s.contains(
            s.drop_last()[i],
        ) by {
            assert(s[i] == s.drop_last()[i]);
        }
        assert(s.contains(s.last())) by {
            assert(s[s.len() - 1] == s.last());
        }
    }
}

impl TressetteRules {
    /// Determines if a team won the game. A team wins the game when its
    /// score is at least the winning score and is higher than the score
    /// of the other team; a tie ends nothing.
    pub fn is_completed(score: (u8, u8)) -> (r: bool)
        ensures
            r == game_completed(score.0 as int, score.1 as int),
    {
        (score.0 >= SCORE_TO_WIN && score.0 > score.1) || (score.1 >= SCORE_TO_WIN && score.1
            > score.0)
    }

    /// Returns a view of the playable cards held by a player, based on
    /// the suit of the card that led the trick and by the rules of
    /// tressette: a player that holds cards of the leading suit must
    /// follow it and may play exactly those; a player void in that suit,
    /// or leading the trick (no leading suit yet), may play the entire
    /// hand. The returned cards follow hand order.
    pub fn playable(player: &Player<TressetteRules>, leading_suit: Option<Suit>) -> (v: Vec<
        TressetteCard,
    >)
        ensures
            match leading_suit {
                Option::None => v@ == player.spec_hand(),
                Option::Some(suit) => v@ == if has_suit(player.spec_hand(), suit) {
                    suit_cards(player.spec_hand(), suit)
                } else {
                    player.spec_hand()
                },
            },
    {
        let hand = player.hand();
        if let Some(suit) = leading_suit {
            let mut found = false;
            let mut matching: Vec<TressetteCard> = Vec::new();
            let mut i: usize = 0;
            proof {
                assert(hand@.take(0) =~= Seq::<TressetteCard>::empty());
            }
            while i < hand.len()
                invariant
                    i <= hand@.len(),
                    matching@ == suit_cards(hand@.take(i as int), suit),
                    found <==> has_suit(hand@.take(i as int), suit),
                decreases hand@.len() - i,
            {
                let c = hand[i];
                proof {
                    let taken = hand@.take(i + 1);
                    assert(taken.drop_last() =~= hand@.take(i as int));
                    assert(taken.last() == hand@[i as int]);
                    // A card of the asked suit at position i settles
                    // has_suit for the longer prefix; without one, any
                    // witness for the longer prefix already stood in the
                    // shorter.
                    if hand@[i as int].card.suit == suit {
                        assert(taken[i as int].card.suit == suit);
                    } else {
                        assert forall|j: int|
                            0 <= j < taken.len() && (#[trigger] taken[j]).card.suit
                                == suit implies has_suit(hand@.take(i as int), suit) by {
                            assert(hand@.take(i as int)[j] == taken[j]);
                        }
                    }
                }
                if c.suit() == suit {
                    matching.push(c);
                    found = true;
                }
                i += 1;
            }
            proof {
                assert(hand@.take(hand@.len() as int) =~= hand@);
            }
            if found {
                return matching;
            }
        }
        let mut all: Vec<TressetteCard> = Vec::new();
        let mut i: usize = 0;
        while i < hand.len()
            invariant
                i <= hand@.len(),
                all@ == hand@.take(i as int),
            decreases hand@.len() - i,
        {
            all.push(hand[i]);
            proof {
                assert(hand@.take(i + 1) =~= hand@.take(i as int).push(hand@[i as int]));
            }
            i += 1;
        }
        proof {
            assert(hand@.take(hand@.len() as int) =~= hand@);
        }
        all
    }

    /// Plays the specified card for the player: the card leaves the
    /// player's hand and is recorded in the ongoing trick at the seat
    /// whose turn it is. Whether the card is a legal move is the
    /// caller's responsibility.
    pub fn play(
        player: &mut Player<TressetteRules>,
        card: TressetteCard,
        ongoing_trick: &mut OngoingTrick<TressetteRules>,
    )
        requires
            old(ongoing_trick).wf(),
            old(ongoing_trick).spec_play_count() < 4,
        ensures
            final(player).spec_hand() == crate::hands::seq_without(old(player).spec_hand(), card),
            final(player).spec_id() == old(player).spec_id(),
            final(ongoing_trick).wf(),
            final(ongoing_trick).spec_cards() == old(ongoing_trick).spec_cards().update(
                old(ongoing_trick).spec_next_to_play().spec_value(),
                Some(card),
            ),
            final(ongoing_trick).spec_first_to_play() == old(ongoing_trick).spec_first_to_play(),
            final(ongoing_trick).spec_play_count() == old(ongoing_trick).spec_play_count() + 1,
    {
        player.remove(card);
        ongoing_trick.play(card);
    }
}

/// The value of a sequence of cards, counted in thirds of a point.
pub open spec fn cards_thirds(s: Seq<TressetteCard>) -> int
    decreases s.len(),
{
    if s.len() == 0 {
        0
    } else {
        cards_thirds(s.drop_last()) + card_thirds(s.last())
    }
}

/// The value of the cards of one trick, counted in thirds of a point.
pub open spec fn trick_thirds(t: Trick<TressetteRules>) -> int {
    cards_thirds(t.spec_cards())
}

/// The team a seat belongs to: seats 0 and 2 against seats 1 and 3.
pub open spec fn team_of(seat: int) -> int {
    if seat % 2 == 0 {
        0
    } else {
        1
    }
}

/// The thirds of a point that `team` collected over the given tricks:
/// the value of every trick whose taker sits on that team.
pub open spec fn team_thirds(tricks: Seq<Trick<TressetteRules>>, team: int) -> int
    decreases tricks.len(),
{
    if tricks.len() == 0 {
        0
    } else {
        team_thirds(tricks.drop_last(), team) + if team_of(
            tricks.last().spec_taker().spec_value(),
        ) == team {
            trick_thirds(tricks.last())
        } else {
            0
        }
    }
}

/// The thirds of a point carried by all the cards of the given tricks.
pub open spec fn total_thirds(tricks: Seq<Trick<TressetteRules>>) -> int
    decreases tricks.len(),
{
    if tricks.len() == 0 {
        0
    } else {
        total_thirds(tricks.drop_last()) + trick_thirds(tricks.last())
    }
}

/// The points a completed hand adds to the running score of `team`: its
/// collected thirds truncated to whole points, plus the bonus point if
/// the last trick of the hand fell to that team.
pub open spec fn hand_score_delta(tricks: Seq<Trick<TressetteRules>>, team: int) -> int
    recommends
        tricks.len() > 0,
{
    team_thirds(tricks, team) / 3 + if team_of(tricks.last().spec_taker().spec_value()) == team {
        1int
    } else {
        0int
    }
}

/// The value of a sequence of cards lies between nothing and a full
/// point per card.
proof fn lemma_cards_thirds_bounds(s: Seq<TressetteCard>)
    ensures
        0 <= cards_thirds(s) <= 3 * s.len(),
    decreases s.len(),
{
    if s.len() > 0 {
        lemma_cards_thirds_bounds(s.drop_last());
    }
}

/// Law: every trick falls to exactly one of the two teams, so the thirds
/// of the two teams split the thirds of all the cards between them.
pub proof fn lemma_team_thirds_partition(tricks: Seq<Trick<TressetteRules>>)
    ensures
        team_thirds(tricks, 0) + team_thirds(tricks, 1) == total_thirds(tricks),
    decreases tricks.len(),
{
    if tricks.len() > 0 {
        lemma_team_thirds_partition(tricks.drop_last());
    }
}

/// A team never collects a negative number of thirds.
proof fn lemma_team_thirds_nonneg(tricks: Seq<Trick<TressetteRules>>, team: int)
    ensures
        team_thirds(tricks, team) >= 0,
    decreases tricks.len(),
{
    if tricks.len() > 0 {
        lemma_team_thirds_nonneg(tricks.drop_last(), team);
        lemma_cards_thirds_bounds(tricks.last().spec_cards());
    }
}

/// Law: a completed hand whose cards carry the full deck's 32 thirds
/// adds exactly 11 points to the two running scores together: the two
/// truncations always lose exactly two thirds, and the bonus point for
/// the last trick makes the total 11. The sum of the two scores after
/// any number of such hands is therefore a multiple of 11.
pub proof fn lemma_hand_adds_eleven(tricks: Seq<Trick<TressetteRules>>)
    requires
        tricks.len() > 0,
        total_thirds(tricks) == 32,
    ensures
        hand_score_delta(tricks, 0) + hand_score_delta(tricks, 1) == 11,
{
    lemma_team_thirds_partition(tricks);
    lemma_team_thirds_nonneg(tricks, 0);
    lemma_team_thirds_nonneg(tricks, 1);
    let a = team_thirds(tricks, 0);
    let b = team_thirds(tricks, 1);
    vstd::arithmetic::div_mod::lemma_fundamental_div_mod(a, 3);
    vstd::arithmetic::div_mod::lemma_fundamental_div_mod(b, 3);
    vstd::arithmetic::div_mod::lemma_mod_bound(a, 3);
    vstd::arithmetic::div_mod::lemma_mod_bound(b, 3);
    assert(3 * (a / 3) + 3 * (b / 3) == 32 - a % 3 - b % 3);
    assert(a / 3 + b / 3 == 10) by (nonlinear_arith)
        requires
            3 * (a / 3) + 3 * (b / 3) == 32 - a % 3 - b % 3,
            0 <= a % 3 < 3,
            0 <= b % 3 < 3,
    ;
}

/// The thirds carried by the first `k` cards of a freshly built Italian
/// deck, each turned into a tressette card.
pub open spec fn deck_prefix_thirds(k: int) -> int
    decreases k,
{
    if k <= 0 {
        0
    } else {
        deck_prefix_thirds(k - 1) + card_thirds(
            TressetteCard { card: crate::cards::italian_deck_card(k - 1) },
        )
    }
}

/// Law: the forty cards of a standard Italian deck are worth 32 thirds
/// in all: 10 points and two thirds of card values, which the bonus
/// point for the last trick rounds up to the 11 points that one hand
/// distributes.
pub proof fn lemma_full_deck_thirds(s: Seq<TressetteCard>)
    requires
        s.len() == 40,
        forall|k: int| 0 <= k < 40 ==> (#[trigger] s[k]).card == crate::cards::italian_deck_card(k),
    ensures
        cards_thirds(s) == 32,
{
    lemma_deck_prefix_thirds(s, 40);
    assert(s.take(40) =~= s);
    assert(deck_prefix_thirds(40) == 32) by {
        reveal_with_fuel(deck_prefix_thirds, 41);
    }
}

/// A prefix of deck-ordered cards is worth what the deck prefix counts.
proof fn lemma_deck_prefix_thirds(s: Seq<TressetteCard>, k: int)
    requires
        0 <= k <= s.len(),
        forall|j: int| 0 <= j < k ==> (#[trigger] s[j]).card == crate::cards::italian_deck_card(j),
    ensures
        cards_thirds(s.take(k)) == deck_prefix_thirds(k),
    decreases k,
{
    if k == 0 {
        assert(s.take(0) =~= Seq::<TressetteCard>::empty());
    } else {
        lemma_deck_prefix_thirds(s, k - 1);
        assert(s.take(k).drop_last() =~= s.take(k - 1));
        assert(s.take(k).last() == s[k - 1]);
    }
}

impl TressetteRules {
    /// Computes the score for a hand of the tressette game and adds it
    /// to the running score of the two teams: each team gains the whole
    /// points of the thirds its tricks collected, and the team that took
    /// the last trick gains one bonus point.
    pub fn compute_score(hand: &Hand<TressetteRules>, score: &mut (u8, u8))
        requires
            hand.wf(),
            old(score).0 + hand_score_delta(hand.spec_tricks(), 0) <= u8::MAX,
            old(score).1 + hand_score_delta(hand.spec_tricks(), 1) <= u8::MAX,
        ensures
            final(score).0 == old(score).0 + hand_score_delta(hand.spec_tricks(), 0),
            final(score).1 == old(score).1 + hand_score_delta(hand.spec_tricks(), 1),
    {
        let tricks = hand.tricks();
        let mut thirds0: u32 = 0;
        let mut thirds1: u32 = 0;
        let mut last_taker: usize = 0;
        let mut i: usize = 0;
        while i < tricks.len()
            invariant
                hand.wf(),
                tricks@ == hand.spec_tricks(),
                i <= 10,
                tricks@.len() == 10,
                thirds0 as int == team_thirds(tricks@.take(i as int), 0),
                thirds1 as int == team_thirds(tricks@.take(i as int), 1),
                thirds0 <= 12 * i,
                thirds1 <= 12 * i,
                i > 0 ==> last_taker as int == tricks@[i - 1].spec_taker().spec_value(),
            decreases 10 - i,
        {
            let trick = &tricks[i];
            let taker = trick.taker().value();
            let cards = trick.cards();
            let mut trick_value: u8 = 0;
            let mut j: usize = 0;
            proof {
                assert(cards@.take(0) =~= Seq::<TressetteCard>::empty());
            }
            while j < cards.len()
                invariant
                    cards@.len() == 4,
                    j <= 4,
                    trick_value as int == cards_thirds(cards@.take(j as int)),
                    trick_value <= 3 * j,
                decreases cards@.len() - j,
            {
                let v = cards[j].value();
                proof {
                    assert(cards@.take(j + 1).drop_last() =~= cards@.take(j as int));
                    assert(cards@.take(j + 1).last() == cards@[j as int]);
                }
                trick_value = trick_value + v;
                j += 1;
            }
            proof {
                assert(cards@.take(4) =~= cards@);
                assert(tricks@.take(i + 1).drop_last() =~= tricks@.take(i as int));
                assert(tricks@.take(i + 1).last() == tricks@[i as int]);
            }
            if taker % 2 == 0 {
                thirds0 = thirds0 + trick_value as u32;
            } else {
                thirds1 = thirds1 + trick_value as u32;
            }
            last_taker = taker;
            i += 1;
        }
        proof {
            assert(tricks@.take(10) =~= tricks@);
        }
        let points0 = (thirds0 / 3) as u8;
        let points1 = (thirds1 / 3) as u8;
        let mut new0 = score.0 + points0;
        let mut new1 = score.1 + points1;
        if last_taker % 2 == 0 {
            new0 = new0 + 1;
        } else {
            new1 = new1 + 1;
        }
        *score = (new0, new1);
    }
}

/// Whether a pair of team scores ends the game: one team has reached the
/// winning score and strictly leads the other.
pub open spec fn game_completed(score0: int, score1: int) -> bool {
    ||| score0 >= SCORE_TO_WIN && score0 > score1
    ||| score1 >= SCORE_TO_WIN && score1 > score0
}

/// Law: when the game is over the two team scores are never equal: the
/// winning team strictly exceeds the other.
pub proof fn lemma_completed_scores_differ(score0: int, score1: int)
    requires
        game_completed(score0, score1),
    ensures
        score0 != score1,
{
}

} // verus!
