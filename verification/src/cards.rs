//! Card and deck primitives shared by all games: ranks, suits, the card
//! types of the Italian and French deck families, and a deck that cards
//! can be drawn from, added to and shuffled.

use vstd::pervasive::VecAdditionalExecFns;
use vstd::prelude::*;
use vstd::seq_lib::group_to_multiset_ensures;

verus! {

/// Relies on rand: `thread_rng().gen_range(low..high)` returns a value
/// drawn from the non-empty range `low..high`, so the result is at least
/// `low` and below `high`. The empty range, on which it panics, is kept
/// out by the precondition.
#[verifier::external_body]
fn random_index(low: usize, high: usize) -> (r: usize)
    requires
        low < high,
    ensures
        low <= r < high,
{
    rand::Rng::gen_range(&mut rand::thread_rng(), low..high)
}

/// Swapping two positions of a sequence leaves the multiset of its
/// elements unchanged.
proof fn lemma_swap_keeps_multiset<T>(s: Seq<T>, i: int, j: int)
    requires
        0 <= i < s.len(),
        0 <= j < s.len(),
    ensures
        s.update(i, s[j]).update(j, s[i]).to_multiset() == s.to_multiset(),
{
    broadcast use group_to_multiset_ensures;

    if i == j {
        assert(s.update(i, s[j]).update(j, s[i]) =~= s);
    } else {
        let s1 = s.update(i, s[j]);
        assert(s1[j] == s[j]);
        assert(s1.update(j, s[i]).to_multiset() =~= s.to_multiset());
    }
}

/// A card of some deck family. A game works with one concrete card type;
/// the one operation every card type must offer is a value-equality test
/// that verified generic code can rely on.
pub trait Card: Sized + Copy {
    /// Returns whether the two cards are equal by value.
    fn eq_card(&self, other: &Self) -> (r: bool)
        ensures
            r <==> *self == *other,
    ;
}

/// The rank of a card in an Italian-style deck: ace to seven, then jack,
/// knight and king. Most games give each rank its own value and strength.
#[derive(Debug, Clone, Copy, PartialEq, Eq, Structural, Hash)]
pub enum ItalianRank {
    /// 1
    Ace,
    /// 2
    Two,
    /// 3
    Three,
    /// 4
    Four,
    /// 5
    Five,
    /// 6
    Six,
    /// 7
    Seven,
    /// 8
    Jack,
    /// 9
    Knight,
    /// 10
    King,
}

/// The rank of a card in a French-style deck: ace to ten, then jack,
/// queen and king.
#[derive(Debug, Clone, Copy, PartialEq, Eq, Structural, Hash)]
pub enum FrenchRank {
    /// 1
    Ace,
    /// 2
    Two,
    /// 3
    Three,
    /// 4
    Four,
    /// 5
    Five,
    /// 6
    Six,
    /// 7
    Seven,
    /// 8
    Eight,
    /// 9
    Nine,
    /// 10
    Ten,
    /// 11
    Jack,
    /// 12
    Queen,
    /// 13
    King,
}

/// The 4 suits of a standard deck. They have an equivalent in pretty much
/// all regional decks; in some games they have a hierarchical order.
#[derive(Debug, Clone, Copy, PartialEq, Eq, Structural, Hash)]
pub enum Suit {
    /// Hearts (French, German), Cups (Latin).
    Hearts,
    /// Diamonds or Tiles (French), Bells (German), Coins (Latin).
    Diamonds,
    /// Clubs or Clover (French), Acorns (German), Clubs or Batons (Latin).
    Clubs,
    /// Spades or Pikes (French), Leaves (German), Swords (Latin).
    Spades,
}

/// A card of an Italian-style deck: an immutable (rank, suit) pair.
#[derive(Debug, Clone, Copy, PartialEq, Eq, Structural, Hash)]
pub struct ItalianCard {
    /// The rank of the card.
    pub rank: ItalianRank,
    /// The suit of the card.
    pub suit: Suit,
}

impl ItalianCard {
    /// Generates a card with the given rank and suit.
    pub fn new(rank: ItalianRank, suit: Suit) -> (c: Self)
        ensures
            c == (ItalianCard { rank, suit }),
    {
        Self { rank, suit }
    }

    /// The rank of the card.
    pub fn rank(&self) -> (r: ItalianRank)
        ensures
            r == self.rank,
    {
        self.rank
    }

    /// The suit of the card.
    pub fn suit(&self) -> (s: Suit)
        ensures
            s == self.suit,
    {
        self.suit
    }
}

impl Card for ItalianCard {
    fn eq_card(&self, other: &Self) -> (r: bool) {
        *self == *other
    }
}

impl Default for ItalianCard {
    /// The ace of clubs.
    fn default() -> (c: Self)
        ensures
            c == (ItalianCard { rank: ItalianRank::Ace, suit: Suit::Clubs }),
    {
        ItalianCard { rank: ItalianRank::Ace, suit: Suit::Clubs }
    }
}

/// A card of a French-style deck: an immutable (rank, suit) pair.
#[derive(Debug, Clone, Copy, PartialEq, Eq, Structural, Hash)]
pub struct FrenchCard {
    /// The rank of the card.
    pub rank: FrenchRank,
    /// The suit of the card.
    pub suit: Suit,
}

impl FrenchCard {
    /// Generates a card with the given rank and suit.
    pub fn new(rank: FrenchRank, suit: Suit) -> (c: Self)
        ensures
            c == (FrenchCard { rank, suit }),
    {
        Self { rank, suit }
    }

    /// The rank of the card.
    pub fn rank(&self) -> (r: FrenchRank)
        ensures
            r == self.rank,
    {
        self.rank
    }

    /// The suit of the card.
    pub fn suit(&self) -> (s: Suit)
        ensures
            s == self.suit,
    {
        self.suit
    }
}

impl Card for FrenchCard {
    fn eq_card(&self, other: &Self) -> (r: bool) {
        *self == *other
    }
}

impl Default for FrenchCard {
    /// The ace of hearts.
    fn default() -> (c: Self)
        ensures
            c == (FrenchCard { rank: FrenchRank::Ace, suit: Suit::Hearts }),
    {
        FrenchCard { rank: FrenchRank::Ace, suit: Suit::Hearts }
    }
}

/// A Joker card, present in some card games. Its function depends on the
/// game.
#[derive(Debug, Default, Clone, Copy, PartialEq, Eq, Structural, Hash)]
pub struct Joker;

impl Card for Joker {
    fn eq_card(&self, other: &Self) -> (r: bool) {
        true
    }
}

/// A variant of the French card, which can either be an actual French
/// card or a joker.
#[derive(Debug, Clone, Copy, PartialEq, Eq, Structural, Hash)]
pub enum FrenchWithJoker {
    /// A standard French card.
    Normal(FrenchCard),
    /// A Joker card.
    Joker(Joker),
}

impl Card for FrenchWithJoker {
    fn eq_card(&self, other: &Self) -> (r: bool) {
        match (self, other) {
            (FrenchWithJoker::Normal(a), FrenchWithJoker::Normal(b)) => *a == *b,
            (FrenchWithJoker::Joker(_), FrenchWithJoker::Joker(_)) => true,
            _ => false,
        }
    }
}

impl Default for FrenchWithJoker {
    /// A normal card, the ace of hearts.
    fn default() -> (c: Self)
        ensures
            c == FrenchWithJoker::Normal(
                FrenchCard { rank: FrenchRank::Ace, suit: Suit::Hearts },
            ),
    {
        FrenchWithJoker::Normal(FrenchCard { rank: FrenchRank::Ace, suit: Suit::Hearts })
    }
}

/// The suit that stands at position `k` when the four suits are listed
/// in their fixed order: hearts, diamonds, clubs, spades.
pub open spec fn suit_at(k: int) -> Suit {
    if k == 0 {
        Suit::Hearts
    } else if k == 1 {
        Suit::Diamonds
    } else if k == 2 {
        Suit::Clubs
    } else {
        Suit::Spades
    }
}

/// The Italian rank that stands at position `k` when the ten ranks are
/// listed in their fixed order, ace first.
pub open spec fn italian_rank_at(k: int) -> ItalianRank {
    if k == 0 {
        ItalianRank::Ace
    } else if k == 1 {
        ItalianRank::Two
    } else if k == 2 {
        ItalianRank::Three
    } else if k == 3 {
        ItalianRank::Four
    } else if k == 4 {
        ItalianRank::Five
    } else if k == 5 {
        ItalianRank::Six
    } else if k == 6 {
        ItalianRank::Seven
    } else if k == 7 {
        ItalianRank::Jack
    } else if k == 8 {
        ItalianRank::Knight
    } else {
        ItalianRank::King
    }
}

/// The French rank that stands at position `k` when the thirteen ranks
/// are listed in their fixed order, ace first.
pub open spec fn french_rank_at(k: int) -> FrenchRank {
    if k == 0 {
        FrenchRank::Ace
    } else if k == 1 {
        FrenchRank::Two
    } else if k == 2 {
        FrenchRank::Three
    } else if k == 3 {
        FrenchRank::Four
    } else if k == 4 {
        FrenchRank::Five
    } else if k == 5 {
        FrenchRank::Six
    } else if k == 6 {
        FrenchRank::Seven
    } else if k == 7 {
        FrenchRank::Eight
    } else if k == 8 {
        FrenchRank::Nine
    } else if k == 9 {
        FrenchRank::Ten
    } else if k == 10 {
        FrenchRank::Jack
    } else if k == 11 {
        FrenchRank::Queen
    } else {
        FrenchRank::King
    }
}

/// The card that a freshly built Italian deck holds at position `k`:
/// the deck lists the four suits in order, ten ranks within each suit.
pub open spec fn italian_deck_card(k: int) -> ItalianCard {
    ItalianCard { rank: italian_rank_at(k % 10), suit: suit_at(k / 10) }
}

/// The card that a freshly built French deck holds at position `k`:
/// the deck lists the four suits in order, thirteen ranks within each suit.
pub open spec fn french_deck_card(k: int) -> FrenchCard {
    FrenchCard { rank: french_rank_at(k % 13), suit: suit_at(k / 13) }
}

/// Returns the suit at position `k` of the fixed suit order.
pub fn suit_of_index(k: usize) -> (s: Suit)
    requires
        k < 4,
    ensures
        s == suit_at(k as int),
{
    if k == 0 {
        Suit::Hearts
    } else if k == 1 {
        Suit::Diamonds
    } else if k == 2 {
        Suit::Clubs
    } else {
        Suit::Spades
    }
}

/// Returns the Italian rank at position `k` of the fixed rank order.
pub fn italian_rank_of_index(k: usize) -> (r: ItalianRank)
    requires
        k < 10,
    ensures
        r == italian_rank_at(k as int),
{
    if k == 0 {
        ItalianRank::Ace
    } else if k == 1 {
        ItalianRank::Two
    } else if k == 2 {
        ItalianRank::Three
    } else if k == 3 {
        ItalianRank::Four
    } else if k == 4 {
        ItalianRank::Five
    } else if k == 5 {
        ItalianRank::Six
    } else if k == 6 {
        ItalianRank::Seven
    } else if k == 7 {
        ItalianRank::Jack
    } else if k == 8 {
        ItalianRank::Knight
    } else {
        ItalianRank::King
    }
}

/// Returns the French rank at position `k` of the fixed rank order.
pub fn french_rank_of_index(k: usize) -> (r: FrenchRank)
    requires
        k < 13,
    ensures
        r == french_rank_at(k as int),
{
    if k == 0 {
        FrenchRank::Ace
    } else if k == 1 {
        FrenchRank::Two
    } else if k == 2 {
        FrenchRank::Three
    } else if k == 3 {
        FrenchRank::Four
    } else if k == 4 {
        FrenchRank::Five
    } else if k == 5 {
        FrenchRank::Six
    } else if k == 6 {
        FrenchRank::Seven
    } else if k == 7 {
        FrenchRank::Eight
    } else if k == 8 {
        FrenchRank::Nine
    } else if k == 9 {
        FrenchRank::Ten
    } else if k == 10 {
        FrenchRank::Jack
    } else if k == 11 {
        FrenchRank::Queen
    } else {
        FrenchRank::King
    }
}

/// Represents a deck of cards. Cards can be added or removed at will;
/// its view is the sequence of cards it holds, bottom first, so that the
/// card drawn next is the last of the sequence.
pub struct Deck<T: Card> {
    cards: Vec<T>,
}

impl<T: Card> View for Deck<T> {
    type V = Seq<T>;

    closed spec fn view(&self) -> Seq<T> {
        self.cards@
    }
}

impl<T: Card> Deck<T> {
    /// Adds a card to the top of the deck.
    pub fn push(&mut self, card: T)
        ensures
            final(self)@ == old(self)@.push(card),
    {
        self.cards.push(card);
    }

    /// Draws the top-most card in the deck. It returns None if there are
    /// no cards left.
    pub fn draw(&mut self) -> (c: Option<T>)
        ensures
            old(self)@.len() == 0 ==> c.is_none() && final(self)@ == old(self)@,
            old(self)@.len() > 0 ==> c == Some(old(self)@.last()) && final(self)@ == old(
                self,
            )@.drop_last(),
    {
        self.cards.pop()
    }

    /// Creates a new empty deck.
    pub fn new() -> (d: Deck<T>)
        ensures
            d@ == Seq::<T>::empty(),
    {
        Deck { cards: Vec::new() }
    }

    /// Creates a new empty deck with specified capacity.
    pub fn with_capacity(capacity: usize) -> (d: Deck<T>)
        ensures
            d@ == Seq::<T>::empty(),
    {
        Deck { cards: Vec::with_capacity(capacity) }
    }

    /// Creates a new deck from a given vec of cards.
    pub fn from_vec(cards: Vec<T>) -> (d: Deck<T>)
        ensures
            d@ == cards@,
    {
        Deck { cards }
    }

    /// Returns the number of cards left in the deck.
    pub fn len(&self) -> (n: usize)
        ensures
            n == self@.len(),
    {
        self.cards.len()
    }

    /// Returns whether or not the deck is empty.
    pub fn is_empty(&self) -> (r: bool)
        ensures
            r <==> self@.len() == 0,
    {
        self.cards.is_empty()
    }

    /// Performs a random permutation on the deck with the Fisher-Yates
    /// shuffle algorithm, repeated 10 times. The deck keeps exactly the
    /// cards it had, in some new order.
    pub fn shuffle(&mut self)
        requires
            old(self)@.len() >= 2,
        ensures
            final(self)@.len() == old(self)@.len(),
            final(self)@.to_multiset() == old(self)@.to_multiset(),
    {
        let max = self.cards.len();
        let mut round: usize = 0;
        while round < 10
            invariant
                self.cards@.len() == old(self)@.len(),
                self.cards@.to_multiset() == old(self)@.to_multiset(),
                max == old(self)@.len(),
                2 <= max,
            decreases 10 - round,
        {
            let mut i: usize = 0;
            while i < max - 2
                invariant
                    self.cards@.len() == old(self)@.len(),
                    self.cards@.to_multiset() == old(self)@.to_multiset(),
                    max == old(self)@.len(),
                    2 <= max,
                decreases max - 2 - i,
            {
                let j = random_index(i, max);
                let ghost before = self.cards@;
                let a = self.cards[i];
                let b = self.cards[j];
                self.cards.set(i, b);
                self.cards.set(j, a);
                proof {
                    lemma_swap_keeps_multiset(before, i as int, j as int);
                }
                i += 1;
            }
            round += 1;
        }
    }

    /// Adds a card in a random position inside the deck, below the top
    /// card and above the bottom one.
    pub fn shuffle_card(&mut self, card: T)
        requires
            old(self)@.len() >= 2,
        ensures
            final(self)@.len() == old(self)@.len() + 1,
            exists|p: int|
                1 <= p < old(self)@.len() && final(self)@ == old(self)@.insert(p, card),
    {
        let max = self.cards.len();
        let position = random_index(1, max);
        self.cards.insert(position, card);
    }

    /// Returns the card at position `i`, counting from the bottom of the
    /// deck.
    pub fn get(&self, i: usize) -> (c: &T)
        requires
            i < self@.len(),
        ensures
            *c == self@[i as int],
    {
        &self.cards[i]
    }
}

impl<T: Card> Default for Deck<T> {
    /// An empty deck.
    fn default() -> (d: Self)
        ensures
            d@ == Seq::<T>::empty(),
    {
        Deck::new()
    }
}

impl Deck<ItalianCard> {
    /// Creates a new deck in the Italian format: 40 cards, the four
    /// suits in order with the ten ranks of each.
    pub fn italian() -> (d: Deck<ItalianCard>)
        ensures
            d@.len() == 40,
            forall|k: int| 0 <= k < 40 ==> d@[k] == italian_deck_card(k),
    {
        let mut cards: Vec<ItalianCard> = Vec::with_capacity(40);
        let mut k: usize = 0;
        while k < 40
            invariant
                k <= 40,
                cards@.len() == k,
                forall|j: int| 0 <= j < k ==> cards@[j] == italian_deck_card(j),
            decreases 40 - k,
        {
            let suit = suit_of_index(k / 10);
            let rank = italian_rank_of_index(k % 10);
            cards.push(ItalianCard { rank, suit });
            k += 1;
        }
        Deck { cards }
    }
}

impl Deck<FrenchCard> {
    /// Creates a new 52 cards French deck: the four suits in order with
    /// the thirteen ranks of each.
    pub fn french() -> (d: Deck<FrenchCard>)
        ensures
            d@.len() == 52,
            forall|k: int| 0 <= k < 52 ==> d@[k] == french_deck_card(k),
    {
        let mut cards: Vec<FrenchCard> = Vec::with_capacity(52);
        let mut k: usize = 0;
        while k < 52
            invariant
                k <= 52,
                cards@.len() == k,
                forall|j: int| 0 <= j < k ==> cards@[j] == french_deck_card(j),
            decreases 52 - k,
        {
            let suit = suit_of_index(k / 13);
            let rank = french_rank_of_index(k % 13);
            cards.push(FrenchCard { rank, suit });
            k += 1;
        }
        Deck { cards }
    }
}

impl Deck<FrenchWithJoker> {
    /// Creates a new 52 cards French deck, with the addition of the
    /// specified amount of jokers on top.
    pub fn french_with_jokers(jokers: u8) -> (d: Deck<FrenchWithJoker>)
        ensures
            d@.len() == 52 + jokers,
            forall|k: int|
                0 <= k < 52 ==> d@[k] == FrenchWithJoker::Normal(french_deck_card(k)),
            forall|k: int| 52 <= k < d@.len() ==> d@[k] == FrenchWithJoker::Joker(Joker),
    {
        let mut cards: Vec<FrenchWithJoker> = Vec::with_capacity(52 + jokers as usize);
        let mut k: usize = 0;
        while k < 52
            invariant
                k <= 52,
                cards@.len() == k,
                forall|j: int|
                    0 <= j < k ==> cards@[j] == FrenchWithJoker::Normal(french_deck_card(j)),
            decreases 52 - k,
        {
            let suit = suit_of_index(k / 13);
            let rank = french_rank_of_index(k % 13);
            cards.push(FrenchWithJoker::Normal(FrenchCard { rank, suit }));
            k += 1;
        }
        let mut j: usize = 0;
        while j < jokers as usize
            invariant
                j <= jokers,
                cards@.len() == 52 + j,
                forall|i: int|
                    0 <= i < 52 ==> cards@[i] == FrenchWithJoker::Normal(french_deck_card(i)),
                forall|i: int| 52 <= i < 52 + j ==> cards@[i] == FrenchWithJoker::Joker(Joker),
            decreases jokers - j,
        {
            cards.push(FrenchWithJoker::Joker(Joker));
            j += 1;
        }
        Deck { cards }
    }
}

} // verus!
