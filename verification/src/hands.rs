//! The machinery shared by all trick-taking games: seat indices that
//! advance in circular turn order, players and the cards they hold, and
//! the state machines that record a trick and a hand of tricks.

use crate::cards::Card;
use vstd::arithmetic::div_mod::{
    lemma_mod_add_multiples_vanish, lemma_mod_bound, lemma_mod_self_0, lemma_small_mod,
};
use vstd::prelude::*;

verus! {

/// Many of the types contained in this module are generic over certain
/// constants related to the game. This trait is the summary of these
/// constraints: the card type, the number of seats, the number of tricks
/// of a hand, and the game's way of picking the winner of a full trick.
pub trait TrickTakingGame: Sized {
    /// The type of card that's going to be used in this game.
    type CardType: Card;

    /// The number of players that the rules of the game seat at the
    /// table.
    spec fn spec_players() -> int;

    /// The number of tricks that complete one hand of the game.
    spec fn spec_tricks() -> int;

    /// Both counts are positive: a game deals at least one seat and one
    /// trick.
    proof fn counts_positive()
        ensures
            Self::spec_players() >= 1,
            Self::spec_tricks() >= 1,
    ;

    /// Returns the number of players of the game.
    fn players() -> (n: usize)
        ensures
            n as int == Self::spec_players(),
    ;

    /// Returns the number of tricks that complete a hand.
    fn tricks() -> (n: usize)
        ensures
            n as int == Self::spec_tricks(),
    ;

    /// Picks the winner of a trick from the full array of played cards
    /// and the seat that led it. Every game must return a valid seat,
    /// whatever cards it is shown; what more the result promises is the
    /// concrete game's own affair.
    fn determine_taker(cards: &Vec<Self::CardType>, first_to_play: PlayerId) -> (taker: PlayerId)
        requires
            cards@.len() == Self::spec_players(),
            first_to_play.wf(),
            first_to_play.spec_players() == Self::spec_players(),
        ensures
            taker.wf(),
            taker.spec_players() == Self::spec_players(),
    ;
}

/// A seat at the table: an index that can only be in the range
/// `0..players`, where `players` is the number of seats of the specific
/// game being played. Incrementing the last seat wraps around to seat 0.
#[derive(Debug, Clone, Copy, PartialEq, Eq, Structural, PartialOrd, Ord, Hash)]
pub struct PlayerId {
    value: usize,
    players: usize,
}

/// The value that one circular increment turns a seat index into.
pub open spec fn next_seat(value: int, players: int) -> int {
    (value + 1) % players
}

/// The seat index reached from `value` after `k` circular increments
/// among `players` seats.
pub open spec fn seat_after(value: int, players: int, k: nat) -> int
    decreases k,
{
    if k == 0 {
        value
    } else {
        next_seat(seat_after(value, players, (k - 1) as nat), players)
    }
}

impl PlayerId {
    /// The seat index itself.
    pub closed spec fn spec_value(self) -> int {
        self.value as int
    }

    /// The number of seats of the game this index belongs to.
    pub closed spec fn spec_players(self) -> int {
        self.players as int
    }

    /// A seat index is well formed when it lies in `0..players`.
    pub open spec fn wf(self) -> bool {
        0 <= self.spec_value() < self.spec_players()
    }

    /// Creates a seat index for a game of `players` seats. Returns None
    /// if `value` is not below `players`, otherwise Some of the index.
    pub fn new(value: usize, players: usize) -> (r: Option<PlayerId>)
        ensures
            r.is_some() <==> value < players,
            r.is_some() ==> {
                let id = r.unwrap();
                &&& id.wf()
                &&& id.spec_value() == value
                &&& id.spec_players() == players
            },
    {
        if value < players {
            Some(PlayerId { value, players })
        } else {
            None
        }
    }

    /// This method simply increments `self` by 1, wrapping the last seat
    /// around to seat 0, since the purpose of this type is to determine
    /// the player's turn and the first person to play is not necessarily
    /// the person with index 0.
    pub fn inc(&mut self)
        requires
            old(self).wf(),
        ensures
            final(self).wf(),
            final(self).spec_players() == old(self).spec_players(),
            final(self).spec_value() == next_seat(old(self).spec_value(), old(self).spec_players()),
    {
        proof {
            let v = self.spec_value();
            let n = self.spec_players();
            if v + 1 < n {
                lemma_small_mod((v + 1) as nat, n as nat);
            } else {
                lemma_mod_self_0(n);
            }
        }
        if self.value < self.players - 1 {
            self.value = self.value + 1;
        } else {
            self.value = 0;
        }
    }

    /// The seat index as a plain integer.
    pub fn value(&self) -> (v: usize)
        ensures
            v as int == self.spec_value(),
    {
        self.value
    }

    /// The number of seats of the game this index belongs to.
    pub fn players(&self) -> (n: usize)
        ensures
            n as int == self.spec_players(),
    {
        self.players
    }
}

/// After `k` increments a seat index stands at `(value + k) % players`.
proof fn lemma_seat_after_is_mod(value: int, players: int, k: nat)
    requires
        0 <= value < players,
    ensures
        seat_after(value, players, k) == (value + k) % players,
    decreases k,
{
    if k == 0 {
        lemma_small_mod(value as nat, players as nat);
    } else {
        lemma_seat_after_is_mod(value, players, (k - 1) as nat);
        let prev = (value + k - 1) % players;
        assert(seat_after(value, players, k) == (prev + 1) % players);
        lemma_mod_bound(value + k - 1, players);
        // prev differs from value + k - 1 by a multiple of players,
        // so adding 1 to each leaves the residues equal.
        vstd::arithmetic::div_mod::lemma_fundamental_div_mod(value + k - 1, players);
        let q = (value + k - 1) / players;
        assert(prev + 1 == (value + k) - players * q);
        vstd::arithmetic::div_mod::lemma_mod_multiples_vanish(q, value + k - players * q, players);
        assert((value + k - players * q) % players == (value + k) % players);
    }
}

/// Law: applied `players` times, the circular increment returns a seat
/// index to its original value.
pub proof fn lemma_inc_full_cycle(value: int, players: int)
    requires
        0 <= value < players,
    ensures
        seat_after(value, players, players as nat) == value,
{
    lemma_seat_after_is_mod(value, players, players as nat);
    lemma_mod_add_multiples_vanish(value, players);
    lemma_small_mod(value as nat, players as nat);
}

/// Law: applied fewer than `players` times, the circular increment never
/// revisits a seat: any two distinct step counts below `players` reach
/// distinct seats.
pub proof fn lemma_inc_no_revisit(value: int, players: int, i: nat, j: nat)
    requires
        0 <= value < players,
        i < j < players,
    ensures
        seat_after(value, players, i) != seat_after(value, players, j),
{
    lemma_seat_after_is_mod(value, players, i);
    lemma_seat_after_is_mod(value, players, j);
    if (value + i) % players == (value + j) % players {
        vstd::arithmetic::div_mod::lemma_fundamental_div_mod(value + i, players);
        vstd::arithmetic::div_mod::lemma_fundamental_div_mod(value + j, players);
        let qi = (value + i) / players;
        let qj = (value + j) / players;
        assert(j - i == players * qj - players * qi);
        assert(j - i == players * (qj - qi)) by (nonlinear_arith)
            requires
                j - i == players * qj - players * qi,
        ;
        assert(0 < players * (qj - qi) < players);
        assert(false) by (nonlinear_arith)
            requires
                0 < players * (qj - qi) < players,
        ;
    }
}

/// The sequence `s` with every occurrence of `x` taken out; the other
/// elements keep their order.
pub open spec fn seq_without<A>(s: Seq<A>, x: A) -> Seq<A>
    decreases s.len(),
{
    if s.len() == 0 {
        Seq::empty()
    } else if s.last() == x {
        seq_without(s.drop_last(), x)
    } else {
        seq_without(s.drop_last(), x).push(s.last())
    }
}

/// Represents a player of a game: the cards traditionally held in the
/// hand by the player, together with the seat index that determines
/// their turn to play. This type is generic over the game being played.
#[derive(Clone)]
pub struct Player<G: TrickTakingGame> {
    hand: Vec<G::CardType>,
    id: PlayerId,
}

impl<G: TrickTakingGame> Player<G> {
    /// The cards held by the player, in the order they were dealt.
    pub closed spec fn spec_hand(self) -> Seq<G::CardType> {
        self.hand@
    }

    /// The seat index of the player.
    pub closed spec fn spec_id(self) -> PlayerId {
        self.id
    }

    /// A player is well formed when their seat index belongs to the
    /// game they are playing.
    pub open spec fn wf(self) -> bool {
        &&& self.spec_id().wf()
        &&& self.spec_id().spec_players() == G::spec_players()
    }

    /// Generates a new player from a seat index. Players are initialized
    /// with no cards.
    pub fn new(id: PlayerId) -> (p: Self)
        requires
            id.wf(),
            id.spec_players() == G::spec_players(),
        ensures
            p.wf(),
            p.spec_id() == id,
            p.spec_hand() == Seq::<G::CardType>::empty(),
    {
        Self { id, hand: Vec::new() }
    }

    /// Adds a card to the hand of the player.
    pub fn give(&mut self, card: G::CardType)
        ensures
            final(self).spec_hand() == old(self).spec_hand().push(card),
            final(self).spec_id() == old(self).spec_id(),
    {
        self.hand.push(card);
    }

    /// Removes from the hand of the player every card equal to the one
    /// passed; the other cards keep their order.
    pub fn remove(&mut self, card: G::CardType)
        ensures
            final(self).spec_hand() == seq_without(old(self).spec_hand(), card),
            final(self).spec_id() == old(self).spec_id(),
    {
        let mut kept: Vec<G::CardType> = Vec::new();
        let mut i: usize = 0;
        proof {
            assert(self.hand@.take(0) =~= Seq::<G::CardType>::empty());
        }
        while i < self.hand.len()
            invariant
                i <= self.hand@.len(),
                kept@ == seq_without(self.hand@.take(i as int), card),
            decreases self.hand@.len() - i,
        {
            let c = self.hand[i];
            proof {
                let taken = self.hand@.take(i + 1);
                assert(taken.drop_last() =~= self.hand@.take(i as int));
                assert(taken.last() == self.hand@[i as int]);
            }
            if !c.eq_card(&card) {
                kept.push(c);
            }
            i += 1;
        }
        proof {
            assert(self.hand@.take(self.hand@.len() as int) =~= self.hand@);
        }
        self.hand = kept;
    }

    /// Getter for the cards held by this player.
    pub fn hand(&self) -> (cards: &Vec<G::CardType>)
        ensures
            cards@ == self.spec_hand(),
    {
        &self.hand
    }

    /// Getter for the seat index of this player.
    pub fn id(&self) -> (id: PlayerId)
        ensures
            id == self.spec_id(),
    {
        self.id
    }
}

/// Whether the seat `seat` has already played in a trick that seat
/// `first` led, once `count` cards are down: the seats that have played
/// are `first`, the next seat, and so on, `count` seats in circular
/// order.
pub open spec fn seat_has_played(first: int, count: int, seat: int, players: int) -> bool {
    (seat - first) % players < count
}

/// Two seat indices with the same residue are the same seat.
proof fn lemma_seat_unique(i: int, j: int, first: int, players: int)
    requires
        0 <= first < players,
        0 <= i < players,
        0 <= j < players,
        (i - first) % players == (j - first) % players,
    ensures
        i == j,
{
    vstd::arithmetic::div_mod::lemma_fundamental_div_mod(i - first, players);
    vstd::arithmetic::div_mod::lemma_fundamental_div_mod(j - first, players);
    let qi = (i - first) / players;
    let qj = (j - first) / players;
    assert(i - j == players * qi - players * qj);
    assert(i - j == players * (qi - qj)) by (nonlinear_arith)
        requires
            i - j == players * qi - players * qj,
    ;
    if qi != qj {
        assert(players * (qi - qj) >= players || players * (qi - qj) <= -players)
            by (nonlinear_arith)
            requires
                players > 0,
                qi != qj,
        ;
    }
}

/// The seat that plays once `count` cards are down is exactly the seat
/// whose circular distance from the leader is `count`.
proof fn lemma_seat_at_distance(first: int, count: int, seat: int, players: int)
    requires
        0 <= first < players,
        0 <= count < players,
        0 <= seat < players,
    ensures
        (seat - first) % players == count <==> seat == (first + count) % players,
{
    lemma_mod_bound(seat - first, players);
    let next = (first + count) % players;
    lemma_mod_bound(first + count, players);
    vstd::arithmetic::div_mod::lemma_fundamental_div_mod(first + count, players);
    let q = (first + count) / players;
    // next - first == count - players * q, so their residues agree.
    vstd::arithmetic::div_mod::lemma_mod_multiples_vanish(-q, next - first, players);
    assert(players * -q + (next - first) == count - 2 * (players * q)) by (nonlinear_arith)
        requires
            next - first == count - players * q,
    ;
    vstd::arithmetic::div_mod::lemma_mod_multiples_vanish(-2 * q, count, players);
    assert((players * (-2 * q) + count) == count - 2 * (players * q)) by (nonlinear_arith);
    lemma_small_mod(count as nat, players as nat);
    assert((next - first) % players == count);
    if (seat - first) % players == count {
        lemma_seat_unique(seat, next, first, players);
    }
}

/// A trick is a set containing the cards played, one per seat, and the
/// seat that won the trick.
#[derive(Clone)]
pub struct Trick<G: TrickTakingGame> {
    cards: Vec<G::CardType>,
    taker: PlayerId,
}

impl<G: TrickTakingGame> Trick<G> {
    /// The cards of the trick, indexed by the seat that played each.
    pub closed spec fn spec_cards(self) -> Seq<G::CardType> {
        self.cards@
    }

    /// The seat that won the trick.
    pub closed spec fn spec_taker(self) -> PlayerId {
        self.taker
    }

    /// A trick is well formed when it holds one card per seat and its
    /// taker is a valid seat of the game.
    pub open spec fn wf(self) -> bool {
        &&& self.spec_cards().len() == G::spec_players()
        &&& self.spec_taker().wf()
        &&& self.spec_taker().spec_players() == G::spec_players()
    }

    /// Returns the card this trick has been won with.
    pub fn taken_with(&self) -> (c: G::CardType)
        requires
            self.wf(),
        ensures
            c == self.spec_cards()[self.spec_taker().spec_value()],
    {
        self.cards[self.taker.value()]
    }

    /// Getter for the seat of the player who won the trick.
    pub fn taker(&self) -> (id: PlayerId)
        ensures
            id == self.spec_taker(),
    {
        self.taker
    }

    /// Getter for the cards played during this trick.
    pub fn cards(&self) -> (cards: &Vec<G::CardType>)
        ensures
            cards@ == self.spec_cards(),
    {
        &self.cards
    }
}

/// A temporary state of a trick that's still not over: not all the
/// players made their move, so a taker hasn't been determined yet. The
/// slots fill strictly in circular turn order starting at the seat that
/// led the trick, and a slot once filled is never cleared.
#[derive(Clone)]
pub struct OngoingTrick<G: TrickTakingGame> {
    cards: Vec<Option<G::CardType>>,
    first_to_play: PlayerId,
    next_to_play: PlayerId,
    play_count: usize,
}

impl<G: TrickTakingGame> OngoingTrick<G> {
    /// The slots of the trick, one per seat: the card that seat played,
    /// or None while it has not played yet.
    pub closed spec fn spec_cards(self) -> Seq<Option<G::CardType>> {
        self.cards@
    }

    /// The seat that led the trick.
    pub closed spec fn spec_first_to_play(self) -> PlayerId {
        self.first_to_play
    }

    /// The seat whose turn it is.
    pub closed spec fn spec_next_to_play(self) -> PlayerId {
        self.next_to_play
    }

    /// How many cards have been played so far.
    pub closed spec fn spec_play_count(self) -> int {
        self.play_count as int
    }

    /// The invariant of the trick in progress: one slot per seat, valid
    /// seat indices, the next seat to play standing `play_count` steps
    /// after the leader, and exactly the seats in that circular window
    /// holding a card.
    pub open spec fn wf(self) -> bool {
        &&& self.spec_cards().len() == G::spec_players()
        &&& self.spec_first_to_play().wf()
        &&& self.spec_first_to_play().spec_players() == G::spec_players()
        &&& self.spec_next_to_play().wf()
        &&& self.spec_next_to_play().spec_players() == G::spec_players()
        &&& 0 <= self.spec_play_count() <= G::spec_players()
        &&& self.spec_next_to_play().spec_value() == (self.spec_first_to_play().spec_value()
            + self.spec_play_count()) % G::spec_players()
        &&& forall|seat: int|
            0 <= seat < G::spec_players() ==> ((#[trigger] self.spec_cards()[seat]).is_some()
                <==> seat_has_played(
                self.spec_first_to_play().spec_value(),
                self.spec_play_count(),
                seat,
                G::spec_players(),
            ))
    }

    /// Creates a new, empty trick that the given seat will lead.
    pub fn new(first_to_play: PlayerId) -> (t: Self)
        requires
            first_to_play.wf(),
            first_to_play.spec_players() == G::spec_players(),
        ensures
            t.wf(),
            t.spec_first_to_play() == first_to_play,
            t.spec_next_to_play() == first_to_play,
            t.spec_play_count() == 0,
            forall|seat: int|
                0 <= seat < G::spec_players() ==> (#[trigger] t.spec_cards()[seat]).is_none(),
    {
        let players = G::players();
        let mut cards: Vec<Option<G::CardType>> = Vec::with_capacity(players);
        let mut k: usize = 0;
        while k < players
            invariant
                k <= players,
                cards@.len() == k,
                forall|j: int| 0 <= j < k ==> (#[trigger] cards@[j]).is_none(),
            decreases players - k,
        {
            cards.push(None);
            k += 1;
        }
        proof {
            assert forall|seat: int| 0 <= seat < G::spec_players() implies !seat_has_played(
                first_to_play.spec_value(),
                0,
                seat,
                G::spec_players(),
            ) by {
                lemma_mod_bound(seat - first_to_play.spec_value(), G::spec_players());
            }
            lemma_small_mod(first_to_play.spec_value() as nat, G::spec_players() as nat);
        }
        Self { cards, first_to_play, next_to_play: first_to_play, play_count: 0 }
    }

    /// Adds the card passed as parameter to the trick, into the slot of
    /// the seat whose turn it is, and passes the turn on. Checking the
    /// validity of the card played is a responsibility of the caller:
    /// this operation is a pure recorder of turn order.
    pub fn play(&mut self, card: G::CardType)
        requires
            old(self).wf(),
            old(self).spec_play_count() < G::spec_players(),
        ensures
            final(self).wf(),
            final(self).spec_cards() == old(self).spec_cards().update(
                old(self).spec_next_to_play().spec_value(),
                Some(card),
            ),
            final(self).spec_first_to_play() == old(self).spec_first_to_play(),
            final(self).spec_play_count() == old(self).spec_play_count() + 1,
            final(self).spec_next_to_play().spec_value() == next_seat(
                old(self).spec_next_to_play().spec_value(),
                G::spec_players(),
            ),
            final(self).spec_next_to_play().spec_players() == G::spec_players(),
    {
        proof {
            G::counts_positive();
        }
        let slot = self.next_to_play.value();
        self.cards.set(slot, Some(card));
        self.next_to_play.inc();
        self.play_count = self.play_count + 1;
        proof {
            let n = G::spec_players();
            let first = self.spec_first_to_play().spec_value();
            let count = old(self).spec_play_count();
            // The slot just filled is the seat at circular distance
            // `count` from the leader; every other seat keeps its state.
            lemma_seat_at_distance(first, count, slot as int, n);
            assert forall|seat: int| 0 <= seat < n implies ((#[trigger] self.spec_cards()[seat]).is_some()
                <==> seat_has_played(first, count + 1, seat, n)) by {
                lemma_mod_bound(seat - first, n);
                lemma_seat_at_distance(first, count, seat, n);
            }
            // The next seat advances with the window: (first + count) + 1
            // and first + (count + 1) agree modulo the seat count.
            let v = old(self).spec_next_to_play().spec_value();
            if v + 1 < n {
                lemma_small_mod((v + 1) as nat, n as nat);
            } else {
                lemma_mod_self_0(n);
            }
            vstd::arithmetic::div_mod::lemma_add_mod_noop(first + count, 1, n);
            if n == 1 {
                lemma_mod_self_0(1);
                lemma_mod_bound(first + count + 1, n);
                lemma_mod_bound(v + 1, n);
            } else {
                lemma_small_mod(1nat, n as nat);
                assert((first + count + 1) % n == ((first + count) % n + 1) % n);
            }
        }
    }

    /// Getter for the cards contained in this trick, one optional card
    /// per seat.
    pub fn cards(&self) -> (cards: &Vec<Option<G::CardType>>)
        ensures
            cards@ == self.spec_cards(),
    {
        &self.cards
    }

    /// Getter for the seat of the person who leads the trick.
    pub fn first_to_play(&self) -> (id: PlayerId)
        ensures
            id == self.spec_first_to_play(),
    {
        self.first_to_play
    }

    /// Getter for the seat of the person who plays next.
    pub fn next_to_play(&self) -> (id: PlayerId)
        ensures
            id == self.spec_next_to_play(),
    {
        self.next_to_play
    }

    /// Tries to transform the current ongoing trick into a completed
    /// trick by determining its taker. It doesn't make any assumption on
    /// previously played cards and does not check for duplicates, since
    /// those could be valid in some games.
    ///
    /// It returns None exactly when some seat has not played yet, so
    /// that no taker can be determined; it returns a trick exactly when
    /// every seat has played once.
    pub fn finish(self) -> (r: Option<Trick<G>>)
        requires
            self.wf(),
        ensures
            r.is_some() <==> self.spec_play_count() == G::spec_players(),
            r.is_some() <==> (forall|seat: int|
                0 <= seat < G::spec_players() ==> (#[trigger] self.spec_cards()[seat]).is_some()),
            r.is_some() ==> {
                let trick = r.unwrap();
                &&& trick.wf()
                &&& forall|seat: int|
                    0 <= seat < G::spec_players() ==> #[trigger] trick.spec_cards()[seat]
                        == self.spec_cards()[seat].unwrap()
            },
    {
        proof {
            G::counts_positive();
            let n = G::spec_players();
            let first = self.spec_first_to_play().spec_value();
            let count = self.spec_play_count();
            if count == n {
                assert forall|seat: int| 0 <= seat < n implies seat_has_played(
                    first,
                    count,
                    seat,
                    n,
                ) by {
                    lemma_mod_bound(seat - first, n);
                }
            } else {
                // The seat at circular distance `count` from the leader
                // has not played yet.
                let open_seat = (first + count) % n;
                lemma_mod_bound(first + count, n);
                lemma_seat_at_distance(first, count, open_seat, n);
                assert(self.spec_cards()[open_seat].is_none());
            }
        }
        let players = G::players();
        if self.play_count != players {
            return None;
        }
        let mut cards: Vec<G::CardType> = Vec::with_capacity(players);
        let mut seat: usize = 0;
        while seat < players
            invariant
                seat <= players,
                players as int == G::spec_players(),
                self.wf(),
                self.spec_play_count() == G::spec_players(),
                cards@.len() == seat,
                forall|j: int|
                    0 <= j < seat ==> #[trigger] cards@[j] == self.spec_cards()[j].unwrap(),
            decreases players - seat,
        {
            let c = match &self.cards[seat] {
                Some(c) => *c,
                None => {
                    proof {
                        let n = G::spec_players();
                        let first = self.spec_first_to_play().spec_value();
                        lemma_mod_bound(seat - first, n);
                    }
                    vstd::pervasive::unreached()
                },
            };
            cards.push(c);
            seat += 1;
        }
        let taker = G::determine_taker(&cards, self.first_to_play);
        Some(Trick { cards, taker })
    }
}

impl<G: TrickTakingGame> Default for OngoingHand<G> {
    /// A fresh hand: every slot empty and no trick open.
    fn default() -> (h: Self)
        ensures
            h.wf(),
            h.spec_index() == 0,
            h.spec_current_trick().is_none(),
            forall|i: int|
                0 <= i < G::spec_tricks() ==> (#[trigger] h.spec_tricks()[i]).is_none(),
    {
        Self::new()
    }
}

/// A hand that has been played to the end: the completed tricks of one
/// full deal, in the order they were played. Immutable once built.
#[derive(Clone)]
pub struct Hand<G: TrickTakingGame> {
    tricks: Vec<Trick<G>>,
}

impl<G: TrickTakingGame> Hand<G> {
    /// The completed tricks of the hand, in play order.
    pub closed spec fn spec_tricks(self) -> Seq<Trick<G>> {
        self.tricks@
    }

    /// A hand is well formed when it holds exactly the game's number of
    /// tricks, each of them well formed.
    pub open spec fn wf(self) -> bool {
        &&& self.spec_tricks().len() == G::spec_tricks()
        &&& forall|i: int|
            0 <= i < self.spec_tricks().len() ==> (#[trigger] self.spec_tricks()[i]).wf()
    }

    /// Returns a reference to the tricks of this hand.
    pub fn tricks(&self) -> (tricks: &Vec<Trick<G>>)
        ensures
            tricks@ == self.spec_tricks(),
    {
        &self.tricks
    }
}

/// A hand takes multiple tricks to be completed; this is the
/// representation of a hand which hasn't been completed yet: one slot
/// per trick, filled as the tricks are resolved.
#[derive(Clone)]
pub struct OngoingHand<G: TrickTakingGame> {
    current_trick: Option<OngoingTrick<G>>,
    index: usize,
    tricks: Vec<Option<Trick<G>>>,
}

impl<G: TrickTakingGame> OngoingHand<G> {
    /// The trick slots of the hand: the completed trick stored at each
    /// position, or None while that trick has not been resolved.
    pub closed spec fn spec_tricks(self) -> Seq<Option<Trick<G>>> {
        self.tricks@
    }

    /// The trick currently being played, if one is open.
    pub closed spec fn spec_current_trick(self) -> Option<OngoingTrick<G>> {
        self.current_trick
    }

    /// The running trick index.
    pub closed spec fn spec_index(self) -> int {
        self.index as int
    }

    /// An ongoing hand is well formed when it holds one slot per trick
    /// of the game and every filled slot holds a well-formed trick.
    pub open spec fn wf(self) -> bool {
        &&& self.spec_tricks().len() == G::spec_tricks()
        &&& forall|i: int|
            0 <= i < self.spec_tricks().len() && (#[trigger] self.spec_tricks()[i]).is_some()
                ==> self.spec_tricks()[i].unwrap().wf()
    }

    /// Constructor for an ongoing hand. All the internal fields are
    /// initialized as empty or None.
    pub fn new() -> (h: Self)
        ensures
            h.wf(),
            h.spec_index() == 0,
            h.spec_current_trick().is_none(),
            forall|i: int|
                0 <= i < G::spec_tricks() ==> (#[trigger] h.spec_tricks()[i]).is_none(),
    {
        let tricks_count = G::tricks();
        let mut tricks: Vec<Option<Trick<G>>> = Vec::with_capacity(tricks_count);
        let mut k: usize = 0;
        while k < tricks_count
            invariant
                k <= tricks_count,
                tricks@.len() == k,
                forall|j: int| 0 <= j < k ==> (#[trigger] tricks@[j]).is_none(),
            decreases tricks_count - k,
        {
            tricks.push(None);
            k += 1;
        }
        Self { current_trick: None, index: 0, tricks }
    }

    /// Adds a completed trick to this hand, at the given slot. Storing
    /// the tricks in increasing slot order is the caller's discipline;
    /// finishing the hand asks only that every slot be filled.
    pub fn add(&mut self, trick: Trick<G>, id: usize)
        requires
            old(self).wf(),
            trick.wf(),
            id < G::spec_tricks(),
        ensures
            final(self).wf(),
            final(self).spec_tricks() == old(self).spec_tricks().update(id as int, Some(trick)),
            final(self).spec_current_trick() == old(self).spec_current_trick(),
            final(self).spec_index() == old(self).spec_index(),
    {
        self.tricks.set(id, Some(trick));
    }

    /// Returns the trick currently being played, if one is open.
    pub fn current_trick(&self) -> (t: &Option<OngoingTrick<G>>)
        ensures
            *t == self.spec_current_trick(),
    {
        &self.current_trick
    }

    /// Returns a reference to the trick slots of this hand.
    pub fn tricks(&self) -> (tricks: &Vec<Option<Trick<G>>>)
        ensures
            tricks@ == self.spec_tricks(),
    {
        &self.tricks
    }

    /// Returns the running trick index of this hand.
    pub fn index(&self) -> (i: usize)
        ensures
            i as int == self.spec_index(),
    {
        self.index
    }

    /// Transforms an ongoing hand into a completed one, a read-only data
    /// structure that just stores the tricks that have been played.
    ///
    /// It returns None exactly when some trick slot is still empty; it
    /// returns a hand exactly when every slot holds a completed trick.
    pub fn finish(self) -> (r: Option<Hand<G>>)
        requires
            self.wf(),
        ensures
            r.is_some() <==> (forall|i: int|
                0 <= i < G::spec_tricks() ==> (#[trigger] self.spec_tricks()[i]).is_some()),
            r.is_some() ==> {
                let hand = r.unwrap();
                &&& hand.wf()
                &&& forall|i: int|
                    0 <= i < G::spec_tricks() ==> #[trigger] hand.spec_tricks()[i]
                        == self.spec_tricks()[i].unwrap()
            },
    {
        let ghost orig = self.tricks@;
        proof {
            assert(self.spec_tricks() == orig);
        }
        let mut slots = self.tricks;
        let count = G::tricks();
        let mut tricks: Vec<Trick<G>> = Vec::with_capacity(count);
        let mut i: usize = 0;
        while i < count
            invariant
                i <= count,
                count as int == G::spec_tricks(),
                orig.len() == count,
                self.spec_tricks() == orig,
                forall|j: int|
                    0 <= j < count && (#[trigger] orig[j]).is_some() ==> orig[j].unwrap().wf(),
                slots@ == orig.subrange(i as int, count as int),
                tricks@.len() == i,
                forall|j: int| 0 <= j < i ==> (#[trigger] orig[j]).is_some(),
                forall|j: int| 0 <= j < i ==> #[trigger] tricks@[j] == orig[j].unwrap(),
            decreases count - i,
        {
            let slot = slots.remove(0);
            proof {
                assert(orig.subrange(i as int, count as int)[0] == orig[i as int]);
                assert(orig.subrange(i as int, count as int).remove(0) =~= orig.subrange(
                    i + 1,
                    count as int,
                ));
            }
            match slot {
                Some(trick) => {
                    tricks.push(trick);
                },
                None => {
                    proof {
                        assert(orig[i as int].is_none());
                        assert(self.spec_tricks() == orig);
                        assert((self.spec_tricks()[i as int]).is_none());
                    }
                    return None;
                },
            }
            i += 1;
        }
        Some(Hand { tricks })
    }
}

} // verus!
