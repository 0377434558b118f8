//! Cards and the hand that a player holds.

use vstd::prelude::*;

verus! {

/// The four suits, in the order in which a fresh deck holds them.
#[derive(Debug, Clone, Copy, PartialEq, Eq, Structural)]
pub enum Suit {
    Clubs,
    Diamonds,
    Hearts,
    Spades,
}

/// A card. Two cards are equal where suit and rank are.
#[derive(Debug, Clone, Copy, PartialEq, Eq, Structural)]
pub struct Card {
    pub suit: Suit,
    pub rank: u8,
}

impl Card {
    /// The card of the given suit and rank.
    pub fn new(suit: Suit, rank: u8) -> (card: Card)
        ensures
            card == (Card { suit, rank }),
    {
        Card { suit, rank }
    }

    /// The suit of the card.
    pub fn suit(&self) -> (suit: Suit)
        ensures
            suit == self.suit,
    {
        self.suit
    }

    /// The rank of the card: 11 to 14 are jack, queen, king and ace.
    pub fn rank(&self) -> (rank: u8)
        ensures
            rank == self.rank,
    {
        self.rank
    }
}

/// The first place at which `cards` holds `card`, or the length of `cards`
/// where it holds none.
pub open spec fn first_place(cards: Seq<Card>, card: Card) -> nat
    decreases cards.len(),
{
    if cards.len() == 0 || cards[0] == card {
        0
    } else {
        1 + first_place(cards.drop_first(), card)
    }
}

/// What is left of `cards` when the card at `index` is played: the last card
/// takes its place.
pub open spec fn without(cards: Seq<Card>, index: int) -> Seq<Card>
    recommends
        0 <= index < cards.len(),
{
    cards.update(index, cards.last()).drop_last()
}

/// `first_place` is the least index of an equal card.
pub proof fn lemma_first_place(cards: Seq<Card>, card: Card)
    ensures
        first_place(cards, card) <= cards.len(),
        first_place(cards, card) < cards.len() ==> cards[first_place(cards, card) as int] == card,
        forall|i: int| 0 <= i < first_place(cards, card) ==> cards[i] != card,
    decreases cards.len(),
{
    if cards.len() == 0 || cards[0] == card {
    } else {
        let rest = cards.drop_first();
        lemma_first_place(rest, card);
        assert forall|i: int| 0 <= i < first_place(cards, card) implies cards[i] != card by {
            if i > 0 {
                assert(cards[i] == rest[i - 1]);
            }
        }
    }
}

/// Finds the first card equal to `card`.
pub fn position(cards: &Vec<Card>, card: Card) -> (place: Option<usize>)
    ensures
        place matches Some(index) ==> index < cards@.len() && index == first_place(cards@, card),
        place is None ==> first_place(cards@, card) == cards@.len(),
{
    let n: usize = cards.len();
    let mut i: usize = 0;
    assert(cards@.skip(0) =~= cards@);
    while i < n
        invariant
            n == cards@.len(),
            i <= n,
            first_place(cards@, card) == i + first_place(cards@.skip(i as int), card),
        decreases n - i,
    {
        assert(cards@.skip(i as int)[0] == cards@[i as int]);
        if cards[i] == card {
            return Some(i);
        }
        assert(cards@.skip(i as int).drop_first() =~= cards@.skip(i + 1));
        i = i + 1;
    }
    None
}

/// The cards that a player holds.
#[derive(Debug)]
pub struct Hand(Vec<Card>);

impl View for Hand {
    type V = Seq<Card>;

    closed spec fn view(&self) -> Seq<Card> {
        self.0@
    }
}

impl Hand {
    /// A hand that holds no card.
    pub fn new() -> (hand: Hand)
        ensures
            hand@ == Seq::<Card>::empty(),
    {
        Hand(Vec::new())
    }

    /// How many cards the hand holds.
    pub fn count(&self) -> (n: usize)
        ensures
            n == self@.len(),
    {
        self.0.len()
    }

    /// Takes a card into the hand, behind the cards it holds.
    pub fn add(&mut self, card: Card)
        ensures
            final(self)@ == old(self)@.push(card),
    {
        self.0.push(card);
    }

    /// Plays the card at `index`: takes it out and moves the last card into
    /// its place. Gives `None` and changes nothing where the hand has no such
    /// index.
    pub fn play_index(&mut self, index: usize) -> (played: Option<Card>)
        ensures
            index < old(self)@.len() ==> played == Some(old(self)@[index as int]) && final(self)@
                == without(old(self)@, index as int),
            index >= old(self)@.len() ==> played.is_none() && final(self)@ == old(self)@,
    {
        if index >= self.count() {
            return None;
        }
        Some(self.0.swap_remove(index))
    }

    /// Plays the first card of the hand that equals `card`, where there is one.
    pub fn play_card(&mut self, card: Card) -> (played: Option<Card>)
        ensures
            first_place(old(self)@, card) < old(self)@.len() ==> played == Some(card) && final(self)@
                == without(old(self)@, first_place(old(self)@, card) as int),
            first_place(old(self)@, card) == old(self)@.len() ==> played.is_none() && final(self)@
                == old(self)@,
    {
        proof {
            lemma_first_place(self@, card);
        }
        let index = match position(&self.0, card) {
            Some(index) => index,
            None => {
                return None;
            },
        };
        self.play_index(index)
    }
}

} // verus!
