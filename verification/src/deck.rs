//! The deck: built in suit order, shuffled by random draws, dealt from the top.

use rand::rngs::{SmallRng, ThreadRng};
use rand::{Rng, SeedableRng};
use vstd::prelude::*;
use vstd::seq_lib::{
    to_multiset_build, to_multiset_contains, to_multiset_remove, to_multiset_update,
};
use crate::cards::{first_place, lemma_first_place, position, without, Card, Hand, Suit};

verus! {

/// The small, fast generator of the `rand` crate, carried through as it is.
#[verifier::external_type_specification]
#[verifier::external_body]
pub struct ExSmallRng(SmallRng);

/// The handle to the thread's own generator, carried through as it is.
#[verifier::external_type_specification]
#[verifier::external_body]
pub struct ExThreadRng(ThreadRng);

/// Calls `rand::rng`.
///
/// Trusted, not proved: the call returns. Nothing is said of the generator it
/// gives. It panics where the operating system hands out no entropy.
#[verifier::external_body]
fn thread_generator() -> ThreadRng {
    rand::rng()
}

/// Calls `SmallRng::from_rng`.
///
/// Trusted, not proved: the call returns. Nothing is said of the generator it
/// gives, nor of what it leaves of its source. Drawing the seed may make the
/// thread's generator reseed itself, and that panics where the operating
/// system hands out no entropy.
#[verifier::external_body]
fn seeded_generator(source: &mut ThreadRng) -> SmallRng {
    SmallRng::from_rng(source)
}

/// Calls `Rng::random` for an `i32`.
///
/// Trusted, not proved: the call returns. Any `i32` may come back.
#[verifier::external_body]
fn next_draw(generator: &mut SmallRng) -> i32 {
    generator.random()
}

/// The lowest rank of a deck: with up to thirteen ranks in a suit the deck ends
/// at the ace, which is 14; a larger deck starts at 1.
pub open spec fn lowest_rank(ranks_per_suit: u8) -> int {
    if ranks_per_suit <= 13 {
        15 - ranks_per_suit
    } else {
        1
    }
}

/// The cards of one suit in a fresh deck, lowest rank first.
pub open spec fn suit_run(suit: Suit, ranks_per_suit: u8) -> Seq<Card> {
    Seq::new(
        ranks_per_suit as nat,
        |k: int| Card { suit, rank: (lowest_rank(ranks_per_suit) + k) as u8 },
    )
}

/// A fresh deck: clubs, diamonds, hearts, spades, each from its lowest rank up.
pub open spec fn fresh_deck(ranks_per_suit: u8) -> Seq<Card> {
    suit_run(Suit::Clubs, ranks_per_suit) + suit_run(Suit::Diamonds, ranks_per_suit) + suit_run(
        Suit::Hearts,
        ranks_per_suit,
    ) + suit_run(Suit::Spades, ranks_per_suit)
}

/// The place that a random draw points at in a deck of `len` cards: the size of
/// the draw, reduced to the deck.
pub open spec fn draw_place(draw: i32, len: nat) -> int
    recommends
        len > 0,
{
    (if draw < 0 {
        -draw
    } else {
        draw as int
    }) % (len as int)
}

/// The deck after the card at `place` went to the back: the last card has
/// taken its place.
pub open spec fn moved_to_back(cards: Seq<Card>, place: int) -> Seq<Card>
    recommends
        0 <= place < cards.len(),
{
    without(cards, place).push(cards[place])
}

/// Moving a card to the back loses none and adds none.
pub proof fn lemma_moved_to_back_keeps_cards(cards: Seq<Card>, place: int)
    requires
        0 <= place < cards.len(),
    ensures
        moved_to_back(cards, place).len() == cards.len(),
        moved_to_back(cards, place).to_multiset() == cards.to_multiset(),
{
    broadcast use vstd::multiset::group_multiset_axioms;

    let last = cards.last();
    let moved = cards[place];
    let updated = cards.update(place, last);
    assert(cards.contains(moved));
    assert(cards.contains(last));
    to_multiset_contains(cards, moved);
    to_multiset_contains(cards, last);
    to_multiset_update(cards, place, last);
    assert(updated.drop_last() =~= updated.remove(updated.len() - 1));
    assert(updated[updated.len() - 1] == last);
    to_multiset_remove(updated, updated.len() - 1);
    to_multiset_build(updated.drop_last(), moved);
    assert(moved_to_back(cards, place).to_multiset() =~= cards.to_multiset());
}

/// The deck after the draws have each moved a card to the back, first draw
/// first. An empty deck stays empty.
pub open spec fn shuffled_by(cards: Seq<Card>, draws: Seq<i32>) -> Seq<Card>
    decreases draws.len(),
{
    if draws.len() == 0 || cards.len() == 0 {
        cards
    } else {
        let before = shuffled_by(cards, draws.drop_last());
        moved_to_back(before, draw_place(draws.last(), before.len()))
    }
}

/// Whatever the draws, a shuffled deck holds the cards it held before.
pub proof fn lemma_shuffled_by_keeps_cards(cards: Seq<Card>, draws: Seq<i32>)
    ensures
        shuffled_by(cards, draws).len() == cards.len(),
        shuffled_by(cards, draws).to_multiset() == cards.to_multiset(),
    decreases draws.len(),
{
    if draws.len() == 0 || cards.len() == 0 {
    } else {
        let before = shuffled_by(cards, draws.drop_last());
        lemma_shuffled_by_keeps_cards(cards, draws.drop_last());
        lemma_moved_to_back_keeps_cards(before, draw_place(draws.last(), before.len()));
    }
}

/// A deck of cards, top card first.
#[derive(Debug)]
pub struct Deck {
    cards: Vec<Card>,
}

impl View for Deck {
    type V = Seq<Card>;

    closed spec fn view(&self) -> Seq<Card> {
        self.cards@
    }
}

fn push_suit(cards: &mut Vec<Card>, suit: Suit, ranks_per_suit: u8)
    ensures
        final(cards)@ == old(cards)@ + suit_run(suit, ranks_per_suit),
{
    let lowest: u8 = if ranks_per_suit <= 13 {
        15 - ranks_per_suit
    } else {
        1
    };
    let mut k: u8 = 0;
    while k < ranks_per_suit
        invariant
            k <= ranks_per_suit,
            lowest == lowest_rank(ranks_per_suit),
            cards@ == old(cards)@ + suit_run(suit, ranks_per_suit).take(k as int),
        decreases ranks_per_suit - k,
    {
        cards.push(Card::new(suit, lowest + k));
        assert(suit_run(suit, ranks_per_suit).take(k + 1) =~= suit_run(suit, ranks_per_suit).take(
            k as int,
        ).push(Card { suit, rank: (lowest + k) as u8 }));
        k = k + 1;
    }
    assert(suit_run(suit, ranks_per_suit).take(ranks_per_suit as int) =~= suit_run(
        suit,
        ranks_per_suit,
    ));
}

impl Deck {
    /// A fresh deck with `ranks_per_suit` cards in each of the four suits.
    pub fn new(ranks_per_suit: u8) -> (deck: Deck)
        ensures
            deck@ == fresh_deck(ranks_per_suit),
    {
        let mut cards: Vec<Card> = Vec::new();
        push_suit(&mut cards, Suit::Clubs, ranks_per_suit);
        push_suit(&mut cards, Suit::Diamonds, ranks_per_suit);
        push_suit(&mut cards, Suit::Hearts, ranks_per_suit);
        push_suit(&mut cards, Suit::Spades, ranks_per_suit);
        assert(cards@ =~= fresh_deck(ranks_per_suit));
        Deck { cards }
    }

    /// The cards of the deck, top card first.
    pub fn into_inner(self) -> (cards: Vec<Card>)
        ensures
            cards@ == self@,
    {
        self.cards
    }

    /// Moves the card that `draw` points at to the back of the deck.
    fn move_to_back(&mut self, draw: i32)
        requires
            old(self)@.len() > 0,
        ensures
            final(self)@ == moved_to_back(old(self)@, draw_place(draw, old(self)@.len())),
    {
        let len: usize = self.cards.len();
        let size: u32 = if draw < 0 {
            (-(draw as i64)) as u32
        } else {
            draw as u32
        };
        let place: usize = if len > u32::MAX as usize {
            size as usize
        } else {
            (size % (len as u32)) as usize
        };
        assert(place == draw_place(draw, len as nat)) by {
            if len > u32::MAX {
                vstd::arithmetic::div_mod::lemma_small_mod(size as nat, len as nat);
            }
        }
        let swap = self.cards.swap_remove(place);
        self.cards.push(swap);
    }

    /// Shuffles the deck by the draws given: each draw in turn moves the card
    /// that it points at to the back.
    pub fn shuffle_by(&mut self, draws: &[i32])
        ensures
            final(self)@ == shuffled_by(old(self)@, draws@),
    {
        let n: usize = draws.len();
        if self.cards.len() == 0 {
            return ;
        }
        let mut i: usize = 0;
        assert(draws@.take(0) =~= Seq::<i32>::empty());
        while i < n
            invariant
                n == draws@.len(),
                i <= n,
                old(self)@.len() > 0,
                self@ == shuffled_by(old(self)@, draws@.take(i as int)),
            decreases n - i,
        {
            proof {
                lemma_shuffled_by_keeps_cards(old(self)@, draws@.take(i as int));
                assert(draws@.take(i + 1).drop_last() =~= draws@.take(i as int));
            }
            self.move_to_back(draws[i]);
            i = i + 1;
        }
        assert(draws@.take(n as int) =~= draws@);
    }

    /// Shuffles the deck by random draws, two for every card it holds.
    /// Whatever is drawn, the deck holds the same cards afterwards.
    pub fn shuffle(&mut self)
        ensures
            exists|draws: Seq<i32>|
                draws.len() == 2 * old(self)@.len() && final(self)@ == #[trigger] shuffled_by(
                    old(self)@,
                    draws,
                ),
            final(self)@.len() == old(self)@.len(),
            final(self)@.to_multiset() == old(self)@.to_multiset(),
    {
        let len: usize = self.cards.len();
        let mut source = thread_generator();
        let mut generator = seeded_generator(&mut source);
        let mut draws: Vec<i32> = Vec::new();
        let mut round: usize = 0;
        while round < len
            invariant
                round <= len,
                draws@.len() == 2 * round,
            decreases len - round,
        {
            draws.push(next_draw(&mut generator));
            draws.push(next_draw(&mut generator));
            round = round + 1;
        }
        self.shuffle_by(draws.as_slice());
        proof {
            lemma_shuffled_by_keeps_cards(old(self)@, draws@);
        }
    }

    /// Takes the first card equal to `card` out of the deck, where there is
    /// one; the last card takes its place.
    pub fn remove(&mut self, card: Card) -> (removed: Option<Card>)
        ensures
            first_place(old(self)@, card) < old(self)@.len() ==> removed == Some(card)
                && final(self)@ == without(old(self)@, first_place(old(self)@, card) as int),
            first_place(old(self)@, card) == old(self)@.len() ==> removed.is_none() && final(self)@
                == old(self)@,
    {
        proof {
            lemma_first_place(self@, card);
        }
        let index = match position(&self.cards, card) {
            Some(index) => index,
            None => {
                return None;
            },
        };
        Some(self.cards.swap_remove(index))
    }

    /// Deals the top card to `hand`; the last card of the deck takes its place.
    pub fn draw_to_hand(&mut self, hand: &mut Hand)
        requires
            old(self)@.len() > 0,
        ensures
            final(self)@ == without(old(self)@, 0),
            final(hand)@ == old(hand)@.push(old(self)@[0]),
    {
        let card = self.cards.swap_remove(0);
        hand.add(card);
    }
}

} // verus!
