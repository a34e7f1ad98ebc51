//! The deck: an ordered pile of cards, drawn from its end.
use vstd::prelude::*;
use vstd::seq_lib::*;
use rand::seq::SliceRandom;
use rand::SeedableRng;
use crate::cards::{Card, DECK_SIZE};
use crate::hand::{Hand, join_labels};
use crate::NB_PLAYERS;

verus! {

/// The whole deck in the order of the cards' numbers.
pub open spec fn full_deck() -> Seq<Card> {
    Seq::new(DECK_SIZE as nat, |i: int| Card::of_id(i))
}

/// How often `card` occurs in `cards`.
pub open spec fn occurrences(cards: Seq<Card>, card: Card) -> nat {
    cards.to_multiset().count(card)
}

/// In a pile without duplicates a card occurs once if it is there, else never.
pub proof fn lemma_occurrences_no_duplicates(cards: Seq<Card>, card: Card)
    requires
        cards.no_duplicates(),
    ensures
        occurrences(cards, card) == (if cards.contains(card) {
            1nat
        } else {
            0nat
        }),
{
    cards.to_multiset_ensures();
    cards.lemma_multiset_has_no_duplicates();
}

/// A pile in which no card occurs twice has no duplicates.
pub proof fn lemma_no_duplicates_of_occurrences(cards: Seq<Card>)
    requires
        forall|c: Card| occurrences(cards, c) <= 1,
    ensures
        cards.no_duplicates(),
{
    assert forall|c: Card| cards.to_multiset().contains(c) implies cards.to_multiset().count(c)
        == 1 by {
        assert(occurrences(cards, c) <= 1);
    }
    cards.lemma_multiset_has_no_duplicates_conv();
}

/// The whole deck holds each card of the deck once, and no other card.
pub proof fn lemma_full_deck(card: Card)
    ensures
        full_deck().no_duplicates(),
        full_deck().len() == DECK_SIZE,
        occurrences(full_deck(), card) == (if card.in_deck() {
            1nat
        } else {
            0nat
        }),
{
    let deck = full_deck();
    assert forall|i: int, j: int| 0 <= i < deck.len() && 0 <= j < deck.len() && i != j implies deck[i]
        != deck[j] by {
        assert(deck[i].spec_id() == i);
        assert(deck[j].spec_id() == j);
    }
    lemma_occurrences_no_duplicates(deck, card);
    card.lemma_of_id_spec_id();
    if card.in_deck() {
        assert(deck[card.spec_id()] == card);
    } else {
        if deck.contains(card) {
            let i = choose|i: int| 0 <= i < deck.len() && deck[i] == card;
            assert(deck[i].spec_id() == i);
        }
    }
}

/// The order that a seed gives to a pile of cards.
pub uninterp spec fn seeded_shuffle(seed: Seq<u8>, cards: Seq<Card>) -> Seq<Card>;

/// Shuffles `cards` with `rand`'s `SliceRandom::shuffle`, driven by the thread's
/// generator. The shuffle only swaps items of the slice, so the same cards
/// are there afterwards, each as often as before; of their order nothing is
/// claimed.
#[verifier::external_body]
fn shuffle_at_random(cards: &mut Vec<Card>)
    ensures
        final(cards)@.to_multiset() == old(cards)@.to_multiset(),
{
    cards.shuffle(&mut rand::thread_rng());
}

/// Shuffles `cards` with `rand`'s `SliceRandom::shuffle`, driven by a `StdRng`
/// made by `SeedableRng::from_seed`. The order that comes out depends on the
/// seed and on the cards alone; the shuffle only swaps items of the slice, so
/// the same cards are there afterwards, each as often as before.
#[verifier::external_body]
fn shuffle_from_seed(cards: &mut Vec<Card>, seed: [u8; 32])
    ensures
        final(cards)@ == seeded_shuffle(seed@, old(cards)@),
        final(cards)@.to_multiset() == old(cards)@.to_multiset(),
{
    let mut rng = rand::rngs::StdRng::from_seed(seed);
    cards.shuffle(&mut rng);
}

/// Why a draw failed.
#[derive(Clone, Copy, Debug, PartialEq, Eq, Structural)]
pub enum DeckError {
    /// The pile holds no card.
    Exhausted,
}

/// A pile of cards. Its top is its last card.
#[derive(Debug, PartialEq, Eq)]
pub struct Deck {
    cards: Vec<Card>,
}

impl View for Deck {
    type V = Seq<Card>;

    closed spec fn view(&self) -> Seq<Card> {
        self.cards@
    }
}

impl Clone for Deck {
    fn clone(&self) -> (d: Deck)
        ensures
            d@ == self@,
    {
        let mut cards: Vec<Card> = Vec::new();
        let mut i: usize = 0;
        while i < self.cards.len()
            invariant
                i <= self.cards.len(),
                cards@ == self.cards@.take(i as int),
            decreases self.cards.len() - i,
        {
            cards.push(self.cards[i]);
            assert(self.cards@.take(i + 1) == self.cards@.take(i as int).push(self.cards@[i as int]));
            i = i + 1;
        }
        assert(self.cards@.take(self.cards.len() as int) == self.cards@);
        Deck { cards }
    }
}

impl Default for Deck {
    /// The empty pile.
    fn default() -> (d: Deck)
        ensures
            d@ == Seq::<Card>::empty(),
    {
        Deck { cards: Vec::new() }
    }
}

impl Deck {
    /// The whole deck in the order of the cards' numbers.
    pub fn new() -> (d: Deck)
        ensures
            d@ == full_deck(),
    {
        let mut cards: Vec<Card> = Vec::new();
        let mut id: u32 = 0;
        while id < DECK_SIZE as u32
            invariant
                id <= DECK_SIZE,
                cards@.len() == id,
                forall|i: int| 0 <= i < id ==> cards@[i] == Card::of_id(i),
            decreases DECK_SIZE - id,
        {
            cards.push(Card::from_id(id));
            id = id + 1;
        }
        assert(cards@ =~= full_deck());
        Deck { cards }
    }

    /// The pile that holds `cards`, the last of them on top.
    pub fn from_cards(cards: Vec<Card>) -> (d: Deck)
        ensures
            d@ == cards@,
    {
        Deck { cards }
    }

    /// The cards of the pile, the top last.
    pub fn cards(&self) -> (cards: &Vec<Card>)
        ensures
            cards@ == self@,
    {
        &self.cards
    }

    /// Walks the cards of the pile from the bottom up.
    pub fn iter(&self) -> (cards: std::slice::Iter<'_, Card>)
        ensures
            vstd::std_specs::slice::into_iter_elts(cards) == self@,
    {
        let cards = self.cards.iter();
        proof {
            broadcast use vstd::std_specs::slice::axiom_spec_slice_iter;
        }
        cards
    }

    /// Number of cards in the pile.
    pub fn len(&self) -> (n: usize)
        ensures
            n == self@.len(),
    {
        self.cards.len()
    }

    /// Whether the pile holds no card.
    pub fn is_empty(&self) -> (b: bool)
        ensures
            b == (self@.len() == 0),
    {
        self.cards.len() == 0
    }

    /// Puts the cards in an order that nothing foretells. The pile holds the same
    /// cards afterwards, each as often as before.
    pub fn shuffle(&mut self)
        ensures
            final(self)@.to_multiset() == old(self)@.to_multiset(),
            final(self)@.len() == old(self)@.len(),
    {
        shuffle_at_random(&mut self.cards);
        proof {
            old(self)@.to_multiset_ensures();
            self@.to_multiset_ensures();
        }
    }

    /// Puts the cards in the order that `seed` gives them: the same seed on the
    /// same pile gives the same order. The pile holds the same cards afterwards,
    /// each as often as before.
    pub fn shuffle_seeded(&mut self, seed: [u8; 32])
        ensures
            final(self)@ == seeded_shuffle(seed@, old(self)@),
            final(self)@.to_multiset() == old(self)@.to_multiset(),
            final(self)@.len() == old(self)@.len(),
    {
        shuffle_from_seed(&mut self.cards, seed);
        proof {
            old(self)@.to_multiset_ensures();
            self@.to_multiset_ensures();
        }
    }

    /// Puts `card` on top of the pile.
    pub fn push(&mut self, card: Card)
        ensures
            final(self)@ == old(self)@.push(card),
    {
        self.cards.push(card);
    }

    /// Takes the top card off the pile. An empty pile stays as it is.
    pub fn draw(&mut self) -> (r: Result<Card, DeckError>)
        ensures
            old(self)@.len() == 0 ==> r == Err::<Card, DeckError>(DeckError::Exhausted)
                && final(self)@ == old(self)@,
            old(self)@.len() > 0 ==> r == Ok::<Card, DeckError>(old(self)@.last())
                && final(self)@ == old(self)@.drop_last(),
    {
        match self.cards.pop() {
            Some(card) => Ok(card),
            None => Err(DeckError::Exhausted),
        }
    }

    /// The cards that a deal of `n` cards each hands to the hand at `seat`: the
    /// first hand is served from the top, the next from under its cards.
    pub open spec fn dealt(pile: Seq<Card>, seat: int, n: int) -> Seq<Card> {
        pile.subrange(pile.len() - (seat + 1) * n, pile.len() - seat * n)
    }

    /// Deals `n` cards from the top to each hand in turn: the first hand is
    /// served whole before the second.
    pub fn deal_each(&mut self, hands: &mut [Hand; NB_PLAYERS], n: usize)
        requires
            old(self)@.len() >= NB_PLAYERS * n,
        ensures
            final(self)@ == old(self)@.take(old(self)@.len() - NB_PLAYERS * n),
            forall|seat: int|
                0 <= seat < NB_PLAYERS ==> (#[trigger] final(hands)@[seat])@ == old(hands)@[seat]@.union(
                    Deck::dealt(old(self)@, seat, n as int).to_set(),
                ),
    {
        let ghost pile = self@;
        let mut seat: usize = 0;
        while seat < NB_PLAYERS
            invariant
                seat <= NB_PLAYERS,
                pile.len() >= NB_PLAYERS * n,
                pile == old(self)@,
                self@ == pile.take(pile.len() - seat * n),
                forall|s: int|
                    0 <= s < seat ==> (#[trigger] hands@[s])@ == old(hands)@[s]@.union(
                        Deck::dealt(pile, s, n as int).to_set(),
                    ),
                forall|s: int| seat <= s < NB_PLAYERS ==> #[trigger] hands@[s] == old(hands)@[s],
            decreases NB_PLAYERS - seat,
        {
            let mut k: usize = 0;
            let ghost top = pile.len() - seat * n;
            assert(seat * n + n <= NB_PLAYERS * n) by (nonlinear_arith)
                requires
                    seat < NB_PLAYERS,
            ;
            assert((seat + 1) * n == seat * n + n) by (nonlinear_arith);
            while k < n
                invariant
                    k <= n,
                    seat < NB_PLAYERS,
                    top == pile.len() - seat * n,
                    top >= n,
                    self@ == pile.take(top - k),
                    hands@[seat as int]@ == old(hands)@[seat as int]@.union(
                        pile.subrange(top - k, top).to_set(),
                    ),
                    forall|s: int|
                        0 <= s < seat ==> (#[trigger] hands@[s])@ == old(hands)@[s]@.union(
                            Deck::dealt(pile, s, n as int).to_set(),
                        ),
                    forall|s: int| seat < s < NB_PLAYERS ==> #[trigger] hands@[s] == old(hands)@[s],
                decreases n - k,
            {
                let ghost before = hands@[seat as int]@;
                let card = self.cards.pop().unwrap();
                let mut hand = hands[seat];
                hand.add(card);
                hands[seat] = hand;
                proof {
                    assert(card == pile[top - k - 1]);
                    assert(self@ =~= pile.take(top - k - 1));
                    let wider = pile.subrange(top - k - 1, top);
                    let narrow = pile.subrange(top - k, top);
                    assert(wider =~= seq![card] + narrow);
                    assert forall|c: Card| wider.to_set().contains(c) == narrow.to_set().insert(
                        card,
                    ).contains(c) by {
                        if wider.contains(c) {
                            let i = choose|i: int| 0 <= i < wider.len() && wider[i] == c;
                            if i > 0 {
                                assert(narrow[i - 1] == c);
                            }
                        }
                        if narrow.contains(c) {
                            let i = choose|i: int| 0 <= i < narrow.len() && narrow[i] == c;
                            assert(wider[i + 1] == c);
                        }
                        if c == card {
                            assert(wider[0] == c);
                        }
                    }
                    assert(wider.to_set() =~= narrow.to_set().insert(card));
                    assert(hands@[seat as int]@ =~= old(hands)@[seat as int]@.union(
                        wider.to_set(),
                    ));
                }
                k = k + 1;
            }
            seat = seat + 1;
        }
        proof {
            assert(seat * n == NB_PLAYERS * n);
        }
    }

    /// The cards of the pile from the bottom up, each followed by a space.
    pub fn to_string(&self) -> (s: String)
        ensures
            s@ == Hand::labels(self@),
    {
        join_labels(&self.cards)
    }
}

} // verus!
