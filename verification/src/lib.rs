//! Rules engine of The Valley, a turn-based card game with hidden information.
//!
//! The crate holds the cards, the seats around the table, the stars and their
//! beings, the trick sub-game, and the game itself: its phases, its players and
//! the view of the table that each player is entitled to.
use vstd::prelude::*;

pub mod cards;
pub mod hand;
pub mod deck;
pub mod pos;
pub mod points;
pub mod trick;
pub mod being;
pub mod star;
pub mod deal;
pub mod player;
pub mod status;
pub mod twilight;
pub mod snapshot;
pub mod game;
pub mod message;
pub mod turn;
pub mod dispatcher;
pub mod guarantees;
pub mod client;

pub use crate::points::strength;
use crate::cards::{Card, Deck, Hand, DECK_SIZE};
use crate::deck::{full_deck, lemma_full_deck, lemma_no_duplicates_of_occurrences,
    lemma_occurrences_no_duplicates, occurrences, seeded_shuffle};

verus! {

/// Number of hands that a deal serves.
pub const NB_PLAYERS: usize = 2;

/// Number of cards that a deal gives to each hand.
pub const DEAL_SIZE: usize = 9;

/// Number of rounds of a seeded deal; each round gives every hand one card.
pub const SEEDED_DEAL_ROUNDS: usize = 10;

/// Whether hands and source share out the deck: every card of the deck is in
/// exactly one of them, exactly once, and no other card is in any.
pub open spec fn is_deal(hands: Seq<Hand>, source: Seq<Card>) -> bool {
    &&& hands.len() == NB_PLAYERS
    &&& forall|c: Card|
        hands[0].count(c) + hands[1].count(c) + #[trigger] occurrences(source, c) == (if c.in_deck() {
            1nat
        } else {
            0nat
        })
}

/// The cards that `rounds` rounds of one card each give to the hand at `seat`,
/// from a pile whose top is its end: in each round the first hand is served
/// before the second.
pub open spec fn dealt_in_rounds(pile: Seq<Card>, seat: int, rounds: int) -> Seq<Card> {
    Seq::new(rounds as nat, |r: int| pile[pile.len() - 1 - (NB_PLAYERS * r + seat)])
}

/// Whether `card` lies in `pile` at place `rest` or above.
spec fn lies_above(pile: Seq<Card>, rest: int, card: Card) -> bool {
    exists|i: int| rest <= i < pile.len() && pile[i] == card
}

/// When the upper part of a pile without duplicates is shared out between two
/// hands, each card is as often in the hands and the rest as it was in the pile.
proof fn lemma_shared_out(pile: Seq<Card>, rest: int, first: Seq<Card>, second: Seq<Card>, c: Card)
    requires
        pile.no_duplicates(),
        0 <= rest <= pile.len(),
        forall|i: int| rest <= i < pile.len() ==> (first.contains(pile[i]) != second.contains(pile[i])),
        forall|k: int| 0 <= k < first.len() ==> lies_above(pile, rest, #[trigger] first[k]),
        forall|k: int| 0 <= k < second.len() ==> lies_above(pile, rest, #[trigger] second[k]),
    ensures
        (if first.contains(c) {
            1nat
        } else {
            0nat
        }) + (if second.contains(c) {
            1nat
        } else {
            0nat
        }) + occurrences(pile.take(rest), c) == occurrences(pile, c),
{
    let low = pile.take(rest);
    assert(low.no_duplicates());
    lemma_occurrences_no_duplicates(pile, c);
    lemma_occurrences_no_duplicates(low, c);
    if first.contains(c) {
        let k = choose|k: int| 0 <= k < first.len() && first[k] == c;
        assert(lies_above(pile, rest, first[k]));
        let i = choose|i: int| rest <= i < pile.len() && pile[i] == first[k];
        assert(pile.contains(c));
        if low.contains(c) {
            let j = choose|j: int| 0 <= j < low.len() && low[j] == c;
            assert(pile[j] == c);
        }
    }
    if second.contains(c) {
        let k = choose|k: int| 0 <= k < second.len() && second[k] == c;
        assert(lies_above(pile, rest, second[k]));
        let i = choose|i: int| rest <= i < pile.len() && pile[i] == second[k];
        assert(pile.contains(c));
        if low.contains(c) {
            let j = choose|j: int| 0 <= j < low.len() && low[j] == c;
            assert(pile[j] == c);
        }
    }
    if low.contains(c) {
        let j = choose|j: int| 0 <= j < low.len() && low[j] == c;
        assert(pile[j] == c);
    }
    if pile.contains(c) && !first.contains(c) && !second.contains(c) {
        let i = choose|i: int| 0 <= i < pile.len() && pile[i] == c;
        assert(i < rest);
        assert(low[i] == c);
    }
}

/// Deals `DEAL_SIZE` cards from the top of `deck` to each of the hands: the
/// first hand gets the top cards, the second those under them, and what is
/// left is the source.
pub fn deal_from(deck: Deck) -> (dealt: ([Hand; NB_PLAYERS], Deck))
    requires
        deck@.len() >= NB_PLAYERS * DEAL_SIZE,
    ensures
        dealt.1@ == deck@.take(deck@.len() - NB_PLAYERS * DEAL_SIZE),
        forall|seat: int|
            0 <= seat < NB_PLAYERS ==> (#[trigger] dealt.0@[seat])@ == Deck::dealt(
                deck@,
                seat,
                DEAL_SIZE as int,
            ).to_set(),
        deck@.to_multiset() == full_deck().to_multiset() ==> is_deal(dealt.0@, dealt.1@) && forall|
            seat: int,
        | 0 <= seat < NB_PLAYERS ==> (#[trigger] dealt.0@[seat])@.len() == DEAL_SIZE,
{
    let mut hands = [Hand::new();NB_PLAYERS];
    let mut source = deck;
    source.deal_each(&mut hands, DEAL_SIZE);
    proof {
        let pile = deck@;
        let first = Deck::dealt(pile, 0, DEAL_SIZE as int);
        let second = Deck::dealt(pile, 1, DEAL_SIZE as int);
        assert(hands@[0]@ =~= first.to_set());
        assert(hands@[1]@ =~= second.to_set());
        if pile.to_multiset() == full_deck().to_multiset() {
            assert forall|c: Card| occurrences(pile, c) <= 1 by {
                lemma_full_deck(c);
            }
            lemma_no_duplicates_of_occurrences(pile);
            let rest = pile.len() - NB_PLAYERS * DEAL_SIZE;
            assert forall|i: int| rest <= i < pile.len() implies (first.contains(pile[i])
                != second.contains(pile[i])) by {
                if i >= pile.len() - DEAL_SIZE {
                    assert(first[i - (pile.len() - DEAL_SIZE)] == pile[i]);
                    if second.contains(pile[i]) {
                        let k = choose|k: int| 0 <= k < second.len() && second[k] == pile[i];
                        assert(pile[rest + k] == pile[i]);
                    }
                } else {
                    assert(second[i - rest] == pile[i]);
                    if first.contains(pile[i]) {
                        let k = choose|k: int| 0 <= k < first.len() && first[k] == pile[i];
                        assert(pile[pile.len() - DEAL_SIZE + k] == pile[i]);
                    }
                }
            }
            assert forall|k: int| 0 <= k < first.len() implies lies_above(
                pile,
                rest,
                #[trigger] first[k],
            ) by {
                assert(pile[pile.len() - DEAL_SIZE + k] == first[k]);
            }
            assert forall|k: int| 0 <= k < second.len() implies lies_above(
                pile,
                rest,
                #[trigger] second[k],
            ) by {
                assert(pile[rest + k] == second[k]);
            }
            assert forall|c: Card|
                hands@[0].count(c) + hands@[1].count(c) + #[trigger] occurrences(source@, c) == (if c.in_deck() {
                    1nat
                } else {
                    0nat
                }) by {
                lemma_shared_out(pile, rest, first, second, c);
                lemma_full_deck(c);
            }
            assert(first.no_duplicates());
            assert(second.no_duplicates());
            first.unique_seq_to_set();
            second.unique_seq_to_set();
        }
    }
    (hands, source)
}

/// Deals cards to 2 players randomly.
///
/// The deck is shuffled in an order that nothing foretells, and then dealt as
/// `deal_from` does. Whatever the order, hands and source share out the deck.
pub fn deal_hands() -> (dealt: ([Hand; NB_PLAYERS], Deck))
    ensures
        is_deal(dealt.0@, dealt.1@),
        dealt.1@.len() == DECK_SIZE - NB_PLAYERS * DEAL_SIZE,
        forall|seat: int| 0 <= seat < NB_PLAYERS ==> (#[trigger] dealt.0@[seat])@.len() == DEAL_SIZE,
{
    let mut source = Deck::new();
    source.shuffle();
    proof {
        lemma_full_deck(Card::of_id(0));
    }
    deal_from(source)
}

/// Deals `rounds` rounds from the top of `deck`, one card to each hand in each
/// round, the first hand before the second; what is left is the source.
pub fn deal_in_rounds(deck: Deck, rounds: usize) -> (dealt: ([Hand; NB_PLAYERS], Deck))
    requires
        deck@.len() >= NB_PLAYERS * rounds,
    ensures
        dealt.1@ == deck@.take(deck@.len() - NB_PLAYERS * rounds),
        forall|seat: int|
            0 <= seat < NB_PLAYERS ==> (#[trigger] dealt.0@[seat])@ == dealt_in_rounds(
                deck@,
                seat,
                rounds as int,
            ).to_set(),
        deck@.to_multiset() == full_deck().to_multiset() ==> is_deal(dealt.0@, dealt.1@) && forall|
            seat: int,
        | 0 <= seat < NB_PLAYERS ==> (#[trigger] dealt.0@[seat])@.len() == rounds,
{
    let mut hands = [Hand::new();NB_PLAYERS];
    let mut source = deck;
    let ghost pile = deck@;
    let mut round: usize = 0;
    while round < rounds
        invariant
            round <= rounds,
            pile == deck@,
            pile.len() >= NB_PLAYERS * rounds,
            source@ == pile.take(pile.len() - NB_PLAYERS * round),
            forall|seat: int|
                0 <= seat < NB_PLAYERS ==> (#[trigger] hands@[seat])@ == dealt_in_rounds(
                    pile,
                    seat,
                    round as int,
                ).to_set(),
        decreases rounds - round,
    {
        let ghost before = hands@;
        let ghost top = source@;
        source.deal_each(&mut hands, 1);
        proof {
            assert(source@ =~= pile.take(pile.len() - NB_PLAYERS * (round + 1)));
            assert forall|seat: int| 0 <= seat < NB_PLAYERS implies (#[trigger] hands@[seat])@
                == dealt_in_rounds(pile, seat, round + 1).to_set() by {
                let got = Deck::dealt(top, seat, 1);
                let card = pile[pile.len() - 1 - (NB_PLAYERS * round + seat)];
                assert(got =~= seq![card]);
                let was = dealt_in_rounds(pile, seat, round as int);
                let now = dealt_in_rounds(pile, seat, round + 1);
                assert(now =~= was.push(card));
                assert forall|c: Card| now.to_set().contains(c) == was.to_set().union(
                    got.to_set(),
                ).contains(c) by {
                    if now.contains(c) {
                        let k = choose|k: int| 0 <= k < now.len() && now[k] == c;
                        if k < was.len() {
                            assert(was[k] == c);
                        } else {
                            assert(got[0] == c);
                        }
                    }
                    if was.contains(c) {
                        let k = choose|k: int| 0 <= k < was.len() && was[k] == c;
                        assert(now[k] == c);
                    }
                    if got.contains(c) {
                        assert(now[round as int] == c);
                    }
                }
                assert(now.to_set() =~= was.to_set().union(got.to_set()));
            }
        }
        round = round + 1;
    }
    proof {
        let first = dealt_in_rounds(pile, 0, rounds as int);
        let second = dealt_in_rounds(pile, 1, rounds as int);
        if pile.to_multiset() == full_deck().to_multiset() {
            assert forall|c: Card| occurrences(pile, c) <= 1 by {
                lemma_full_deck(c);
            }
            lemma_no_duplicates_of_occurrences(pile);
            let rest = pile.len() - NB_PLAYERS * rounds;
            assert forall|k: int| 0 <= k < first.len() implies lies_above(
                pile,
                rest,
                #[trigger] first[k],
            ) by {
                assert(pile[pile.len() - 1 - (NB_PLAYERS * k + 0)] == first[k]);
            }
            assert forall|k: int| 0 <= k < second.len() implies lies_above(
                pile,
                rest,
                #[trigger] second[k],
            ) by {
                assert(pile[pile.len() - 1 - (NB_PLAYERS * k + 1)] == second[k]);
            }
            assert forall|i: int| rest <= i < pile.len() implies (first.contains(pile[i])
                != second.contains(pile[i])) by {
                let back = pile.len() - 1 - i;
                let r = back / 2;
                if back % 2 == 0 {
                    assert(first[r] == pile[i]);
                    if second.contains(pile[i]) {
                        let k = choose|k: int| 0 <= k < second.len() && second[k] == pile[i];
                        assert(pile[pile.len() - 1 - (NB_PLAYERS * k + 1)] == pile[i]);
                    }
                } else {
                    assert(second[r] == pile[i]);
                    if first.contains(pile[i]) {
                        let k = choose|k: int| 0 <= k < first.len() && first[k] == pile[i];
                        assert(pile[pile.len() - 1 - (NB_PLAYERS * k + 0)] == pile[i]);
                    }
                }
            }
            assert forall|c: Card|
                hands@[0].count(c) + hands@[1].count(c) + #[trigger] occurrences(source@, c) == (if c.in_deck() {
                    1nat
                } else {
                    0nat
                }) by {
                lemma_shared_out(pile, rest, first, second, c);
                lemma_full_deck(c);
            }
            assert(first.no_duplicates());
            assert(second.no_duplicates());
            first.unique_seq_to_set();
            second.unique_seq_to_set();
        }
    }
    (hands, source)
}

/// Deal cards deterministically.
///
/// The deck is put in the order that `seed` gives it, and then dealt in
/// `SEEDED_DEAL_ROUNDS` rounds as `deal_in_rounds` does: the same seed gives
/// the same hands and the same source.
pub fn deal_seeded_hands(seed: [u8; 32]) -> (dealt: ([Hand; NB_PLAYERS], Deck))
    ensures
        dealt.1@ == seeded_shuffle(seed@, full_deck()).take(
            DECK_SIZE - NB_PLAYERS * SEEDED_DEAL_ROUNDS,
        ),
        forall|seat: int|
            0 <= seat < NB_PLAYERS ==> (#[trigger] dealt.0@[seat])@ == dealt_in_rounds(
                seeded_shuffle(seed@, full_deck()),
                seat,
                SEEDED_DEAL_ROUNDS as int,
            ).to_set(),
        is_deal(dealt.0@, dealt.1@),
        forall|seat: int|
            0 <= seat < NB_PLAYERS ==> (#[trigger] dealt.0@[seat])@.len() == SEEDED_DEAL_ROUNDS,
{
    let mut source = Deck::new();
    source.shuffle_seeded(seed);
    proof {
        lemma_full_deck(Card::of_id(0));
    }
    deal_in_rounds(source, SEEDED_DEAL_ROUNDS)
}

} // verus!
