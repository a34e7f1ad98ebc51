//! The twilight: the draw that finds the seat that plays first.
//!
//! Round after round every star draws a card from the top of the source, until
//! one round has a single strongest card or the source runs out.
use vstd::prelude::*;
use crate::cards::Card;
use crate::points::spec_strength;
use crate::pos::PlayerPos;
use crate::star::Star;
use crate::status::StarsCards;

verus! {

/// How often the stars hold `card`, all together.
pub open spec fn stars_count(stars: Seq<(u128, Star)>, card: Card) -> nat
    decreases stars.len(),
{
    if stars.len() == 0 {
        0
    } else {
        stars_count(stars.drop_last(), card) + stars.last().1.count(card)
    }
}

/// Each star's share of the cards is part of what the stars hold together, and
/// a change to one star changes the whole by as much.
pub proof fn lemma_stars_count_update(stars: Seq<(u128, Star)>, at: int, entry: (u128, Star), card: Card)
    requires
        0 <= at < stars.len(),
    ensures
        stars_count(stars.update(at, entry), card) + stars[at].1.count(card) == stars_count(
            stars,
            card,
        ) + entry.1.count(card),
        stars[at].1.count(card) <= stars_count(stars, card),
    decreases stars.len(),
{
    let after = stars.update(at, entry);
    if at == stars.len() - 1 {
        assert(after.drop_last() =~= stars.drop_last());
    } else {
        lemma_stars_count_update(stars.drop_last(), at, entry, card);
        assert(after.drop_last() =~= stars.drop_last().update(at, entry));
    }
}

/// Whether `after` is the star `before` with the cards of `hand` in its hand and
/// nothing else changed.
pub open spec fn star_with(before: (u128, Star), after: (u128, Star), hand: Set<Card>) -> bool {
    &&& after.0 == before.0
    &&& after.1.spec_pos() == before.1.spec_pos()
    &&& after.1.spec_majesty() == before.1.spec_majesty()
    &&& after.1.beings() == before.1.beings()
    &&& after.1.spec_hand()@ == hand
}

/// The seats of the stars, in the stars' order.
pub open spec fn star_seats(stars: Seq<(u128, Star)>) -> Seq<PlayerPos> {
    Seq::new(stars.len(), |i: int| stars[i].1.spec_pos())
}

/// The card that the twilight gives to star `i` of `n` in the round that begins
/// when `drawn` cards have left the pile: the top goes to the first star, the
/// card under it to the second, and so on.
pub open spec fn twilight_card(pile: Seq<Card>, drawn: int, i: int) -> Card {
    pile[pile.len() - 1 - (drawn + i)]
}

/// The card that the twilight gives to star `i` of `n` in round `r`, the first
/// round being round 0.
pub open spec fn round_card(pile: Seq<Card>, n: int, r: int, i: int) -> Card {
    twilight_card(pile, r * n, i)
}

/// Whether star `i` of `n` has the single strongest card of the round that
/// begins when `drawn` cards have left the pile.
pub open spec fn leads_round(pile: Seq<Card>, n: int, drawn: int, i: int) -> bool {
    &&& 0 <= i < n
    &&& forall|j: int|
        0 <= j < n && j != i ==> spec_strength(#[trigger] twilight_card(pile, drawn, j))
            < spec_strength(twilight_card(pile, drawn, i))
}

/// Whether the round that begins when `drawn` cards have left the pile has a
/// single strongest card.
pub open spec fn round_decided(pile: Seq<Card>, n: int, drawn: int) -> bool {
    exists|i: int| leads_round(pile, n, drawn, i)
}

/// The star that has the single strongest card of a decided round.
pub open spec fn round_leader(pile: Seq<Card>, n: int, drawn: int) -> int {
    choose|i: int| leads_round(pile, n, drawn, i)
}

/// Number of rounds that the twilight still draws for `n` stars when `drawn`
/// cards have left the pile. A round is drawn while the pile has a card for each
/// star; the round that has a single strongest card is the last.
pub open spec fn rounds_from(pile: Seq<Card>, n: int, drawn: int) -> nat
    decreases pile.len() - drawn,
{
    if n <= 0 || drawn < 0 || pile.len() - drawn < n {
        0
    } else if round_decided(pile, n, drawn) {
        1
    } else {
        1 + rounds_from(pile, n, drawn + n)
    }
}

/// Number of rounds that the twilight draws from `pile` for `n` stars.
pub open spec fn twilight_rounds(pile: Seq<Card>, n: int) -> nat {
    rounds_from(pile, n, 0)
}

/// The seat that the twilight finds to play first: the one with the single
/// strongest card of the last round, if that round has one.
pub open spec fn twilight_first(pile: Seq<Card>, seats: Seq<PlayerPos>) -> Option<PlayerPos> {
    let n = seats.len() as int;
    let k = twilight_rounds(pile, n) as int;
    if k > 0 && round_decided(pile, n, (k - 1) * n) {
        Some(seats[round_leader(pile, n, (k - 1) * n)])
    } else {
        None
    }
}

/// Whether `round` notes the cards of round `r` of the twilight: for each star's
/// seat the card that the star drew, and no other seat.
pub open spec fn is_round(pile: Seq<Card>, seats: Seq<PlayerPos>, count: u8, r: int, round: StarsCards) -> bool {
    &&& round.count == count
    &&& forall|i: int|
        0 <= i < seats.len() ==> round@.dom().contains(#[trigger] seats[i]) && round@[seats[i]]
            == round_card(pile, seats.len() as int, r, i)
    &&& forall|pos: PlayerPos| round@.dom().contains(pos) ==> seats.contains(pos)
}

/// The cards that star `i` draws in the first `rounds` rounds of the twilight.
pub open spec fn twilight_draws(pile: Seq<Card>, n: int, i: int, rounds: int) -> Set<Card> {
    Set::new(|c: Card| exists|r: int| 0 <= r < rounds && c == #[trigger] round_card(pile, n, r, i))
}

} // verus!
