//! The strength of the cards.
use vstd::prelude::*;
use crate::cards::{Card, Rank};

verus! {

/// The strength of a rank: the number cards are worth their number, and the
/// jack, the queen and the king are worth one, two and three.
pub open spec fn rank_strength(rank: Rank) -> int {
    match rank {
        Rank::Rank1 => 1,
        Rank::Rank2 => 2,
        Rank::Rank3 => 3,
        Rank::Rank4 => 4,
        Rank::Rank5 => 5,
        Rank::Rank6 => 6,
        Rank::Rank7 => 7,
        Rank::Rank8 => 8,
        Rank::Rank9 => 9,
        Rank::Rank10 => 10,
        Rank::RankJ => 1,
        Rank::RankQ => 2,
        Rank::RankK => 3,
    }
}

/// The strength of a card is that of its rank, whatever its suit.
pub open spec fn spec_strength(card: Card) -> int {
    rank_strength(card.rank)
}

/// Returns the strength of `card`.
pub fn strength(card: Card) -> (s: i32)
    ensures
        s == spec_strength(card),
        1 <= s <= 10,
{
    let rank = card.rank();
    match rank {
        Rank::Rank1 => 1,
        Rank::Rank2 => 2,
        Rank::Rank3 => 3,
        Rank::Rank4 => 4,
        Rank::Rank5 => 5,
        Rank::Rank6 => 6,
        Rank::Rank7 => 7,
        Rank::Rank8 => 8,
        Rank::Rank9 => 9,
        Rank::Rank10 => 10,
        Rank::RankJ => 1,
        Rank::RankQ => 2,
        Rank::RankK => 3,
    }
}

} // verus!
