//! Cards, hands and decks.
use vstd::prelude::*;
use vstd::string::StringExecFns;
pub use crate::deck::{Deck, DeckError};
pub use crate::hand::Hand;

verus! {

/// The four resource categories of a being, and the jokers' own suit.
#[derive(Clone, Copy, Debug, PartialEq, Eq, Structural, Hash)]
pub enum Suit {
    Heart,
    Spade,
    Diamond,
    Club,
    Joker,
}

/// Number of suits, the jokers' included.
pub const NB_SUITS: usize = 5;

impl Suit {
    /// Position of the suit in the deck's order.
    pub open spec fn index(self) -> int {
        match self {
            Suit::Heart => 0,
            Suit::Spade => 1,
            Suit::Diamond => 2,
            Suit::Club => 3,
            Suit::Joker => 4,
        }
    }

    /// The suit at position `n`; positions past the last are the jokers'.
    pub open spec fn of_index(n: int) -> Suit {
        if n == 0 {
            Suit::Heart
        } else if n == 1 {
            Suit::Spade
        } else if n == 2 {
            Suit::Diamond
        } else if n == 3 {
            Suit::Club
        } else {
            Suit::Joker
        }
    }

    pub fn to_n(self) -> (n: usize)
        ensures
            n == self.index(),
            n < NB_SUITS,
    {
        match self {
            Suit::Heart => 0,
            Suit::Spade => 1,
            Suit::Diamond => 2,
            Suit::Club => 3,
            Suit::Joker => 4,
        }
    }

    pub fn from_n(n: usize) -> (s: Suit)
        ensures
            s == Suit::of_index(n as int),
            n < NB_SUITS ==> s.index() == n,
    {
        if n == 0 {
            Suit::Heart
        } else if n == 1 {
            Suit::Spade
        } else if n == 2 {
            Suit::Diamond
        } else if n == 3 {
            Suit::Club
        } else {
            Suit::Joker
        }
    }

    /// The suit's name, fit for a file name.
    pub open spec fn name(self) -> Seq<char> {
        match self {
            Suit::Heart => "heart"@,
            Suit::Spade => "spade"@,
            Suit::Diamond => "diamond"@,
            Suit::Club => "club"@,
            Suit::Joker => "joker"@,
        }
    }

    pub fn to_safe_string(self) -> (s: String)
        ensures
            s@ == self.name(),
    {
        match self {
            Suit::Heart => String::from_str("heart"),
            Suit::Spade => String::from_str("spade"),
            Suit::Diamond => String::from_str("diamond"),
            Suit::Club => String::from_str("club"),
            Suit::Joker => String::from_str("joker"),
        }
    }

    /// One letter for the suit.
    pub open spec fn letter(self) -> Seq<char> {
        match self {
            Suit::Heart => "H"@,
            Suit::Spade => "S"@,
            Suit::Diamond => "D"@,
            Suit::Club => "C"@,
            Suit::Joker => "*"@,
        }
    }

    pub fn to_string(self) -> (s: String)
        ensures
            s@ == self.letter(),
    {
        match self {
            Suit::Heart => String::from_str("H"),
            Suit::Spade => String::from_str("S"),
            Suit::Diamond => String::from_str("D"),
            Suit::Club => String::from_str("C"),
            Suit::Joker => String::from_str("*"),
        }
    }
}

/// The thirteen ranks of a suit. The jokers are the first two ranks of theirs.
#[derive(Clone, Copy, Debug, PartialEq, Eq, Structural, Hash)]
pub enum Rank {
    Rank1,
    Rank2,
    Rank3,
    Rank4,
    Rank5,
    Rank6,
    Rank7,
    Rank8,
    Rank9,
    Rank10,
    RankJ,
    RankQ,
    RankK,
}

/// Number of ranks in a suit.
pub const NB_RANKS: usize = 13;

impl Rank {
    /// Position of the rank in its suit.
    pub open spec fn index(self) -> int {
        match self {
            Rank::Rank1 => 0,
            Rank::Rank2 => 1,
            Rank::Rank3 => 2,
            Rank::Rank4 => 3,
            Rank::Rank5 => 4,
            Rank::Rank6 => 5,
            Rank::Rank7 => 6,
            Rank::Rank8 => 7,
            Rank::Rank9 => 8,
            Rank::Rank10 => 9,
            Rank::RankJ => 10,
            Rank::RankQ => 11,
            Rank::RankK => 12,
        }
    }

    /// The rank at position `n`; positions past the last are the king's.
    pub open spec fn of_index(n: int) -> Rank {
        if n == 0 {
            Rank::Rank1
        } else if n == 1 {
            Rank::Rank2
        } else if n == 2 {
            Rank::Rank3
        } else if n == 3 {
            Rank::Rank4
        } else if n == 4 {
            Rank::Rank5
        } else if n == 5 {
            Rank::Rank6
        } else if n == 6 {
            Rank::Rank7
        } else if n == 7 {
            Rank::Rank8
        } else if n == 8 {
            Rank::Rank9
        } else if n == 9 {
            Rank::Rank10
        } else if n == 10 {
            Rank::RankJ
        } else if n == 11 {
            Rank::RankQ
        } else {
            Rank::RankK
        }
    }

    pub fn to_n(self) -> (n: usize)
        ensures
            n == self.index(),
            n < NB_RANKS,
    {
        match self {
            Rank::Rank1 => 0,
            Rank::Rank2 => 1,
            Rank::Rank3 => 2,
            Rank::Rank4 => 3,
            Rank::Rank5 => 4,
            Rank::Rank6 => 5,
            Rank::Rank7 => 6,
            Rank::Rank8 => 7,
            Rank::Rank9 => 8,
            Rank::Rank10 => 9,
            Rank::RankJ => 10,
            Rank::RankQ => 11,
            Rank::RankK => 12,
        }
    }

    pub fn from_n(n: usize) -> (r: Rank)
        ensures
            r == Rank::of_index(n as int),
            n < NB_RANKS ==> r.index() == n,
    {
        if n == 0 {
            Rank::Rank1
        } else if n == 1 {
            Rank::Rank2
        } else if n == 2 {
            Rank::Rank3
        } else if n == 3 {
            Rank::Rank4
        } else if n == 4 {
            Rank::Rank5
        } else if n == 5 {
            Rank::Rank6
        } else if n == 6 {
            Rank::Rank7
        } else if n == 7 {
            Rank::Rank8
        } else if n == 8 {
            Rank::Rank9
        } else if n == 9 {
            Rank::Rank10
        } else if n == 10 {
            Rank::RankJ
        } else if n == 11 {
            Rank::RankQ
        } else {
            Rank::RankK
        }
    }

    /// The rank as it is printed on the card.
    pub open spec fn label(self) -> Seq<char> {
        match self {
            Rank::Rank1 => "1"@,
            Rank::Rank2 => "2"@,
            Rank::Rank3 => "3"@,
            Rank::Rank4 => "4"@,
            Rank::Rank5 => "5"@,
            Rank::Rank6 => "6"@,
            Rank::Rank7 => "7"@,
            Rank::Rank8 => "8"@,
            Rank::Rank9 => "9"@,
            Rank::Rank10 => "10"@,
            Rank::RankJ => "J"@,
            Rank::RankQ => "Q"@,
            Rank::RankK => "K"@,
        }
    }

    pub fn to_string(self) -> (s: String)
        ensures
            s@ == self.label(),
    {
        match self {
            Rank::Rank1 => String::from_str("1"),
            Rank::Rank2 => String::from_str("2"),
            Rank::Rank3 => String::from_str("3"),
            Rank::Rank4 => String::from_str("4"),
            Rank::Rank5 => String::from_str("5"),
            Rank::Rank6 => String::from_str("6"),
            Rank::Rank7 => String::from_str("7"),
            Rank::Rank8 => String::from_str("8"),
            Rank::Rank9 => String::from_str("9"),
            Rank::Rank10 => String::from_str("10"),
            Rank::RankJ => String::from_str("J"),
            Rank::RankQ => String::from_str("Q"),
            Rank::RankK => String::from_str("K"),
        }
    }
}

/// Number of cards in the deck: four suits of thirteen, and two jokers.
pub const DECK_SIZE: usize = 54;

/// Number of pairs of a suit and a rank.
pub const NB_CARDS: usize = 65;

/// A card: a rank in a suit.
///
/// Every pair is a card, but only those with an `id` under `DECK_SIZE` are
/// in the deck: of the jokers' suit, the first two ranks.
#[derive(Clone, Copy, Debug, PartialEq, Eq, Structural, Hash)]
pub struct Card {
    pub suit: Suit,
    pub rank: Rank,
}

impl Card {
    /// The card's number: suits in order, and the ranks in order within each.
    pub open spec fn spec_id(self) -> int {
        self.suit.index() * 13 + self.rank.index()
    }

    /// The card with number `id`.
    pub open spec fn of_id(id: int) -> Card {
        Card { suit: Suit::of_index(id / 13), rank: Rank::of_index(id % 13) }
    }

    /// Whether the card is one of the deck.
    pub open spec fn in_deck(self) -> bool {
        self.spec_id() < DECK_SIZE
    }

    pub fn new(suit: Suit, rank: Rank) -> (c: Card)
        ensures
            c == (Card { suit, rank }),
    {
        Card { suit, rank }
    }

    pub fn id(self) -> (n: u32)
        ensures
            n == self.spec_id(),
            n < NB_CARDS,
    {
        let n: usize = self.suit.to_n() * 13 + self.rank.to_n();
        n as u32
    }

    pub fn from_id(id: u32) -> (c: Card)
        requires
            id < NB_CARDS,
        ensures
            c == Card::of_id(id as int),
            c.spec_id() == id,
    {
        let n: usize = id as usize;
        Card { suit: Suit::from_n(n / 13), rank: Rank::from_n(n % 13) }
    }

    pub fn suit(self) -> (s: Suit)
        ensures
            s == self.suit,
    {
        self.suit
    }

    pub fn rank(self) -> (r: Rank)
        ensures
            r == self.rank,
    {
        self.rank
    }

    /// The rank's label followed by the suit's letter.
    pub open spec fn label(self) -> Seq<char> {
        self.rank.label() + self.suit.letter()
    }

    pub fn to_string(self) -> (s: String)
        ensures
            s@ == self.label(),
    {
        let suit = self.suit.to_string();
        self.rank.to_string().concat(suit.as_str())
    }

    /// A card is the card of its number.
    pub proof fn lemma_of_id_spec_id(self)
        ensures
            0 <= self.spec_id() < NB_CARDS,
            Card::of_id(self.spec_id()) == self,
    {
    }
}

} // verus!
