//! A trick: one card from each seat, and the seat that wins them.
use vstd::prelude::*;
use crate::cards::{Card, Suit};
use crate::points::{spec_strength, strength};
use crate::pos::{AbsolutePos, PlayerPos, MAX_PLAYERS};

verus! {

/// The current cards on the table.
#[derive(Clone, Copy, Debug, PartialEq, Eq)]
pub struct Trick {
    /// Cards currently on the table, by seat (they are `None` until played).
    pub cards: [Option<Card>; MAX_PLAYERS],
    /// First player in this trick.
    pub first: PlayerPos,
    /// Current winner of the trick (updated after each card played).
    pub winner: PlayerPos,
}

impl Trick {
    /// The card that `pos` has on the table, if any.
    pub open spec fn slot(self, pos: PlayerPos) -> Option<Card> {
        self.cards@[pos.index()]
    }

    /// Whether the seat with number `seat` has `card` on the table.
    pub open spec fn played_at(self, seat: int, card: Card) -> bool {
        0 <= seat < MAX_PLAYERS && self.cards@[seat] == Some(card)
    }

    /// Whether `card` is on the table.
    pub open spec fn holds(self, card: Card) -> bool {
        exists|seat: int| self.played_at(seat, card)
    }

    /// The winner once `player` has put down `card`. The first seat of the trick
    /// wins until a later seat puts down a card that is strictly stronger than
    /// the winner's; a card also beats a winner that has none on the table.
    pub open spec fn winner_after(self, player: PlayerPos, card: Card) -> PlayerPos {
        if player == self.first {
            self.winner
        } else {
            match self.slot(self.winner) {
                Some(best) => if spec_strength(card) > spec_strength(best) {
                    player
                } else {
                    self.winner
                },
                None => player,
            }
        }
    }

    /// Whether `next` is the trick `self` once `player` has put down `card`: the
    /// card lies at the player's seat, the other seats are as they were, and the
    /// winner is brought up to date.
    pub open spec fn played(self, player: PlayerPos, card: Card, next: Trick) -> bool {
        &&& next.cards@ == self.cards@.update(player.index(), Some(card))
        &&& next.first == self.first
        &&& next.winner == self.winner_after(player, card)
    }

    /// Whether a card from `player` completes the trick: the seat before the
    /// first has played.
    pub open spec fn completed_by(self, player: PlayerPos) -> bool {
        player == self.first.spec_prev()
    }

    /// Creates a new, empty trick.
    pub fn new(first: PlayerPos) -> (t: Trick)
        ensures
            t.first == first,
            t.winner == first,
            forall|seat: int| 0 <= seat < MAX_PLAYERS ==> t.cards@[seat] == None::<Card>,
    {
        Trick { first, winner: first, cards: [None;MAX_PLAYERS] }
    }

    /// Creates a default trick: empty, at a table of two, led by the first seat.
    pub fn default() -> (t: Trick)
        ensures
            t.first == PlayerPos::seat(0, 2),
            t.winner == t.first,
            forall|seat: int| 0 <= seat < MAX_PLAYERS ==> t.cards@[seat] == None::<Card>,
    {
        let default = PlayerPos::from_n(0, 2);
        Trick { first: default, winner: default, cards: [None;MAX_PLAYERS] }
    }

    /// The card that `pos` has played, if any.
    pub fn card_played(&self, pos: PlayerPos) -> (c: Option<Card>)
        ensures
            c == self.slot(pos),
    {
        self.cards[pos.to_n()]
    }

    /// Returns the player who played a card: the lowest seat that has it on the
    /// table.
    pub fn player_played(&self, card: Card) -> (p: Option<AbsolutePos>)
        ensures
            p is None <==> !self.holds(card),
            p matches Some(seat) ==> self.played_at(seat.index(), card) && forall|lower: int|
                0 <= lower < seat.index() ==> !self.played_at(lower, card),
    {
        let mut idx: usize = 0;
        while idx < MAX_PLAYERS
            invariant
                idx <= MAX_PLAYERS,
                forall|lower: int| 0 <= lower < idx ==> !self.played_at(lower, card),
            decreases MAX_PLAYERS - idx,
        {
            if let Some(c) = self.cards[idx] {
                if c == card {
                    assert(self.played_at(idx as int, card));
                    return Some(PlayerPos::from_n(idx, MAX_PLAYERS as u8).pos);
                }
            }
            idx = idx + 1;
        }
        None
    }

    /// Returns `true` if `self` contains `card`.
    pub fn has(self, card: Card) -> (b: bool)
        ensures
            b == self.holds(card),
    {
        self.player_played(card).is_some()
    }

    /// Plays a card.
    ///
    /// Updates the winner.
    ///
    /// Returns `true` if this completes the trick.
    pub fn play_card(&mut self, player: PlayerPos, card: Card) -> (done: bool)
        requires
            old(self).first.wf(),
        ensures
            old(self).played(player, card, *final(self)),
            done == old(self).completed_by(player),
    {
        let winner = if player == self.first {
            self.winner
        } else {
            match self.cards[self.winner.to_n()] {
                Some(best) => if strength(card) > strength(best) {
                    player
                } else {
                    self.winner
                },
                None => player,
            }
        };
        self.cards[player.to_n()] = Some(card);
        self.winner = winner;
        player == self.first.prev()
    }

    /// Returns the starting suit for this trick.
    ///
    /// Returns `None` if the trick hasn't started yet.
    pub fn suit(&self) -> (s: Option<Suit>)
        ensures
            s == match self.slot(self.first) {
                Some(c) => Some(c.suit),
                None => None,
            },
    {
        match self.cards[self.first.to_n()] {
            Some(c) => Some(c.suit()),
            None => None,
        }
    }
}

} // verus!
