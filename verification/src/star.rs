//! A star: a player's board, with a hand and the beings attached to it.
use vstd::prelude::*;
use crate::being::{Being, BeingSnapshot};
use crate::cards::{Card, Hand};
use crate::pos::PlayerPos;

verus! {

/// The majesty that a star starts with.
pub const START_MAJESTY: u8 = 36;

/// How often the beings of `beings` hold `card`, all together.
pub open spec fn beings_count(beings: Seq<Being>, card: Card) -> nat
    decreases beings.len(),
{
    if beings.len() == 0 {
        0
    } else {
        beings_count(beings.drop_last(), card) + beings.last().count(card)
    }
}

/// A star
#[derive(Clone, Debug)]
pub struct Star {
    pos: PlayerPos,
    majesty: u8,
    hand: Hand,
    beings: Vec<Being>,
}

/// A star as one player sees it: the hand's size for all, the hand itself for
/// its owner alone, and each being as `BeingSnapshot` shows it.
#[derive(Clone, Debug, PartialEq, Eq)]
pub struct StarSnapshot {
    pub pos: PlayerPos,
    pub majesty: u8,
    pub hand_count: u8,
    pub hand: Option<Hand>,
    pub beings: Vec<BeingSnapshot>,
}

impl StarSnapshot {
    pub fn get_pos(&self) -> (pos: PlayerPos)
        ensures
            pos == self.pos,
    {
        self.pos
    }

    pub fn get_majesty(&self) -> (majesty: u8)
        ensures
            majesty == self.majesty,
    {
        self.majesty
    }
}

impl Star {
    /// The star's seat.
    pub closed spec fn spec_pos(self) -> PlayerPos {
        self.pos
    }

    /// The star's majesty.
    pub closed spec fn spec_majesty(self) -> u8 {
        self.majesty
    }

    /// The star's hand.
    pub closed spec fn spec_hand(self) -> Hand {
        self.hand
    }

    /// The star's beings, in the order in which they came.
    pub closed spec fn beings(self) -> Seq<Being> {
        self.beings@
    }

    /// How often the star holds `card`: in its hand or with one of its beings.
    pub open spec fn count(self, card: Card) -> nat {
        self.spec_hand().count(card) + beings_count(self.beings(), card)
    }

    /// Whether `seen` is what a player sees of the star when the cards of
    /// `revealed` are public. The owner (`with_hand`) is shown the hand; anyone
    /// else only its size. A being's resource shows its card only if the card
    /// is revealed.
    pub open spec fn seen_as(self, with_hand: bool, revealed: Seq<Card>, seen: StarSnapshot) -> bool {
        &&& seen.pos == self.spec_pos()
        &&& seen.majesty == self.spec_majesty()
        &&& seen.hand_count == self.spec_hand()@.len()
        &&& seen.hand == (if with_hand {
            Some(self.spec_hand())
        } else {
            None
        })
        &&& seen.beings@.len() == self.beings().len()
        &&& forall|i: int|
            0 <= i < self.beings().len() ==> (#[trigger] self.beings()[i]).seen_as(
                revealed,
                seen.beings@[i],
            )
    }

    pub fn new(pos: PlayerPos, hand: Hand) -> (star: Star)
        ensures
            star.spec_pos() == pos,
            star.spec_majesty() == START_MAJESTY,
            star.spec_hand() == hand,
            star.beings() == Seq::<Being>::empty(),
    {
        Star { pos, majesty: START_MAJESTY, hand, beings: Vec::new() }
    }

    pub fn get_hand(&self) -> (hand: Hand)
        ensures
            hand == self.spec_hand(),
    {
        self.hand
    }

    pub fn get_pos(&self) -> (pos: PlayerPos)
        ensures
            pos == self.spec_pos(),
    {
        self.pos
    }

    pub fn majesty(&self) -> (majesty: u8)
        ensures
            majesty == self.spec_majesty(),
    {
        self.majesty
    }

    /// Number of beings attached to the star.
    pub fn beings_len(&self) -> (n: usize)
        ensures
            n == self.beings().len(),
    {
        self.beings.len()
    }

    /// Puts `card` into the star's hand.
    pub fn add_to_hand(&mut self, card: Card)
        ensures
            final(self).spec_hand()@ == old(self).spec_hand()@.insert(card),
            final(self).spec_pos() == old(self).spec_pos(),
            final(self).spec_majesty() == old(self).spec_majesty(),
            final(self).beings() == old(self).beings(),
    {
        self.hand.add(card);
    }

    /// Takes `card` out of the star's hand.
    pub fn remove_from_hand(&mut self, card: Card)
        ensures
            final(self).spec_hand()@ == old(self).spec_hand()@.remove(card),
            final(self).spec_pos() == old(self).spec_pos(),
            final(self).spec_majesty() == old(self).spec_majesty(),
            final(self).beings() == old(self).beings(),
    {
        self.hand.remove(card);
    }

    /// Attaches `being` to the star, after those it has.
    pub fn add_being(&mut self, being: Being)
        ensures
            final(self).beings() == old(self).beings().push(being),
            final(self).spec_hand() == old(self).spec_hand(),
            final(self).spec_pos() == old(self).spec_pos(),
            final(self).spec_majesty() == old(self).spec_majesty(),
    {
        self.beings.push(being);
    }

    pub fn pos(&self) -> (pos: PlayerPos)
        ensures
            pos == self.spec_pos(),
    {
        self.pos
    }

    /// The star as a player sees it: with the hand itself if `with_hand`, and
    /// with the resources of its beings shown only where their card is among
    /// `revealed`.
    pub fn make_snapshot(&self, with_hand: bool, revealed: &Vec<Card>) -> (seen: StarSnapshot)
        ensures
            self.seen_as(with_hand, revealed@, seen),
    {
        let hand = if with_hand {
            Some(self.hand)
        } else {
            None
        };
        let mut beings: Vec<BeingSnapshot> = Vec::new();
        let mut i: usize = 0;
        while i < self.beings.len()
            invariant
                i <= self.beings.len(),
                beings@.len() == i,
                forall|k: int|
                    0 <= k < i ==> (#[trigger] self.beings@[k]).seen_as(revealed@, beings@[k]),
            decreases self.beings.len() - i,
        {
            beings.push(self.beings[i].make_snapshot(revealed));
            i = i + 1;
        }
        let size: usize = self.hand.size();
        StarSnapshot { pos: self.pos, majesty: self.majesty, hand_count: size as u8, hand, beings }
    }
}

} // verus!
