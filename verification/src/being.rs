//! A being: a face card with the resources that a star has bound to it.
use vstd::prelude::*;
use crate::cards::{Card, Suit, NB_SUITS};

verus! {

/// Whether `card` is among the revealed cards.
pub fn is_revealed(revealed: &Vec<Card>, card: Card) -> (b: bool)
    ensures
        b == revealed@.contains(card),
{
    let mut i: usize = 0;
    while i < revealed.len()
        invariant
            i <= revealed.len(),
            forall|k: int| 0 <= k < i ==> revealed@[k] != card,
        decreases revealed.len() - i,
    {
        if revealed[i] == card {
            return true;
        }
        i = i + 1;
    }
    false
}

/// What an onlooker sees of a resource slot: nothing where the slot is empty,
/// that there is a card where it is concealed, and the card once it is revealed.
pub open spec fn redacted_slot(slot: Option<Card>, revealed: Seq<Card>) -> Option<Option<Card>> {
    match slot {
        None => None,
        Some(card) => if revealed.contains(card) {
            Some(Some(card))
        } else {
            Some(None)
        },
    }
}

/// How often `slot` holds `card`.
pub open spec fn slot_count(slot: Option<Card>, card: Card) -> nat {
    if slot == Some(card) {
        1
    } else {
        0
    }
}

/// A being
#[derive(Clone, Copy, Debug, PartialEq, Eq)]
pub struct Being {
    face: Card,
    resources: [Option<Card>; NB_SUITS],
    loved_one: Option<Card>,
}

/// A being as an onlooker sees it. Each resource slot is `None` where the being
/// has no resource of that suit, `Some(None)` where it has one that is still
/// concealed, and `Some(Some(card))` where the resource is revealed.
#[derive(Clone, Copy, Debug, PartialEq, Eq)]
pub struct BeingSnapshot {
    pub face: Card,
    pub resources: [Option<Option<Card>>; NB_SUITS],
}

impl BeingSnapshot {
    /// What is seen of the resource of `suit`.
    pub open spec fn slot(self, suit: Suit) -> Option<Option<Card>> {
        self.resources@[suit.index()]
    }

    /// What is seen of the resource of `suit`.
    pub fn get(&self, suit: Suit) -> (seen: Option<Option<Card>>)
        ensures
            seen == self.slot(suit),
    {
        self.resources[suit.to_n()]
    }
}

impl Being {
    /// The being's face card.
    pub closed spec fn spec_face(self) -> Card {
        self.face
    }

    /// The resource that the being has of `suit`, if any.
    pub closed spec fn resource(self, suit: Suit) -> Option<Card> {
        self.resources@[suit.index()]
    }

    /// The one that the being loves, if any.
    pub closed spec fn spec_loved_one(self) -> Option<Card> {
        self.loved_one
    }

    /// How often the being holds `card`: as its face, as a resource or as its
    /// loved one.
    pub open spec fn count(self, card: Card) -> nat {
        slot_count(Some(self.spec_face()), card) + slot_count(self.resource(Suit::Heart), card)
            + slot_count(self.resource(Suit::Spade), card) + slot_count(
            self.resource(Suit::Diamond),
            card,
        ) + slot_count(self.resource(Suit::Club), card) + slot_count(
            self.resource(Suit::Joker),
            card,
        ) + slot_count(self.spec_loved_one(), card)
    }

    /// Whether `seen` is what an onlooker sees of the being when the cards of
    /// `revealed` are public: its face, and of each resource what
    /// `redacted_slot` lets through.
    pub open spec fn seen_as(self, revealed: Seq<Card>, seen: BeingSnapshot) -> bool {
        &&& seen.face == self.spec_face()
        &&& forall|suit: Suit| #[trigger]
            seen.slot(suit) == redacted_slot(self.resource(suit), revealed)
    }

    /// A being with no resource yet.
    pub fn new(face: Card) -> (b: Being)
        ensures
            b.spec_face() == face,
            b.spec_loved_one() is None,
            forall|suit: Suit| #[trigger] b.resource(suit) is None,
    {
        Being { face, resources: [None;NB_SUITS], loved_one: None }
    }

    /// Binds `card` to the being as its resource of `suit`, in place of the one it
    /// had there.
    pub fn set_resource(&mut self, suit: Suit, card: Card)
        ensures
            final(self).spec_face() == old(self).spec_face(),
            final(self).spec_loved_one() == old(self).spec_loved_one(),
            final(self).resource(suit) == Some(card),
            forall|other: Suit| other != suit ==> final(self).resource(other) == old(self).resource(other),
    {
        self.resources[suit.to_n()] = Some(card);
    }

    /// Gives the being the one it loves, in place of the one it had.
    pub fn set_loved_one(&mut self, card: Card)
        ensures
            final(self).spec_face() == old(self).spec_face(),
            final(self).spec_loved_one() == Some(card),
            forall|suit: Suit| final(self).resource(suit) == old(self).resource(suit),
    {
        self.loved_one = Some(card);
    }

    pub fn face(&self) -> (c: Card)
        ensures
            c == self.spec_face(),
    {
        self.face
    }

    pub fn loved_one(&self) -> (c: Option<Card>)
        ensures
            c == self.spec_loved_one(),
    {
        self.loved_one
    }

    /// The being as an onlooker sees it: a resource shows its card only if the
    /// card is among `revealed`.
    pub fn make_snapshot(&self, revealed: &Vec<Card>) -> (seen: BeingSnapshot)
        ensures
            self.seen_as(revealed@, seen),
    {
        let mut resources: [Option<Option<Card>>; NB_SUITS] = [None;NB_SUITS];
        let mut n: usize = 0;
        while n < NB_SUITS
            invariant
                n <= NB_SUITS,
                forall|k: int|
                    0 <= k < n ==> resources@[k] == redacted_slot(self.resources@[k], revealed@),
            decreases NB_SUITS - n,
        {
            let seen = match self.resources[n] {
                None => None,
                Some(card) => if is_revealed(revealed, card) {
                    Some(Some(card))
                } else {
                    Some(None)
                },
            };
            resources[n] = seen;
            n = n + 1;
        }
        BeingSnapshot { face: self.face, resources }
    }

    pub fn heart(&self) -> (c: Option<Card>)
        ensures
            c == self.resource(Suit::Heart),
    {
        self.get_resource(&Suit::Heart)
    }

    pub fn weapon(&self) -> (c: Option<Card>)
        ensures
            c == self.resource(Suit::Spade),
    {
        self.get_resource(&Suit::Spade)
    }

    pub fn mind(&self) -> (c: Option<Card>)
        ensures
            c == self.resource(Suit::Diamond),
    {
        self.get_resource(&Suit::Diamond)
    }

    pub fn power(&self) -> (c: Option<Card>)
        ensures
            c == self.resource(Suit::Club),
    {
        self.get_resource(&Suit::Club)
    }

    pub fn get_resource(&self, suit: &Suit) -> (c: Option<Card>)
        ensures
            c == self.resource(*suit),
    {
        self.resources[suit.to_n()]
    }
}

} // verus!
