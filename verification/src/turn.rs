//! A deal as the table goes through it, and whose turn it is.
use vstd::prelude::*;
use vstd::string::StringExecFns;
use crate::cards::{Card, Hand};
use crate::deck::occurrences;
use crate::deal::DealState;
use crate::pos::PlayerPos;
use crate::{deal_hands, DEAL_SIZE, NB_PLAYERS};

verus! {

/// Describe a single deal.
#[derive(Clone, Debug)]
pub enum Deal {
    /// The deal is in the main playing phase
    Playing(DealState),
}

impl Deal {
    /// The state of the deal.
    pub open spec fn state(self) -> DealState {
        self->Playing_0
    }

    /// Creates a new deal from a shuffled deck: each hand gets `DEAL_SIZE` cards
    /// of the deck, no card is in both hands, and which cards they are nothing
    /// foretells. Whatever `first` is, the first seat of a table of two begins.
    pub fn new(first: PlayerPos) -> (deal: Deal)
        ensures
            deal.state().wf(),
            deal.state().current() == PlayerPos::seat(0, 2),
            deal.state().tricks().len() == 1,
            forall|seat: int|
                0 <= seat < NB_PLAYERS ==> (#[trigger] deal.state().spec_hands()[seat])@.len()
                    == DEAL_SIZE,
            forall|c: Card|
                !(deal.state().spec_hands()[0]@.contains(c) && deal.state().spec_hands()[1]@.contains(
                    c,
                )),
            forall|c: Card, seat: int|
                0 <= seat < NB_PLAYERS && (#[trigger] deal.state().spec_hands()[seat]@.contains(c))
                    ==> c.in_deck(),
    {
        let (hands, _river) = deal_hands();
        proof {
            assert forall|c: Card| !(hands@[0]@.contains(c) && hands@[1]@.contains(c)) by {
                assert(hands@[0].count(c) + hands@[1].count(c) + occurrences(_river@, c) <= 1);
            }
            assert forall|c: Card, seat: int|
                0 <= seat < NB_PLAYERS && (#[trigger] hands@[seat]@.contains(c)) implies c.in_deck() by {
                assert(hands@[0].count(c) + hands@[1].count(c) + occurrences(_river@, c) == (if c.in_deck() {
                    1nat
                } else {
                    0nat
                }));
            }
        }
        Deal::Playing(DealState::new(PlayerPos::from_n(0, 2), hands))
    }

    pub fn next_player(&self) -> (pos: PlayerPos)
        ensures
            pos == self.state().current(),
    {
        match self {
            Deal::Playing(deal) => deal.next_player(),
        }
    }

    pub fn hands(&self) -> (hands: [Hand; NB_PLAYERS])
        ensures
            hands@ == self.state().spec_hands(),
    {
        match self {
            Deal::Playing(deal) => deal.hands(),
        }
    }

    pub fn deal_state(&self) -> (state: Option<&DealState>)
        ensures
            state == Some(&self.state()),
    {
        match self {
            Deal::Playing(state) => Some(state),
        }
    }

    pub fn deal_state_mut(&mut self) -> (state: Option<&mut DealState>)
        ensures
            state is Some,
            *state->0 == old(self).state(),
            final(self).state() == *final(state->0),
    {
        match self {
            Deal::Playing(state) => Some(state),
        }
    }
}

/// Where the table is in its turn.
#[derive(Debug, Clone, Copy, PartialEq, Eq, Structural)]
pub enum Turn {
    Pregame,
    Intertrick,
    Interdeal,
    Playing(PlayerPos),
    Endgame,
}

impl Turn {
    /// The words for the turn.
    pub open spec fn text(self) -> Seq<char> {
        match self {
            Turn::Pregame => "pre-game"@,
            Turn::Intertrick => "inter trick"@,
            Turn::Interdeal => "inter deal"@,
            Turn::Playing(_) => "playing"@,
            Turn::Endgame => "end"@,
        }
    }

    pub fn to_string(&self) -> (s: String)
        ensures
            s@ == self.text(),
    {
        match self {
            Turn::Pregame => String::from_str("pre-game"),
            Turn::Intertrick => String::from_str("inter trick"),
            Turn::Interdeal => String::from_str("inter deal"),
            Turn::Playing(_pos) => String::from_str("playing"),
            Turn::Endgame => String::from_str("end"),
        }
    }

    /// Whether cards are on the table in this turn: while a trick is played and
    /// between two tricks.
    pub fn has_player_pos(&self) -> (b: bool)
        ensures
            b == (*self is Intertrick || *self is Playing),
    {
        match self {
            Self::Pregame => false,
            Self::Interdeal => false,
            Self::Endgame => false,
            _ => true,
        }
    }

    /// The turn of a deal: that of the seat that is to play.
    pub fn from_deal(deal: &Deal) -> (turn: Turn)
        ensures
            turn == Turn::Playing(deal.state().current()),
    {
        match deal {
            Deal::Playing(deal_state) => Self::Playing(deal_state.next_player()),
        }
    }
}

} // verus!
