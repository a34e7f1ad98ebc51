//! Where a game stands: its phases and what the twilight drew.
use vstd::prelude::*;
use crate::cards::Card;
use crate::deal::PlayError;
use crate::pos::{PlayerPos, MAX_PLAYERS};

verus! {

/// The three phases of a player's turn.
#[derive(Debug, Clone, Copy, PartialEq, Eq, Structural)]
pub enum Phase {
    Influence,
    Act,
    Source,
}

/// A dealed card for each player (star)
/// used in twilight to determine the first player
/// there can be many if cards dealed are of same strength,
/// thus the Vec in the Status struct to keep the history of these deals
#[derive(Debug, Clone, Copy, PartialEq, Eq)]
pub struct StarsCards {
    /// Number of seats at the table.
    pub count: u8,
    /// The card of each seat, by the seat's number.
    pub cards: [Option<Card>; MAX_PLAYERS],
}

impl View for StarsCards {
    type V = Map<PlayerPos, Card>;

    open spec fn view(&self) -> Map<PlayerPos, Card> {
        Map::new(
            |pos: PlayerPos| pos.count == self.count && self.cards@[pos.index()] is Some,
            |pos: PlayerPos| self.cards@[pos.index()]->0,
        )
    }
}

impl StarsCards {
    /// No card yet, at a table of `count` seats.
    pub fn new(count: u8) -> (drawn: StarsCards)
        ensures
            drawn.count == count,
            drawn@ == Map::<PlayerPos, Card>::empty(),
    {
        let drawn = StarsCards { count, cards: [None;MAX_PLAYERS] };
        assert(drawn@ =~= Map::<PlayerPos, Card>::empty());
        drawn
    }

    /// Notes `card` as the card of the seat `pos`, in place of the one noted there.
    pub fn insert(&mut self, pos: PlayerPos, card: Card)
        requires
            pos.count == old(self).count,
        ensures
            final(self).count == old(self).count,
            final(self)@ == old(self)@.insert(pos, card),
    {
        self.cards[pos.to_n()] = Some(card);
        assert(self@ =~= old(self)@.insert(pos, card));
    }

    /// The card of the seat `pos`, if one is noted.
    pub fn get(&self, pos: &PlayerPos) -> (card: Option<Card>)
        ensures
            card == (if self@.dom().contains(*pos) {
                Some(self@[*pos])
            } else {
                None
            }),
    {
        if pos.count == self.count {
            self.cards[pos.to_n()]
        } else {
            None
        }
    }
}

/// Where the game stands.
#[derive(Debug, Clone, PartialEq, Eq)]
pub enum Status {
    Pregame,
    Twilight(PlayerPos, Vec<StarsCards>),
    Playing(PlayerPos, Phase),
    Endgame,
}

/// Where the game stands, as a value of the contracts.
pub ghost enum StatusView {
    Pregame,
    Twilight(PlayerPos, Seq<StarsCards>),
    Playing(PlayerPos, Phase),
    Endgame,
}

impl View for Status {
    type V = StatusView;

    open spec fn view(&self) -> StatusView {
        match *self {
            Status::Pregame => StatusView::Pregame,
            Status::Twilight(first, drawn) => StatusView::Twilight(first, drawn@),
            Status::Playing(pos, phase) => StatusView::Playing(pos, phase),
            Status::Endgame => StatusView::Endgame,
        }
    }
}

impl StatusView {
    /// The seat that the status names, if it names one.
    pub open spec fn seat(self) -> Option<PlayerPos> {
        match self {
            StatusView::Pregame => None,
            StatusView::Twilight(first, _) => Some(first),
            StatusView::Playing(pos, _) => Some(pos),
            StatusView::Endgame => None,
        }
    }

    /// The status that follows on an advance. The twilight gives way to the
    /// first player's influence; a turn goes from influence to act, from act to
    /// source if the source still holds a card and else to the end of the game,
    /// and from source to the next seat's influence. Before the game and after
    /// it nothing moves.
    pub open spec fn advance(self, source_empty: bool) -> StatusView {
        match self {
            StatusView::Pregame => StatusView::Pregame,
            StatusView::Twilight(first, _) => StatusView::Playing(first, Phase::Influence),
            StatusView::Playing(pos, Phase::Influence) => StatusView::Playing(pos, Phase::Act),
            StatusView::Playing(pos, Phase::Act) => if source_empty {
                StatusView::Endgame
            } else {
                StatusView::Playing(pos, Phase::Source)
            },
            StatusView::Playing(pos, Phase::Source) => StatusView::Playing(
                pos.spec_next(),
                Phase::Influence,
            ),
            StatusView::Endgame => StatusView::Endgame,
        }
    }
}

impl Status {
    /// A copy of the status.
    pub fn copy(&self) -> (copy: Status)
        ensures
            copy@ == self@,
    {
        match self {
            Status::Pregame => Status::Pregame,
            Status::Twilight(first, drawn) => {
                let mut history: Vec<StarsCards> = Vec::new();
                let mut i: usize = 0;
                while i < drawn.len()
                    invariant
                        i <= drawn.len(),
                        history@ == drawn@.take(i as int),
                    decreases drawn.len() - i,
                {
                    history.push(drawn[i]);
                    assert(drawn@.take(i + 1) == drawn@.take(i as int).push(drawn@[i as int]));
                    i = i + 1;
                }
                assert(drawn@.take(drawn.len() as int) == drawn@);
                Status::Twilight(*first, history)
            },
            Status::Playing(pos, phase) => Status::Playing(*pos, *phase),
            Status::Endgame => Status::Endgame,
        }
    }
}

/// What can go wrong with a command to the game.
#[derive(Debug, Clone, Copy, PartialEq, Eq, Structural)]
pub enum EngineError {
    /// The card was refused.
    Play(PlayError),
    /// The identity is not that of a player at the table.
    UnknownPlayer,
    /// A card was asked of an empty source.
    Exhausted,
}

/// The parameters of a variant of the game.
#[derive(Debug, Clone, Copy, PartialEq, Eq, Structural)]
pub struct VariantSettings {
    pub nb_players: u8,
}

/// What happened at the table.
#[derive(Debug, Clone, Copy, PartialEq, Eq, Structural)]
pub enum PlayEvent {
    Play(u128, Card),
}

} // verus!
