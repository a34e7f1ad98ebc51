//! A deal: the hands, the tricks played so far and the seat whose turn it is.
use vstd::prelude::*;
use vstd::string::StringExecFns;
use crate::cards::{Card, Hand};
use crate::pos::{PlayerPos, MAX_PLAYERS};
use crate::trick::Trick;
use crate::NB_PLAYERS;

verus! {

/// Number of tricks of a deal: once the last one is complete, no new trick is
/// begun.
pub const NB_TRICKS: usize = 10;

/// Result of a deal.
#[derive(Clone, Copy, PartialEq, Eq, Structural, Debug)]
pub enum DealResult {
    /// The deal is still playing
    Nothing,
    /// The deal is over
    GameOver,
}

/// Result of a trick
#[derive(Clone, Copy, PartialEq, Eq, Structural, Debug)]
pub enum TrickResult {
    Nothing,
    TrickOver(PlayerPos, DealResult),
}

/// Error that can occur during play
#[derive(Clone, Copy, PartialEq, Eq, Structural, Debug)]
pub enum PlayError {
    /// A player tried to act before his turn
    TurnError,
    /// A player tried to play a card he doesn't have
    CardMissing,
    /// A player tried to play the wrong suit, while he still have some
    IncorrectSuit,
    /// The last trick was asked for before any trick was over
    NoLastTrick,
}

impl PlayError {
    /// The words that tell a player what went wrong.
    pub open spec fn text(self) -> Seq<char> {
        match self {
            PlayError::TurnError => "invalid turn order"@,
            PlayError::CardMissing => "you can only play cards you have"@,
            PlayError::IncorrectSuit => "wrong suit played"@,
            PlayError::NoLastTrick => "no trick has been played yet"@,
        }
    }

    pub fn to_string(&self) -> (s: String)
        ensures
            s@ == self.text(),
    {
        match self {
            PlayError::TurnError => String::from_str("invalid turn order"),
            PlayError::CardMissing => String::from_str("you can only play cards you have"),
            PlayError::IncorrectSuit => String::from_str("wrong suit played"),
            PlayError::NoLastTrick => String::from_str("no trick has been played yet"),
        }
    }
}

/// Whether `trick` is one of a table of `NB_PLAYERS` seats.
pub open spec fn trick_seated(trick: Trick) -> bool {
    &&& trick.first.wf()
    &&& trick.first.count == NB_PLAYERS
    &&& trick.winner.wf()
    &&& trick.winner.count == NB_PLAYERS
}

/// Describes the state of a deal, ready to play a card.
#[derive(Clone, Debug)]
pub struct DealState {
    players: [Hand; NB_PLAYERS],
    current: PlayerPos,
    tricks: Vec<Trick>,
}

impl DealState {
    /// The hands, by seat.
    pub closed spec fn spec_hands(self) -> Seq<Hand> {
        self.players@
    }

    /// The seat whose turn it is.
    pub closed spec fn current(self) -> PlayerPos {
        self.current
    }

    /// The tricks of the deal; the last is the one that is being played.
    pub closed spec fn tricks(self) -> Seq<Trick> {
        self.tricks@
    }

    /// The deal has a trick to play in, at most `NB_TRICKS` tricks in all, and
    /// every seat that it names is one of a table of `NB_PLAYERS` seats.
    pub open spec fn wf(self) -> bool {
        &&& self.spec_hands().len() == NB_PLAYERS
        &&& 1 <= self.tricks().len() <= NB_TRICKS
        &&& self.current().wf()
        &&& self.current().count == NB_PLAYERS
        &&& forall|i: int| 0 <= i < self.tricks().len() ==> trick_seated(#[trigger] self.tricks()[i])
    }

    /// The trick that is being played.
    pub open spec fn spec_current_trick(self) -> Trick {
        self.tricks().last()
    }

    /// What a card from `player` brings about: the end of the trick, with its
    /// winner, or nothing yet.
    pub open spec fn outcome(self, player: PlayerPos, card: Card) -> TrickResult {
        if self.spec_current_trick().completed_by(player) {
            TrickResult::TrickOver(
                self.spec_current_trick().winner_after(player, card),
                DealResult::Nothing,
            )
        } else {
            TrickResult::Nothing
        }
    }

    /// Whether `next` is the deal once `player`, whose turn it is, has played
    /// `card`. The card has left the player's hand and lies in the current trick.
    /// If that completes the trick, its winner plays next, in a new trick unless
    /// the deal has had all of its `NB_TRICKS` tricks; else the next seat plays.
    pub open spec fn played(self, player: PlayerPos, card: Card, next: DealState) -> bool {
        let last = self.tricks().len() - 1;
        let winner = self.spec_current_trick().winner_after(player, card);
        &&& next.spec_hands().len() == NB_PLAYERS
        &&& next.spec_hands()[player.index()]@ == self.spec_hands()[player.index()]@.remove(card)
        &&& forall|seat: int|
            0 <= seat < NB_PLAYERS && seat != player.index() ==> next.spec_hands()[seat]
                == self.spec_hands()[seat]
        &&& next.tricks().len() >= self.tricks().len()
        &&& forall|i: int| 0 <= i < last ==> next.tricks()[i] == self.tricks()[i]
        &&& self.spec_current_trick().played(player, card, next.tricks()[last])
        &&& if self.spec_current_trick().completed_by(player) {
            &&& next.current() == winner
            &&& if self.tricks().len() == NB_TRICKS {
                next.tricks().len() == self.tricks().len()
            } else {
                &&& next.tricks().len() == self.tricks().len() + 1
                &&& next.tricks().last().first == winner
                &&& next.tricks().last().winner == winner
                &&& forall|seat: int|
                    0 <= seat < MAX_PLAYERS ==> next.tricks().last().cards@[seat] == None::<Card>
            }
        } else {
            &&& next.current() == self.current().spec_next()
            &&& next.tricks().len() == self.tricks().len()
        }
    }

    /// Creates a new DealState, with the given cards and first player.
    pub fn new(first: PlayerPos, hands: [Hand; NB_PLAYERS]) -> (deal: DealState)
        requires
            first.wf(),
            first.count == NB_PLAYERS,
        ensures
            deal.wf(),
            deal.spec_hands() == hands@,
            deal.current() == first,
            deal.tricks().len() == 1,
            deal.spec_current_trick().first == first,
            deal.spec_current_trick().winner == first,
            forall|seat: int|
                0 <= seat < MAX_PLAYERS ==> deal.spec_current_trick().cards@[seat] == None::<Card>,
    {
        let mut tricks: Vec<Trick> = Vec::new();
        tricks.push(Trick::new(first));
        DealState { players: hands, current: first, tricks }
    }

    /// Try to play a card
    ///
    /// A card from a seat whose turn it is not is refused with `TurnError`, and a
    /// card that the player does not hold with `CardMissing`; a refused card
    /// leaves the deal as it was.
    pub fn play_card(&mut self, player: PlayerPos, card: Card) -> (r: Result<TrickResult, PlayError>)
        requires
            old(self).wf(),
        ensures
            final(self).wf(),
            player != old(self).current() ==> r == Err::<TrickResult, PlayError>(
                PlayError::TurnError,
            ) && *final(self) == *old(self),
            player == old(self).current() && !old(self).spec_hands()[player.index()]@.contains(card)
                ==> r == Err::<TrickResult, PlayError>(PlayError::CardMissing) && *final(self)
                == *old(self),
            player == old(self).current() && old(self).spec_hands()[player.index()]@.contains(card)
                ==> r == Ok::<TrickResult, PlayError>(old(self).outcome(player, card)) && old(self).played(player, card, *final(self)),
    {
        if self.current != player {
            return Err(PlayError::TurnError);
        }
        let is_first_trick = self.tricks.len() == 1;
        let seat = player.to_n();
        let last = self.tricks.len() - 1;

        // Is that a valid move?
        match can_play(player, card, self.players[seat], &self.tricks[last], is_first_trick) {
            Err(e) => {
                return Err(e);
            },
            Ok(_) => {},
        }

        // Play the card
        let mut trick = self.tricks[last];
        let trick_over = trick.play_card(player, card);
        self.tricks[last] = trick;

        // Remove card from player hand
        let mut hand = self.players[seat];
        hand.remove(card);
        self.players[seat] = hand;

        // Is the trick over?
        let result = if trick_over {
            let winner = trick.winner;
            if self.tricks.len() == NB_TRICKS {
            } else {
                self.tricks.push(Trick::new(winner));
            }
            self.current = winner;
            TrickResult::TrickOver(winner, self.get_deal_result())
        } else {
            proof {
                self.current.lemma_cases();
            }
            self.current = self.current.next();
            TrickResult::Nothing
        };
        Ok(result)
    }

    /// Returns the player expected to play next.
    pub fn next_player(&self) -> (pos: PlayerPos)
        ensures
            pos == self.current(),
    {
        self.current
    }

    /// The result of the deal so far: a deal is never settled here.
    pub fn get_deal_result(&self) -> (r: DealResult)
        ensures
            r == DealResult::Nothing,
    {
        DealResult::Nothing
    }

    /// Returns the cards of all players
    pub fn hands(&self) -> (hands: [Hand; NB_PLAYERS])
        ensures
            hands@ == self.spec_hands(),
    {
        self.players
    }

    /// Whether the deal has had its last trick and every one of the
    /// `MAX_PLAYERS` places of that trick holds a card.
    pub fn is_over(&self) -> (over: bool)
        requires
            self.wf(),
        ensures
            over == (self.tricks().len() == NB_TRICKS && forall|seat: int|
                0 <= seat < MAX_PLAYERS ==> self.spec_current_trick().cards@[seat] is Some),
    {
        if self.tricks.len() != NB_TRICKS {
            return false;
        }
        let trick = &self.tricks[NB_TRICKS - 1];
        let mut seat: usize = 0;
        while seat < MAX_PLAYERS
            invariant
                seat <= MAX_PLAYERS,
                *trick == self.spec_current_trick(),
                forall|k: int| 0 <= k < seat ==> trick.cards@[k] is Some,
            decreases MAX_PLAYERS - seat,
        {
            if trick.cards[seat].is_none() {
                assert(!(self.spec_current_trick().cards@[seat as int] is Some));
                return false;
            }
            seat = seat + 1;
        }
        true
    }

    /// Return the last trick, if possible: the one before the current trick.
    pub fn last_trick(&self) -> (r: Result<&Trick, PlayError>)
        requires
            self.wf(),
        ensures
            self.tricks().len() == 1 ==> r == Err::<&Trick, PlayError>(PlayError::NoLastTrick),
            self.tricks().len() > 1 ==> r == Ok::<&Trick, PlayError>(
                &self.tricks()[self.tricks().len() - 2],
            ),
    {
        if self.tricks.len() == 1 {
            Err(PlayError::NoLastTrick)
        } else {
            let i = self.tricks.len() - 2;
            Ok(&self.tricks[i])
        }
    }

    /// Returns the current trick.
    pub fn current_trick(&self) -> (trick: &Trick)
        requires
            self.wf(),
        ensures
            *trick == self.spec_current_trick(),
    {
        let i = self.tricks.len() - 1;
        &self.tricks[i]
    }
}

/// Returns `Ok` if the move appear legal: the player holds the card.
pub fn can_play(
    _p: PlayerPos,
    card: Card,
    hand: Hand,
    _trick: &Trick,
    _is_first_trick: bool,
) -> (r: Result<(), PlayError>)
    ensures
        r == (if hand@.contains(card) {
            Ok::<(), PlayError>(())
        } else {
            Err::<(), PlayError>(PlayError::CardMissing)
        }),
{
    // First, we need the card to be able to play
    if !hand.has(card) {
        return Err(PlayError::CardMissing);
    }
    Ok(())
}

} // verus!
