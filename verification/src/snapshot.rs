//! What one player sees of the game.
use vstd::prelude::*;
use crate::cards::{Card, Deck, Hand};
use crate::player::{seat_taken, GamePlayerState};
use crate::pos::PlayerPos;
use crate::star::StarSnapshot;
use crate::status::{Status, StatusView};

verus! {

/// What one player sees of the game.
#[derive(Debug, Clone, PartialEq, Eq)]
pub struct GameStateSnapshot {
    pub nb_players: u8,
    pub players: Vec<GamePlayerState>,
    pub hand: Hand,
    pub pos: PlayerPos,
    pub status: Status,
    pub stars: Vec<StarSnapshot>,
    pub source_count: u8,
    pub river: Deck,
}

/// What a view holds before the first one has come from the game.
pub const DEFAULT_SOURCE_COUNT: u8 = 34;

impl GameStateSnapshot {
    /// Whether a player of the view sits at `pos`.
    pub open spec fn seats(self, pos: PlayerPos) -> bool {
        seat_taken(self.players@, pos)
    }

    /// The first player of the view that sits at `pos`.
    pub open spec fn first_at(self, pos: PlayerPos) -> int {
        choose|i: int|
            0 <= i < self.players@.len() && self.players@[i].pos == pos && forall|k: int|
                0 <= k < i ==> self.players@[k].pos != pos
    }

    /// The seat whose turn it is, while the game is played.
    pub fn get_playing_pos(&self) -> (pos: Option<PlayerPos>)
        ensures
            pos == match self.status@ {
                StatusView::Playing(pos, _) => Some(pos),
                _ => None,
            },
    {
        match self.status {
            Status::Playing(pos, _) => Some(pos),
            _ => None,
        }
    }

    /// The name of the player at `pos`: of the first one in the view, if there
    /// are several. Someone must sit there.
    pub fn pos_player_name(&self, pos: PlayerPos) -> (name: String)
        requires
            self.seats(pos),
        ensures
            name@ == self.players@[self.first_at(pos)].player.nickname@,
    {
        let mut i: usize = 0;
        while i < self.players.len()
            invariant
                i <= self.players.len(),
                self.seats(pos),
                forall|k: int| 0 <= k < i ==> self.players@[k].pos != pos,
            decreases self.players.len() - i,
        {
            if self.players[i].pos == pos {
                proof {
                    let f = self.first_at(pos);
                    assert(f == i) by {
                        if f < i {
                        } else if f > i {
                        }
                    }
                }
                return self.players[i].player.nickname.clone();
            }
            i = i + 1;
        }
        proof {
            let k = choose|k: int| 0 <= k < self.players@.len() && self.players@[k].pos == pos;
            assert(self.players@[k].pos != pos);
        }
        vstd::pervasive::unreached()
    }

    /// The name of the player whose turn it is, and no name while the game is
    /// not played.
    pub fn current_player_name(&self) -> (name: String)
        requires
            self.status@ matches StatusView::Playing(pos, _) ==> self.seats(pos),
        ensures
            name@ == match self.status@ {
                StatusView::Playing(pos, _) => self.players@[self.first_at(pos)].player.nickname@,
                _ => Seq::<char>::empty(),
            },
    {
        match self.get_playing_pos() {
            Some(pos) => self.pos_player_name(pos),
            None => String::new(),
        }
    }

    /// Whether the view shows a star at the player's own seat.
    pub open spec fn has_star(self) -> bool {
        exists|i: int| 0 <= i < self.stars@.len() && self.stars@[i].pos == self.pos
    }

    /// The player's own star: the first in the view at the player's seat. The
    /// view must show one.
    pub fn star(&self) -> (star: &StarSnapshot)
        requires
            self.has_star(),
        ensures
            star.pos == self.pos,
            exists|i: int|
                0 <= i < self.stars@.len() && self.stars@[i] == *star && forall|k: int|
                    0 <= k < i ==> self.stars@[k].pos != self.pos,
    {
        let mut i: usize = 0;
        while i < self.stars.len()
            invariant
                i <= self.stars.len(),
                self.has_star(),
                forall|k: int| 0 <= k < i ==> self.stars@[k].pos != self.pos,
            decreases self.stars.len() - i,
        {
            if self.stars[i].pos == self.pos {
                return &self.stars[i];
            }
            i = i + 1;
        }
        proof {
            let k = choose|k: int| 0 <= k < self.stars@.len() && self.stars@[k].pos == self.pos;
            assert(self.stars@[k].pos != self.pos);
        }
        vstd::pervasive::unreached()
    }
}

impl Default for GameStateSnapshot {
    /// The view of a game for two that nobody has joined.
    fn default() -> (seen: GameStateSnapshot)
        ensures
            seen.nb_players == 2,
            seen.players@.len() == 0,
            seen.hand@ == Set::<Card>::empty(),
            seen.pos == PlayerPos::seat(0, 2),
            seen.status@ == StatusView::Pregame,
            seen.stars@.len() == 0,
            seen.source_count == DEFAULT_SOURCE_COUNT,
            seen.river@.len() == 0,
    {
        GameStateSnapshot {
            nb_players: 2,
            players: Vec::new(),
            hand: Hand::new(),
            pos: PlayerPos::from_n(0, 2),
            status: Status::Pregame,
            stars: Vec::new(),
            source_count: DEFAULT_SOURCE_COUNT,
            river: Deck::default(),
        }
    }
}

} // verus!
