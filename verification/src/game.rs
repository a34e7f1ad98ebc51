//! The game: its players, its stars, and the cards on the table.
use vstd::prelude::*;
use crate::being::{is_revealed, Being};
use crate::cards::{Card, Deck, Hand, DECK_SIZE};
use crate::deal::{can_play, PlayError};
use crate::deck::occurrences;
use crate::message::ProtocolError;
use crate::player::{by_id, find_place, has_free_seat, ids_increase, is_lowest_free, knows,
    lemma_by_id_insert, lemma_by_id_remove, lemma_place_unique, ordered_by_seat, place_of, ready_count,
    seat_taken, seats_ascend, seats_differ, sorted_by_seat, GamePlayerState, PlayerInfo,
    PlayerRole};
use crate::points::{spec_strength, strength};
use crate::pos::{PlayerPos, MAX_PLAYERS};
use crate::star::{Star, StarSnapshot, START_MAJESTY};
use crate::trick::Trick;
use crate::{deal_hands, is_deal, NB_PLAYERS};
pub use crate::snapshot::{GameStateSnapshot, DEFAULT_SOURCE_COUNT};
pub use crate::status::{EngineError, Phase, PlayEvent, StarsCards, Status, StatusView,
    VariantSettings};
pub use crate::twilight::{is_round, leads_round, lemma_stars_count_update, round_card,
    round_decided, round_leader, rounds_from, star_seats, star_with, stars_count, twilight_card,
    twilight_draws, twilight_first, twilight_rounds};

verus! {

/// The game of The Valley.
#[derive(Debug, Clone)]
pub struct ValleyGame {
    nb_players: u8,
    players: Vec<GamePlayerState>,
    status: Status,
    stars: Vec<(u128, Star)>,
    source: Deck,
    river: Deck,
    revealed: Vec<Card>,
    trick: Trick,
    last_trick: Option<Trick>,
}

impl ValleyGame {
    /// Number of seats at the table.
    pub closed spec fn spec_nb_players(self) -> u8 {
        self.nb_players
    }

    /// The players in the order of their identities.
    pub closed spec fn players(self) -> Seq<GamePlayerState> {
        self.players@
    }

    /// Where the game stands.
    pub closed spec fn status(self) -> StatusView {
        self.status@
    }

    /// The stars with their owners' identities, in the order of these.
    pub closed spec fn stars(self) -> Seq<(u128, Star)> {
        self.stars@
    }

    /// The source, its top last.
    pub closed spec fn source(self) -> Seq<Card> {
        self.source@
    }

    /// The river: the cards that were played, the latest last.
    pub closed spec fn river(self) -> Seq<Card> {
        self.river@
    }

    /// The cards that everyone may see, in the order in which they were revealed.
    pub closed spec fn revealed(self) -> Seq<Card> {
        self.revealed@
    }

    /// The trick that is being played.
    pub closed spec fn trick(self) -> Trick {
        self.trick
    }

    /// The trick that was completed last, if any.
    pub closed spec fn spec_last_trick(self) -> Option<Trick> {
        self.last_trick
    }

    /// Whether `pos` is a seat of this game's table.
    pub open spec fn seat_ok(self, pos: PlayerPos) -> bool {
        pos.wf() && pos.count == self.spec_nb_players()
    }

    /// What holds of every game: the table has between one and `MAX_PLAYERS`
    /// seats; among the players no identity is there twice and no seat is taken
    /// twice, and the same holds of the stars, of which there are no more than a
    /// deal has hands; the source never holds more cards than the deck; before
    /// the game there is no star and no card; and every seat that the game names
    /// is a seat of its table.
    pub open spec fn wf(self) -> bool {
        &&& 1 <= self.spec_nb_players() <= MAX_PLAYERS
        &&& ids_increase(self.players())
        &&& seats_differ(self.players())
        &&& forall|i: int| 0 <= i < self.players().len() ==> self.seat_ok(#[trigger] self.players()[i].pos)
        &&& forall|i: int, j: int| 0 <= i < j < self.stars().len() ==> self.stars()[i].0 < self.stars()[j].0
        &&& forall|i: int, j: int|
            0 <= i < j < self.stars().len() ==> self.stars()[i].1.spec_pos() != self.stars()[j].1.spec_pos()
        &&& forall|i: int|
            0 <= i < self.stars().len() ==> self.seat_ok((#[trigger] self.stars()[i]).1.spec_pos())
        &&& self.stars().len() <= NB_PLAYERS
        &&& self.source().len() <= DECK_SIZE
        &&& self.status() is Pregame ==> self.stars().len() == 0 && self.source().len() == 0
            && self.river().len() == 0
        &&& self.status().seat() matches Some(pos) ==> self.seat_ok(pos)
        &&& self.seat_ok(self.trick().first)
        &&& self.seat_ok(self.trick().winner)
    }

    /// How often `card` is in the game: in the source, in the river or with a star.
    pub open spec fn card_count(self, card: Card) -> nat {
        occurrences(self.source(), card) + occurrences(self.river(), card) + stars_count(
            self.stars(),
            card,
        )
    }

    /// Whether the cards are all there: each card of the deck is in the game
    /// exactly once, and no other card is in it.
    pub open spec fn conserves_cards(self) -> bool {
        forall|c: Card| #[trigger]
            self.card_count(c) == (if c.in_deck() {
                1nat
            } else {
                0nat
            })
    }

    /// Whether a player has identity `id`.
    pub open spec fn has_player(self, id: u128) -> bool {
        knows(self.players(), id)
    }

    /// The player with identity `id`.
    pub open spec fn player(self, id: u128) -> GamePlayerState {
        self.players()[place_of(self.players(), id)]
    }

    /// Whether `next` differs from this game in its players at most.
    pub open spec fn same_table(self, next: ValleyGame) -> bool {
        &&& next.spec_nb_players() == self.spec_nb_players()
        &&& next.status() == self.status()
        &&& next.stars() == self.stars()
        &&& next.source() == self.source()
        &&& next.river() == self.river()
        &&& next.revealed() == self.revealed()
        &&& next.trick() == self.trick()
        &&& next.spec_last_trick() == self.spec_last_trick()
    }

    /// Whether `next` differs from this game in its status at most.
    pub open spec fn same_but_status(self, next: ValleyGame) -> bool {
        &&& next.spec_nb_players() == self.spec_nb_players()
        &&& next.players() == self.players()
        &&& next.stars() == self.stars()
        &&& next.source() == self.source()
        &&& next.river() == self.river()
        &&& next.revealed() == self.revealed()
        &&& next.trick() == self.trick()
        &&& next.spec_last_trick() == self.spec_last_trick()
    }

    /// A game for two before anyone has joined.
    pub fn new() -> (game: ValleyGame)
        ensures
            game.wf(),
            game.spec_nb_players() == 2,
            game.players().len() == 0,
            game.status() == StatusView::Pregame,
            game.stars().len() == 0,
            game.source().len() == 0,
            game.river().len() == 0,
            game.revealed().len() == 0,
            game.spec_last_trick() is None,
            game.trick().first == PlayerPos::seat(0, 2),
            game.trick().winner == PlayerPos::seat(0, 2),
            forall|seat: int| 0 <= seat < MAX_PLAYERS ==> game.trick().cards@[seat] == None::<Card>,
    {
        ValleyGame {
            nb_players: 2,
            players: Vec::new(),
            status: Status::Pregame,
            stars: Vec::new(),
            source: Deck::default(),
            river: Deck::default(),
            revealed: Vec::new(),
            trick: Trick::default(),
            last_trick: None,
        }
    }

    /// Sets the number of seats, and lays an empty trick for a table of that size,
    /// led by its first seat. The table must be empty and the game not begun:
    /// seats that were given out are not looked at again.
    pub fn set_variant(&mut self, variant: VariantSettings)
        requires
            old(self).wf(),
            old(self).players().len() == 0,
            old(self).status() is Pregame,
            1 <= variant.nb_players <= MAX_PLAYERS,
        ensures
            final(self).wf(),
            final(self).spec_nb_players() == variant.nb_players,
            final(self).players() == old(self).players(),
            final(self).status() == old(self).status(),
            final(self).stars() == old(self).stars(),
            final(self).source() == old(self).source(),
            final(self).river() == old(self).river(),
            final(self).revealed() == old(self).revealed(),
            final(self).spec_last_trick() == old(self).spec_last_trick(),
            final(self).trick().first == PlayerPos::seat(0, variant.nb_players),
            final(self).trick().winner == PlayerPos::seat(0, variant.nb_players),
            forall|seat: int|
                0 <= seat < MAX_PLAYERS ==> final(self).trick().cards@[seat] == None::<Card>,
            old(self).conserves_cards() ==> final(self).conserves_cards(),
    {
        self.nb_players = variant.nb_players;
        self.trick = Trick::new(PlayerPos::from_n(0, variant.nb_players));
        proof {
            self.lemma_same_cards(*old(self));
        }
    }

    /// Whether the game can still be joined: it has not begun.
    pub fn is_joinable(&self) -> (b: bool)
        ensures
            b == (self.status() is Pregame),
    {
        match self.status {
            Status::Pregame => true,
            _ => false,
        }
    }

    /// The players in the order of their identities.
    pub fn get_players(&self) -> (players: &Vec<GamePlayerState>)
        ensures
            players@ == self.players(),
    {
        &self.players
    }

    /// Number of seats at the table.
    pub fn nb_players(&self) -> (n: u8)
        ensures
            n == self.spec_nb_players(),
    {
        self.nb_players
    }

    /// The player at `position`, if the seat is taken.
    pub fn player_by_pos(&self, position: PlayerPos) -> (found: Option<&GamePlayerState>)
        ensures
            found is None <==> !seat_taken(self.players(), position),
            found matches Some(player) ==> player.pos == position && exists|i: int|
                0 <= i < self.players().len() && self.players()[i] == *player && forall|k: int|
                    0 <= k < i ==> self.players()[k].pos != position,
    {
        let mut i: usize = 0;
        while i < self.players.len()
            invariant
                i <= self.players.len(),
                forall|k: int| 0 <= k < i ==> self.players@[k].pos != position,
            decreases self.players.len() - i,
        {
            if self.players[i].pos == position {
                return Some(&self.players[i]);
            }
            i = i + 1;
        }
        None
    }

    /// Whether the seat `position` is taken.
    pub fn position_taken(&self, position: PlayerPos) -> (taken: bool)
        ensures
            taken == seat_taken(self.players(), position),
    {
        self.player_by_pos(position).is_some()
    }

    /// The lowest seat that nobody has taken, if there is one.
    pub fn free_seat(&self) -> (seat: Option<PlayerPos>)
        requires
            self.wf(),
        ensures
            seat is None <==> !has_free_seat(self.players(), self.spec_nb_players()),
            seat matches Some(pos) ==> self.seat_ok(pos) && is_lowest_free(
                self.players(),
                self.spec_nb_players(),
                pos.index(),
            ),
    {
        let mut p: u8 = 0;
        while p < self.nb_players
            invariant
                p <= self.nb_players,
                self.wf(),
                forall|m: int|
                    0 <= m < p ==> seat_taken(self.players(), PlayerPos::seat(m, self.nb_players)),
            decreases self.nb_players - p,
        {
            let position = PlayerPos::from_n(p as usize, self.nb_players);
            proof {
                vstd::arithmetic::div_mod::lemma_small_mod(p as nat, self.nb_players as nat);
            }
            if !self.position_taken(position) {
                return Some(position);
            }
            p = p + 1;
        }
        None
    }

    /// Whether `next` and `pos` are what comes of seating the player `info` in
    /// this game. A player who is at the table already keeps the seat, and
    /// nothing changes. A new one gets the lowest free seat, as a spectator who
    /// is not ready, and nobody else changes. At a table without a free seat a
    /// new one is not seated: nothing changes, and the seat told is the one that
    /// the number of players gives, counted round the table; it is another
    /// player's.
    pub open spec fn joined(self, info: PlayerInfo, next: ValleyGame, pos: PlayerPos) -> bool {
        &&& self.same_table(next)
        &&& if self.has_player(info.id) {
            &&& pos == self.player(info.id).pos
            &&& next == self
        } else if has_free_seat(self.players(), self.spec_nb_players()) {
            &&& is_lowest_free(self.players(), self.spec_nb_players(), pos.index())
            &&& pos.count == self.spec_nb_players()
            &&& next.has_player(info.id)
            &&& next.player(info.id).pos == pos
            &&& by_id(next.players()) == by_id(self.players()).insert(
                info.id,
                (GamePlayerState { player: info, pos, role: PlayerRole::Spectator, ready: false }),
            )
            &&& next.players().len() == self.players().len() + 1
        } else {
            &&& pos == PlayerPos::seat(self.players().len() as int, self.spec_nb_players())
            &&& next == self
        }
    }

    /// Seats a player, as `joined` says.
    pub fn add_player(&mut self, player_info: PlayerInfo) -> (pos: PlayerPos)
        requires
            old(self).wf(),
        ensures
            final(self).wf(),
            final(self).seat_ok(pos),
            old(self).joined(player_info, *final(self), pos),
            old(self).conserves_cards() ==> final(self).conserves_cards(),
    {
        let id = player_info.id;
        let at = find_place(&self.players, id);
        if at < self.players.len() && self.players[at].player.id == id {
            return self.players[at].pos;
        }
        proof {
            assert(!old(self).has_player(id));
        }
        let newpos = match self.free_seat() {
            Some(position) => position,
            None => {
                return PlayerPos::from_n(self.players.len(), self.nb_players);
            },
        };
        proof {
            newpos.lemma_cases();
            assert(!seat_taken(self.players@, newpos));
        }
        self.seat_new_player(player_info, at, newpos);
        newpos
    }

    /// Seats a player that is new to the table at the free seat `newpos`; `at` is
    /// the player's place in the order of identities.
    fn seat_new_player(&mut self, player_info: PlayerInfo, at: usize, newpos: PlayerPos)
        requires
            old(self).wf(),
            !old(self).has_player(player_info.id),
            at <= old(self).players().len(),
            forall|i: int| 0 <= i < at ==> old(self).players()[i].player.id < player_info.id,
            forall|i: int|
                at <= i < old(self).players().len() ==> old(self).players()[i].player.id
                    >= player_info.id,
            old(self).seat_ok(newpos),
            !seat_taken(old(self).players(), newpos),
        ensures
            final(self).wf(),
            old(self).same_table(*final(self)),
            final(self).has_player(player_info.id),
            final(self).player(player_info.id).pos == newpos,
            by_id(final(self).players()) == by_id(old(self).players()).insert(
                player_info.id,
                (GamePlayerState {
                    player: player_info,
                    pos: newpos,
                    role: PlayerRole::Spectator,
                    ready: false,
                }),
            ),
            final(self).players().len() == old(self).players().len() + 1,
            old(self).conserves_cards() ==> final(self).conserves_cards(),
    {
        let ghost id = player_info.id;
        let state = GamePlayerState {
            player: player_info,
            pos: newpos,
            role: PlayerRole::Spectator,
            ready: false,
        };
        let ghost before = self.players@;
        self.players.insert(at, state);
        proof {
            let after = self.players@;
            assert(after == before.insert(at as int, state));
            assert forall|i: int, j: int| 0 <= i < j < after.len() implies after[i].player.id
                < after[j].player.id by {
                let bi = if i < at { i } else { i - 1 };
                let bj = if j < at { j } else { j - 1 };
                if i != at && j != at {
                    assert(before[bi].player.id < before[bj].player.id);
                } else if i == at {
                    assert(before[bj].player.id >= id);
                    if before[bj].player.id == id {
                        assert(knows(before, id));
                    }
                }
            }
            assert forall|i: int, j: int| 0 <= i < j < after.len() implies after[i].pos
                != after[j].pos by {
                let bi = if i < at { i } else { i - 1 };
                let bj = if j < at { j } else { j - 1 };
                if i != at && j != at {
                    assert(before[bi].pos != before[bj].pos);
                } else if i == at {
                    if before[bj].pos == newpos {
                        assert(seat_taken(before, newpos));
                    }
                } else {
                    if before[bi].pos == newpos {
                        assert(seat_taken(before, newpos));
                    }
                }
            }
            assert forall|i: int| 0 <= i < after.len() implies self.seat_ok(
                #[trigger] after[i].pos,
            ) by {
                let bi = if i < at { i } else { i - 1 };
                if i != at {
                    assert(old(self).seat_ok(before[bi].pos));
                }
            }
            lemma_by_id_insert(before, at as int, state);
            assert(after[at as int].player.id == id);
            lemma_place_unique(after, place_of(after, id), at as int);
            self.lemma_same_cards(*old(self));
        }
    }

    /// A game with the same source, river and stars holds the same cards.
    pub proof fn lemma_same_cards(self, before: ValleyGame)
        requires
            self.source() == before.source(),
            self.river() == before.river(),
            self.stars() == before.stars(),
        ensures
            forall|c: Card| #[trigger] self.card_count(c) == before.card_count(c),
            before.conserves_cards() ==> self.conserves_cards(),
    {
        assert forall|c: Card| #[trigger] self.card_count(c) == before.card_count(c) by {}
        if before.conserves_cards() {
            assert forall|c: Card| #[trigger]
                self.card_count(c) == (if c.in_deck() {
                    1nat
                } else {
                    0nat
                }) by {
                assert(self.card_count(c) == before.card_count(c));
            }
        }
    }

    /// Takes a player from the table, and says whether there was one to take.
    /// The seat is free again.
    pub fn remove_player(&mut self, player_id: u128) -> (removed: bool)
        requires
            old(self).wf(),
        ensures
            final(self).wf(),
            removed == old(self).has_player(player_id),
            by_id(final(self).players()) == by_id(old(self).players()).remove(player_id),
            !final(self).has_player(player_id),
            removed ==> final(self).players().len() == old(self).players().len() - 1,
            !removed ==> *final(self) == *old(self),
            old(self).same_table(*final(self)),
            old(self).conserves_cards() ==> final(self).conserves_cards(),
    {
        let at = find_place(&self.players, player_id);
        if at < self.players.len() && self.players[at].player.id == player_id {
            let ghost before = self.players@;
            self.players.remove(at);
            proof {
                let after = self.players@;
                assert(after == before.remove(at as int));
                assert forall|i: int, j: int| 0 <= i < j < after.len() implies after[i].player.id
                    < after[j].player.id && after[i].pos != after[j].pos by {
                    let bi = if i < at { i } else { i + 1 };
                    let bj = if j < at { j } else { j + 1 };
                    assert(before[bi].player.id < before[bj].player.id);
                    assert(before[bi].pos != before[bj].pos);
                }
                assert forall|i: int| 0 <= i < after.len() implies self.seat_ok(
                    #[trigger] after[i].pos,
                ) by {
                    let bi = if i < at { i } else { i + 1 };
                    assert(old(self).seat_ok(before[bi].pos));
                }
                lemma_by_id_remove(before, at as int);
                self.lemma_same_cards(*old(self));
            }
            true
        } else {
            proof {
                assert(by_id(self.players@) =~= by_id(self.players@).remove(player_id));
            }
            false
        }
    }

    /// The role of a player, if the identity is that of one.
    pub fn get_player_role(&self, player_id: u128) -> (role: Option<PlayerRole>)
        requires
            self.wf(),
        ensures
            role == (if self.has_player(player_id) {
                Some(self.player(player_id).role)
            } else {
                None
            }),
    {
        let at = find_place(&self.players, player_id);
        if at < self.players.len() && self.players[at].player.id == player_id {
            Some(self.players[at].role)
        } else {
            None
        }
    }

    /// Gives a player the role `role`. An identity that is not at the table
    /// changes nothing.
    pub fn set_player_role(&mut self, player_id: u128, role: PlayerRole)
        requires
            old(self).wf(),
        ensures
            final(self).wf(),
            old(self).same_table(*final(self)),
            old(self).conserves_cards() ==> final(self).conserves_cards(),
            !old(self).has_player(player_id) ==> *final(self) == *old(self),
            old(self).has_player(player_id) ==> final(self).players() == old(self).players().update(
                place_of(old(self).players(), player_id),
                (GamePlayerState {
                    player: old(self).player(player_id).player,
                    pos: old(self).player(player_id).pos,
                    role,
                    ready: old(self).player(player_id).ready,
                }),
            ),
    {
        let at = find_place(&self.players, player_id);
        if at < self.players.len() && self.players[at].player.id == player_id {
            self.players[at].role = role;
            proof {
                self.lemma_player_changed(*old(self), at as int);
                self.lemma_same_cards(*old(self));
            }
        }
    }

    /// Notes that a player is not ready. An identity that is not at the table
    /// changes nothing.
    pub fn set_player_not_ready(&mut self, player_id: u128)
        requires
            old(self).wf(),
        ensures
            final(self).wf(),
            old(self).same_table(*final(self)),
            old(self).conserves_cards() ==> final(self).conserves_cards(),
            !old(self).has_player(player_id) ==> *final(self) == *old(self),
            old(self).has_player(player_id) ==> final(self).players() == old(self).players().update(
                place_of(old(self).players(), player_id),
                (GamePlayerState {
                    player: old(self).player(player_id).player,
                    pos: old(self).player(player_id).pos,
                    role: old(self).player(player_id).role,
                    ready: false,
                }),
            ),
    {
        let at = find_place(&self.players, player_id);
        if at < self.players.len() && self.players[at].player.id == player_id {
            self.players[at].ready = false;
            proof {
                self.lemma_player_changed(*old(self), at as int);
                self.lemma_same_cards(*old(self));
            }
        }
    }

    /// A game stays well formed when one player changes role or readiness.
    proof fn lemma_player_changed(self, before: ValleyGame, at: int)
        requires
            before.wf(),
            before.same_table(self),
            0 <= at < before.players().len(),
            self.players().len() == before.players().len(),
            self.players()[at].player == before.players()[at].player,
            self.players()[at].pos == before.players()[at].pos,
            forall|i: int|
                0 <= i < before.players().len() && i != at ==> self.players()[i]
                    == before.players()[i],
        ensures
            self.wf(),
            self.players() == before.players().update(at, self.players()[at]),
    {
        assert(self.players() =~= before.players().update(at, self.players()[at]));
        assert forall|i: int, j: int| 0 <= i < j < self.players().len() implies self.players()[i].player.id
            < self.players()[j].player.id && self.players()[i].pos != self.players()[j].pos by {
            assert(before.players()[i].player.id < before.players()[j].player.id);
            assert(before.players()[i].pos != before.players()[j].pos);
        }
        assert forall|i: int| 0 <= i < self.players().len() implies self.seat_ok(
            #[trigger] self.players()[i].pos,
        ) by {
            assert(before.seat_ok(before.players()[i].pos));
        }
    }

    /// Whether every player at the table is ready.
    pub fn players_ready(&self) -> (ready: bool)
        ensures
            ready == forall|i: int| 0 <= i < self.players().len() ==> self.players()[i].ready,
    {
        let mut i: usize = 0;
        while i < self.players.len()
            invariant
                i <= self.players.len(),
                forall|k: int| 0 <= k < i ==> self.players@[k].ready,
            decreases self.players.len() - i,
        {
            if !self.players[i].ready {
                return false;
            }
            i = i + 1;
        }
        true
    }

    /// Advances the game by one step, as `StatusView::advance` says.
    pub fn next(&mut self)
        requires
            old(self).wf(),
        ensures
            final(self).wf(),
            final(self).status() == old(self).status().advance(old(self).source().len() == 0),
            old(self).same_but_status(*final(self)),
            old(self).conserves_cards() ==> final(self).conserves_cards(),
    {
        let advanced = match &self.status {
            Status::Pregame => None,
            Status::Twilight(first, _) => Some(Status::Playing(*first, Phase::Influence)),
            Status::Playing(pos, Phase::Influence) => Some(Status::Playing(*pos, Phase::Act)),
            Status::Playing(pos, Phase::Act) => if self.source.is_empty() {
                Some(Status::Endgame)
            } else {
                Some(Status::Playing(*pos, Phase::Source))
            },
            Status::Playing(pos, Phase::Source) => {
                proof {
                    pos.lemma_cases();
                }
                Some(Status::Playing(pos.next(), Phase::Influence))
            },
            Status::Endgame => None,
        };
        match advanced {
            Some(status) => {
                self.status = status;
            },
            None => {},
        }
        proof {
            self.lemma_same_cards(*old(self));
        }
    }

    /// Advances the game by one step; the game is never begun by it.
    pub fn update_init_state(&mut self) -> (begun: bool)
        requires
            old(self).wf(),
        ensures
            !begun,
            final(self).wf(),
            final(self).status() == old(self).status().advance(old(self).source().len() == 0),
            old(self).same_but_status(*final(self)),
            old(self).conserves_cards() ==> final(self).conserves_cards(),
    {
        self.next();
        false
    }

    /// The player `player` once a trick is over: no longer ready, unless a
    /// spectator.
    pub open spec fn after_trick(player: GamePlayerState) -> GamePlayerState {
        GamePlayerState {
            player: player.player,
            pos: player.pos,
            role: player.role,
            ready: player.role == PlayerRole::Spectator && player.ready,
        }
    }

    /// The player `player` once the last trick is over: no longer ready and of
    /// unknown role, unless a spectator.
    pub open spec fn after_last_trick(player: GamePlayerState) -> GamePlayerState {
        GamePlayerState {
            player: player.player,
            pos: player.pos,
            role: if player.role == PlayerRole::Spectator {
                PlayerRole::Spectator
            } else {
                PlayerRole::Unknown
            },
            ready: player.role == PlayerRole::Spectator && player.ready,
        }
    }

    /// Ends a trick: the players that are no spectators are no longer ready.
    pub fn end_trick(&mut self)
        requires
            old(self).wf(),
        ensures
            final(self).wf(),
            old(self).same_table(*final(self)),
            old(self).conserves_cards() ==> final(self).conserves_cards(),
            final(self).players() == old(self).players().map_values(
                |p: GamePlayerState| ValleyGame::after_trick(p),
            ),
    {
        let mut i: usize = 0;
        while i < self.players.len()
            invariant
                i <= self.players.len(),
                self.players@.len() == old(self).players().len(),
                old(self).same_table(*self),
                forall|k: int|
                    0 <= k < i ==> self.players@[k] == ValleyGame::after_trick(
                        old(self).players()[k],
                    ),
                forall|k: int| i <= k < self.players@.len() ==> self.players@[k] == old(self).players()[k],
            decreases self.players.len() - i,
        {
            if self.players[i].role != PlayerRole::Spectator {
                self.players[i].ready = false;
            }
            i = i + 1;
        }
        proof {
            self.lemma_same_cards(*old(self));
            self.lemma_players_rested(*old(self));
            assert(self.players() =~= old(self).players().map_values(
                |p: GamePlayerState| ValleyGame::after_trick(p),
            ));
        }
    }

    /// Ends the last trick: the players that are no spectators are no longer
    /// ready, and their role is unknown.
    pub fn end_last_trick(&mut self)
        requires
            old(self).wf(),
        ensures
            final(self).wf(),
            old(self).same_table(*final(self)),
            old(self).conserves_cards() ==> final(self).conserves_cards(),
            final(self).players() == old(self).players().map_values(
                |p: GamePlayerState| ValleyGame::after_last_trick(p),
            ),
    {
        let mut i: usize = 0;
        while i < self.players.len()
            invariant
                i <= self.players.len(),
                self.players@.len() == old(self).players().len(),
                old(self).same_table(*self),
                forall|k: int|
                    0 <= k < i ==> self.players@[k] == ValleyGame::after_last_trick(
                        old(self).players()[k],
                    ),
                forall|k: int| i <= k < self.players@.len() ==> self.players@[k] == old(self).players()[k],
            decreases self.players.len() - i,
        {
            if self.players[i].role != PlayerRole::Spectator {
                self.players[i].ready = false;
                self.players[i].role = PlayerRole::Unknown;
            }
            i = i + 1;
        }
        proof {
            self.lemma_same_cards(*old(self));
            self.lemma_players_rested(*old(self));
            assert(self.players() =~= old(self).players().map_values(
                |p: GamePlayerState| ValleyGame::after_last_trick(p),
            ));
        }
    }

    /// Whether `next` differs from this game in its stars and its source at most.
    pub open spec fn same_but_cards(self, next: ValleyGame) -> bool {
        &&& next.spec_nb_players() == self.spec_nb_players()
        &&& next.players() == self.players()
        &&& next.status() == self.status()
        &&& next.river() == self.river()
        &&& next.revealed() == self.revealed()
        &&& next.trick() == self.trick()
        &&& next.spec_last_trick() == self.spec_last_trick()
    }

    /// Draws the top card of the source into the hand of the star at place `at`.
    fn draw_for(&mut self, at: usize) -> (card: Card)
        requires
            old(self).wf(),
            at < old(self).stars().len(),
            old(self).source().len() > 0,
        ensures
            final(self).wf(),
            card == old(self).source().last(),
            final(self).source() == old(self).source().drop_last(),
            final(self).stars().len() == old(self).stars().len(),
            forall|j: int|
                0 <= j < old(self).stars().len() && j != at ==> final(self).stars()[j] == old(self).stars()[j],
            star_with(
                old(self).stars()[at as int],
                final(self).stars()[at as int],
                old(self).stars()[at as int].1.spec_hand()@.insert(card),
            ),
            old(self).same_but_cards(*final(self)),
            old(self).conserves_cards() ==> final(self).conserves_cards(),
            old(self).conserves_cards() ==> final(self).stars()[at as int].1.spec_hand()@.len()
                == old(self).stars()[at as int].1.spec_hand()@.len() + 1,
    {
        let card = match self.source.draw() {
            Ok(card) => card,
            Err(_) => vstd::pervasive::unreached(),
        };
        self.stars[at].1.add_to_hand(card);
        proof {
            let before = old(self).stars();
            let after = self.stars();
            assert(after =~= before.update(at as int, after[at as int]));
            assert forall|i: int, j: int| 0 <= i < j < after.len() implies after[i].0 < after[j].0
                && after[i].1.spec_pos() != after[j].1.spec_pos() by {
                assert(before[i].0 < before[j].0);
                assert(before[i].1.spec_pos() != before[j].1.spec_pos());
            }
            assert forall|i: int| 0 <= i < after.len() implies self.seat_ok(
                (#[trigger] after[i]).1.spec_pos(),
            ) by {
                assert(old(self).seat_ok(before[i].1.spec_pos()));
            }
            if old(self).conserves_cards() {
                let pile = old(self).source();
                assert(pile =~= self.source().push(card));
                self.source().to_multiset_ensures();
                assert(old(self).card_count(card) <= 1);
                lemma_stars_count_update(before, at as int, after[at as int], card);
                before[at as int].1.spec_hand().lemma_sorted();
                assert(!before[at as int].1.spec_hand()@.contains(card));
                assert forall|c: Card| #[trigger]
                    self.card_count(c) == (if c.in_deck() {
                        1nat
                    } else {
                        0nat
                    }) by {
                    lemma_stars_count_update(before, at as int, after[at as int], c);
                    assert(old(self).card_count(c) == (if c.in_deck() {
                        1nat
                    } else {
                        0nat
                    }));
                }
            }
        }
        card
    }

    /// Draws the twilight: round after round, every star draws one card from the
    /// source into its hand, in the stars' order, until one round has a single
    /// strongest card or the source has not a card left for each star. Returns
    /// the seat with that card, if a round had one, and the rounds as they fell.
    pub fn do_twilight(&mut self) -> (r: (Option<PlayerPos>, Vec<StarsCards>))
        requires
            old(self).wf(),
        ensures
            final(self).wf(),
            old(self).same_but_cards(*final(self)),
            old(self).twilight(*final(self), r.0, r.1@),
            old(self).conserves_cards() ==> final(self).conserves_cards(),
    {
        let n = self.stars.len();
        let ghost pile = self.source@;
        let ghost seats = star_seats(self.stars@);
        let ghost start = self.stars@;
        let mut drawn_cards: Vec<StarsCards> = Vec::new();
        let mut first: Option<PlayerPos> = None;
        let ghost mut drawn: int = 0;
        proof {
            assert forall|i: int| 0 <= i < n implies star_with(
                start[i],
                #[trigger] self.stars@[i],
                start[i].1.spec_hand()@.union(twilight_draws(pile, n as int, i, 0)),
            ) by {
                assert(start[i].1.spec_hand()@.union(twilight_draws(pile, n as int, i, 0))
                    =~= start[i].1.spec_hand()@);
            }
        }
        while first.is_none() && n > 0 && self.source.len() >= n
            invariant
                self.wf(),
                old(self).wf(),
                old(self).same_but_cards(*self),
                old(self).conserves_cards() ==> self.conserves_cards(),
                n == self.stars@.len(),
                n == start.len(),
                pile == old(self).source(),
                start == old(self).stars(),
                seats == star_seats(start),
                drawn == drawn_cards@.len() * n,
                0 <= drawn <= pile.len(),
                self.source@ == pile.take(pile.len() - drawn),
                first is None ==> twilight_rounds(pile, n as int) == drawn_cards@.len() + rounds_from(
                    pile,
                    n as int,
                    drawn,
                ),
                first is Some ==> twilight_rounds(pile, n as int) == drawn_cards@.len(),
                old(self).conserves_cards() ==> forall|i: int|
                    0 <= i < n ==> (#[trigger] self.stars@[i]).1.spec_hand()@.len()
                        == start[i].1.spec_hand()@.len() + drawn_cards@.len(),
                first is Some ==> drawn_cards@.len() > 0 && round_decided(
                    pile,
                    n as int,
                    drawn - n,
                ) && first == Some(seats[round_leader(pile, n as int, drawn - n)]),
                first is None && drawn_cards@.len() > 0 ==> !round_decided(
                    pile,
                    n as int,
                    drawn - n,
                ),
                forall|r: int|
                    0 <= r < drawn_cards@.len() ==> is_round(
                        pile,
                        seats,
                        self.nb_players,
                        r,
                        #[trigger] drawn_cards@[r],
                    ),
                forall|i: int|
                    0 <= i < n ==> star_with(
                        start[i],
                        #[trigger] self.stars@[i],
                        start[i].1.spec_hand()@.union(
                            twilight_draws(pile, n as int, i, drawn_cards@.len() as int),
                        ),
                    ),
            decreases pile.len() - drawn,
        {
            let ghost rounds = drawn_cards@.len() as int;
            let ghost base = self.stars@;
            let mut round = StarsCards::new(self.nb_players);
            let mut best: i32 = 0;
            let mut best_pos: Option<PlayerPos> = None;
            let mut tied: bool = false;
            let ghost mut lead: int = 0;
            let ghost mut rival: int = 0;
            let mut i: usize = 0;
            proof {
                assert forall|j: int| 0 <= j < n implies (#[trigger] base[j]).1.spec_pos()
                    == seats[j] by {
                    assert(star_with(
                        start[j],
                        self.stars@[j],
                        start[j].1.spec_hand()@.union(twilight_draws(pile, n as int, j, rounds)),
                    ));
                }
            }
            while i < n
                invariant
                    self.wf(),
                    old(self).wf(),
                    old(self).same_but_cards(*self),
                    old(self).conserves_cards() ==> self.conserves_cards(),
                    n == self.stars@.len(),
                    n == base.len(),
                    n == start.len(),
                    start == old(self).stars(),
                    seats == star_seats(start),
                    i <= n,
                    0 <= drawn,
                    drawn + n <= pile.len(),
                    drawn == rounds * n,
                    self.source@ == pile.take(pile.len() - drawn - i),
                    round.count == self.nb_players,
                    forall|j: int|
                        0 <= j < i ==> round@.dom().contains(#[trigger] seats[j]) && round@[seats[j]]
                            == twilight_card(pile, drawn, j),
                    forall|pos: PlayerPos|
                        round@.dom().contains(pos) ==> exists|j: int|
                            0 <= j < i && #[trigger] seats[j] == pos,
                    forall|j: int|
                        0 <= j < i ==> star_with(
                            base[j],
                            #[trigger] self.stars@[j],
                            base[j].1.spec_hand()@.insert(twilight_card(pile, drawn, j)),
                        ),
                    forall|j: int| i <= j < n ==> #[trigger] self.stars@[j] == base[j],
                    old(self).conserves_cards() ==> forall|j: int|
                        0 <= j < i ==> (#[trigger] self.stars@[j]).1.spec_hand()@.len()
                            == base[j].1.spec_hand()@.len() + 1,
                    old(self).conserves_cards() ==> forall|j: int|
                        0 <= j < n ==> (#[trigger] base[j]).1.spec_hand()@.len()
                            == start[j].1.spec_hand()@.len() + rounds,
                    forall|j: int| 0 <= j < n ==> (#[trigger] base[j]).1.spec_pos() == seats[j],
                    0 <= best,
                    i == 0 ==> best == 0 && best_pos is None,
                    forall|j: int|
                        0 <= j < i ==> spec_strength(#[trigger] twilight_card(pile, drawn, j))
                            <= best,
                    i > 0 ==> 0 <= lead < i && spec_strength(twilight_card(pile, drawn, lead))
                        == best && best_pos == Some(seats[lead]),
                    i > 0 && tied ==> 0 <= rival < i && rival != lead && spec_strength(
                        twilight_card(pile, drawn, rival),
                    ) == best,
                    i > 0 && !tied ==> forall|j: int|
                        0 <= j < i && j != lead ==> spec_strength(
                            #[trigger] twilight_card(pile, drawn, j),
                        ) < best,
                decreases n - i,
            {
                let card = self.draw_for(i);
                let pos = self.stars[i].1.get_pos();
                proof {
                    assert(card == twilight_card(pile, drawn, i as int));
                    assert(self.source@ =~= pile.take(pile.len() - drawn - (i + 1)));
                    assert(base[i as int].1.spec_pos() == seats[i as int]);
                    assert(self.seat_ok(pos));
                }
                let ghost noted = round@;
                round.insert(pos, card);
                proof {
                    assert forall|j: int| 0 <= j < i + 1 implies round@.dom().contains(
                        #[trigger] seats[j],
                    ) && round@[seats[j]] == twilight_card(pile, drawn, j) by {
                        if j < i {
                            assert(start[j].1.spec_pos() != start[i as int].1.spec_pos());
                            assert(noted.dom().contains(seats[j]));
                        }
                    }
                    assert forall|p: PlayerPos| round@.dom().contains(p) implies exists|j: int|
                        0 <= j < i + 1 && #[trigger] seats[j] == p by {
                        if p == pos {
                            assert(seats[i as int] == p);
                        } else {
                            assert(noted.dom().contains(p));
                            let j = choose|j: int| 0 <= j < i && #[trigger] seats[j] == p;
                            assert(seats[j] == p);
                        }
                    }
                }
                let s = strength(card);
                if s > best {
                    best = s;
                    best_pos = Some(pos);
                    tied = false;
                    proof {
                        lead = i as int;
                    }
                } else if s == best {
                    tied = true;
                    proof {
                        rival = i as int;
                    }
                }
                i = i + 1;
            }
            proof {
                assert(self.source@ =~= pile.take(pile.len() - (drawn + n)));
                if !tied {
                    assert(leads_round(pile, n as int, drawn, lead));
                    let x = round_leader(pile, n as int, drawn);
                    assert(leads_round(pile, n as int, drawn, x));
                    if x != lead {
                        assert(spec_strength(twilight_card(pile, drawn, lead)) < spec_strength(
                            twilight_card(pile, drawn, x),
                        ));
                    }
                } else {
                    if round_decided(pile, n as int, drawn) {
                        let x = round_leader(pile, n as int, drawn);
                        assert(leads_round(pile, n as int, drawn, x));
                        if x != lead {
                            assert(spec_strength(twilight_card(pile, drawn, lead)) < spec_strength(
                                twilight_card(pile, drawn, x),
                            ));
                        } else {
                            assert(spec_strength(twilight_card(pile, drawn, rival)) < spec_strength(
                                twilight_card(pile, drawn, x),
                            ));
                        }
                    }
                }
                assert((rounds + 1) * n == rounds * n + n) by (nonlinear_arith);
                assert(is_round(pile, seats, self.nb_players, rounds, round)) by {
                    assert forall|j: int| 0 <= j < seats.len() implies round@.dom().contains(
                        #[trigger] seats[j],
                    ) && round@[seats[j]] == round_card(pile, seats.len() as int, rounds, j) by {}
                    assert forall|p: PlayerPos| round@.dom().contains(p) implies seats.contains(
                        p,
                    ) by {
                        let j = choose|j: int| 0 <= j < n && #[trigger] seats[j] == p;
                        assert(seats[j] == p);
                    }
                }
                assert forall|j: int| 0 <= j < n implies star_with(
                    start[j],
                    #[trigger] self.stars@[j],
                    start[j].1.spec_hand()@.union(twilight_draws(pile, n as int, j, rounds + 1)),
                ) by {
                    let was = twilight_draws(pile, n as int, j, rounds);
                    let now = twilight_draws(pile, n as int, j, rounds + 1);
                    let card = twilight_card(pile, drawn, j);
                    assert(star_with(start[j], base[j], start[j].1.spec_hand()@.union(was)));
                    assert(card == round_card(pile, n as int, rounds, j));
                    assert forall|c: Card| now.contains(c) == was.insert(card).contains(c) by {
                        if now.contains(c) {
                            let r = choose|r: int|
                                0 <= r < rounds + 1 && c == #[trigger] round_card(
                                    pile,
                                    n as int,
                                    r,
                                    j,
                                );
                            if r < rounds {
                                assert(was.contains(c));
                            }
                        }
                        if was.contains(c) {
                            let r = choose|r: int|
                                0 <= r < rounds && c == #[trigger] round_card(pile, n as int, r, j);
                            assert(0 <= r < rounds + 1 && c == round_card(pile, n as int, r, j));
                        }
                    }
                    assert(now =~= was.insert(card));
                    assert(start[j].1.spec_hand()@.union(now) =~= start[j].1.spec_hand()@.union(
                        was,
                    ).insert(card));
                }
            }
            first = if tied {
                None
            } else {
                best_pos
            };
            drawn_cards.push(round);
            proof {
                drawn = drawn + n;
            }
        }
        proof {
            let k = drawn_cards@.len() as int;
            assert(twilight_rounds(pile, n as int) == k);
            assert((k - 1) * n == drawn - n) by (nonlinear_arith)
                requires
                    drawn == k * n,
            ;
            assert(self.stars@.len() == start.len());
        }
        (first, drawn_cards)
    }

    /// Whether `next`, `first` and `history` are what the twilight makes of this
    /// game: the rounds that `twilight_rounds` counts are drawn from the top of
    /// the source, each star has its cards of these rounds in its hand, and
    /// `first` is the seat that `twilight_first` finds. Where the cards are all
    /// there, each card drawn is new to its hand, so every hand grows by one card
    /// a round.
    pub open spec fn twilight(
        self,
        next: ValleyGame,
        first: Option<PlayerPos>,
        history: Seq<StarsCards>,
    ) -> bool {
        let pile = self.source();
        let n = self.stars().len() as int;
        let seats = star_seats(self.stars());
        let k = twilight_rounds(pile, n) as int;
        &&& history.len() == k
        &&& forall|r: int|
            0 <= r < k ==> is_round(pile, seats, self.spec_nb_players(), r, #[trigger] history[r])
        &&& first == twilight_first(pile, seats)
        &&& k * n <= pile.len()
        &&& next.source() == pile.take(pile.len() - k * n)
        &&& next.stars().len() == n
        &&& forall|i: int|
            0 <= i < n ==> star_with(
                self.stars()[i],
                #[trigger] next.stars()[i],
                self.stars()[i].1.spec_hand()@.union(twilight_draws(pile, n, i, k)),
            )
        &&& self.conserves_cards() ==> forall|i: int|
            0 <= i < n ==> (#[trigger] next.stars()[i]).1.spec_hand()@.len()
                == self.stars()[i].1.spec_hand()@.len() + k
    }

    /// Whether `next` is the game `before`, with the players `players`, once it
    /// has begun with the deal of `hands` and `source`. The first players, in the
    /// order of their identities, get a star each with a hand of the deal, as far
    /// as the hands go; the twilight is drawn from `source`; and the game stands
    /// in the twilight, with the seat that plays first and the rounds as they
    /// fell, and an empty trick led by that seat, or, if the twilight found no
    /// seat, at its end.
    pub open spec fn begun(
        before: ValleyGame,
        players: Seq<GamePlayerState>,
        hands: Seq<Hand>,
        source: Seq<Card>,
        next: ValleyGame,
    ) -> bool {
        let m = if players.len() < NB_PLAYERS {
            players.len() as int
        } else {
            NB_PLAYERS as int
        };
        let seats = Seq::new(m as nat, |i: int| players[i].pos);
        let k = twilight_rounds(source, m) as int;
        &&& next.spec_nb_players() == before.spec_nb_players()
        &&& next.players() == players
        &&& next.river() == before.river()
        &&& next.revealed() == before.revealed()
        &&& next.stars().len() == m
        &&& forall|i: int|
            0 <= i < m ==> {
                &&& (#[trigger] next.stars()[i]).0 == players[i].player.id
                &&& next.stars()[i].1.spec_pos() == players[i].pos
                &&& next.stars()[i].1.spec_majesty() == START_MAJESTY
                &&& next.stars()[i].1.beings() == Seq::<Being>::empty()
                &&& next.stars()[i].1.spec_hand()@ == hands[i]@.union(
                    twilight_draws(source, m, i, k),
                )
            }
        &&& k * m <= source.len()
        &&& next.source() == source.take(source.len() - k * m)
        &&& match twilight_first(source, seats) {
            Some(first) => {
                &&& next.status() matches StatusView::Twilight(pos, history)
                &&& pos == first
                &&& history.len() == k
                &&& forall|r: int|
                    0 <= r < k ==> is_round(
                        source,
                        seats,
                        before.spec_nb_players(),
                        r,
                        #[trigger] history[r],
                    )
                &&& next.trick().first == first
                &&& next.trick().winner == first
                &&& forall|seat: int|
                    0 <= seat < MAX_PLAYERS ==> next.trick().cards@[seat] == None::<Card>
                &&& next.spec_last_trick() is None
            },
            None => {
                &&& next.status() == StatusView::Endgame
                &&& next.trick() == before.trick()
                &&& next.spec_last_trick() == before.spec_last_trick()
            },
        }
    }

    /// Begins the game with the deal of `hands` and `source`, as `begun` says.
    /// If the deal shares out the deck and there is a player for each hand, the
    /// cards are all there afterwards.
    pub fn begin_with(&mut self, hands: [Hand; NB_PLAYERS], source: Deck)
        requires
            old(self).wf(),
            old(self).status() is Pregame,
            source@.len() <= DECK_SIZE,
        ensures
            final(self).wf(),
            ValleyGame::begun(*old(self), old(self).players(), hands@, source@, *final(self)),
            is_deal(hands@, source@) && old(self).players().len() >= NB_PLAYERS ==> final(self).conserves_cards(),
    {
        let ghost seats = Seq::new(
            (if self.players@.len() < NB_PLAYERS {
                self.players@.len() as int
            } else {
                NB_PLAYERS as int
            }) as nat,
            |i: int| self.players@[i].pos,
        );
        let mut i: usize = 0;
        while i < NB_PLAYERS && i < self.players.len()
            invariant
                i <= NB_PLAYERS,
                i <= self.players@.len(),
                old(self).wf(),
                old(self).same_table(*self) || self.stars@.len() > 0,
                self.players@ == old(self).players(),
                self.nb_players == old(self).spec_nb_players(),
                self.river@ == old(self).river(),
                self.revealed@ == old(self).revealed(),
                self.trick == old(self).trick(),
                self.last_trick == old(self).spec_last_trick(),
                self.status@ is Pregame,
                self.stars@.len() == i,
                forall|j: int|
                    0 <= j < i ==> {
                        &&& (#[trigger] self.stars@[j]).0 == self.players@[j].player.id
                        &&& self.stars@[j].1.spec_pos() == self.players@[j].pos
                        &&& self.stars@[j].1.spec_majesty() == START_MAJESTY
                        &&& self.stars@[j].1.beings() == Seq::<Being>::empty()
                        &&& self.stars@[j].1.spec_hand() == hands@[j]
                    },
            decreases NB_PLAYERS - i,
        {
            let star = Star::new(self.players[i].pos, hands[i]);
            self.stars.push((self.players[i].player.id, star));
            i = i + 1;
        }
        self.source = source;
        self.status = Status::Endgame;
        proof {
            let stars = self.stars@;
            let players = self.players@;
            assert forall|a: int, b: int| 0 <= a < b < stars.len() implies stars[a].0 < stars[b].0
                && stars[a].1.spec_pos() != stars[b].1.spec_pos() by {
                assert(players[a].player.id < players[b].player.id);
                assert(players[a].pos != players[b].pos);
            }
            assert forall|a: int| 0 <= a < stars.len() implies self.seat_ok(
                (#[trigger] stars[a]).1.spec_pos(),
            ) by {
                assert(old(self).seat_ok(players[a].pos));
            }
            assert(self.wf());
            assert(star_seats(stars) =~= seats);
            if is_deal(hands@, source@) && players.len() >= NB_PLAYERS {
                assert(stars.len() == 2);
                assert(stars.drop_last().len() == 1);
                assert(stars.drop_last().drop_last().len() == 0);
                assert forall|c: Card| #[trigger]
                    self.card_count(c) == (if c.in_deck() {
                        1nat
                    } else {
                        0nat
                    }) by {
                    assert(occurrences(source@, c) + hands@[0].count(c) + hands@[1].count(c) == (if c.in_deck() {
                        1nat
                    } else {
                        0nat
                    }));
                    assert(stars_count(stars.drop_last().drop_last(), c) == 0);
                    assert(stars.drop_last().last() == stars[0]);
                    assert(stars_count(stars.drop_last(), c) == stars[0].1.count(c));
                    assert(stars_count(stars, c) == stars[0].1.count(c) + stars[1].1.count(c));
                    assert(occurrences(self.river@, c) == 0) by {
                        self.river@.to_multiset_ensures();
                        assert(self.river@ =~= Seq::<Card>::empty());
                    }
                }
            }
        }
        let ghost mid = *self;
        let (first, last_cards) = self.do_twilight();
        proof {
            let n = mid.stars().len() as int;
            let k = twilight_rounds(source@, n) as int;
            if first is Some {
                assert(round_decided(source@, n, (k - 1) * n));
                let x = round_leader(source@, n, (k - 1) * n);
                assert(leads_round(source@, n, (k - 1) * n, x));
                assert(first == Some(seats[x]));
                assert(old(self).seat_ok(self.players@[x].pos));
            }
            assert forall|j: int| 0 <= j < n implies (#[trigger] self.stars@[j]).1.spec_hand()@
                == hands@[j]@.union(twilight_draws(source@, n, j, k)) by {
                assert(star_with(
                    mid.stars()[j],
                    self.stars@[j],
                    mid.stars()[j].1.spec_hand()@.union(twilight_draws(source@, n, j, k)),
                ));
            }
        }
        let ghost drawn = *self;
        match first {
            Some(pos_first) => {
                self.status = Status::Twilight(pos_first, last_cards);
                self.trick = Trick::new(pos_first);
                self.last_trick = None;
            },
            None => {},
        }
        proof {
            let n = mid.stars().len() as int;
            let k = twilight_rounds(source@, n) as int;
            assert forall|j: int| 0 <= j < n implies {
                &&& (#[trigger] self.stars@[j]).0 == self.players@[j].player.id
                &&& self.stars@[j].1.spec_pos() == self.players@[j].pos
                &&& self.stars@[j].1.spec_majesty() == START_MAJESTY
                &&& self.stars@[j].1.beings() == Seq::<Being>::empty()
            } by {
                assert(star_with(
                    mid.stars()[j],
                    self.stars@[j],
                    mid.stars()[j].1.spec_hand()@.union(twilight_draws(source@, n, j, k)),
                ));
            }
            if drawn.conserves_cards() {
                assert forall|c: Card| #[trigger]
                    self.card_count(c) == (if c.in_deck() {
                        1nat
                    } else {
                        0nat
                    }) by {
                    assert(self.card_count(c) == drawn.card_count(c));
                }
            }
        }
    }

    /// Begins the game: the deck is shuffled and dealt as `deal_hands` does, and
    /// the game begins with that deal as `begun` says. Whatever the deal, if
    /// there is a player for each hand, the cards are all there afterwards.
    pub fn init_game(&mut self)
        requires
            old(self).wf(),
            old(self).status() is Pregame,
        ensures
            final(self).wf(),
            exists|hands: Seq<Hand>, source: Seq<Card>|
                is_deal(hands, source) && #[trigger] ValleyGame::begun(
                    *old(self),
                    old(self).players(),
                    hands,
                    source,
                    *final(self),
                ),
            old(self).players().len() >= NB_PLAYERS ==> final(self).conserves_cards(),
    {
        let (hands, source) = deal_hands();
        let ghost dealt_hands = hands@;
        let ghost dealt_source = source@;
        self.begin_with(hands, source);
        proof {
            assert(ValleyGame::begun(
                *old(self),
                old(self).players(),
                dealt_hands,
                dealt_source,
                *self,
            ));
        }
    }

    /// The player `player` once marked ready; before the game has begun, the mark
    /// also makes a player of the deal to come.
    pub open spec fn made_ready(player: GamePlayerState, pregame: bool) -> GamePlayerState {
        GamePlayerState {
            player: player.player,
            pos: player.pos,
            role: if pregame {
                PlayerRole::PreDeal
            } else {
                player.role
            },
            ready: true,
        }
    }

    /// The players once the one with identity `id` is marked ready.
    pub open spec fn marked_ready(self, id: u128) -> Seq<GamePlayerState> {
        self.players().update(
            place_of(self.players(), id),
            ValleyGame::made_ready(self.player(id), self.status() is Pregame),
        )
    }

    /// Whether marking the player with identity `id` ready begins the game: the
    /// game has not begun, and with this one there are as many ready players as
    /// the table has seats.
    pub open spec fn ready_begins(self, id: u128) -> bool {
        self.status() is Pregame && ready_count(self.marked_ready(id)) == self.spec_nb_players()
    }

    /// Marks a player ready, and says whether that began the game. An identity
    /// that is not at the table changes nothing. Where the mark begins the game,
    /// the game begins as `init_game` says.
    pub fn set_player_ready(&mut self, player_id: u128) -> (begins: bool)
        requires
            old(self).wf(),
        ensures
            final(self).wf(),
            !old(self).has_player(player_id) ==> !begins && *final(self) == *old(self),
            old(self).has_player(player_id) ==> begins == old(self).ready_begins(player_id),
            old(self).has_player(player_id) && !begins ==> final(self).players() == old(self).marked_ready(player_id) && old(self).same_table(*final(self)),
            begins ==> exists|hands: Seq<Hand>, source: Seq<Card>|
                is_deal(hands, source) && #[trigger] ValleyGame::begun(
                    *old(self),
                    old(self).marked_ready(player_id),
                    hands,
                    source,
                    *final(self),
                ),
            begins && old(self).players().len() >= NB_PLAYERS ==> final(self).conserves_cards(),
            !begins && old(self).conserves_cards() ==> final(self).conserves_cards(),
    {
        let at = find_place(&self.players, player_id);
        if !(at < self.players.len() && self.players[at].player.id == player_id) {
            return false;
        }
        self.players[at].ready = true;
        let pregame = self.is_joinable();
        if pregame {
            self.players[at].role = PlayerRole::PreDeal;
        }
        proof {
            self.lemma_player_changed(*old(self), at as int);
            assert(self.players@ =~= old(self).marked_ready(player_id));
            assert forall|c: Card| self.card_count(c) == old(self).card_count(c) by {}
        }
        if pregame {
            // Check if we start the game
            let mut count: usize = 0;
            let mut i: usize = 0;
            while i < self.players.len()
                invariant
                    i <= self.players.len(),
                    count <= i,
                    count == ready_count(self.players@.take(i as int)),
                decreases self.players.len() - i,
            {
                proof {
                    assert(self.players@.take(i + 1).drop_last() =~= self.players@.take(i as int));
                }
                if self.players[i].ready {
                    count = count + 1;
                }
                i = i + 1;
            }
            proof {
                assert(self.players@.take(self.players@.len() as int) =~= self.players@);
            }
            if count == self.nb_players as usize {
                let ghost mid = *self;
                self.init_game();
                proof {
                    let (hands, source) = choose|hands: Seq<Hand>, source: Seq<Card>|
                        is_deal(hands, source) && #[trigger] ValleyGame::begun(
                            mid,
                            mid.players(),
                            hands,
                            source,
                            *self,
                        );
                    assert(ValleyGame::begun(
                        *old(self),
                        old(self).marked_ready(player_id),
                        hands,
                        source,
                        *self,
                    ));
                }
                return true;
            }
        }
        false
    }

    /// Whether the player with identity `id` has a star.
    pub open spec fn owns(self, id: u128) -> bool {
        exists|i: int| 0 <= i < self.stars().len() && self.stars()[i].0 == id
    }

    /// The place of the star of the player with identity `id`.
    pub open spec fn star_place(self, id: u128) -> int {
        choose|i: int| 0 <= i < self.stars().len() && self.stars()[i].0 == id
    }

    /// The place of the star of the player with identity `id`, if the player has
    /// one.
    pub fn find_star(&self, id: u128) -> (at: Option<usize>)
        requires
            self.wf(),
        ensures
            at is None <==> !self.owns(id),
            at matches Some(i) ==> i < self.stars().len() && self.stars()[i as int].0 == id
                && self.star_place(id) == i,
    {
        let mut i: usize = 0;
        while i < self.stars.len()
            invariant
                self.wf(),
                i <= self.stars.len(),
                forall|k: int| 0 <= k < i ==> self.stars@[k].0 != id,
            decreases self.stars.len() - i,
        {
            if self.stars[i].0 == id {
                proof {
                    assert(self.stars()[i as int].0 == id);
                    let k = self.star_place(id);
                    if k < i {
                    } else if k > i {
                        assert(self.stars@[i as int].0 < self.stars@[k].0);
                    }
                }
                return Some(i);
            }
            i = i + 1;
        }
        None
    }

    /// The cards in the hand of the player with identity `id`: none for a player
    /// without a star.
    pub open spec fn hand_of(self, id: u128) -> Set<Card> {
        if self.owns(id) {
            self.stars()[self.star_place(id)].1.spec_hand()@
        } else {
            Set::empty()
        }
    }

    /// Whether `seen` is the view of the game that the player with identity `id`
    /// is entitled to. The players stand in the order of their seats. Of every
    /// star the view shows what `Star::seen_as` lets through: the hand itself
    /// only of the player's own star, of the others its size, and of the beings'
    /// resources only the revealed ones. The player's own hand is shown also by
    /// itself; of the source only the number of its cards.
    pub open spec fn seen_by(self, id: u128, seen: GameStateSnapshot) -> bool {
        &&& seen.nb_players == self.spec_nb_players()
        &&& seen.players@.to_multiset() == self.players().to_multiset()
        &&& seats_ascend(seen.players@)
        &&& exists|from: Seq<int>| ordered_by_seat(self.players(), seen.players@, from)
        &&& seen.pos == self.player(id).pos
        &&& seen.hand@ == self.hand_of(id)
        &&& seen.status@ == self.status()
        &&& seen.stars@.len() == self.stars().len()
        &&& forall|i: int|
            0 <= i < self.stars().len() ==> (#[trigger] self.stars()[i]).1.seen_as(
                self.stars()[i].0 == id,
                self.revealed(),
                seen.stars@[i],
            )
        &&& seen.source_count == self.source().len()
        &&& seen.river@ == self.river()
    }

    /// Creates a view of the game for a player. Only a player at the table gets
    /// one.
    pub fn make_snapshot(&self, player_id: u128) -> (r: Result<GameStateSnapshot, EngineError>)
        requires
            self.wf(),
        ensures
            !self.has_player(player_id) ==> r == Err::<GameStateSnapshot, EngineError>(
                EngineError::UnknownPlayer,
            ),
            self.has_player(player_id) ==> r is Ok && self.seen_by(player_id, r->Ok_0),
    {
        let at = find_place(&self.players, player_id);
        if !(at < self.players.len() && self.players[at].player.id == player_id) {
            return Err(EngineError::UnknownPlayer);
        }
        let players = sorted_by_seat(&self.players);
        let ghost from = choose|from: Seq<int>| ordered_by_seat(self.players@, players@, from);
        let pos = self.players[at].pos;
        let mut hand: Hand = Hand::new();
        let mut stars: Vec<StarSnapshot> = Vec::new();
        let mut i: usize = 0;
        while i < self.stars.len()
            invariant
                self.wf(),
                ordered_by_seat(self.players(), players@, from),
                i <= self.stars.len(),
                stars@.len() == i,
                forall|k: int|
                    0 <= k < i ==> (#[trigger] self.stars@[k]).1.seen_as(
                        self.stars@[k].0 == player_id,
                        self.revealed@,
                        stars@[k],
                    ),
                (exists|k: int| 0 <= k < i && self.stars@[k].0 == player_id) ==> self.owns(
                    player_id,
                ) && self.star_place(player_id) < i && hand == self.stars@[self.star_place(
                    player_id,
                )].1.spec_hand(),
                (forall|k: int| 0 <= k < i ==> self.stars@[k].0 != player_id) ==> hand@
                    == Set::<Card>::empty(),
            decreases self.stars.len() - i,
        {
            let owner = self.stars[i].0 == player_id;
            if owner {
                hand = self.stars[i].1.get_hand();
                proof {
                    assert(self.stars()[i as int].0 == player_id);
                    assert(self.owns(player_id));
                    let k = self.star_place(player_id);
                    if k < i {
                        assert(self.stars@[k].0 < self.stars@[i as int].0);
                    } else if k > i {
                        assert(self.stars@[i as int].0 < self.stars@[k].0);
                    }
                }
            }
            stars.push(self.stars[i].1.make_snapshot(owner, &self.revealed));
            i = i + 1;
        }
        let seen = GameStateSnapshot {
            nb_players: self.nb_players,
            players,
            stars,
            hand,
            pos,
            status: self.status.copy(),
            river: self.river.clone(),
            source_count: self.source.len() as u8,
        };
        proof {
            assert(ordered_by_seat(self.players(), seen.players@, from));
            assert(self.seen_by(player_id, seen));
        }
        Ok(seen)
    }

    /// Why the card `card` from the player with identity `id` is refused, if it
    /// is: the identity is not at the table; or it is not the turn of the
    /// player's seat; or the player does not hold the card.
    pub open spec fn refusal(self, id: u128, card: Card) -> Option<EngineError> {
        if !self.has_player(id) {
            Some(EngineError::UnknownPlayer)
        } else if !(self.status() matches StatusView::Playing(active, _) && active == self.player(
            id,
        ).pos) {
            Some(EngineError::Play(PlayError::TurnError))
        } else if !self.hand_of(id).contains(card) {
            Some(EngineError::Play(PlayError::CardMissing))
        } else {
            None
        }
    }

    /// Whether `next` is this game once the player with identity `id`, whose turn
    /// it is, has played `card`. The card has left the player's hand for the top
    /// of the river, everyone may see it, and it lies in the trick. If it
    /// completes the trick, the trick is kept as the last one, the trick's winner
    /// leads a new one and is the next to play, and the players that are no
    /// spectators are no longer ready; else the next seat is the next to play.
    pub open spec fn card_played(self, id: u128, card: Card, next: ValleyGame) -> bool {
        let pos = self.player(id).pos;
        let at = self.star_place(id);
        let phase = self.status()->Playing_1;
        let winner = self.trick().winner_after(pos, card);
        &&& next.spec_nb_players() == self.spec_nb_players()
        &&& next.source() == self.source()
        &&& next.river() == self.river().push(card)
        &&& next.revealed() == (if self.revealed().contains(card) {
            self.revealed()
        } else {
            self.revealed().push(card)
        })
        &&& next.stars().len() == self.stars().len()
        &&& forall|i: int|
            0 <= i < self.stars().len() && i != at ==> next.stars()[i] == self.stars()[i]
        &&& star_with(
            self.stars()[at],
            next.stars()[at],
            self.stars()[at].1.spec_hand()@.remove(card),
        )
        &&& if self.trick().completed_by(pos) {
            &&& next.status() == StatusView::Playing(winner, phase)
            &&& next.spec_last_trick() matches Some(last)
            &&& self.trick().played(pos, card, last)
            &&& next.trick().first == winner
            &&& next.trick().winner == winner
            &&& forall|seat: int|
                0 <= seat < MAX_PLAYERS ==> next.trick().cards@[seat] == None::<Card>
            &&& next.players() == self.players().map_values(
                |p: GamePlayerState| ValleyGame::after_trick(p),
            )
        } else {
            &&& next.status() == StatusView::Playing(pos.spec_next(), phase)
            &&& self.trick().played(pos, card, next.trick())
            &&& next.spec_last_trick() == self.spec_last_trick()
            &&& next.players() == self.players()
        }
    }

    /// Whether `next` and `r` are what comes of the card `card` from the player
    /// with identity `id`: a card that `refusal` refuses gives its reason and
    /// leaves the game exactly as it was; any other is played as `card_played`
    /// says.
    pub open spec fn play_outcome(
        self,
        id: u128,
        card: Card,
        next: ValleyGame,
        r: Result<(), EngineError>,
    ) -> bool {
        match self.refusal(id, card) {
            Some(e) => r == Err::<(), EngineError>(e) && next == self,
            None => r == Ok::<(), EngineError>(()) && self.card_played(id, card, next),
        }
    }

    /// Plays the card `card` for the player with identity `id`, as `play_outcome`
    /// says. The cards stay all there, and what was revealed stays revealed.
    pub fn play(&mut self, player_id: u128, card: Card) -> (r: Result<(), EngineError>)
        requires
            old(self).wf(),
        ensures
            final(self).wf(),
            old(self).play_outcome(player_id, card, *final(self), r),
            old(self).conserves_cards() ==> final(self).conserves_cards(),
            forall|c: Card| old(self).revealed().contains(c) ==> final(self).revealed().contains(c),
    {
        let place = find_place(&self.players, player_id);
        if !(place < self.players.len() && self.players[place].player.id == player_id) {
            return Err(EngineError::UnknownPlayer);
        }
        let pos = self.players[place].pos;
        let phase = match &self.status {
            Status::Playing(active, phase) => {
                if *active != pos {
                    return Err(EngineError::Play(PlayError::TurnError));
                }
                *phase
            },
            _ => {
                return Err(EngineError::Play(PlayError::TurnError));
            },
        };
        let at = match self.find_star(player_id) {
            Some(at) => at,
            None => {
                return Err(EngineError::Play(PlayError::CardMissing));
            },
        };
        // Is that a valid move?
        match can_play(
            pos,
            card,
            self.stars[at].1.get_hand(),
            &self.trick,
            self.last_trick.is_none(),
        ) {
            Err(e) => {
                return Err(EngineError::Play(e));
            },
            Ok(_) => {},
        }
        proof {
            assert(old(self).refusal(player_id, card) is None);
        }
        self.put_down(player_id, at, pos, phase, card);
        Ok(())
    }

    /// Puts down `card` for the player with identity `id`, whose turn it is and
    /// who holds the card.
    fn put_down(&mut self, id: u128, at: usize, pos: PlayerPos, phase: Phase, card: Card)
        requires
            old(self).wf(),
            old(self).refusal(id, card) is None,
            at == old(self).star_place(id),
            pos == old(self).player(id).pos,
            old(self).status() == StatusView::Playing(pos, phase),
        ensures
            final(self).wf(),
            old(self).card_played(id, card, *final(self)),
            old(self).conserves_cards() ==> final(self).conserves_cards(),
            forall|c: Card| old(self).revealed().contains(c) ==> final(self).revealed().contains(c),
    {
        proof {
            assert(old(self).seat_ok(pos));
            pos.lemma_cases();
        }
        // Play the card
        let trick_over = self.trick.play_card(pos, card);
        self.stars[at].1.remove_from_hand(card);
        self.river.push(card);
        if !is_revealed(&self.revealed, card) {
            self.revealed.push(card);
        }
        let played = self.trick;
        if trick_over {
            let winner = played.winner;
            self.last_trick = Some(played);
            self.trick = Trick::new(winner);
            self.status = Status::Playing(winner, phase);
        } else {
            self.status = Status::Playing(pos.next(), phase);
        }
        proof {
            old(self).lemma_card_moved(*self, at as int, card);
            assert forall|c: Card| old(self).revealed().contains(c) implies self.revealed().contains(
                c,
            ) by {
                let k = choose|k: int|
                    0 <= k < old(self).revealed().len() && old(self).revealed()[k] == c;
                assert(self.revealed()[k] == c);
            }
        }
        if trick_over {
            let ghost mid = *self;
            self.end_trick();
            proof {
                if mid.conserves_cards() {
                    assert forall|c: Card| #[trigger]
                        self.card_count(c) == (if c.in_deck() {
                            1nat
                        } else {
                            0nat
                        }) by {
                        assert(self.card_count(c) == mid.card_count(c));
                    }
                }
            }
        }
    }

    /// When a card goes from a star's hand to the top of the river and no other
    /// card moves, the game stays in order and the cards stay all there.
    proof fn lemma_card_moved(self, next: ValleyGame, at: int, card: Card)
        requires
            self.wf(),
            0 <= at < self.stars().len(),
            self.stars()[at].1.spec_hand()@.contains(card),
            next.spec_nb_players() == self.spec_nb_players(),
            next.players() == self.players(),
            next.source() == self.source(),
            next.river() == self.river().push(card),
            next.stars().len() == self.stars().len(),
            forall|i: int| 0 <= i < self.stars().len() && i != at ==> next.stars()[i] == self.stars()[i],
            star_with(
                self.stars()[at],
                next.stars()[at],
                self.stars()[at].1.spec_hand()@.remove(card),
            ),
            !(next.status() is Pregame),
            next.status().seat() matches Some(pos) ==> next.seat_ok(pos),
            next.seat_ok(next.trick().first),
            next.seat_ok(next.trick().winner),
        ensures
            next.wf(),
            self.conserves_cards() ==> next.conserves_cards(),
    {
        let before = self.stars();
        let after = next.stars();
        assert(after =~= before.update(at, after[at]));
        assert forall|i: int, j: int| 0 <= i < j < after.len() implies after[i].0 < after[j].0
            && after[i].1.spec_pos() != after[j].1.spec_pos() by {
            assert(before[i].0 < before[j].0);
            assert(before[i].1.spec_pos() != before[j].1.spec_pos());
        }
        assert forall|i: int| 0 <= i < after.len() implies next.seat_ok(
            (#[trigger] after[i]).1.spec_pos(),
        ) by {
            assert(self.seat_ok(before[i].1.spec_pos()));
        }
        assert forall|i: int| 0 <= i < next.players().len() implies next.seat_ok(
            #[trigger] next.players()[i].pos,
        ) by {
            assert(self.seat_ok(self.players()[i].pos));
        }
        if self.conserves_cards() {
            self.river().to_multiset_ensures();
            assert forall|c: Card| #[trigger]
                next.card_count(c) == (if c.in_deck() {
                    1nat
                } else {
                    0nat
                }) by {
                lemma_stars_count_update(before, at, after[at], c);
                assert(self.card_count(c) == (if c.in_deck() {
                    1nat
                } else {
                    0nat
                }));
            }
        }
    }

    /// Plays the card `card` for the player with identity `id` as `play` does,
    /// and words a refusal for the player.
    pub fn set_play(&mut self, player_id: u128, card: Card) -> (r: Result<(), ProtocolError>)
        requires
            old(self).wf(),
        ensures
            final(self).wf(),
            match old(self).refusal(player_id, card) {
                Some(e) => (r matches Err(told) && told.spec_kind() == ProtocolError::kind_of(e)
                    && told.text() == ProtocolError::words_of(e)) && *final(self) == *old(self),
                None => r is Ok && old(self).card_played(player_id, card, *final(self)),
            },
            old(self).conserves_cards() ==> final(self).conserves_cards(),
            forall|c: Card| old(self).revealed().contains(c) ==> final(self).revealed().contains(c),
    {
        match self.play(player_id, card) {
            Ok(_) => Ok(()),
            Err(e) => Err(ProtocolError::from_engine_error(e)),
        }
    }

    /// The trick that was completed last, if one was.
    pub fn last_trick(&self) -> (r: Result<Trick, EngineError>)
        ensures
            r == match self.spec_last_trick() {
                Some(trick) => Ok::<Trick, EngineError>(trick),
                None => Err::<Trick, EngineError>(EngineError::Play(PlayError::NoLastTrick)),
            },
    {
        match self.last_trick {
            Some(trick) => Ok(trick),
            None => Err(EngineError::Play(PlayError::NoLastTrick)),
        }
    }

    /// The trick that is being played.
    pub fn current_trick(&self) -> (trick: Trick)
        ensures
            trick == self.trick(),
    {
        self.trick
    }

    /// Where the game stands.
    pub fn get_status(&self) -> (status: &Status)
        ensures
            status@ == self.status(),
    {
        &self.status
    }

    /// Number of cards in the source.
    pub fn source_count(&self) -> (n: usize)
        ensures
            n == self.source().len(),
    {
        self.source.len()
    }

    /// The river: the cards that were played, the latest on top.
    pub fn get_river(&self) -> (river: &Deck)
        ensures
            river@ == self.river(),
    {
        &self.river
    }

    /// The cards that everyone may see.
    pub fn get_revealed(&self) -> (revealed: &Vec<Card>)
        ensures
            revealed@ == self.revealed(),
    {
        &self.revealed
    }

    /// A game stays well formed when its players change role or readiness.
    proof fn lemma_players_rested(self, before: ValleyGame)
        requires
            before.wf(),
            before.same_table(self),
            self.players().len() == before.players().len(),
            forall|i: int|
                0 <= i < before.players().len() ==> self.players()[i].player
                    == before.players()[i].player && self.players()[i].pos
                    == before.players()[i].pos,
        ensures
            self.wf(),
    {
        assert forall|i: int, j: int| 0 <= i < j < self.players().len() implies self.players()[i].player.id
            < self.players()[j].player.id && self.players()[i].pos != self.players()[j].pos by {
            assert(before.players()[i].player.id < before.players()[j].player.id);
            assert(before.players()[i].pos != before.players()[j].pos);
        }
        assert forall|i: int| 0 <= i < self.players().len() implies self.seat_ok(
            #[trigger] self.players()[i].pos,
        ) by {
            assert(before.seat_ok(before.players()[i].pos));
        }
    }
}

impl Default for ValleyGame {
    /// A game for two before anyone has joined.
    fn default() -> (game: ValleyGame)
        ensures
            game.wf(),
            game.spec_nb_players() == 2,
            game.players().len() == 0,
            game.status() == StatusView::Pregame,
            game.stars().len() == 0,
            game.source().len() == 0,
            game.river().len() == 0,
            game.revealed().len() == 0,
            game.spec_last_trick() is None,
            game.trick().first == PlayerPos::seat(0, 2),
            game.trick().winner == PlayerPos::seat(0, 2),
            forall|seat: int| 0 <= seat < MAX_PLAYERS ==> game.trick().cards@[seat] == None::<Card>,
    {
        ValleyGame::new()
    }
}

} // verus!
