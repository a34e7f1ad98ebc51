//! The players of a game.
use vstd::prelude::*;
use crate::pos::PlayerPos;

verus! {

#[derive(Debug, Clone, Copy, PartialEq, Eq, Structural, Hash)]
pub enum PlayerRole {
    Unknown,
    PreDeal,
    Spectator,
}

#[derive(Debug, Clone, Copy, PartialEq, Eq, Structural)]
pub enum PlayerAction {
    Play,
}

/// Who a player is: an identity that stays, and the name that others see.
#[derive(Debug, PartialEq, Eq)]
pub struct PlayerInfo {
    pub id: u128,
    pub nickname: String,
}

impl Clone for PlayerInfo {
    fn clone(&self) -> (copy: PlayerInfo)
        ensures
            copy == *self,
    {
        PlayerInfo { id: self.id, nickname: self.nickname.clone() }
    }
}

/// A player at the table.
#[derive(Debug, PartialEq, Eq)]
pub struct GamePlayerState {
    pub player: PlayerInfo,
    pub pos: PlayerPos,
    pub role: PlayerRole,
    pub ready: bool,
}

impl Clone for GamePlayerState {
    fn clone(&self) -> (copy: GamePlayerState)
        ensures
            copy == *self,
    {
        GamePlayerState {
            player: self.player.clone(),
            pos: self.pos,
            role: self.role,
            ready: self.ready,
        }
    }
}

impl GamePlayerState {
    /// Who the player is.
    pub fn player(self) -> (info: PlayerInfo)
        ensures
            info == self.player,
    {
        self.player
    }
}

/// Whether the players stand in the order of their identities, none twice.
pub open spec fn ids_increase(players: Seq<GamePlayerState>) -> bool {
    forall|i: int, j: int|
        0 <= i < j < players.len() ==> players[i].player.id < players[j].player.id
}

/// Whether one of the players has identity `id`.
pub open spec fn knows(players: Seq<GamePlayerState>, id: u128) -> bool {
    exists|i: int| 0 <= i < players.len() && players[i].player.id == id
}

/// Where the player with identity `id` stands among the players.
pub open spec fn place_of(players: Seq<GamePlayerState>, id: u128) -> int {
    choose|i: int| 0 <= i < players.len() && players[i].player.id == id
}

/// The players by their identities.
pub open spec fn by_id(players: Seq<GamePlayerState>) -> Map<u128, GamePlayerState> {
    Map::new(|id: u128| knows(players, id), |id: u128| players[place_of(players, id)])
}

/// Whether one of the players sits at `pos`.
pub open spec fn seat_taken(players: Seq<GamePlayerState>, pos: PlayerPos) -> bool {
    exists|i: int| 0 <= i < players.len() && players[i].pos == pos
}

/// Whether no two players sit at the same seat.
pub open spec fn seats_differ(players: Seq<GamePlayerState>) -> bool {
    forall|i: int, j: int| 0 <= i < j < players.len() ==> players[i].pos != players[j].pos
}

/// Whether seat `n` of a table of `count` is free and every seat under it is
/// taken.
pub open spec fn is_lowest_free(players: Seq<GamePlayerState>, count: u8, n: int) -> bool {
    &&& 0 <= n < count
    &&& !seat_taken(players, PlayerPos::seat(n, count))
    &&& forall|m: int| 0 <= m < n ==> seat_taken(players, PlayerPos::seat(m, count))
}

/// Whether a table of `count` seats has a free one.
pub open spec fn has_free_seat(players: Seq<GamePlayerState>, count: u8) -> bool {
    exists|n: int| 0 <= n < count && !seat_taken(players, PlayerPos::seat(n, count))
}

/// How many of the players are ready.
pub open spec fn ready_count(players: Seq<GamePlayerState>) -> nat
    decreases players.len(),
{
    if players.len() == 0 {
        0
    } else {
        ready_count(players.drop_last()) + (if players.last().ready {
            1nat
        } else {
            0nat
        })
    }
}

/// Where among the players, who stand in the order of their identities, the
/// identity `id` stands or would stand.
pub fn find_place(players: &Vec<GamePlayerState>, id: u128) -> (at: usize)
    requires
        ids_increase(players@),
    ensures
        at <= players@.len(),
        forall|i: int| 0 <= i < at ==> players@[i].player.id < id,
        forall|i: int| at <= i < players@.len() ==> players@[i].player.id >= id,
        knows(players@, id) <==> at < players@.len() && players@[at as int].player.id == id,
        knows(players@, id) ==> place_of(players@, id) == at,
{
    let mut at: usize = 0;
    while at < players.len() && players[at].player.id < id
        invariant
            at <= players@.len(),
            forall|i: int| 0 <= i < at ==> players@[i].player.id < id,
        decreases players@.len() - at,
    {
        at = at + 1;
    }
    proof {
        assert forall|i: int| at <= i < players@.len() implies players@[i].player.id >= id by {
            if i > at {
                assert(players@[at as int].player.id < players@[i].player.id);
            }
        }
        if knows(players@, id) {
            let k = place_of(players@, id);
            assert(k == at) by {
                if k < at {
                }
                if k > at {
                    assert(players@[at as int].player.id < players@[k].player.id);
                }
            }
        }
    }
    at
}

/// Whether the players stand in the order of their seats.
pub open spec fn seats_ascend(players: Seq<GamePlayerState>) -> bool {
    forall|i: int, j: int|
        0 <= i < j < players.len() ==> players[i].pos.index() <= players[j].pos.index()
}

/// Whether `sorted` holds the players in the order of their seats, players at
/// the same seat in the order that they had: `from` tells, for each place of
/// `sorted`, the place among the players that its player comes from.
pub open spec fn ordered_by_seat(
    players: Seq<GamePlayerState>,
    sorted: Seq<GamePlayerState>,
    from: Seq<int>,
) -> bool {
    &&& from.len() == sorted.len()
    &&& sorted.len() == players.len()
    &&& forall|k: int|
        0 <= k < from.len() ==> 0 <= #[trigger] from[k] < players.len() && sorted[k]
            == players[from[k]]
    &&& forall|a: int, b: int|
        0 <= a < b < from.len() ==> players[from[a]].pos.index() < players[from[b]].pos.index()
            || (players[from[a]].pos.index() == players[from[b]].pos.index() && from[a]
            < from[b])
}

/// The players in the order of their seats; players at the same seat keep the
/// order that they had.
pub fn sorted_by_seat(players: &Vec<GamePlayerState>) -> (sorted: Vec<GamePlayerState>)
    ensures
        sorted@.to_multiset() == players@.to_multiset(),
        seats_ascend(sorted@),
        exists|from: Seq<int>| ordered_by_seat(players@, sorted@, from),
{
    let mut sorted: Vec<GamePlayerState> = Vec::new();
    let mut i: usize = 0;
    let ghost mut from: Seq<int> = Seq::empty();
    proof {
        assert(sorted@ =~= players@.take(0));
    }
    while i < players.len()
        invariant
            i <= players.len(),
            sorted@.len() == i,
            sorted@.to_multiset() == players@.take(i as int).to_multiset(),
            seats_ascend(sorted@),
            from.len() == i,
            forall|k: int|
                0 <= k < i ==> 0 <= #[trigger] from[k] < i && sorted@[k] == players@[from[k]],
            forall|a: int, b: int|
                0 <= a < b < i ==> players@[from[a]].pos.index() < players@[from[b]].pos.index()
                    || (players@[from[a]].pos.index() == players@[from[b]].pos.index()
                    && from[a] < from[b]),
        decreases players.len() - i,
    {
        let player = players[i].clone();
        let seat = player.pos.to_n();
        let mut at: usize = 0;
        while at < sorted.len() && sorted[at].pos.to_n() <= seat
            invariant
                at <= sorted@.len(),
                forall|k: int| 0 <= k < at ==> sorted@[k].pos.index() <= seat,
            decreases sorted@.len() - at,
        {
            at = at + 1;
        }
        let ghost before = sorted@;
        let ghost came = from;
        sorted.insert(at, player);
        proof {
            let after = sorted@;
            from = came.insert(at as int, i as int);
            assert(after.remove(at as int) =~= before);
            after.to_multiset_ensures();
            assert(after[at as int] == player);
            assert(after.to_multiset() =~= before.to_multiset().insert(player));
            assert(players@.take(i + 1) =~= players@.take(i as int).push(players@[i as int]));
            players@.take(i as int).to_multiset_ensures();
            assert forall|k: int| at <= k < before.len() implies before[k].pos.index() > seat by {
                if k > at {
                    assert(before[at as int].pos.index() <= before[k].pos.index());
                }
            }
            assert forall|a: int, b: int| 0 <= a < b < after.len() implies after[a].pos.index()
                <= after[b].pos.index() by {
                let ba = if a < at { a } else { a - 1 };
                let bb = if b < at { b } else { b - 1 };
                if a != at && b != at {
                    assert(before[ba].pos.index() <= before[bb].pos.index());
                }
            }
            assert forall|k: int| 0 <= k < i + 1 implies 0 <= #[trigger] from[k] < i + 1
                && after[k] == players@[from[k]] by {
                let bk = if k < at { k } else { k - 1 };
                if k != at {
                    assert(from[k] == came[bk]);
                    assert(0 <= came[bk] < i);
                }
            }
            assert forall|a: int, b: int| 0 <= a < b < i + 1 implies players@[from[a]].pos.index()
                < players@[from[b]].pos.index() || (players@[from[a]].pos.index()
                == players@[from[b]].pos.index() && from[a] < from[b]) by {
                let ba = if a < at { a } else { a - 1 };
                let bb = if b < at { b } else { b - 1 };
                if a != at && b != at {
                    assert(from[a] == came[ba] && from[b] == came[bb]);
                } else if a == at {
                    assert(from[b] == came[bb]);
                    assert(before[bb] == players@[came[bb]]);
                } else {
                    assert(from[a] == came[ba]);
                    assert(before[ba] == players@[came[ba]]);
                    assert(0 <= came[ba] < i);
                }
            }
        }
        i = i + 1;
    }
    proof {
        assert(players@.take(players@.len() as int) =~= players@);
        players@.to_multiset_ensures();
        sorted@.to_multiset_ensures();
        assert(ordered_by_seat(players@, sorted@, from));
    }
    sorted
}

/// The players by identity, once a new one has taken its place among them.
pub proof fn lemma_by_id_insert(players: Seq<GamePlayerState>, at: int, state: GamePlayerState)
    requires
        ids_increase(players),
        0 <= at <= players.len(),
        ids_increase(players.insert(at, state)),
        !knows(players, state.player.id),
    ensures
        by_id(players.insert(at, state)) == by_id(players).insert(state.player.id, state),
{
    let after = players.insert(at, state);
    assert forall|id: u128| knows(after, id) <==> (id == state.player.id || knows(players, id)) by {
        if knows(after, id) {
            let i = place_of(after, id);
            if i < at {
                assert(players[i].player.id == id);
            } else if i > at {
                assert(players[i - 1].player.id == id);
            }
        }
        if knows(players, id) {
            let i = place_of(players, id);
            if i < at {
                assert(after[i].player.id == id);
            } else {
                assert(after[i + 1].player.id == id);
            }
        }
        if id == state.player.id {
            assert(after[at].player.id == id);
        }
    }
    assert forall|id: u128| knows(after, id) implies #[trigger] by_id(after)[id] == by_id(
        players,
    ).insert(state.player.id, state)[id] by {
        let i = place_of(after, id);
        if id == state.player.id {
            lemma_place_unique(after, i, at);
        } else {
            let k = place_of(players, id);
            let k2 = if k < at { k } else { k + 1 };
            assert(after[k2] == players[k]);
            lemma_place_unique(after, i, k2);
        }
    }
    assert(by_id(after) =~= by_id(players).insert(state.player.id, state));
}

/// Among players in the order of their identities, an identity has one place.
pub proof fn lemma_place_unique(players: Seq<GamePlayerState>, i: int, j: int)
    requires
        ids_increase(players),
        0 <= i < players.len(),
        0 <= j < players.len(),
        players[i].player.id == players[j].player.id,
    ensures
        i == j,
{
    if i < j {
        assert(players[i].player.id < players[j].player.id);
    } else if j < i {
        assert(players[j].player.id < players[i].player.id);
    }
}

/// The players by identity, once one of them has left.
pub proof fn lemma_by_id_remove(players: Seq<GamePlayerState>, at: int)
    requires
        ids_increase(players),
        0 <= at < players.len(),
    ensures
        by_id(players.remove(at)) == by_id(players).remove(players[at].player.id),
        !knows(players.remove(at), players[at].player.id),
{
    let after = players.remove(at);
    let gone = players[at].player.id;
    assert forall|id: u128| knows(after, id) <==> (id != gone && knows(players, id)) by {
        if knows(after, id) {
            let i = place_of(after, id);
            let k = if i < at { i } else { i + 1 };
            assert(players[k].player.id == id);
            if id == gone {
                lemma_place_unique(players, k, at);
            }
        }
        if id != gone && knows(players, id) {
            let k = place_of(players, id);
            let i = if k < at { k } else { k - 1 };
            assert(after[i].player.id == id);
        }
    }
    assert forall|id: u128| knows(after, id) implies #[trigger] by_id(after)[id] == by_id(
        players,
    ).remove(gone)[id] by {
        let i = place_of(after, id);
        let k = if i < at { i } else { i + 1 };
        assert(players[k] == after[i]);
        lemma_place_unique(players, k, place_of(players, id));
    }
    assert(by_id(after) =~= by_id(players).remove(gone));
}

} // verus!
