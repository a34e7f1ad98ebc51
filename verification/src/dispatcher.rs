//! What the server decides when a command comes in.
use vstd::prelude::*;
use crate::game::{PlayEvent, ValleyGame};
use crate::message::{GamePlayCommand, PlayCommand, ProtocolError, ProtocolErrorKind,
    SetPlayerRoleCommand};
use crate::player::{place_of, GamePlayerState};

verus! {

/// What the server does after a card was asked to be played.
#[derive(Debug, Clone, PartialEq, Eq)]
pub enum Reply {
    /// The card was refused: the player alone is told why.
    ToPlayer(ProtocolError),
    /// The card was played: everyone is told of it and sees the table anew.
    ToAll(PlayEvent),
}

/// The words for a player who is in no game.
pub open spec fn not_in_game_text() -> Seq<char> {
    "not in a game"@
}

/// The words for a role asked after the game has begun.
pub open spec fn not_joinable_text() -> Seq<char> {
    "cannot set role because game is not not joinable"@
}

/// The failure that a player who is in no game is told of.
pub fn not_in_game() -> (told: ProtocolError)
    ensures
        told.spec_kind() == ProtocolErrorKind::BadState,
        told.text() == not_in_game_text(),
{
    ProtocolError::new(ProtocolErrorKind::BadState, "not in a game")
}

/// Whether `next` and `reply` are what comes of the command `cmd` from the
/// player `player_id`: a card that the game refuses leaves the game as it was
/// and is answered to the player, in the words of the refusal; any other is
/// played and told to all.
pub open spec fn play_decided(
    game: ValleyGame,
    player_id: u128,
    cmd: PlayCommand,
    next: ValleyGame,
    reply: Reply,
) -> bool {
    match game.refusal(player_id, cmd.card) {
        Some(e) => (reply matches Reply::ToPlayer(told) && told.spec_kind()
            == ProtocolError::kind_of(e) && told.text() == ProtocolError::words_of(e)) && next
            == game,
        None => reply == Reply::ToAll(PlayEvent::Play(player_id, cmd.card)) && game.card_played(
            player_id,
            cmd.card,
            next,
        ),
    }
}

/// Plays the card of `cmd` for the player, and decides who is told what.
pub fn on_player_play(game: &mut ValleyGame, player_id: u128, cmd: PlayCommand) -> (reply: Reply)
    requires
        old(game).wf(),
    ensures
        final(game).wf(),
        play_decided(*old(game), player_id, cmd, *final(game), reply),
        old(game).conserves_cards() ==> final(game).conserves_cards(),
{
    match game.set_play(player_id, cmd.card) {
        Err(e) => Reply::ToPlayer(e),
        Ok(_) => Reply::ToAll(PlayEvent::Play(player_id, cmd.card)),
    }
}

/// Carries out a command of the game for the player, and decides who is told
/// what.
pub fn on_gameplay(game: &mut ValleyGame, user_id: u128, cmd: GamePlayCommand) -> (reply: Reply)
    requires
        old(game).wf(),
    ensures
        final(game).wf(),
        play_decided(*old(game), user_id, cmd->Play_0, *final(game), reply),
        old(game).conserves_cards() ==> final(game).conserves_cards(),
{
    match cmd {
        GamePlayCommand::Play(cmd) => on_player_play(game, user_id, cmd),
    }
}

/// The players once the one at place `at` has the role `cmd` asks for and is
/// not ready.
pub open spec fn with_new_role(
    players: Seq<GamePlayerState>,
    at: int,
    cmd: SetPlayerRoleCommand,
) -> Seq<GamePlayerState> {
    players.update(
        at,
        (GamePlayerState {
            player: players[at].player,
            pos: players[at].pos,
            role: cmd.role,
            ready: false,
        }),
    )
}

/// Gives the player the role that `cmd` asks for, and notes that the player is
/// not ready. Once the game has begun the role is refused and nothing changes;
/// an identity that is not at the table changes nothing either.
pub fn on_player_set_role(game: &mut ValleyGame, user_id: u128, cmd: SetPlayerRoleCommand) -> (r:
    Result<(), ProtocolError>)
    requires
        old(game).wf(),
    ensures
        final(game).wf(),
        old(game).same_table(*final(game)),
        !(old(game).status() is Pregame) ==> (r matches Err(told) && told.spec_kind()
            == ProtocolErrorKind::BadState && told.text() == not_joinable_text()) && *final(game)
            == *old(game),
        old(game).status() is Pregame ==> r is Ok,
        old(game).status() is Pregame && !old(game).has_player(user_id) ==> *final(game) == *old(
            game,
        ),
        old(game).status() is Pregame && old(game).has_player(user_id) ==> final(game).players()
            == with_new_role(old(game).players(), place_of(old(game).players(), user_id), cmd),
        old(game).conserves_cards() ==> final(game).conserves_cards(),
{
    if !game.is_joinable() {
        return Err(
            ProtocolError::new(
                ProtocolErrorKind::BadState,
                "cannot set role because game is not not joinable",
            ),
        );
    }
    game.set_player_role(user_id, cmd.role);
    let ghost mid = *game;
    game.set_player_not_ready(user_id);
    proof {
        if old(game).has_player(user_id) {
            let at = place_of(old(game).players(), user_id);
            assert(mid.players()[at].player.id == user_id);
            crate::player::lemma_place_unique(mid.players(), place_of(mid.players(), user_id), at);
            assert(game.players() =~= with_new_role(old(game).players(), at, cmd));
        } else {
            assert(!mid.has_player(user_id));
        }
    }
    Ok(())
}

} // verus!
