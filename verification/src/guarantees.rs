//! What holds of the game whatever is done with it.
use vstd::prelude::*;
use crate::cards::{Card, Suit};
use crate::deck::{lemma_no_duplicates_of_occurrences, occurrences};
use crate::game::{rounds_from, round_decided, stars_count, twilight_rounds, EngineError,
    GameStateSnapshot, Phase, StarsCards, StatusView, ValleyGame};
use crate::deal::PlayError;
use crate::player::PlayerInfo;
use crate::pos::PlayerPos;
use crate::being::Being;
use crate::star::{beings_count, Star};

verus! {

/// Two stars hold a card together at most as often as all the stars do.
pub proof fn lemma_stars_count_two(stars: Seq<(u128, Star)>, i: int, j: int, card: Card)
    requires
        0 <= i < j < stars.len(),
    ensures
        stars[i].1.count(card) + stars[j].1.count(card) <= stars_count(stars, card),
    decreases stars.len(),
{
    if j == stars.len() - 1 {
        lemma_stars_count_one(stars.drop_last(), i, card);
    } else {
        lemma_stars_count_two(stars.drop_last(), i, j, card);
    }
}

/// A star holds a card at most as often as all the stars do, and if the stars
/// hold a card, one of them does.
pub proof fn lemma_stars_count_one(stars: Seq<(u128, Star)>, i: int, card: Card)
    requires
        0 <= i < stars.len(),
    ensures
        stars[i].1.count(card) <= stars_count(stars, card),
    decreases stars.len(),
{
    if i < stars.len() - 1 {
        lemma_stars_count_one(stars.drop_last(), i, card);
    }
}

/// If the stars hold a card, one of them does.
pub proof fn lemma_stars_count_some(stars: Seq<(u128, Star)>, card: Card) -> (i: int)
    requires
        stars_count(stars, card) > 0,
    ensures
        0 <= i < stars.len(),
        stars[i].1.count(card) > 0,
    decreases stars.len(),
{
    if stars.last().1.count(card) > 0 {
        stars.len() - 1
    } else {
        lemma_stars_count_some(stars.drop_last(), card)
    }
}

/// Cards are conserved: in a game that holds each card of the deck once, no
/// card is in two places and none is missing. The source and the river have no
/// duplicates; a card of the source is not in the river, and neither is with a
/// star; a card that a star holds, in its hand or with a being, it holds once,
/// and no other star holds it; only cards of the deck are in the game; and
/// every card of the deck is in the source, in the river or with a star.
pub proof fn lemma_each_card_in_one_place(game: ValleyGame)
    requires
        game.conserves_cards(),
    ensures
        game.source().no_duplicates(),
        game.river().no_duplicates(),
        forall|c: Card|
            game.source().contains(c) ==> c.in_deck() && !game.river().contains(c) && stars_count(
                game.stars(),
                c,
            ) == 0,
        forall|c: Card|
            game.river().contains(c) ==> c.in_deck() && stars_count(game.stars(), c) == 0,
        forall|c: Card, i: int|
            0 <= i < game.stars().len() && #[trigger] game.stars()[i].1.count(c) > 0
                ==> c.in_deck() && game.stars()[i].1.count(c) == 1 && !game.source().contains(c)
                && !game.river().contains(c),
        forall|c: Card, i: int, j: int|
            0 <= i < j < game.stars().len() ==> !(#[trigger] game.stars()[i].1.count(c) > 0 && (
            #[trigger] game.stars()[j]).1.count(c) > 0),
        forall|c: Card|
            c.in_deck() ==> game.source().contains(c) || game.river().contains(c) || exists|i: int|
                0 <= i < game.stars().len() && #[trigger] game.stars()[i].1.count(c) > 0,
{
    let source = game.source();
    let river = game.river();
    let stars = game.stars();
    assert forall|c: Card| occurrences(source, c) <= 1 && occurrences(river, c) <= 1 by {
        assert(game.card_count(c) <= 1);
    }
    lemma_no_duplicates_of_occurrences(source);
    lemma_no_duplicates_of_occurrences(river);
    source.to_multiset_ensures();
    river.to_multiset_ensures();
    assert forall|c: Card| source.contains(c) implies c.in_deck() && !river.contains(c)
        && stars_count(stars, c) == 0 by {
        assert(game.card_count(c) <= 1);
    }
    assert forall|c: Card| river.contains(c) implies c.in_deck() && stars_count(stars, c) == 0 by {
        assert(game.card_count(c) <= 1);
    }
    assert forall|c: Card, i: int| 0 <= i < stars.len() && #[trigger] stars[i].1.count(c) > 0 implies c.in_deck()
        && stars[i].1.count(c) == 1 && !source.contains(c) && !river.contains(c) by {
        assert(game.card_count(c) <= 1);
        lemma_stars_count_one(stars, i, c);
    }
    assert forall|c: Card, i: int, j: int| 0 <= i < j < stars.len() implies !(
    #[trigger] stars[i].1.count(c) > 0 && #[trigger] stars[j].1.count(c) > 0) by {
        assert(game.card_count(c) <= 1);
        lemma_stars_count_two(stars, i, j, c);
    }
    assert forall|c: Card| c.in_deck() implies source.contains(c) || river.contains(c) || exists|
        i: int,
    | 0 <= i < stars.len() && #[trigger] stars[i].1.count(c) > 0 by {
        assert(game.card_count(c) == 1);
        if !source.contains(c) && !river.contains(c) {
            let i = lemma_stars_count_some(stars, c);
            assert(stars[i].1.count(c) > 0);
        }
    }
}

/// Redaction is correct: in the view that a player is entitled to, a resource
/// of a being shows a card only if that card is revealed, and then it is the
/// resource; a star that is not the player's shows no hand, only the hand's
/// size; and the player's own star shows its whole hand.
pub proof fn lemma_redaction(game: ValleyGame, viewer: u128, seen: GameStateSnapshot)
    requires
        game.seen_by(viewer, seen),
    ensures
        forall|i: int, b: int, suit: Suit|
            0 <= i < game.stars().len() && 0 <= b < game.stars()[i].1.beings().len() ==> (
            #[trigger] seen.stars@[i].beings@[b].slot(suit) matches Some(Some(card))
                ==> game.revealed().contains(card) && game.stars()[i].1.beings()[b].resource(suit)
                == Some(card)),
        forall|i: int|
            0 <= i < game.stars().len() && game.stars()[i].0 != viewer ==> (
            #[trigger] seen.stars@[i]).hand is None && seen.stars@[i].hand_count
                == game.stars()[i].1.spec_hand()@.len(),
        forall|i: int|
            0 <= i < game.stars().len() && game.stars()[i].0 == viewer ==> (
            #[trigger] seen.stars@[i]).hand == Some(game.stars()[i].1.spec_hand()),
        seen.hand@ == game.hand_of(viewer),
{
    assert forall|i: int, b: int, suit: Suit|
        0 <= i < game.stars().len() && 0 <= b < game.stars()[i].1.beings().len() implies (
    #[trigger] seen.stars@[i].beings@[b].slot(suit) matches Some(Some(card))
        ==> game.revealed().contains(card) && game.stars()[i].1.beings()[b].resource(suit) == Some(
        card,
    )) by {
        let star = game.stars()[i];
        assert(star.1.seen_as(star.0 == viewer, game.revealed(), seen.stars@[i]));
        assert(star.1.beings()[b].seen_as(game.revealed(), seen.stars@[i].beings@[b]));
    }
    assert forall|i: int| 0 <= i < game.stars().len() implies (game.stars()[i].0 != viewer ==> (
    #[trigger] seen.stars@[i]).hand is None && seen.stars@[i].hand_count
        == game.stars()[i].1.spec_hand()@.len()) && (game.stars()[i].0 == viewer
        ==> seen.stars@[i].hand == Some(game.stars()[i].1.spec_hand())) by {
        let star = game.stars()[i];
        assert(star.1.seen_as(star.0 == viewer, game.revealed(), seen.stars@[i]));
    }
}

/// The turn order is enforced: a card from a player whose seat is not the one
/// whose turn it is is refused with `TurnError`, and the game is left exactly as
/// it was.
pub proof fn lemma_out_of_turn_refused(
    game: ValleyGame,
    id: u128,
    card: Card,
    next: ValleyGame,
    r: Result<(), EngineError>,
)
    requires
        game.has_player(id),
        !(game.status() matches StatusView::Playing(active, _) && active == game.player(id).pos),
        game.play_outcome(id, card, next, r),
    ensures
        r == Err::<(), EngineError>(EngineError::Play(PlayError::TurnError)),
        next == game,
{
}

/// A refused card changes nothing: whenever `play` fails, whatever the reason,
/// the game is exactly as it was, and a card is only refused for one of the
/// reasons that `refusal` names.
pub proof fn lemma_refused_play_changes_nothing(
    game: ValleyGame,
    id: u128,
    card: Card,
    next: ValleyGame,
    r: Result<(), EngineError>,
)
    requires
        game.play_outcome(id, card, next, r),
        r is Err,
    ensures
        next == game,
        game.refusal(id, card) == Some(r->Err_0),
        r->Err_0 == EngineError::UnknownPlayer || r->Err_0 == EngineError::Play(
            PlayError::TurnError,
        ) || r->Err_0 == EngineError::Play(PlayError::CardMissing),
{
}

/// Every player has a seat of the table, and no seat has two players; the same
/// holds of the stars.
pub proof fn lemma_one_player_per_seat(game: ValleyGame)
    requires
        game.wf(),
    ensures
        forall|i: int|
            0 <= i < game.players().len() ==> 0 <= (#[trigger] game.players()[i]).pos.index()
                < game.spec_nb_players() && game.players()[i].pos.count == game.spec_nb_players(),
        forall|i: int, j: int|
            0 <= i < game.players().len() && 0 <= j < game.players().len() && i != j ==> (
            #[trigger] game.players()[i]).pos != (#[trigger] game.players()[j]).pos,
        forall|i: int, j: int|
            0 <= i < game.players().len() && 0 <= j < game.players().len() && i != j ==> (
            #[trigger] game.players()[i]).player.id != (#[trigger] game.players()[j]).player.id,
        forall|i: int, j: int|
            0 <= i < game.stars().len() && 0 <= j < game.stars().len() && i != j ==> (
            #[trigger] game.stars()[i]).1.spec_pos() != (#[trigger] game.stars()[j]).1.spec_pos(),
{
    assert forall|i: int| 0 <= i < game.players().len() implies 0 <= (
    #[trigger] game.players()[i]).pos.index() < game.spec_nb_players()
        && game.players()[i].pos.count == game.spec_nb_players() by {
        assert(game.seat_ok(game.players()[i].pos));
    }
    assert forall|i: int, j: int|
        0 <= i < game.players().len() && 0 <= j < game.players().len() && i != j implies (
    #[trigger] game.players()[i]).pos != (#[trigger] game.players()[j]).pos && game.players()[i].player.id
        != game.players()[j].player.id by {
        if i < j {
            assert(game.players()[i].pos != game.players()[j].pos);
            assert(game.players()[i].player.id < game.players()[j].player.id);
        } else {
            assert(game.players()[j].pos != game.players()[i].pos);
            assert(game.players()[j].player.id < game.players()[i].player.id);
        }
    }
    assert forall|i: int, j: int|
        0 <= i < game.stars().len() && 0 <= j < game.stars().len() && i != j implies (
    #[trigger] game.stars()[i]).1.spec_pos() != (#[trigger] game.stars()[j]).1.spec_pos() by {
        if i < j {
            assert(game.stars()[i].1.spec_pos() != game.stars()[j].1.spec_pos());
        } else {
            assert(game.stars()[j].1.spec_pos() != game.stars()[i].1.spec_pos());
        }
    }
}

/// A tie is drawn again: the twilight ends after its first round exactly if that
/// round has a single strongest card or the pile has not a card left for each
/// star of a second round; after a first round without a single strongest card
/// it draws a second one if the pile still has a card for each star.
pub proof fn lemma_twilight_tie(pile: Seq<Card>, n: int)
    requires
        0 < n <= pile.len(),
    ensures
        twilight_rounds(pile, n) >= 1,
        round_decided(pile, n, 0) ==> twilight_rounds(pile, n) == 1,
        !round_decided(pile, n, 0) && pile.len() >= 2 * n ==> twilight_rounds(pile, n) >= 2,
        !round_decided(pile, n, 0) && pile.len() < 2 * n ==> twilight_rounds(pile, n) == 1,
{
    if !round_decided(pile, n, 0) {
        assert(twilight_rounds(pile, n) == 1 + rounds_from(pile, n, n));
        if pile.len() >= 2 * n {
            assert(rounds_from(pile, n, n) >= 1);
        } else {
            assert(rounds_from(pile, n, n) == 0);
        }
    }
}

/// After a tied first round the twilight goes on: if the first round has no
/// single strongest card and the source has a card for each star of a second
/// round, at least two rounds are drawn and the source loses a card for each
/// star in each of them; where the cards are all there, every hand grows by at
/// least two cards.
pub proof fn lemma_tied_round_is_drawn_again(
    game: ValleyGame,
    next: ValleyGame,
    first: Option<PlayerPos>,
    history: Seq<StarsCards>,
)
    requires
        game.twilight(next, first, history),
        game.stars().len() > 0,
        game.source().len() >= 2 * game.stars().len(),
        !round_decided(game.source(), game.stars().len() as int, 0),
    ensures
        history.len() >= 2,
        next.source().len() + 2 * game.stars().len() <= game.source().len(),
        game.conserves_cards() ==> forall|i: int|
            0 <= i < game.stars().len() ==> (#[trigger] next.stars()[i]).1.spec_hand()@.len()
                >= game.stars()[i].1.spec_hand()@.len() + 2,
{
    let n = game.stars().len() as int;
    let k = twilight_rounds(game.source(), n) as int;
    lemma_twilight_tie(game.source(), n);
    assert(k * n >= 2 * n) by (nonlinear_arith)
        requires
            k >= 2,
            n > 0,
    ;
}

/// A star's beings hold a card together at least as often as one of them does.
pub proof fn lemma_beings_count_one(beings: Seq<Being>, b: int, card: Card)
    requires
        0 <= b < beings.len(),
    ensures
        beings[b].count(card) <= beings_count(beings, card),
    decreases beings.len(),
{
    if b < beings.len() - 1 {
        lemma_beings_count_one(beings.drop_last(), b, card);
    }
}

/// What another star holds in its hand stays hidden: where the cards are all
/// there, a card in the hand of a star that is not the viewer's is not in the
/// viewer's hand, not in the river, in no hand that the view shows, and neither
/// the face nor a shown resource of any being in the view.
pub proof fn lemma_other_hands_hidden(game: ValleyGame, viewer: u128, seen: GameStateSnapshot)
    requires
        game.wf(),
        game.conserves_cards(),
        game.seen_by(viewer, seen),
    ensures
        forall|i: int, c: Card|
            0 <= i < game.stars().len() && game.stars()[i].0 != viewer
                && #[trigger] game.stars()[i].1.spec_hand()@.contains(c) ==> {
                &&& !seen.hand@.contains(c)
                &&& !seen.river@.contains(c)
                &&& forall|j: int|
                    0 <= j < seen.stars@.len() ==> !((#[trigger] seen.stars@[j]).hand matches Some(
                        h,
                    ) && h@.contains(c))
                &&& forall|j: int, b: int|
                    0 <= j < seen.stars@.len() && 0 <= b < seen.stars@[j].beings@.len() ==> (
                    #[trigger] seen.stars@[j].beings@[b]).face != c
                &&& forall|j: int, b: int, suit: Suit|
                    0 <= j < seen.stars@.len() && 0 <= b < seen.stars@[j].beings@.len()
                        ==> #[trigger] seen.stars@[j].beings@[b].slot(suit) != Some(Some(c))
            },
{
    lemma_each_card_in_one_place(game);
    let stars = game.stars();
    assert forall|i: int, c: Card|
        0 <= i < stars.len() && stars[i].0 != viewer && #[trigger] stars[i].1.spec_hand()@.contains(
            c,
        ) implies {
        &&& !seen.hand@.contains(c)
        &&& !seen.river@.contains(c)
        &&& forall|j: int|
            0 <= j < seen.stars@.len() ==> !((#[trigger] seen.stars@[j]).hand matches Some(h)
                && h@.contains(c))
        &&& forall|j: int, b: int|
            0 <= j < seen.stars@.len() && 0 <= b < seen.stars@[j].beings@.len() ==> (
            #[trigger] seen.stars@[j].beings@[b]).face != c
        &&& forall|j: int, b: int, suit: Suit|
            0 <= j < seen.stars@.len() && 0 <= b < seen.stars@[j].beings@.len()
                ==> #[trigger] seen.stars@[j].beings@[b].slot(suit) != Some(Some(c))
    } by {
        assert(stars[i].1.count(c) > 0);
        assert(stars[i].1.count(c) == 1);
        assert(beings_count(stars[i].1.beings(), c) == 0);
        if game.owns(viewer) {
            let place = game.star_place(viewer);
            assert(stars[place].0 == viewer);
            if stars[place].1.spec_hand()@.contains(c) {
                assert(stars[place].1.count(c) > 0);
                if place < i {
                    assert(!(stars[place].1.count(c) > 0 && stars[i].1.count(c) > 0));
                } else {
                    assert(!(stars[i].1.count(c) > 0 && stars[place].1.count(c) > 0));
                }
            }
        }
        assert forall|j: int| 0 <= j < seen.stars@.len() implies !((
        #[trigger] seen.stars@[j]).hand matches Some(h) && h@.contains(c)) by {
            assert(stars[j].1.seen_as(stars[j].0 == viewer, game.revealed(), seen.stars@[j]));
            if seen.stars@[j].hand is Some {
                assert(stars[j].0 == viewer);
                if stars[j].1.spec_hand()@.contains(c) {
                    assert(stars[j].1.count(c) > 0);
                    if j < i {
                        assert(!(stars[j].1.count(c) > 0 && stars[i].1.count(c) > 0));
                    } else {
                        assert(!(stars[i].1.count(c) > 0 && stars[j].1.count(c) > 0));
                    }
                }
            }
        }
        assert forall|j: int, b: int|
            0 <= j < seen.stars@.len() && 0 <= b < seen.stars@[j].beings@.len() implies ((
        #[trigger] seen.stars@[j].beings@[b]).face != c) && (forall|suit: Suit|
            seen.stars@[j].beings@[b].slot(suit) != Some(Some(c))) by {
            assert(stars[j].1.seen_as(stars[j].0 == viewer, game.revealed(), seen.stars@[j]));
            let being = stars[j].1.beings()[b];
            assert(being.seen_as(game.revealed(), seen.stars@[j].beings@[b]));
            lemma_beings_count_one(stars[j].1.beings(), b, c);
            if seen.stars@[j].beings@[b].face == c {
                assert(being.count(c) > 0);
            }
            assert forall|suit: Suit| seen.stars@[j].beings@[b].slot(suit) != Some(Some(c)) by {
                if seen.stars@[j].beings@[b].slot(suit) == Some(Some(c)) {
                    assert(being.resource(suit) == Some(c));
                    match suit {
                        Suit::Heart => {},
                        Suit::Spade => {},
                        Suit::Diamond => {},
                        Suit::Club => {},
                        Suit::Joker => {},
                    }
                    assert(being.count(c) > 0);
                }
            }
            if being.count(c) > 0 {
                assert(stars[j].1.count(c) > 0);
                if j < i {
                    assert(!(stars[j].1.count(c) > 0 && stars[i].1.count(c) > 0));
                } else if i < j {
                    assert(!(stars[i].1.count(c) > 0 && stars[j].1.count(c) > 0));
                }
            }
        }
    }
}

/// The phases rotate: from a seat's influence, with a card in the source, two
/// advances lead to that seat's source and a third to the next seat's
/// influence; from the twilight the first advance leads to the first seat's
/// influence, the third to its source and the fourth to the next seat's
/// influence.
pub proof fn lemma_phase_rotation(seat: PlayerPos, history: Seq<StarsCards>)
    ensures
        StatusView::Playing(seat, Phase::Influence).advance(false) == StatusView::Playing(
            seat,
            Phase::Act,
        ),
        StatusView::Playing(seat, Phase::Influence).advance(false).advance(false)
            == StatusView::Playing(seat, Phase::Source),
        StatusView::Playing(seat, Phase::Influence).advance(false).advance(false).advance(false)
            == StatusView::Playing(seat.spec_next(), Phase::Influence),
        StatusView::Twilight(seat, history).advance(false) == StatusView::Playing(
            seat,
            Phase::Influence,
        ),
        StatusView::Twilight(seat, history).advance(false).advance(false).advance(false)
            == StatusView::Playing(seat, Phase::Source),
        StatusView::Twilight(seat, history).advance(false).advance(false).advance(false).advance(
            false,
        ) == StatusView::Playing(seat.spec_next(), Phase::Influence),
{
}

/// The end of the game is final, and a turn whose act finds the source empty
/// ends the game.
pub proof fn lemma_endgame(seat: PlayerPos, source_empty: bool)
    ensures
        StatusView::Endgame.advance(source_empty) == StatusView::Endgame,
        StatusView::Pregame.advance(source_empty) == StatusView::Pregame,
        StatusView::Playing(seat, Phase::Act).advance(true) == StatusView::Endgame,
{
}

/// Joining is idempotent: a player who joins twice has the same seat both
/// times, and the second time changes nothing: there is no second record.
pub proof fn lemma_join_twice(
    game: ValleyGame,
    info: PlayerInfo,
    once: ValleyGame,
    first: PlayerPos,
    twice: ValleyGame,
    second: PlayerPos,
)
    requires
        game.joined(info, once, first),
        once.joined(info, twice, second),
    ensures
        second == first,
        twice == once,
{
}

} // verus!
