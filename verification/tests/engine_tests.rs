use thevalley::being::{Being, BeingSnapshot};
use thevalley::cards::{Card, Deck, Hand, Rank, Suit};
use thevalley::deal::PlayError;
use thevalley::game::{EngineError, GameStateSnapshot, Phase, StarsCards, Status, ValleyGame,
    VariantSettings};
use thevalley::player::{GamePlayerState, PlayerInfo, PlayerRole};
use thevalley::pos::PlayerPos;
use thevalley::star::Star;

fn card(id: u32) -> Card {
    Card::from_id(id)
}

fn c(suit: Suit, rank: Rank) -> Card {
    Card::new(suit, rank)
}

fn info(id: u128, name: &str) -> PlayerInfo {
    PlayerInfo { id, nickname: name.to_string() }
}

fn seat(n: usize) -> PlayerPos {
    PlayerPos::from_n(n, 2)
}

/// Two hands of nine and a source of thirty-six whose draws give `tops` in turn.
fn scripted_deal(tops: &[Card]) -> ([Hand; 2], Deck) {
    let rest: Vec<Card> = (0..54u32).map(card).filter(|x| !tops.contains(x)).collect();
    let mut hands = [Hand::new(); 2];
    for x in rest[0..9].iter() {
        hands[0].add(*x);
    }
    for x in rest[9..18].iter() {
        hands[1].add(*x);
    }
    let mut pile: Vec<Card> = rest[18..].to_vec();
    for x in tops.iter().rev() {
        pile.push(*x);
    }
    (hands, Deck::from_cards(pile))
}

fn two_players() -> ValleyGame {
    let mut game = ValleyGame::default();
    assert_eq!(game.add_player(info(1, "toto")), seat(0));
    assert_eq!(game.add_player(info(2, "titi")), seat(1));
    game
}

fn begun_with(tops: &[Card]) -> ValleyGame {
    let mut game = two_players();
    let (hands, source) = scripted_deal(tops);
    game.begin_with(hands, source);
    game
}

/// Counts every card of the game: the source, the river and the hands.
fn card_counts(game: &ValleyGame) -> [u32; 65] {
    let mut count = [0u32; 65];
    let any = game.get_players()[0].player.id;
    let seen = game.make_snapshot(any).unwrap();
    assert_eq!(seen.source_count as usize, game.source_count());
    for x in seen.river.iter() {
        count[x.id() as usize] += 1;
    }
    for player in game.get_players().iter() {
        let own = game.make_snapshot(player.player.id).unwrap();
        for x in own.hand.list().iter() {
            count[x.id() as usize] += 1;
        }
    }
    count
}

fn assert_all_cards_once(game: &ValleyGame, source: &[Card]) {
    let mut count = card_counts(game);
    for x in source.iter() {
        count[x.id() as usize] += 1;
    }
    for id in 0..65 {
        assert_eq!(count[id], if id < 54 { 1 } else { 0 }, "card {}", id);
    }
}

#[test]
fn new_game_is_empty() {
    let game = ValleyGame::new();
    assert_eq!(game.nb_players(), 2);
    assert!(game.get_players().is_empty());
    assert!(game.is_joinable());
    assert_eq!(*game.get_status(), Status::Pregame);
    assert_eq!(game.source_count(), 0);
    assert!(game.get_river().is_empty());
    assert!(game.get_revealed().is_empty());
    assert!(game.players_ready());
    assert_eq!(
        game.last_trick(),
        Err(EngineError::Play(PlayError::NoLastTrick))
    );
}

#[test]
fn join_is_idempotent() {
    let mut game = ValleyGame::default();
    let first = game.add_player(info(7, "toto"));
    let second = game.add_player(info(7, "toto"));
    assert_eq!(first, second);
    assert_eq!(first, seat(0));
    assert_eq!(game.get_players().len(), 1);
    let third = game.add_player(info(7, "other name"));
    assert_eq!(third, first);
    assert_eq!(game.get_players().len(), 1);
    assert_eq!(game.get_players()[0].player.nickname, "toto");
}

#[test]
fn join_gives_a_spectator_who_is_not_ready() {
    let mut game = ValleyGame::default();
    game.add_player(info(7, "toto"));
    let p = &game.get_players()[0];
    assert_eq!(p.player, info(7, "toto"));
    assert_eq!(p.pos, seat(0));
    assert_eq!(p.role, PlayerRole::Spectator);
    assert!(!p.ready);
    assert_eq!(game.get_player_role(7), Some(PlayerRole::Spectator));
    assert_eq!(game.get_player_role(8), None);
}

#[test]
fn join_takes_the_lowest_free_seat() {
    let mut game = ValleyGame::default();
    game.set_variant(VariantSettings { nb_players: 3 });
    assert_eq!(game.nb_players(), 3);
    assert_eq!(game.free_seat(), Some(PlayerPos::from_n(0, 3)));
    assert_eq!(game.add_player(info(30, "a")), PlayerPos::from_n(0, 3));
    assert_eq!(game.add_player(info(10, "b")), PlayerPos::from_n(1, 3));
    assert_eq!(game.add_player(info(20, "c")), PlayerPos::from_n(2, 3));
    assert_eq!(game.free_seat(), None);
    assert!(game.remove_player(10));
    assert!(!game.position_taken(PlayerPos::from_n(1, 3)));
    assert_eq!(game.free_seat(), Some(PlayerPos::from_n(1, 3)));
    assert_eq!(game.add_player(info(40, "d")), PlayerPos::from_n(1, 3));
    assert!(game.remove_player(30));
    assert_eq!(game.add_player(info(5, "e")), PlayerPos::from_n(0, 3));
    let ids: Vec<u128> = game.get_players().iter().map(|p| p.player.id).collect();
    assert_eq!(ids, vec![5, 20, 40]);
}

#[test]
fn remove_unknown_player_changes_nothing() {
    let mut game = two_players();
    assert!(!game.remove_player(9));
    assert_eq!(game.get_players().len(), 2);
    assert!(game.remove_player(1));
    assert!(!game.remove_player(1));
    assert_eq!(game.get_players().len(), 1);
    assert_eq!(game.get_players()[0].player.id, 2);
}

#[test]
fn player_by_pos_finds_the_seat() {
    let game = two_players();
    assert_eq!(game.player_by_pos(seat(1)).map(|p| p.player.id), Some(2));
    assert!(game.player_by_pos(PlayerPos::from_n(1, 3)).is_none());
    assert!(game.position_taken(seat(0)));
}

#[test]
fn roles_and_readiness() {
    let mut game = two_players();
    game.set_player_role(1, PlayerRole::Unknown);
    assert_eq!(game.get_player_role(1), Some(PlayerRole::Unknown));
    game.set_player_role(9, PlayerRole::Unknown);
    assert_eq!(game.get_player_role(2), Some(PlayerRole::Spectator));
    assert!(!game.players_ready());
    assert!(!game.set_player_ready(1));
    assert!(game.get_players()[0].ready);
    assert_eq!(game.get_player_role(1), Some(PlayerRole::PreDeal));
    assert!(!game.players_ready());
    game.set_player_not_ready(1);
    assert!(!game.get_players()[0].ready);
    assert_eq!(game.get_player_role(1), Some(PlayerRole::PreDeal));
    game.set_player_not_ready(9);
    assert!(!game.set_player_ready(9));
    assert!(game.is_joinable());
}

#[test]
fn last_ready_player_begins_the_game() {
    let mut game = two_players();
    assert!(!game.set_player_ready(1));
    assert!(game.is_joinable());
    assert!(!game.set_player_ready(1));
    assert!(game.is_joinable());
    assert!(game.set_player_ready(2));
    assert!(!game.is_joinable());
    match game.get_status() {
        Status::Twilight(first, history) => {
            assert!(!history.is_empty());
            assert!(*first == seat(0) || *first == seat(1));
            assert_eq!(game.source_count(), 36 - 2 * history.len());
            let seen = game.make_snapshot(1).unwrap();
            assert_eq!(seen.hand.size(), 9 + history.len());
        }
        Status::Endgame => {
            assert!(game.source_count() < 2);
        }
        other => panic!("unexpected status {:?}", other),
    }
    let count = card_counts(&game);
    let held: u32 = count.iter().sum();
    assert_eq!(held as usize + game.source_count(), 54);
    assert!(count.iter().all(|n| *n <= 1));
    assert!(!game.set_player_ready(1));
}

#[test]
fn a_player_who_is_no_longer_ready_does_not_count() {
    let mut game = two_players();
    assert!(!game.set_player_ready(1));
    game.set_player_not_ready(1);
    assert_eq!(game.get_player_role(1), Some(PlayerRole::PreDeal));
    assert!(!game.set_player_ready(2));
    assert!(game.is_joinable());
    assert_eq!(*game.get_status(), Status::Pregame);
    assert_eq!(game.source_count(), 0);
    assert!(game.get_players()[1].ready);
    assert_eq!(game.get_player_role(2), Some(PlayerRole::PreDeal));
    assert!(game.set_player_ready(1));
    assert!(!game.is_joinable());
}

#[test]
fn join_at_a_full_table_changes_nothing() {
    let mut game = two_players();
    let before = snapshots(&game);
    let told = game.add_player(info(3, "late"));
    assert_eq!(told, seat(0));
    assert_eq!(game.get_players().len(), 2);
    assert_eq!(game.get_player_role(3), None);
    assert_eq!(snapshots(&game), before);
    assert_eq!(game.make_snapshot(3), Err(EngineError::UnknownPlayer));
    assert_eq!(game.add_player(info(2, "titi")), seat(1));
    assert!(game.remove_player(1));
    assert_eq!(game.add_player(info(3, "late")), seat(0));
    assert_eq!(game.get_players().len(), 2);
}

#[test]
fn a_table_of_three_needs_three_ready_players() {
    let mut game = ValleyGame::default();
    game.set_variant(VariantSettings { nb_players: 3 });
    game.add_player(info(1, "a"));
    game.add_player(info(2, "b"));
    assert!(!game.set_player_ready(1));
    assert!(!game.set_player_ready(2));
    assert!(game.is_joinable());
    game.add_player(info(3, "c"));
    assert!(game.set_player_ready(3));
    assert!(!game.is_joinable());
    assert_eq!(game.make_snapshot(3).unwrap().stars.len(), 2);
    assert_eq!(game.make_snapshot(3).unwrap().hand.size(), 0);
}

#[test]
fn twilight_that_resolves_at_once_draws_one_round() {
    let tops = [c(Suit::Heart, Rank::Rank9), c(Suit::Spade, Rank::Rank2)];
    let game = begun_with(&tops);
    let mut round = StarsCards::new(2);
    round.insert(seat(0), tops[0]);
    round.insert(seat(1), tops[1]);
    assert_eq!(*game.get_status(), Status::Twilight(seat(0), vec![round]));
    assert_eq!(game.source_count(), 34);
    let seen = game.make_snapshot(1).unwrap();
    assert_eq!(seen.hand.size(), 10);
    assert!(seen.hand.has(tops[0]));
    let other = game.make_snapshot(2).unwrap();
    assert_eq!(other.hand.size(), 10);
    assert!(other.hand.has(tops[1]));
    assert_eq!(game.current_trick().first, seat(0));
    assert_eq!(game.current_trick().winner, seat(0));
}

#[test]
fn twilight_tie_draws_a_second_round() {
    let tops = [
        c(Suit::Heart, Rank::Rank5),
        c(Suit::Spade, Rank::Rank5),
        c(Suit::Heart, Rank::Rank2),
        c(Suit::Heart, Rank::Rank7),
    ];
    let game = begun_with(&tops);
    let mut first = StarsCards::new(2);
    first.insert(seat(0), tops[0]);
    first.insert(seat(1), tops[1]);
    let mut second = StarsCards::new(2);
    second.insert(seat(0), tops[2]);
    second.insert(seat(1), tops[3]);
    assert_eq!(
        *game.get_status(),
        Status::Twilight(seat(1), vec![first, second])
    );
    assert_eq!(game.source_count(), 32);
    let seen = game.make_snapshot(2).unwrap();
    assert_eq!(seen.hand.size(), 11);
    assert!(seen.hand.has(tops[1]) && seen.hand.has(tops[3]));
    assert_eq!(seen.stars[0].hand_count, 11);
}

#[test]
fn twilight_holds_a_king_weaker_than_a_four() {
    let tops = [c(Suit::Heart, Rank::RankK), c(Suit::Club, Rank::Rank4)];
    let game = begun_with(&tops);
    match game.get_status() {
        Status::Twilight(first, history) => {
            assert_eq!(*first, seat(1));
            assert_eq!(history.len(), 1);
            assert_eq!(history[0].get(&seat(0)), Some(tops[0]));
            assert_eq!(history[0].get(&seat(1)), Some(tops[1]));
            assert_eq!(history[0].get(&PlayerPos::from_n(1, 3)), None);
        }
        other => panic!("unexpected status {:?}", other),
    }
}

#[test]
fn twilight_ties_a_jack_with_an_ace() {
    let tops = [
        c(Suit::Heart, Rank::RankJ),
        c(Suit::Club, Rank::Rank1),
        c(Suit::Heart, Rank::RankQ),
        c(Suit::Club, Rank::Rank1),
    ];
    let mut game = two_players();
    game.begin_with(
        [Hand::new(); 2],
        Deck::from_cards(vec![tops[3], tops[2], tops[1], tops[0]]),
    );
    match game.get_status() {
        Status::Twilight(first, history) => {
            assert_eq!(*first, seat(0));
            assert_eq!(history.len(), 2);
        }
        other => panic!("unexpected status {:?}", other),
    }
    assert_eq!(game.source_count(), 0);
}

#[test]
fn twilight_follows_the_order_of_identities() {
    let mut game = ValleyGame::default();
    assert_eq!(game.add_player(info(20, "late id")), seat(0));
    assert_eq!(game.add_player(info(10, "early id")), seat(1));
    let tops = [c(Suit::Heart, Rank::Rank9), c(Suit::Spade, Rank::Rank2)];
    let (hands, source) = scripted_deal(&tops);
    game.begin_with(hands, source);
    let mut round = StarsCards::new(2);
    round.insert(seat(1), tops[0]);
    round.insert(seat(0), tops[1]);
    assert_eq!(*game.get_status(), Status::Twilight(seat(1), vec![round]));
    assert!(game.make_snapshot(10).unwrap().hand.has(tops[0]));
    assert!(game.make_snapshot(10).unwrap().hand.has(card(17)) == hands[0].has(card(17)));
}

#[test]
fn twilight_without_a_winner_ends_the_game() {
    let mut game = two_players();
    let pile = vec![
        c(Suit::Heart, Rank::Rank6),
        c(Suit::Spade, Rank::Rank6),
        c(Suit::Heart, Rank::Rank5),
        c(Suit::Spade, Rank::Rank5),
    ];
    game.begin_with([Hand::new(); 2], Deck::from_cards(pile));
    assert_eq!(*game.get_status(), Status::Endgame);
    assert_eq!(game.source_count(), 0);
    assert_eq!(game.make_snapshot(1).unwrap().hand.size(), 2);
    game.next();
    assert_eq!(*game.get_status(), Status::Endgame);
}

#[test]
fn twilight_stops_when_a_round_cannot_be_served() {
    let mut game = two_players();
    let pile = vec![
        c(Suit::Club, Rank::Rank9),
        c(Suit::Heart, Rank::Rank5),
        c(Suit::Spade, Rank::Rank5),
    ];
    game.begin_with([Hand::new(); 2], Deck::from_cards(pile));
    assert_eq!(*game.get_status(), Status::Endgame);
    assert_eq!(game.source_count(), 1);
}

#[test]
fn twilight_of_an_empty_source_ends_the_game() {
    let mut game = two_players();
    game.begin_with([Hand::new(); 2], Deck::default());
    assert_eq!(*game.get_status(), Status::Endgame);
    let (first, history) = game.do_twilight();
    assert_eq!(first, None);
    assert!(history.is_empty());
}

#[test]
fn twilight_of_one_star_resolves_at_once() {
    let mut game = ValleyGame::default();
    game.set_variant(VariantSettings { nb_players: 1 });
    game.add_player(info(4, "alone"));
    assert!(game.set_player_ready(4));
    match game.get_status() {
        Status::Twilight(first, history) => {
            assert_eq!(*first, PlayerPos::from_n(0, 1));
            assert_eq!(history.len(), 1);
        }
        other => panic!("unexpected status {:?}", other),
    }
    assert_eq!(game.source_count(), 35);
    assert_eq!(game.make_snapshot(4).unwrap().hand.size(), 10);
}

#[test]
fn phases_rotate() {
    let tops = [c(Suit::Heart, Rank::Rank9), c(Suit::Spade, Rank::Rank2)];
    let mut game = begun_with(&tops);
    game.next();
    assert_eq!(*game.get_status(), Status::Playing(seat(0), Phase::Influence));
    game.next();
    assert_eq!(*game.get_status(), Status::Playing(seat(0), Phase::Act));
    game.next();
    assert_eq!(*game.get_status(), Status::Playing(seat(0), Phase::Source));
    game.next();
    assert_eq!(*game.get_status(), Status::Playing(seat(1), Phase::Influence));
    assert!(!game.update_init_state());
    assert_eq!(*game.get_status(), Status::Playing(seat(1), Phase::Act));
    game.next();
    game.next();
    assert_eq!(*game.get_status(), Status::Playing(seat(0), Phase::Influence));
}

#[test]
fn advance_before_the_game_changes_nothing() {
    let mut game = two_players();
    game.next();
    assert_eq!(*game.get_status(), Status::Pregame);
}

#[test]
fn act_with_an_empty_source_ends_the_game() {
    let mut game = two_players();
    let pile = vec![c(Suit::Spade, Rank::Rank2), c(Suit::Heart, Rank::Rank9)];
    game.begin_with([Hand::new(); 2], Deck::from_cards(pile));
    assert_eq!(game.source_count(), 0);
    game.next();
    assert_eq!(*game.get_status(), Status::Playing(seat(0), Phase::Influence));
    game.next();
    assert_eq!(*game.get_status(), Status::Playing(seat(0), Phase::Act));
    game.next();
    assert_eq!(*game.get_status(), Status::Endgame);
}

fn snapshots(game: &ValleyGame) -> Vec<GameStateSnapshot> {
    game.get_players()
        .iter()
        .map(|p| game.make_snapshot(p.player.id).unwrap())
        .collect()
}

#[test]
fn play_out_of_turn_is_refused_and_changes_nothing() {
    let tops = [c(Suit::Heart, Rank::Rank9), c(Suit::Spade, Rank::Rank2)];
    let mut game = begun_with(&tops);
    game.next();
    let before = snapshots(&game);
    let trick = game.current_trick();
    assert_eq!(game.play(2, tops[1]), Err(EngineError::Play(PlayError::TurnError)));
    assert_eq!(snapshots(&game), before);
    assert_eq!(game.current_trick(), trick);
    assert!(game.get_revealed().is_empty());
    assert_eq!(*game.get_status(), Status::Playing(seat(0), Phase::Influence));
}

#[test]
fn play_outside_the_playing_phases_is_out_of_turn() {
    let mut game = two_players();
    assert_eq!(
        game.play(1, card(0)),
        Err(EngineError::Play(PlayError::TurnError))
    );
    let tops = [c(Suit::Heart, Rank::Rank9), c(Suit::Spade, Rank::Rank2)];
    let mut game = begun_with(&tops);
    let before = snapshots(&game);
    assert_eq!(
        game.play(1, tops[0]),
        Err(EngineError::Play(PlayError::TurnError))
    );
    assert_eq!(snapshots(&game), before);
}

#[test]
fn play_of_a_missing_card_is_refused_and_changes_nothing() {
    let tops = [c(Suit::Heart, Rank::Rank9), c(Suit::Spade, Rank::Rank2)];
    let mut game = begun_with(&tops);
    game.next();
    let before = snapshots(&game);
    assert_eq!(
        game.play(1, tops[1]),
        Err(EngineError::Play(PlayError::CardMissing))
    );
    assert_eq!(snapshots(&game), before);
    assert!(game.get_river().is_empty());
}

#[test]
fn play_from_an_unknown_player_is_refused() {
    let tops = [c(Suit::Heart, Rank::Rank9), c(Suit::Spade, Rank::Rank2)];
    let mut game = begun_with(&tops);
    game.next();
    let before = snapshots(&game);
    assert_eq!(game.play(3, tops[0]), Err(EngineError::UnknownPlayer));
    assert_eq!(snapshots(&game), before);
}

#[test]
fn play_moves_the_card_to_the_river() {
    let tops = [c(Suit::Heart, Rank::Rank9), c(Suit::Spade, Rank::Rank2)];
    let mut game = begun_with(&tops);
    game.next();
    assert_eq!(game.play(1, tops[0]), Ok(()));
    assert_eq!(*game.get_status(), Status::Playing(seat(1), Phase::Influence));
    let seen = game.make_snapshot(1).unwrap();
    assert_eq!(seen.hand.size(), 9);
    assert!(!seen.hand.has(tops[0]));
    assert_eq!(seen.river.cards(), &vec![tops[0]]);
    assert_eq!(game.get_revealed(), &vec![tops[0]]);
    assert_eq!(game.current_trick().card_played(seat(0)), Some(tops[0]));
    assert_eq!(game.current_trick().winner, seat(0));
    assert_eq!(
        game.last_trick(),
        Err(EngineError::Play(PlayError::NoLastTrick))
    );
    assert_eq!(
        game.play(1, card(0)),
        Err(EngineError::Play(PlayError::TurnError))
    );
}

#[test]
fn completed_trick_hands_the_turn_to_its_winner() {
    let tops = [c(Suit::Heart, Rank::Rank3), c(Suit::Spade, Rank::Rank8)];
    let mut game = begun_with(&tops);
    assert_eq!(
        *game.get_status(),
        Status::Twilight(seat(1), {
            let mut round = StarsCards::new(2);
            round.insert(seat(0), tops[0]);
            round.insert(seat(1), tops[1]);
            vec![round]
        })
    );
    game.next();
    game.set_player_ready(1);
    game.set_player_ready(2);
    game.set_player_role(1, PlayerRole::Unknown);
    assert_eq!(game.get_player_role(2), Some(PlayerRole::Spectator));
    assert!(game.players_ready());
    assert_eq!(game.play(2, tops[1]), Ok(()));
    assert_eq!(*game.get_status(), Status::Playing(seat(0), Phase::Influence));
    assert!(game.players_ready());
    assert_eq!(game.play(1, tops[0]), Ok(()));
    assert_eq!(*game.get_status(), Status::Playing(seat(1), Phase::Influence));
    let last = game.last_trick().unwrap();
    assert_eq!(last.first, seat(1));
    assert_eq!(last.winner, seat(1));
    assert_eq!(last.card_played(seat(0)), Some(tops[0]));
    assert_eq!(last.card_played(seat(1)), Some(tops[1]));
    assert_eq!(game.current_trick().first, seat(1));
    assert_eq!(game.current_trick().cards, [None; 4]);
    assert!(!game.get_players()[0].ready);
    assert!(game.get_players()[1].ready);
    assert_eq!(game.get_river().cards(), &vec![tops[1], tops[0]]);
    assert_eq!(game.get_revealed(), &vec![tops[1], tops[0]]);
}

#[test]
fn trick_goes_to_a_strictly_stronger_follower() {
    let tops = [c(Suit::Heart, Rank::Rank9), c(Suit::Spade, Rank::Rank2)];
    let mut game = begun_with(&tops);
    game.next();
    let weak = c(Suit::Heart, Rank::Rank1);
    assert!(game.make_snapshot(1).unwrap().hand.has(weak));
    assert_eq!(game.play(1, weak), Ok(()));
    let strong = game
        .make_snapshot(2)
        .unwrap()
        .hand
        .list()
        .into_iter()
        .find(|x| thevalley::strength(*x) > 1)
        .unwrap();
    assert_eq!(game.play(2, strong), Ok(()));
    assert_eq!(game.last_trick().unwrap().winner, seat(1));
    assert_eq!(*game.get_status(), Status::Playing(seat(1), Phase::Influence));
}

#[test]
fn cards_are_conserved_through_the_game() {
    let tops = [c(Suit::Heart, Rank::Rank9), c(Suit::Spade, Rank::Rank2)];
    let (hands, source) = scripted_deal(&tops);
    let mut pile: Vec<Card> = source.cards().clone();
    let mut game = two_players();
    game.begin_with(hands, source);
    pile.truncate(34);
    assert_all_cards_once(&game, &pile);
    game.next();
    assert_eq!(game.play(1, tops[0]), Ok(()));
    assert_all_cards_once(&game, &pile);
    assert_eq!(game.play(2, tops[1]), Ok(()));
    assert_all_cards_once(&game, &pile);
    assert_eq!(game.play(2, tops[1]), Err(EngineError::Play(PlayError::TurnError)));
    game.next();
    game.remove_player(9);
    assert_all_cards_once(&game, &pile);
}

#[test]
fn end_to_end() {
    let mut game = ValleyGame::default();
    let s1 = game.add_player(info(11, "toto"));
    let s2 = game.add_player(info(22, "titi"));
    assert_eq!((s1, s2), (seat(0), seat(1)));
    assert!(!game.set_player_ready(11));
    assert!(game.set_player_ready(22));
    let (first, rounds) = match game.get_status() {
        Status::Twilight(first, history) => (*first, history.len()),
        other => panic!("unexpected status {:?}", other),
    };
    game.next();
    assert_eq!(*game.get_status(), Status::Playing(first, Phase::Influence));
    let (me, other) = if first == seat(0) { (11, 22) } else { (22, 11) };
    let seen = game.make_snapshot(me).unwrap();
    assert_eq!(seen.pos, first);
    assert_eq!(seen.get_playing_pos(), Some(first));
    assert_eq!(seen.hand.size(), 9 + rounds);
    assert_eq!(seen.source_count as usize, 36 - 2 * rounds);
    assert_eq!(seen.stars.len(), 2);
    for star in seen.stars.iter() {
        assert_eq!(star.hand_count as usize, 9 + rounds);
        if star.pos == first {
            assert_eq!(star.hand, Some(seen.hand));
        } else {
            assert_eq!(star.hand, None);
        }
    }
    assert_eq!(seen.star().pos, first);
    assert_eq!(seen.star().hand, Some(seen.hand));
    let theirs = game.make_snapshot(other).unwrap();
    assert_ne!(theirs.hand, seen.hand);
    assert_eq!(theirs.star().hand, Some(theirs.hand));
}

#[test]
fn end_to_end_with_a_scripted_pile() {
    let tops = [c(Suit::Heart, Rank::Rank9), c(Suit::Spade, Rank::Rank2)];
    let (hands, source) = scripted_deal(&tops);
    let mut game = two_players();
    game.begin_with(hands, source);
    game.next();
    assert_eq!(*game.get_status(), Status::Playing(seat(0), Phase::Influence));
    let seen = game.make_snapshot(1).unwrap();
    let mut mine = hands[0];
    mine.add(tops[0]);
    assert_eq!(seen.hand, mine);
    assert_eq!(seen.stars[0].hand, Some(mine));
    assert_eq!(seen.stars[0].hand_count, 10);
    assert_eq!(seen.stars[1].hand, None);
    assert_eq!(seen.stars[1].hand_count, 10);
    assert_eq!(seen.stars[1].pos, seat(1));
    assert_eq!(seen.stars[0].majesty, 36);
    assert_eq!(seen.source_count, 34);
    assert_eq!(seen.nb_players, 2);
    assert_eq!(seen.current_player_name(), "toto");
    assert_eq!(seen.pos_player_name(seat(1)), "titi");
}

#[test]
fn snapshot_is_for_players_only() {
    let game = two_players();
    assert_eq!(game.make_snapshot(3), Err(EngineError::UnknownPlayer));
    let seen = game.make_snapshot(2).unwrap();
    assert_eq!(seen.pos, seat(1));
    assert_eq!(seen.status, Status::Pregame);
    assert_eq!(seen.source_count, 0);
    assert!(seen.stars.is_empty());
    assert!(seen.hand.is_empty());
    assert_eq!(seen.get_playing_pos(), None);
    assert_eq!(seen.current_player_name(), "");
}

#[test]
fn snapshot_lists_the_players_by_seat() {
    let mut game = ValleyGame::default();
    game.set_variant(VariantSettings { nb_players: 3 });
    game.add_player(info(30, "a"));
    game.add_player(info(10, "b"));
    game.add_player(info(20, "c"));
    let by_id: Vec<u128> = game.get_players().iter().map(|p| p.player.id).collect();
    assert_eq!(by_id, vec![10, 20, 30]);
    let seen = game.make_snapshot(20).unwrap();
    let by_seat: Vec<u128> = seen.players.iter().map(|p| p.player.id).collect();
    assert_eq!(by_seat, vec![30, 10, 20]);
    assert_eq!(seen.pos, PlayerPos::from_n(2, 3));
    assert_eq!(seen.pos_player_name(PlayerPos::from_n(1, 3)), "b");
}

#[test]
fn default_snapshot() {
    let seen = GameStateSnapshot::default();
    assert_eq!(seen.nb_players, 2);
    assert!(seen.players.is_empty());
    assert!(seen.hand.is_empty());
    assert_eq!(seen.pos, seat(0));
    assert_eq!(seen.status, Status::Pregame);
    assert!(seen.stars.is_empty());
    assert_eq!(seen.source_count, 34);
    assert!(seen.river.is_empty());
}

#[test]
fn being_shows_only_revealed_resources() {
    let face = c(Suit::Heart, Rank::RankQ);
    let heart = c(Suit::Heart, Rank::Rank3);
    let weapon = c(Suit::Spade, Rank::Rank7);
    let mut being = Being::new(face);
    assert_eq!(being.heart(), None);
    being.set_resource(Suit::Heart, heart);
    being.set_resource(Suit::Spade, weapon);
    being.set_loved_one(c(Suit::Club, Rank::RankK));
    assert_eq!(being.face(), face);
    assert_eq!(being.heart(), Some(heart));
    assert_eq!(being.weapon(), Some(weapon));
    assert_eq!(being.mind(), None);
    assert_eq!(being.power(), None);
    assert_eq!(being.get_resource(&Suit::Spade), Some(weapon));
    assert_eq!(being.loved_one(), Some(c(Suit::Club, Rank::RankK)));

    let hidden: BeingSnapshot = being.make_snapshot(&vec![]);
    assert_eq!(hidden.face, face);
    assert_eq!(hidden.get(Suit::Heart), Some(None));
    assert_eq!(hidden.get(Suit::Spade), Some(None));
    assert_eq!(hidden.get(Suit::Diamond), None);
    assert_eq!(hidden.get(Suit::Club), None);
    assert_eq!(hidden.get(Suit::Joker), None);

    let shown = being.make_snapshot(&vec![c(Suit::Club, Rank::Rank2), weapon]);
    assert_eq!(shown.get(Suit::Heart), Some(None));
    assert_eq!(shown.get(Suit::Spade), Some(Some(weapon)));
    assert_eq!(shown.get(Suit::Diamond), None);
}

#[test]
fn star_shows_its_hand_to_its_owner_only() {
    let mut hand = Hand::new();
    hand.add(card(3));
    hand.add(card(30));
    let mut star = Star::new(seat(1), hand);
    star.add_to_hand(card(31));
    assert_eq!(star.get_hand().size(), 3);
    assert_eq!(star.get_pos(), seat(1));
    assert_eq!(star.pos(), seat(1));
    assert_eq!(star.majesty(), 36);
    let mut being = Being::new(card(10));
    being.set_resource(Suit::Club, card(40));
    star.add_being(being);
    star.add_being(Being::new(card(11)));
    assert_eq!(star.beings_len(), 2);

    let revealed = vec![card(40)];
    let own = star.make_snapshot(true, &revealed);
    assert_eq!(own.hand, Some(star.get_hand()));
    assert_eq!(own.hand_count, 3);
    assert_eq!(own.get_pos(), seat(1));
    assert_eq!(own.get_majesty(), 36);
    assert_eq!(own.beings.len(), 2);
    assert_eq!(own.beings[0].get(Suit::Club), Some(Some(card(40))));

    let other = star.make_snapshot(false, &vec![]);
    assert_eq!(other.hand, None);
    assert_eq!(other.hand_count, 3);
    assert_eq!(other.beings[0].face, card(10));
    assert_eq!(other.beings[0].get(Suit::Club), Some(None));
    assert_eq!(other.beings[1].get(Suit::Club), None);

    star.remove_from_hand(card(3));
    assert_eq!(star.get_hand().list(), vec![card(30), card(31)]);
}

#[test]
fn end_of_the_last_trick_forgets_the_roles() {
    let mut game = two_players();
    game.set_player_ready(1);
    game.set_player_not_ready(1);
    game.set_player_ready(1);
    assert_eq!(game.get_player_role(1), Some(PlayerRole::PreDeal));
    game.end_trick();
    assert!(!game.get_players()[0].ready);
    assert_eq!(game.get_player_role(1), Some(PlayerRole::PreDeal));
    game.set_player_ready(1);
    game.end_last_trick();
    let states: Vec<(PlayerRole, bool)> =
        game.get_players().iter().map(|p| (p.role, p.ready)).collect();
    assert_eq!(
        states,
        vec![(PlayerRole::Unknown, false), (PlayerRole::Spectator, false)]
    );
}

#[test]
fn player_state_gives_its_player() {
    let state = GamePlayerState {
        player: info(5, "toto"),
        pos: seat(0),
        role: PlayerRole::Unknown,
        ready: true,
    };
    assert_eq!(state.clone(), state);
    assert_eq!(state.player(), info(5, "toto"));
}
