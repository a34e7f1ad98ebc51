use thevalley::cards::{Card, Deck, Hand, Rank, Suit};
use thevalley::deal::{can_play, DealResult, DealState, PlayError, TrickResult};
use thevalley::dispatcher::{not_in_game, on_gameplay, on_player_play, on_player_set_role, Reply};
use thevalley::game::{EngineError, Phase, PlayEvent, Status, ValleyGame};
use thevalley::message::{GamePlayCommand, PlayCommand, ProtocolError, ProtocolErrorKind,
    SetPlayerRoleCommand};
use thevalley::player::{PlayerInfo, PlayerRole};
use thevalley::pos::PlayerPos;
use thevalley::trick::Trick;
use thevalley::turn::{Deal, Turn};

fn c(suit: Suit, rank: Rank) -> Card {
    Card::new(suit, rank)
}

fn seat(n: usize) -> PlayerPos {
    PlayerPos::from_n(n, 2)
}

fn hand_of(cards: &[Card]) -> Hand {
    let mut hand = Hand::new();
    for x in cards.iter() {
        hand.add(*x);
    }
    hand
}

fn small_deal() -> DealState {
    DealState::new(
        seat(0),
        [
            hand_of(&[c(Suit::Heart, Rank::Rank5), c(Suit::Heart, Rank::Rank9)]),
            hand_of(&[c(Suit::Spade, Rank::Rank5), c(Suit::Spade, Rank::Rank2)]),
        ],
    )
}

#[test]
fn play_error_words() {
    assert_eq!(PlayError::TurnError.to_string(), "invalid turn order");
    assert_eq!(PlayError::CardMissing.to_string(), "you can only play cards you have");
    assert_eq!(PlayError::IncorrectSuit.to_string(), "wrong suit played");
    assert_eq!(PlayError::NoLastTrick.to_string(), "no trick has been played yet");
}

#[test]
fn can_play_asks_for_the_card() {
    let hand = hand_of(&[c(Suit::Heart, Rank::Rank5)]);
    let trick = Trick::default();
    assert_eq!(can_play(seat(0), c(Suit::Heart, Rank::Rank5), hand, &trick, true), Ok(()));
    assert_eq!(
        can_play(seat(0), c(Suit::Heart, Rank::Rank6), hand, &trick, false),
        Err(PlayError::CardMissing)
    );
}

#[test]
fn deal_refuses_a_card_out_of_turn() {
    let mut deal = small_deal();
    assert_eq!(deal.next_player(), seat(0));
    assert_eq!(
        deal.play_card(seat(1), c(Suit::Spade, Rank::Rank5)),
        Err(PlayError::TurnError)
    );
    assert_eq!(deal.next_player(), seat(0));
    assert_eq!(deal.hands()[1].size(), 2);
    assert_eq!(deal.current_trick().cards, [None; 4]);
}

#[test]
fn deal_refuses_a_card_that_is_not_held() {
    let mut deal = small_deal();
    assert_eq!(
        deal.play_card(seat(0), c(Suit::Spade, Rank::Rank5)),
        Err(PlayError::CardMissing)
    );
    assert_eq!(deal.next_player(), seat(0));
    assert_eq!(deal.hands()[0].size(), 2);
}

#[test]
fn deal_plays_a_trick() {
    let mut deal = small_deal();
    assert_eq!(deal.last_trick(), Err(PlayError::NoLastTrick));
    assert_eq!(deal.get_deal_result(), DealResult::Nothing);
    assert!(!deal.is_over());
    assert_eq!(
        deal.play_card(seat(0), c(Suit::Heart, Rank::Rank5)),
        Ok(TrickResult::Nothing)
    );
    assert_eq!(deal.next_player(), seat(1));
    assert_eq!(deal.hands()[0].list(), vec![c(Suit::Heart, Rank::Rank9)]);
    assert_eq!(
        deal.play_card(seat(1), c(Suit::Spade, Rank::Rank5)),
        Ok(TrickResult::TrickOver(seat(0), DealResult::Nothing))
    );
    assert_eq!(deal.next_player(), seat(0));
    let last = *deal.last_trick().unwrap();
    assert_eq!(last.winner, seat(0));
    assert_eq!(last.card_played(seat(1)), Some(c(Suit::Spade, Rank::Rank5)));
    assert_eq!(deal.current_trick().first, seat(0));
    assert_eq!(deal.current_trick().cards, [None; 4]);
    assert_eq!(
        deal.play_card(seat(0), c(Suit::Heart, Rank::Rank9)),
        Ok(TrickResult::Nothing)
    );
    assert_eq!(
        deal.play_card(seat(1), c(Suit::Spade, Rank::Rank2)),
        Ok(TrickResult::TrickOver(seat(0), DealResult::Nothing))
    );
    assert!(deal.hands()[0].is_empty() && deal.hands()[1].is_empty());
}

#[test]
fn deal_begins_a_new_trick_until_the_tenth() {
    let (hands, _source) = thevalley::deal_seeded_hands([5; 32]);
    let mut deal = DealState::new(seat(0), hands);
    for n in 1..=10usize {
        let first = deal.next_player();
        assert_eq!(deal.current_trick().first, first);
        assert_eq!(deal.current_trick().cards, [None; 4]);
        let lead = deal.hands()[first.to_n()].list()[0];
        assert_eq!(deal.play_card(first, lead), Ok(TrickResult::Nothing));
        let second = first.next();
        let follow = deal.hands()[second.to_n()].list()[0];
        let result = deal.play_card(second, follow).unwrap();
        let winner = match result {
            TrickResult::TrickOver(winner, DealResult::Nothing) => winner,
            other => panic!("unexpected result {:?}", other),
        };
        assert_eq!(deal.next_player(), winner);
        if n < 10 {
            assert_eq!(deal.current_trick().first, winner);
            assert_eq!(deal.current_trick().cards, [None; 4]);
            let last = *deal.last_trick().unwrap();
            assert_eq!(last.card_played(first), Some(lead));
            assert_eq!(last.card_played(second), Some(follow));
            assert_eq!(last.winner, winner);
        } else {
            assert_eq!(deal.current_trick().card_played(first), Some(lead));
            assert_eq!(deal.current_trick().card_played(second), Some(follow));
            assert_eq!(deal.current_trick().winner, winner);
        }
        assert_eq!(deal.hands()[0].size(), 10 - n);
        assert_eq!(deal.hands()[1].size(), 10 - n);
    }
    assert!(!deal.is_over());
}

#[test]
fn deal_trick_goes_to_the_stronger_card() {
    let mut deal = DealState::new(
        seat(1),
        [
            hand_of(&[c(Suit::Heart, Rank::Rank9)]),
            hand_of(&[c(Suit::Spade, Rank::RankK)]),
        ],
    );
    assert_eq!(
        deal.play_card(seat(1), c(Suit::Spade, Rank::RankK)),
        Ok(TrickResult::Nothing)
    );
    assert_eq!(
        deal.play_card(seat(0), c(Suit::Heart, Rank::Rank9)),
        Ok(TrickResult::TrickOver(seat(0), DealResult::Nothing))
    );
    assert_eq!(deal.next_player(), seat(0));
}

#[test]
fn new_deal_starts_with_the_first_seat() {
    let mut deal = Deal::new(seat(1));
    assert_eq!(deal.next_player(), seat(0));
    assert_eq!(deal.hands()[0].size(), 9);
    assert_eq!(deal.hands()[1].size(), 9);
    assert_eq!(Turn::from_deal(&deal), Turn::Playing(seat(0)));
    assert_eq!(deal.deal_state().unwrap().next_player(), seat(0));
    let card = deal.hands()[0].list()[0];
    let state = deal.deal_state_mut().unwrap();
    assert_eq!(state.play_card(seat(0), card), Ok(TrickResult::Nothing));
    assert_eq!(deal.next_player(), seat(1));
    assert_eq!(deal.hands()[0].size(), 8);
}

#[test]
fn turn_words() {
    assert_eq!(Turn::Pregame.to_string(), "pre-game");
    assert_eq!(Turn::Intertrick.to_string(), "inter trick");
    assert_eq!(Turn::Interdeal.to_string(), "inter deal");
    assert_eq!(Turn::Playing(seat(0)).to_string(), "playing");
    assert_eq!(Turn::Endgame.to_string(), "end");
    assert!(!Turn::Pregame.has_player_pos());
    assert!(Turn::Intertrick.has_player_pos());
    assert!(!Turn::Interdeal.has_player_pos());
    assert!(Turn::Playing(seat(1)).has_player_pos());
    assert!(!Turn::Endgame.has_player_pos());
}

#[test]
fn protocol_error_keeps_kind_and_words() {
    let e = ProtocolError::new(ProtocolErrorKind::BadInput, "no such code");
    assert_eq!(e.kind(), ProtocolErrorKind::BadInput);
    assert_eq!(e.message(), "no such code");
    assert_eq!(e.clone(), e);
}

#[test]
fn refusals_are_worded_for_the_player() {
    let e = ProtocolError::from_play_error(PlayError::TurnError);
    assert_eq!(e.kind(), ProtocolErrorKind::BadState);
    assert_eq!(e.message(), "play: invalid turn order");
    assert_eq!(
        ProtocolError::from_play_error(PlayError::CardMissing).message(),
        "play: you can only play cards you have"
    );
    assert_eq!(
        ProtocolError::from_engine_error(EngineError::Play(PlayError::NoLastTrick)).message(),
        "play: no trick has been played yet"
    );
    let unknown = ProtocolError::from_engine_error(EngineError::UnknownPlayer);
    assert_eq!(unknown.kind(), ProtocolErrorKind::BadState);
    assert_eq!(unknown.message(), "not in a game");
    let exhausted = ProtocolError::from_engine_error(EngineError::Exhausted);
    assert_eq!(exhausted.kind(), ProtocolErrorKind::InternalError);
    assert_eq!(exhausted.message(), "the source is exhausted");
    assert_eq!(not_in_game().kind(), ProtocolErrorKind::BadState);
    assert_eq!(not_in_game().message(), "not in a game");
}

fn playing_game() -> (ValleyGame, Card, Card) {
    let mut game = ValleyGame::default();
    game.add_player(PlayerInfo { id: 1, nickname: "toto".to_string() });
    game.add_player(PlayerInfo { id: 2, nickname: "titi".to_string() });
    let top = c(Suit::Heart, Rank::Rank9);
    let under = c(Suit::Spade, Rank::Rank2);
    game.begin_with([Hand::new(); 2], Deck::from_cards(vec![c(Suit::Club, Rank::Rank1), under, top]));
    game.next();
    (game, top, under)
}

#[test]
fn role_is_set_before_the_game_only() {
    let mut game = ValleyGame::default();
    game.add_player(PlayerInfo { id: 1, nickname: "toto".to_string() });
    game.set_player_ready(1);
    let cmd = SetPlayerRoleCommand { role: PlayerRole::Unknown };
    assert_eq!(on_player_set_role(&mut game, 1, cmd), Ok(()));
    assert_eq!(game.get_player_role(1), Some(PlayerRole::Unknown));
    assert!(!game.get_players()[0].ready);
    assert_eq!(on_player_set_role(&mut game, 5, cmd), Ok(()));

    let (mut game, _, _) = playing_game();
    let refused = on_player_set_role(&mut game, 1, cmd).unwrap_err();
    assert_eq!(refused.kind(), ProtocolErrorKind::BadState);
    assert_eq!(
        refused.message(),
        "cannot set role because game is not not joinable"
    );
    assert_eq!(game.get_player_role(1), Some(PlayerRole::Spectator));
}

#[test]
fn played_card_is_told_to_all() {
    let (mut game, top, under) = playing_game();
    assert_eq!(*game.get_status(), Status::Playing(seat(0), Phase::Influence));
    let refused = on_player_play(&mut game, 2, PlayCommand { card: under });
    assert_eq!(
        refused,
        Reply::ToPlayer(ProtocolError::new(
            ProtocolErrorKind::BadState,
            "play: invalid turn order"
        ))
    );
    let missing = on_gameplay(&mut game, 1, GamePlayCommand::Play(PlayCommand { card: under }));
    assert_eq!(
        missing,
        Reply::ToPlayer(ProtocolError::new(
            ProtocolErrorKind::BadState,
            "play: you can only play cards you have"
        ))
    );
    let unknown = on_player_play(&mut game, 3, PlayCommand { card: top });
    assert_eq!(
        unknown,
        Reply::ToPlayer(ProtocolError::new(ProtocolErrorKind::BadState, "not in a game"))
    );
    assert!(game.get_river().is_empty());
    let played = on_gameplay(&mut game, 1, GamePlayCommand::Play(PlayCommand { card: top }));
    assert_eq!(played, Reply::ToAll(PlayEvent::Play(1, top)));
    assert_eq!(game.get_river().cards(), &vec![top]);
    assert_eq!(game.set_play(2, under), Ok(()));
    assert_eq!(
        game.set_play(2, under).unwrap_err().message(),
        "play: invalid turn order"
    );
}
