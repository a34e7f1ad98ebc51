use thevalley::cards::{Card, Deck, Hand, Rank, Suit};
use thevalley::client::{ChatLine, ChatLineData, Command, Effects, GamePage, Msg, ServerMessage,
    Sound};
use thevalley::game::{GameStateSnapshot, Phase, PlayEvent, StarsCards, Status};
use thevalley::player::{GamePlayerState, PlayerInfo, PlayerRole};
use thevalley::pos::PlayerPos;

fn info(id: u128, name: &str) -> PlayerInfo {
    PlayerInfo { id, nickname: name.to_string() }
}

fn player(id: u128, name: &str, seat: usize, count: u8) -> GamePlayerState {
    GamePlayerState {
        player: info(id, name),
        pos: PlayerPos::from_n(seat, count),
        role: PlayerRole::Spectator,
        ready: false,
    }
}

fn view(status: Status, players: Vec<GamePlayerState>, hand: Hand) -> GameStateSnapshot {
    GameStateSnapshot {
        nb_players: 3,
        players,
        hand,
        pos: PlayerPos::from_n(1, 3),
        status,
        stars: vec![],
        source_count: 30,
        river: Deck::default(),
    }
}

fn table() -> Vec<GamePlayerState> {
    vec![
        player(30, "a", 0, 3),
        player(10, "me", 1, 3),
        player(20, "c", 2, 3),
    ]
}

fn quiet() -> Effects {
    Effects { command: None, sound: None, render: true }
}

fn opened() -> GamePage {
    let (mut page, _) = GamePage::create(info(10, "me"));
    let shown = view(Status::Pregame, table(), Hand::new());
    assert_eq!(
        page.update(Msg::ServerMessage(ServerMessage::GameStateSnapshot(shown))),
        quiet()
    );
    page
}

fn text(line: Option<ChatLine>) -> String {
    match line.unwrap().data {
        ChatLineData::Text(t) => t,
        other => panic!("unexpected line {:?}", other),
    }
}

#[test]
fn page_opens_with_a_line_and_marks_ready() {
    let (page, effects) = GamePage::create(info(10, "me"));
    assert_eq!(
        effects,
        Effects { command: Some(Command::MarkReady), sound: None, render: true }
    );
    assert_eq!(page.chat_len(), 1);
    assert_eq!(
        page.chat_line(0),
        Some(ChatLine { nickname: "me".to_string(), data: ChatLineData::Connected })
    );
    assert_eq!(page.chat_line(1), None);
    assert_eq!(*page.game_state(), GameStateSnapshot::default());
    assert!(page.hand().is_empty());
    assert!(!page.is_waiting());
    assert!(!page.update_needs_confirm());
    assert_eq!(page.error(), None);
    assert_eq!(page.waiting_count(), 0);
}

#[test]
fn chat_names_the_writer() {
    let mut page = opened();
    assert_eq!(page.get_nickname(20), "c");
    assert_eq!(page.get_nickname(99), "anonymous");
    let effects = page.update(Msg::ServerMessage(ServerMessage::Chat(20, "hello".to_string())));
    assert_eq!(
        effects,
        Effects { command: None, sound: Some(Sound::Chat), render: true }
    );
    assert_eq!(page.chat_len(), 2);
    assert_eq!(
        page.chat_line(1),
        Some(ChatLine {
            nickname: "c".to_string(),
            data: ChatLineData::Text("hello".to_string())
        })
    );
    page.update(Msg::ServerMessage(ServerMessage::Chat(99, "who".to_string())));
    assert_eq!(page.chat_line(2).unwrap().nickname, "anonymous");
}

#[test]
fn chat_keeps_its_last_hundred_lines() {
    let mut page = opened();
    for n in 0..150 {
        page.update(Msg::ServerMessage(ServerMessage::Chat(10, format!("{}", n))));
    }
    assert_eq!(page.chat_len(), 100);
    assert_eq!(text(page.chat_line(0)), "50");
    assert_eq!(text(page.chat_line(99)), "149");
    assert_eq!(page.chat_line(100), None);
    page.add_chat_message(30, ChatLineData::Disconnected);
    assert_eq!(page.chat_len(), 100);
    assert_eq!(text(page.chat_line(0)), "51");
    assert_eq!(
        page.chat_line(99),
        Some(ChatLine { nickname: "a".to_string(), data: ChatLineData::Disconnected })
    );
}

#[test]
fn played_card_is_noted_in_the_chat() {
    let mut page = opened();
    let card = Card::new(Suit::Club, Rank::Rank5);
    let effects = page.update(Msg::ServerMessage(ServerMessage::PlayEvent(PlayEvent::Play(
        30, card,
    ))));
    assert_eq!(
        effects,
        Effects { command: None, sound: Some(Sound::Card), render: true }
    );
    assert_eq!(
        page.chat_line(1),
        Some(ChatLine {
            nickname: "a".to_string(),
            data: ChatLineData::Text("play: 5C".to_string())
        })
    );
}

#[test]
fn failure_is_shown_until_closed() {
    let mut page = opened();
    page.update(Msg::MarkReady);
    assert!(page.is_waiting());
    let effects = page.update(Msg::ServerMessage(ServerMessage::Error(
        "play: invalid turn order".to_string(),
    )));
    assert_eq!(
        effects,
        Effects { command: None, sound: Some(Sound::Error), render: true }
    );
    assert!(!page.is_waiting());
    assert_eq!(page.error(), Some("play: invalid turn order".to_string()));
    assert_eq!(page.update(Msg::CloseError), quiet());
    assert_eq!(page.error(), None);
}

#[test]
fn players_come_and_go() {
    let mut page = opened();
    let late = player(40, "late", 0, 3);
    assert_eq!(
        page.update(Msg::ServerMessage(ServerMessage::PlayerConnected(late.clone()))),
        quiet()
    );
    assert_eq!(page.game_state().players.len(), 4);
    assert_eq!(page.game_state().players[3], late);
    assert_eq!(
        page.chat_line(1),
        Some(ChatLine { nickname: "late".to_string(), data: ChatLineData::Connected })
    );
    assert_eq!(
        page.update(Msg::ServerMessage(ServerMessage::PlayerDisconnected(30))),
        quiet()
    );
    let ids: Vec<u128> = page.game_state().players.iter().map(|p| p.player.id).collect();
    assert_eq!(ids, vec![10, 20, 40]);
    assert_eq!(
        page.chat_line(2),
        Some(ChatLine { nickname: "a".to_string(), data: ChatLineData::Disconnected })
    );
    page.update(Msg::ServerMessage(ServerMessage::PlayerDisconnected(77)));
    assert_eq!(page.game_state().players.len(), 3);
    assert_eq!(page.chat_line(3).unwrap().nickname, "anonymous");
}

fn twilight() -> Status {
    let mut round = StarsCards::new(3);
    round.insert(PlayerPos::from_n(0, 3), Card::new(Suit::Heart, Rank::Rank9));
    round.insert(PlayerPos::from_n(1, 3), Card::new(Suit::Spade, Rank::Rank2));
    Status::Twilight(PlayerPos::from_n(0, 3), vec![round])
}

fn hand_of(cards: &[Card]) -> Hand {
    let mut hand = Hand::new();
    for c in cards.iter() {
        hand.add(*c);
    }
    hand
}

#[test]
fn views_wait_while_the_twilight_is_shown() {
    let mut page = opened();
    page.update(Msg::MarkReady);
    let h1 = hand_of(&[Card::from_id(1)]);
    let h2 = hand_of(&[Card::from_id(2)]);
    let h3 = hand_of(&[Card::from_id(3)]);
    let first = view(twilight(), table(), h1);
    let second = view(
        Status::Playing(PlayerPos::from_n(0, 3), Phase::Influence),
        table(),
        h2,
    );
    let third = view(
        Status::Playing(PlayerPos::from_n(0, 3), Phase::Act),
        table(),
        h3,
    );
    page.update(Msg::ServerMessage(ServerMessage::GameStateSnapshot(first.clone())));
    assert!(!page.is_waiting());
    assert!(page.update_needs_confirm());
    assert_eq!(*page.game_state(), first);
    assert_eq!(page.hand(), h1);
    page.update(Msg::ServerMessage(ServerMessage::GameStateSnapshot(second.clone())));
    page.update(Msg::ServerMessage(ServerMessage::GameStateSnapshot(third.clone())));
    assert_eq!(page.waiting_count(), 2);
    assert_eq!(*page.game_state(), first);
    assert_eq!(page.hand(), h1);
    assert_eq!(page.update(Msg::Continue), quiet());
    assert_eq!(*page.game_state(), second);
    assert!(!page.update_needs_confirm());
    assert_eq!(page.waiting_count(), 1);
    assert_eq!(page.hand(), h1);
    page.update(Msg::Continue);
    assert_eq!(*page.game_state(), third);
    assert_eq!(page.waiting_count(), 0);
    page.update(Msg::Continue);
    assert_eq!(*page.game_state(), third);
    assert!(!page.update_needs_confirm());
}

#[test]
fn continue_without_a_waiting_view_lets_the_next_one_in() {
    let mut page = opened();
    let first = view(twilight(), table(), Hand::new());
    page.update(Msg::ServerMessage(ServerMessage::GameStateSnapshot(first)));
    assert!(page.update_needs_confirm());
    page.update(Msg::Continue);
    assert!(!page.update_needs_confirm());
    let second = view(Status::Endgame, table(), hand_of(&[Card::from_id(7)]));
    page.update(Msg::ServerMessage(ServerMessage::GameStateSnapshot(second.clone())));
    assert_eq!(*page.game_state(), second);
    assert_eq!(page.hand(), second.hand);
}

#[test]
fn what_the_player_does_is_sent() {
    let mut page = opened();
    assert_eq!(
        page.update(Msg::Ping),
        Effects { command: Some(Command::Ping), sound: None, render: true }
    );
    assert_eq!(
        page.update(Msg::SetChatLine("hi".to_string())),
        Effects {
            command: Some(Command::SendText("hi".to_string())),
            sound: None,
            render: true
        }
    );
    assert_eq!(
        page.update(Msg::Disconnect),
        Effects { command: Some(Command::LeaveGame), sound: None, render: true }
    );
    assert!(!page.is_waiting());
    let card = Card::new(Suit::Heart, Rank::Rank3);
    assert_eq!(
        page.update(Msg::Play(card)),
        Effects { command: Some(Command::Play(card)), sound: None, render: true }
    );
    assert!(page.is_waiting());
    assert_eq!(page.update(Msg::ServerMessage(ServerMessage::Other)), quiet());
    assert!(page.is_waiting());
    assert_eq!(page.update(Msg::AddToHand(card)), quiet());
    assert!(page.hand().has(card));
    assert_eq!(page.chat_len(), 1);
}

#[test]
fn others_are_listed_in_the_order_of_play() {
    let mut page = opened();
    assert_eq!(page.my_state().player.nickname, "me");
    assert_eq!(page.opponent_state().player.id, 30);
    let names: Vec<String> =
        page.others_in_order().iter().map(|p| p.player.nickname.clone()).collect();
    assert_eq!(names, vec!["c".to_string(), "a".to_string()]);
    assert!(!page.is_my_turn());
    let playing = view(
        Status::Playing(PlayerPos::from_n(1, 3), Phase::Influence),
        table(),
        Hand::new(),
    );
    page.update(Msg::ServerMessage(ServerMessage::GameStateSnapshot(playing)));
    assert!(page.is_my_turn());
    let elsewhere = view(
        Status::Playing(PlayerPos::from_n(2, 3), Phase::Influence),
        table(),
        Hand::new(),
    );
    page.update(Msg::ServerMessage(ServerMessage::GameStateSnapshot(elsewhere)));
    assert!(!page.is_my_turn());
}

#[test]
fn hidden_cards_are_not_offered() {
    let mut page = opened();
    for id in [9u32, 3, 40, 21].iter() {
        page.update(Msg::AddToHand(Card::from_id(*id)));
    }
    let hidden = vec![Card::from_id(21), Card::from_id(5)];
    assert_eq!(
        page.visible_hand(&hidden),
        vec![Card::from_id(3), Card::from_id(9), Card::from_id(40)]
    );
    assert_eq!(page.visible_hand(&vec![]).len(), 4);
}
