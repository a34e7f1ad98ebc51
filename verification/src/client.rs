//! The game page of a client: what it keeps of the game between two messages,
//! and what it decides when one comes in.
use vstd::prelude::*;
use vstd::string::StringExecFns;
use std::rc::Rc;
use im_rc::Vector;
use crate::cards::{Card, Hand};
use crate::game::{GameStateSnapshot, PlayEvent, Status, StatusView};
use crate::player::{GamePlayerState, PlayerInfo};
use crate::pos::PlayerPos;

verus! {

/// What a line of the chat tells.
#[derive(Debug, PartialEq, Eq)]
pub enum ChatLineData {
    Connected,
    Disconnected,
    Text(String),
}

impl Clone for ChatLineData {
    fn clone(&self) -> (copy: ChatLineData)
        ensures
            copy == *self,
    {
        match self {
            ChatLineData::Connected => ChatLineData::Connected,
            ChatLineData::Disconnected => ChatLineData::Disconnected,
            ChatLineData::Text(text) => ChatLineData::Text(text.clone()),
        }
    }
}

/// A line of the chat: who it is about, and what it tells.
#[derive(Debug, PartialEq, Eq)]
pub struct ChatLine {
    pub nickname: String,
    pub data: ChatLineData,
}

impl Clone for ChatLine {
    fn clone(&self) -> (copy: ChatLine)
        ensures
            copy == *self,
    {
        ChatLine { nickname: self.nickname.clone(), data: self.data.clone() }
    }
}

/// What a line of the chat tells, as a value of the contracts.
pub ghost enum ChatDataView {
    Connected,
    Disconnected,
    Text(Seq<char>),
}

/// A line of the chat, as a value of the contracts.
pub ghost struct ChatLineView {
    pub nickname: Seq<char>,
    pub data: ChatDataView,
}

impl View for ChatLineData {
    type V = ChatDataView;

    open spec fn view(&self) -> ChatDataView {
        match *self {
            ChatLineData::Connected => ChatDataView::Connected,
            ChatLineData::Disconnected => ChatDataView::Disconnected,
            ChatLineData::Text(text) => ChatDataView::Text(text@),
        }
    }
}

impl View for ChatLine {
    type V = ChatLineView;

    open spec fn view(&self) -> ChatLineView {
        ChatLineView { nickname: self.nickname@, data: self.data@ }
    }
}

/// Number of lines that the chat keeps.
pub const CHAT_LOG_SIZE: usize = 100;

#[verifier::external_type_specification]
#[verifier::external_body]
#[verifier::reject_recursive_types(A)]
pub struct ExVector<A>(Vector<A>);

/// The lines of a chat log, the oldest first.
pub uninterp spec fn chat_lines(log: Vector<Rc<ChatLine>>) -> Seq<ChatLineView>;

/// The views that wait in a queue, the one that came last first.
pub uninterp spec fn queued(states: Vector<GameStateSnapshot>) -> Seq<GameStateSnapshot>;

/// A chat log with one line, made by `Vector::unit`.
#[verifier::external_body]
fn log_unit(line: ChatLine) -> (log: Vector<Rc<ChatLine>>)
    ensures
        chat_lines(log) == seq![line@],
{
    Vector::unit(Rc::new(line))
}

/// Number of lines in a chat log, as `Vector::len` gives it.
#[verifier::external_body]
fn log_len(log: &Vector<Rc<ChatLine>>) -> (n: usize)
    ensures
        n == chat_lines(*log).len(),
{
    log.len()
}

/// Adds a line at the end of a chat log with `Vector::push_back`: the lines
/// that were there stay, in their order, before the new one.
#[verifier::external_body]
fn log_push_back(log: &mut Vector<Rc<ChatLine>>, line: ChatLine)
    ensures
        chat_lines(*final(log)) == chat_lines(*old(log)).push(line@),
{
    log.push_back(Rc::new(line));
}

/// Takes the oldest line off a chat log with `Vector::pop_front`, which gives
/// none for an empty log and leaves it as it is.
#[verifier::external_body]
fn log_pop_front(log: &mut Vector<Rc<ChatLine>>) -> (line: Option<ChatLine>)
    ensures
        line is Some <==> chat_lines(*old(log)).len() > 0,
        line matches Some(l) ==> l@ == chat_lines(*old(log))[0] && chat_lines(*final(log))
            == chat_lines(*old(log)).skip(1),
        line is None ==> chat_lines(*final(log)) == chat_lines(*old(log)),
{
    log.pop_front().map(|line| (*line).clone())
}

/// The line at place `i` of a chat log, as `Vector::get` finds it: there is one
/// for every place under the log's length, and none beyond.
#[verifier::external_body]
fn log_get(log: &Vector<Rc<ChatLine>>, i: usize) -> (line: Option<ChatLine>)
    ensures
        line is Some <==> i < chat_lines(*log).len(),
        line matches Some(l) ==> l@ == chat_lines(*log)[i as int],
{
    log.get(i).map(|line| (**line).clone())
}

/// An empty queue of views, made by `Vector::new`.
#[verifier::external_body]
fn states_new() -> (states: Vector<GameStateSnapshot>)
    ensures
        queued(states) == Seq::<GameStateSnapshot>::empty(),
{
    Vector::new()
}

/// Number of views in a queue, as `Vector::len` gives it.
#[verifier::external_body]
fn states_len(states: &Vector<GameStateSnapshot>) -> (n: usize)
    ensures
        n == queued(*states).len(),
{
    states.len()
}

/// Puts a view at the front of a queue with `Vector::push_front`: the views
/// that were there stay, in their order, behind the new one.
#[verifier::external_body]
fn states_push_front(states: &mut Vector<GameStateSnapshot>, snapshot: GameStateSnapshot)
    ensures
        queued(*final(states)) == seq![snapshot] + queued(*old(states)),
{
    states.push_front(snapshot);
}

/// Takes the view at the back of a queue with `Vector::pop_back`, which gives
/// none for an empty queue and leaves it as it is.
#[verifier::external_body]
fn states_pop_back(states: &mut Vector<GameStateSnapshot>) -> (snapshot: Option<GameStateSnapshot>)
    ensures
        queued(*old(states)).len() == 0 ==> snapshot is None && queued(*final(states)) == queued(
            *old(states),
        ),
        queued(*old(states)).len() > 0 ==> snapshot == Some(queued(*old(states)).last())
            && queued(*final(states)) == queued(*old(states)).drop_last(),
{
    states.pop_back()
}

/// What the server tells the page.
#[derive(Debug, Clone, PartialEq, Eq)]
pub enum ServerMessage {
    /// A player wrote in the chat.
    Chat(u128, String),
    /// A card was played.
    PlayEvent(PlayEvent),
    /// A command failed; the words say why.
    Error(String),
    PlayerConnected(GamePlayerState),
    PlayerDisconnected(u128),
    GameStateSnapshot(GameStateSnapshot),
    /// Anything else: the page does not look at it.
    Other,
}

/// What can happen to the page.
#[derive(Debug, Clone, PartialEq, Eq)]
pub enum Msg {
    Ping,
    Disconnect,
    MarkReady,
    Continue,
    CloseError,
    Play(Card),
    SetChatLine(String),
    AddToHand(Card),
    ServerMessage(ServerMessage),
}

/// What the page asks of the server.
#[derive(Debug, Clone, PartialEq, Eq)]
pub enum Command {
    Ping,
    SendText(String),
    MarkReady,
    LeaveGame,
    Play(Card),
}

/// The sounds of the page.
#[derive(Debug, Clone, Copy, PartialEq, Eq, Structural)]
pub enum Sound {
    Chat,
    Card,
    Error,
}

/// What is to be done for the page after an update: a command to send, a sound
/// to play, and whether to draw the page anew.
#[derive(Debug, Clone, PartialEq, Eq)]
pub struct Effects {
    pub command: Option<Command>,
    pub sound: Option<Sound>,
    pub render: bool,
}

/// The name for a player that the page does not know.
pub open spec fn anonymous() -> Seq<char> {
    "anonymous"@
}

/// Whether one of the players has identity `id`.
pub open spec fn listed(players: Seq<GamePlayerState>, id: u128) -> bool {
    exists|i: int| 0 <= i < players.len() && players[i].player.id == id
}

/// The first place among the players of one with identity `id`.
pub open spec fn first_place(players: Seq<GamePlayerState>, id: u128) -> int {
    choose|i: int|
        0 <= i < players.len() && players[i].player.id == id && forall|k: int|
            0 <= k < i ==> players[k].player.id != id
}

/// The name of the first player with identity `id`, or `anonymous`.
pub open spec fn nickname_of(players: Seq<GamePlayerState>, id: u128) -> Seq<char> {
    if listed(players, id) {
        players[first_place(players, id)].player.nickname@
    } else {
        anonymous()
    }
}

/// The players but those with identity `id`, in their order.
pub open spec fn without(players: Seq<GamePlayerState>, id: u128) -> Seq<GamePlayerState>
    decreases players.len(),
{
    if players.len() == 0 {
        Seq::empty()
    } else if players.last().player.id == id {
        without(players.drop_last(), id)
    } else {
        without(players.drop_last(), id).push(players.last())
    }
}

/// The players whose seat number is over `seat` if `after`, under it if not,
/// in their order.
pub open spec fn seated_beside(players: Seq<GamePlayerState>, seat: int, after: bool) -> Seq<
    GamePlayerState,
>
    decreases players.len(),
{
    if players.len() == 0 {
        Seq::empty()
    } else if (after && players.last().pos.index() > seat) || (!after
        && players.last().pos.index() < seat) {
        seated_beside(players.drop_last(), seat, after).push(players.last())
    } else {
        seated_beside(players.drop_last(), seat, after)
    }
}

/// The last `CHAT_LOG_SIZE` lines of `lines`.
pub open spec fn kept(lines: Seq<ChatLineView>) -> Seq<ChatLineView> {
    if lines.len() > CHAT_LOG_SIZE {
        lines.skip(lines.len() - CHAT_LOG_SIZE)
    } else {
        lines
    }
}

/// The cards of `cards` that are not in `hidden`, in their order.
pub open spec fn shown(cards: Seq<Card>, hidden: Seq<Card>) -> Seq<Card>
    decreases cards.len(),
{
    if cards.len() == 0 {
        Seq::empty()
    } else if hidden.contains(cards.last()) {
        shown(cards.drop_last(), hidden)
    } else {
        shown(cards.drop_last(), hidden).push(cards.last())
    }
}

/// Whether two views differ in their players at most.
pub open spec fn same_but_players(a: GameStateSnapshot, b: GameStateSnapshot) -> bool {
    &&& a.nb_players == b.nb_players
    &&& a.hand == b.hand
    &&& a.pos == b.pos
    &&& a.status == b.status
    &&& a.stars == b.stars
    &&& a.source_count == b.source_count
    &&& a.river == b.river
}

/// The players but those with identity `id`, in their order.
pub fn players_without(players: &Vec<GamePlayerState>, id: u128) -> (rest: Vec<GamePlayerState>)
    ensures
        rest@ == without(players@, id),
{
    let mut rest: Vec<GamePlayerState> = Vec::new();
    let mut i: usize = 0;
    while i < players.len()
        invariant
            i <= players.len(),
            rest@ == without(players@.take(i as int), id),
        decreases players.len() - i,
    {
        proof {
            assert(players@.take(i + 1).drop_last() =~= players@.take(i as int));
        }
        if players[i].player.id != id {
            rest.push(players[i].clone());
        }
        i = i + 1;
    }
    proof {
        assert(players@.take(i as int) =~= players@);
    }
    rest
}

/// The game page of one player.
pub struct GamePage {
    player_info: PlayerInfo,
    game_state: GameStateSnapshot,
    next_states: Vector<GameStateSnapshot>,
    chat_log: Vector<Rc<ChatLine>>,
    hand: Hand,
    is_waiting: bool,
    update_needs_confirm: bool,
    error: Option<String>,
}

impl GamePage {
    /// Who the page belongs to.
    pub closed spec fn player(self) -> PlayerInfo {
        self.player_info
    }

    /// The view of the game that the page shows.
    pub closed spec fn state(self) -> GameStateSnapshot {
        self.game_state
    }

    /// The views that wait to be shown, the one that came last first.
    pub closed spec fn waiting_states(self) -> Seq<GameStateSnapshot> {
        queued(self.next_states)
    }

    /// The lines of the chat, the oldest first.
    pub closed spec fn chat(self) -> Seq<ChatLineView> {
        chat_lines(self.chat_log)
    }

    /// The hand that the page shows.
    pub closed spec fn spec_hand(self) -> Hand {
        self.hand
    }

    /// Whether the page waits for the server's answer.
    pub closed spec fn waiting(self) -> bool {
        self.is_waiting
    }

    /// Whether the player has to confirm what is shown before the next view
    /// replaces it.
    pub closed spec fn needs_confirm(self) -> bool {
        self.update_needs_confirm
    }

    /// The failure that the page shows, if any.
    pub closed spec fn spec_error(self) -> Option<Seq<char>> {
        match self.error {
            Some(words) => Some(words@),
            None => None,
        }
    }

    /// Whether `next` differs from this page in its chat at most.
    pub open spec fn same_but_chat(self, next: GamePage) -> bool {
        &&& next.player() == self.player()
        &&& next.state() == self.state()
        &&& next.waiting_states() == self.waiting_states()
        &&& next.spec_hand() == self.spec_hand()
        &&& next.waiting() == self.waiting()
        &&& next.needs_confirm() == self.needs_confirm()
        &&& next.spec_error() == self.spec_error()
    }

    /// The page of `player_info` as it is opened: with the view of a game that
    /// nobody has joined, one line in the chat that tells of the player's
    /// coming, and the player marked ready with the server.
    pub fn create(player_info: PlayerInfo) -> (opened: (GamePage, Effects))
        ensures
            opened.0.player() == player_info,
            opened.0.chat() == seq![
                (ChatLineView { nickname: player_info.nickname@, data: ChatDataView::Connected }),
            ],
            opened.0.waiting_states().len() == 0,
            opened.0.state().nb_players == 2,
            opened.0.state().players@.len() == 0,
            opened.0.state().hand@ == Set::<Card>::empty(),
            opened.0.state().pos == PlayerPos::seat(0, 2),
            opened.0.state().status@ == StatusView::Pregame,
            opened.0.state().stars@.len() == 0,
            opened.0.state().source_count == crate::game::DEFAULT_SOURCE_COUNT,
            opened.0.state().river@.len() == 0,
            opened.0.spec_hand()@ == Set::<Card>::empty(),
            !opened.0.waiting(),
            !opened.0.needs_confirm(),
            opened.0.spec_error() is None,
            opened.1 == (Effects { command: Some(Command::MarkReady), sound: None, render: true }),
    {
        let line = ChatLine { nickname: player_info.nickname.clone(), data: ChatLineData::Connected };
        let page = GamePage {
            chat_log: log_unit(line),
            game_state: GameStateSnapshot::default(),
            next_states: states_new(),
            player_info,
            hand: Hand::new(),
            is_waiting: false,
            update_needs_confirm: false,
            error: None,
        };
        (page, Effects { command: Some(Command::MarkReady), sound: None, render: true })
    }

    /// The name of the player with identity `player_id`, or `anonymous` for one
    /// that the view does not list.
    pub fn get_nickname(&self, player_id: u128) -> (name: String)
        ensures
            name@ == nickname_of(self.state().players@, player_id),
    {
        let mut i: usize = 0;
        while i < self.game_state.players.len()
            invariant
                i <= self.game_state.players.len(),
                forall|k: int| 0 <= k < i ==> self.game_state.players@[k].player.id != player_id,
            decreases self.game_state.players.len() - i,
        {
            if self.game_state.players[i].player.id == player_id {
                proof {
                    let players = self.game_state.players@;
                    assert(listed(players, player_id));
                    let f = first_place(players, player_id);
                    assert(f == i) by {
                        if f < i {
                        } else if f > i {
                        }
                    }
                }
                return self.game_state.players[i].player.nickname.clone();
            }
            i = i + 1;
        }
        String::from_str("anonymous")
    }

    /// Adds a line about the player with identity `player_id` to the chat, which
    /// keeps its last `CHAT_LOG_SIZE` lines.
    pub fn add_chat_message(&mut self, player_id: u128, data: ChatLineData)
        ensures
            old(self).same_but_chat(*final(self)),
            final(self).chat() == kept(
                old(self).chat().push(
                    (ChatLineView {
                        nickname: nickname_of(old(self).state().players@, player_id),
                        data: data@,
                    }),
                ),
            ),
    {
        let nickname = self.get_nickname(player_id);
        let ghost line = ChatLineView { nickname: nickname@, data: data@ };
        log_push_back(&mut self.chat_log, ChatLine { nickname, data });
        let ghost all = chat_lines(self.chat_log);
        while log_len(&self.chat_log) > CHAT_LOG_SIZE
            invariant
                old(self).same_but_chat(*self),
                all == old(self).chat().push(line),
                chat_lines(self.chat_log).len() <= all.len(),
                all.len() <= CHAT_LOG_SIZE ==> chat_lines(self.chat_log).len() == all.len(),
                all.len() > CHAT_LOG_SIZE ==> chat_lines(self.chat_log).len() >= CHAT_LOG_SIZE,
                chat_lines(self.chat_log) == all.skip(all.len() - chat_lines(self.chat_log).len()),
            decreases chat_lines(self.chat_log).len(),
        {
            let ghost before = chat_lines(self.chat_log);
            let _oldest = log_pop_front(&mut self.chat_log);
            proof {
                assert(chat_lines(self.chat_log) =~= all.skip(all.len() - (before.len() - 1)));
            }
        }
        proof {
            assert(all.skip(0) =~= all);
            assert(chat_lines(self.chat_log) =~= kept(all));
        }
    }

    /// Whether the view lists the page's own player.
    pub open spec fn lists_me(self) -> bool {
        listed(self.state().players@, self.player().id)
    }

    /// Whether the view lists a player other than the page's own.
    pub open spec fn lists_opponent(self) -> bool {
        exists|i: int|
            0 <= i < self.state().players@.len() && self.state().players@[i].player.id
                != self.player().id
    }

    /// The page's own player as the view lists it. The view must list it.
    pub fn my_state(&self) -> (me: &GamePlayerState)
        requires
            self.lists_me(),
        ensures
            *me == self.state().players@[first_place(self.state().players@, self.player().id)],
    {
        let id = self.player_info.id;
        let mut i: usize = 0;
        while i < self.game_state.players.len()
            invariant
                i <= self.game_state.players.len(),
                id == self.player_info.id,
                self.lists_me(),
                forall|k: int| 0 <= k < i ==> self.game_state.players@[k].player.id != id,
            decreases self.game_state.players.len() - i,
        {
            if self.game_state.players[i].player.id == id {
                proof {
                    let f = first_place(self.game_state.players@, id);
                    assert(f == i) by {
                        if f < i {
                        } else if f > i {
                        }
                    }
                }
                return &self.game_state.players[i];
            }
            i = i + 1;
        }
        proof {
            let k = choose|k: int|
                0 <= k < self.game_state.players@.len() && self.game_state.players@[k].player.id
                    == id;
            assert(self.game_state.players@[k].player.id != id);
        }
        vstd::pervasive::unreached()
    }

    /// The first player of the view that is not the page's own. The view must
    /// list one.
    pub fn opponent_state(&self) -> (other: &GamePlayerState)
        requires
            self.lists_opponent(),
        ensures
            other.player.id != self.player().id,
            exists|i: int|
                0 <= i < self.state().players@.len() && self.state().players@[i] == *other
                    && forall|k: int|
                    0 <= k < i ==> self.state().players@[k].player.id == self.player().id,
    {
        let id = self.player_info.id;
        let mut i: usize = 0;
        while i < self.game_state.players.len()
            invariant
                i <= self.game_state.players.len(),
                id == self.player_info.id,
                self.lists_opponent(),
                forall|k: int| 0 <= k < i ==> self.game_state.players@[k].player.id == id,
            decreases self.game_state.players.len() - i,
        {
            if self.game_state.players[i].player.id != id {
                return &self.game_state.players[i];
            }
            i = i + 1;
        }
        proof {
            let k = choose|k: int|
                0 <= k < self.game_state.players@.len() && self.game_state.players@[k].player.id
                    != id;
            assert(self.game_state.players@[k].player.id == id);
        }
        vstd::pervasive::unreached()
    }

    /// Shows `snapshot`. A view of the twilight has to be confirmed before the
    /// next one replaces it.
    pub fn apply_snapshot(&mut self, snapshot: GameStateSnapshot)
        ensures
            final(self).state() == snapshot,
            final(self).needs_confirm() == (snapshot.status@ is Twilight),
            final(self).player() == old(self).player(),
            final(self).waiting_states() == old(self).waiting_states(),
            final(self).chat() == old(self).chat(),
            final(self).spec_hand() == old(self).spec_hand(),
            final(self).waiting() == old(self).waiting(),
            final(self).spec_error() == old(self).spec_error(),
    {
        self.update_needs_confirm = match &snapshot.status {
            Status::Twilight(_, _) => true,
            _ => false,
        };
        self.game_state = snapshot;
    }

    /// The other players in the order of play that begins after the page's own
    /// player: those at a higher seat, then those at a lower one.
    pub fn others_in_order(&self) -> (others: Vec<GamePlayerState>)
        requires
            self.lists_me(),
        ensures
            others@ == seated_beside(
                self.state().players@,
                self.state().players@[first_place(self.state().players@, self.player().id)].pos.index(),
                true,
            ) + seated_beside(
                self.state().players@,
                self.state().players@[first_place(self.state().players@, self.player().id)].pos.index(),
                false,
            ),
    {
        let mypos = self.my_state().pos.to_n();
        let mut others_before: Vec<GamePlayerState> = Vec::new();
        let mut others: Vec<GamePlayerState> = Vec::new();
        let mut i: usize = 0;
        while i < self.game_state.players.len()
            invariant
                i <= self.game_state.players.len(),
                others@ == seated_beside(self.game_state.players@.take(i as int), mypos as int, true),
                others_before@ == seated_beside(
                    self.game_state.players@.take(i as int),
                    mypos as int,
                    false,
                ),
            decreases self.game_state.players.len() - i,
        {
            proof {
                assert(self.game_state.players@.take(i + 1).drop_last()
                    =~= self.game_state.players@.take(i as int));
            }
            let pos = self.game_state.players[i].pos.to_n();
            if pos < mypos {
                others_before.push(self.game_state.players[i].clone());
            } else if mypos < pos {
                others.push(self.game_state.players[i].clone());
            }
            i = i + 1;
        }
        proof {
            assert(self.game_state.players@.take(i as int) =~= self.game_state.players@);
        }
        others.append(&mut others_before);
        others
    }

    /// Whether it is the turn of the page's own player.
    pub fn is_my_turn(&self) -> (mine: bool)
        requires
            self.lists_me(),
        ensures
            mine == (self.state().status@ matches StatusView::Playing(pos, _) && pos
                == self.state().players@[first_place(self.state().players@, self.player().id)].pos),
    {
        match self.game_state.get_playing_pos() {
            Some(pos) => pos == self.my_state().pos,
            None => false,
        }
    }

    /// Number of players that the table still waits for. The view must not list
    /// more players than the table has seats.
    pub fn players_left_count(&self) -> (left: usize)
        requires
            self.lists_me(),
            seated_beside(
                self.state().players@,
                self.state().players@[first_place(self.state().players@, self.player().id)].pos.index(),
                true,
            ).len() + seated_beside(
                self.state().players@,
                self.state().players@[first_place(self.state().players@, self.player().id)].pos.index(),
                false,
            ).len() + 1 <= self.state().nb_players,
        ensures
            left == self.state().nb_players - (seated_beside(
                self.state().players@,
                self.state().players@[first_place(self.state().players@, self.player().id)].pos.index(),
                true,
            ).len() + seated_beside(
                self.state().players@,
                self.state().players@[first_place(self.state().players@, self.player().id)].pos.index(),
                false,
            ).len() + 1),
    {
        let others = self.others_in_order();
        let players_joined_count = others.len() + 1;
        self.game_state.nb_players as usize - players_joined_count
    }

    /// Whether every round of the twilight that the view shows has a card for
    /// the seat `pos`.
    pub open spec fn drew_each_round(self, pos: PlayerPos) -> bool {
        self.state().status@ matches StatusView::Twilight(_, rounds) ==> forall|r: int|
            0 <= r < rounds.len() ==> (#[trigger] rounds[r])@.dom().contains(pos)
    }

    /// The cards that the seat `pos` drew in the twilight that the view shows,
    /// round by round; none once the twilight is over. Each round must have a
    /// card for the seat.
    pub fn twilight_cards(&self, pos: PlayerPos) -> (cards: Vec<Card>)
        requires
            self.drew_each_round(pos),
        ensures
            match self.state().status@ {
                StatusView::Twilight(_, rounds) => cards@.len() == rounds.len() && forall|r: int|
                    0 <= r < rounds.len() ==> cards@[r] == (#[trigger] rounds[r])@[pos],
                _ => cards@.len() == 0,
            },
    {
        let mut cards: Vec<Card> = Vec::new();
        match &self.game_state.status {
            Status::Twilight(_, rounds) => {
                let mut r: usize = 0;
                while r < rounds.len()
                    invariant
                        r <= rounds.len(),
                        cards@.len() == r,
                        forall|k: int|
                            0 <= k < rounds.len() ==> (#[trigger] rounds@[k])@.dom().contains(pos),
                        forall|k: int| 0 <= k < r ==> cards@[k] == (#[trigger] rounds@[k])@[pos],
                    decreases rounds.len() - r,
                {
                    match rounds[r].get(&pos) {
                        Some(card) => {
                            cards.push(card);
                        },
                        None => {
                            proof {
                                assert(rounds@[r as int]@.dom().contains(pos));
                            }
                            vstd::pervasive::unreached::<()>();
                        },
                    }
                    r = r + 1;
                }
            },
            _ => {},
        }
        cards
    }

    /// The cards of the hand that the page offers to play: all of them but the
    /// cards in `hidden`, in the order of their numbers.
    pub fn visible_hand(&self, hidden: &Vec<Card>) -> (cards: Vec<Card>)
        ensures
            cards@ == shown(self.spec_hand().sorted(), hidden@),
    {
        let all = self.hand.list();
        let mut cards: Vec<Card> = Vec::new();
        let mut i: usize = 0;
        while i < all.len()
            invariant
                i <= all.len(),
                cards@ == shown(all@.take(i as int), hidden@),
            decreases all.len() - i,
        {
            proof {
                assert(all@.take(i + 1).drop_last() =~= all@.take(i as int));
            }
            if !crate::being::is_revealed(hidden, all[i]) {
                cards.push(all[i]);
            }
            i = i + 1;
        }
        proof {
            assert(all@.take(i as int) =~= all@);
        }
        cards
    }

    /// Whether `next` and `effects` are what comes of `msg` on this page.
    ///
    /// A line of the chat, a played card, a player who comes or goes: each adds
    /// a line to the chat, and the first two play a sound. A failure is shown and
    /// ends the waiting. A new view ends the waiting too; it replaces the view
    /// that is shown, or, while that one has to be confirmed, waits in the queue.
    /// To continue is to show the view that has waited longest, or, if none
    /// waits, to let the next one come at once. What the player does is sent to
    /// the server. The page is drawn anew whatever came.
    pub open spec fn updated(self, msg: Msg, next: GamePage, effects: Effects) -> bool {
        let players = self.state().players@;
        &&& next.player() == self.player()
        &&& effects.render
        &&& match msg {
            Msg::ServerMessage(ServerMessage::Chat(id, text)) => {
                &&& self.same_but_chat(next)
                &&& next.chat() == kept(
                    self.chat().push(
                        (ChatLineView {
                            nickname: nickname_of(players, id),
                            data: ChatDataView::Text(text@),
                        }),
                    ),
                )
                &&& effects.command is None
                &&& effects.sound == Some(Sound::Chat)
            },
            Msg::ServerMessage(ServerMessage::PlayEvent(PlayEvent::Play(id, card))) => {
                &&& self.same_but_chat(next)
                &&& next.chat() == kept(
                    self.chat().push(
                        (ChatLineView {
                            nickname: nickname_of(players, id),
                            data: ChatDataView::Text("play: "@ + card.label()),
                        }),
                    ),
                )
                &&& effects.command is None
                &&& effects.sound == Some(Sound::Card)
            },
            Msg::ServerMessage(ServerMessage::Error(words)) => {
                &&& next.state() == self.state()
                &&& next.waiting_states() == self.waiting_states()
                &&& next.chat() == self.chat()
                &&& next.spec_hand() == self.spec_hand()
                &&& next.needs_confirm() == self.needs_confirm()
                &&& !next.waiting()
                &&& next.spec_error() == Some(words@)
                &&& effects.command is None
                &&& effects.sound == Some(Sound::Error)
            },
            Msg::ServerMessage(ServerMessage::PlayerConnected(state)) => {
                &&& same_but_players(self.state(), next.state())
                &&& next.state().players@ == players.push(state)
                &&& next.chat() == kept(
                    self.chat().push(
                        (ChatLineView {
                            nickname: nickname_of(players.push(state), state.player.id),
                            data: ChatDataView::Connected,
                        }),
                    ),
                )
                &&& self.same_but_state_and_chat(next)
                &&& effects.command is None
                &&& effects.sound is None
            },
            Msg::ServerMessage(ServerMessage::PlayerDisconnected(id)) => {
                &&& same_but_players(self.state(), next.state())
                &&& next.state().players@ == without(players, id)
                &&& next.chat() == kept(
                    self.chat().push(
                        (ChatLineView {
                            nickname: nickname_of(players, id),
                            data: ChatDataView::Disconnected,
                        }),
                    ),
                )
                &&& self.same_but_state_and_chat(next)
                &&& effects.command is None
                &&& effects.sound is None
            },
            Msg::ServerMessage(ServerMessage::GameStateSnapshot(snapshot)) => {
                &&& next.chat() == self.chat()
                &&& next.spec_error() == self.spec_error()
                &&& !next.waiting()
                &&& if self.needs_confirm() {
                    &&& next.waiting_states() == seq![snapshot] + self.waiting_states()
                    &&& next.state() == self.state()
                    &&& next.needs_confirm()
                } else {
                    &&& next.waiting_states() == self.waiting_states()
                    &&& next.state() == snapshot
                    &&& next.needs_confirm() == (snapshot.status@ is Twilight)
                }
                &&& next.spec_hand() == next.state().hand
                &&& effects.command is None
                &&& effects.sound is None
            },
            Msg::ServerMessage(ServerMessage::Other) => {
                &&& self.same_but_chat(next)
                &&& next.chat() == self.chat()
                &&& effects.command is None
                &&& effects.sound is None
            },
            Msg::Ping => {
                &&& self.same_but_chat(next)
                &&& next.chat() == self.chat()
                &&& effects.command == Some(Command::Ping)
                &&& effects.sound is None
            },
            Msg::SetChatLine(text) => {
                &&& self.same_but_chat(next)
                &&& next.chat() == self.chat()
                &&& effects.command == Some(Command::SendText(text))
                &&& effects.sound is None
            },
            Msg::CloseError => {
                &&& next.state() == self.state()
                &&& next.waiting_states() == self.waiting_states()
                &&& next.chat() == self.chat()
                &&& next.spec_hand() == self.spec_hand()
                &&& next.needs_confirm() == self.needs_confirm()
                &&& next.waiting() == self.waiting()
                &&& next.spec_error() is None
                &&& effects.command is None
                &&& effects.sound is None
            },
            Msg::Continue => {
                &&& next.chat() == self.chat()
                &&& next.spec_hand() == self.spec_hand()
                &&& next.waiting() == self.waiting()
                &&& next.spec_error() == self.spec_error()
                &&& if self.waiting_states().len() > 0 {
                    &&& next.waiting_states() == self.waiting_states().drop_last()
                    &&& next.state() == self.waiting_states().last()
                    &&& next.needs_confirm() == (self.waiting_states().last().status@ is Twilight)
                } else {
                    &&& next.waiting_states() == self.waiting_states()
                    &&& next.state() == self.state()
                    &&& !next.needs_confirm()
                }
                &&& effects.command is None
                &&& effects.sound is None
            },
            Msg::MarkReady => {
                &&& self.same_but_waiting(next)
                &&& next.waiting()
                &&& effects.command == Some(Command::MarkReady)
                &&& effects.sound is None
            },
            Msg::Disconnect => {
                &&& self.same_but_chat(next)
                &&& next.chat() == self.chat()
                &&& effects.command == Some(Command::LeaveGame)
                &&& effects.sound is None
            },
            Msg::AddToHand(card) => {
                &&& next.state() == self.state()
                &&& next.waiting_states() == self.waiting_states()
                &&& next.chat() == self.chat()
                &&& next.spec_hand()@ == self.spec_hand()@.insert(card)
                &&& next.needs_confirm() == self.needs_confirm()
                &&& next.waiting() == self.waiting()
                &&& next.spec_error() == self.spec_error()
                &&& effects.command is None
                &&& effects.sound is None
            },
            Msg::Play(card) => {
                &&& self.same_but_waiting(next)
                &&& next.waiting()
                &&& effects.command == Some(Command::Play(card))
                &&& effects.sound is None
            },
        }
    }

    /// Whether `next` differs from this page in its view and its chat at most.
    pub open spec fn same_but_state_and_chat(self, next: GamePage) -> bool {
        &&& next.player() == self.player()
        &&& next.waiting_states() == self.waiting_states()
        &&& next.spec_hand() == self.spec_hand()
        &&& next.waiting() == self.waiting()
        &&& next.needs_confirm() == self.needs_confirm()
        &&& next.spec_error() == self.spec_error()
    }

    /// Whether `next` differs from this page at most in that it waits or not.
    pub open spec fn same_but_waiting(self, next: GamePage) -> bool {
        &&& next.player() == self.player()
        &&& next.state() == self.state()
        &&& next.waiting_states() == self.waiting_states()
        &&& next.chat() == self.chat()
        &&& next.spec_hand() == self.spec_hand()
        &&& next.needs_confirm() == self.needs_confirm()
        &&& next.spec_error() == self.spec_error()
    }

    /// Takes in what happened, as `updated` says, and tells what is to be done.
    pub fn update(&mut self, msg: Msg) -> (effects: Effects)
        ensures
            old(self).updated(msg, *final(self), effects),
    {
        let mut command: Option<Command> = None;
        let mut sound: Option<Sound> = None;
        match msg {
            Msg::ServerMessage(message) => match message {
                ServerMessage::Chat(player_id, text) => {
                    sound = Some(Sound::Chat);
                    self.add_chat_message(player_id, ChatLineData::Text(text));
                },
                ServerMessage::PlayEvent(evt) => {
                    sound = Some(Sound::Card);
                    let PlayEvent::Play(id, card) = evt;
                    let label = card.to_string();
                    let words = String::from_str("play: ").concat(label.as_str());
                    self.add_chat_message(id, ChatLineData::Text(words));
                },
                ServerMessage::Error(words) => {
                    self.is_waiting = false;
                    self.error = Some(words);
                    sound = Some(Sound::Error);
                },
                ServerMessage::PlayerConnected(state) => {
                    let player_id = state.player.id;
                    self.game_state.players.push(state);
                    self.add_chat_message(player_id, ChatLineData::Connected);
                },
                ServerMessage::PlayerDisconnected(player_id) => {
                    self.add_chat_message(player_id, ChatLineData::Disconnected);
                    self.game_state.players = players_without(&self.game_state.players, player_id);
                },
                ServerMessage::GameStateSnapshot(snapshot) => {
                    self.is_waiting = false;
                    if self.update_needs_confirm {
                        states_push_front(&mut self.next_states, snapshot);
                    } else {
                        //Update state with snapshot
                        self.apply_snapshot(snapshot);
                    }
                    self.hand = self.game_state.hand;
                },
                ServerMessage::Other => {},
            },
            Msg::Ping => {
                command = Some(Command::Ping);
            },
            Msg::SetChatLine(text) => {
                command = Some(Command::SendText(text));
            },
            Msg::CloseError => {
                self.error = None;
            },
            Msg::Continue => {
                match states_pop_back(&mut self.next_states) {
                    Some(snapshot) => {
                        self.apply_snapshot(snapshot);
                    },
                    None => {
                        //No snapshot to apply, we simply allow the direct update for the next one
                        self.update_needs_confirm = false;
                    },
                }
            },
            Msg::MarkReady => {
                self.is_waiting = true;
                command = Some(Command::MarkReady);
            },
            Msg::Disconnect => {
                command = Some(Command::LeaveGame);
            },
            Msg::AddToHand(card) => {
                self.hand.add(card);
            },
            Msg::Play(card) => {
                self.is_waiting = true;
                command = Some(Command::Play(card));
            },
        }
        Effects { command, sound, render: true }
    }

    /// The view that the page shows.
    pub fn game_state(&self) -> (state: &GameStateSnapshot)
        ensures
            *state == self.state(),
    {
        &self.game_state
    }

    /// The hand that the page shows.
    pub fn hand(&self) -> (hand: Hand)
        ensures
            hand == self.spec_hand(),
    {
        self.hand
    }

    /// Whether the page waits for the server's answer.
    pub fn is_waiting(&self) -> (waiting: bool)
        ensures
            waiting == self.waiting(),
    {
        self.is_waiting
    }

    /// Whether the player has to confirm what is shown.
    pub fn update_needs_confirm(&self) -> (needed: bool)
        ensures
            needed == self.needs_confirm(),
    {
        self.update_needs_confirm
    }

    /// The failure that the page shows, if any.
    pub fn error(&self) -> (words: Option<String>)
        ensures
            match words {
                Some(w) => self.spec_error() == Some(w@),
                None => self.spec_error() is None,
            },
    {
        match &self.error {
            Some(words) => Some(words.clone()),
            None => None,
        }
    }

    /// Number of lines in the chat.
    pub fn chat_len(&self) -> (n: usize)
        ensures
            n == self.chat().len(),
    {
        log_len(&self.chat_log)
    }

    /// The line at place `i` of the chat, the oldest line being at place 0.
    pub fn chat_line(&self, i: usize) -> (line: Option<ChatLine>)
        ensures
            line is Some <==> i < self.chat().len(),
            line matches Some(l) ==> l@ == self.chat()[i as int],
    {
        log_get(&self.chat_log, i)
    }

    /// Number of views that wait to be shown.
    pub fn waiting_count(&self) -> (n: usize)
        ensures
            n == self.waiting_states().len(),
    {
        states_len(&self.next_states)
    }
}

} // verus!
