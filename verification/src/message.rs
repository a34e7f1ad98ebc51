//! What the server and its clients tell each other about the game.
use vstd::prelude::*;
use vstd::string::StringExecFns;
use crate::cards::Card;
use crate::deal::PlayError;
use crate::game::EngineError;
use crate::player::PlayerRole;

verus! {

/// The kinds of failure that a client is told of.
#[derive(Debug, Clone, Copy, PartialEq, Eq, Structural)]
pub enum ProtocolErrorKind {
    /// Client tried to authenticate twice
    AlreadyAuthenticated,
    /// Tried to do something while unauthenticated
    NotAuthenticated,
    /// Client sent a message that could not be understood
    InvalidCommand,
    /// Cannot be done while in game
    AlreadyInGame,
    /// Cannot be done outside a game
    NotInGame,
    /// Invalid input
    BadInput,
    /// Game is not in the right state
    BadState,
    /// Something wrong happened
    InternalError,
}

/// A failure that a client is told of.
#[derive(Debug, PartialEq, Eq)]
pub struct ProtocolError {
    kind: ProtocolErrorKind,
    message: String,
}

impl Clone for ProtocolError {
    fn clone(&self) -> (copy: ProtocolError)
        ensures
            copy == *self,
    {
        ProtocolError { kind: self.kind, message: self.message.clone() }
    }
}

impl ProtocolError {
    /// The kind of the failure.
    pub closed spec fn spec_kind(self) -> ProtocolErrorKind {
        self.kind
    }

    /// The words of the failure.
    pub closed spec fn text(self) -> Seq<char> {
        self.message@
    }

    /// The words that tell of `error`: those of a refused card follow `play: `.
    pub open spec fn words_of(error: EngineError) -> Seq<char> {
        match error {
            EngineError::Play(e) => "play: "@ + e.text(),
            EngineError::UnknownPlayer => "not in a game"@,
            EngineError::Exhausted => "the source is exhausted"@,
        }
    }

    /// The kind of failure that `error` is told as.
    pub open spec fn kind_of(error: EngineError) -> ProtocolErrorKind {
        match error {
            EngineError::Play(_) => ProtocolErrorKind::BadState,
            EngineError::UnknownPlayer => ProtocolErrorKind::BadState,
            EngineError::Exhausted => ProtocolErrorKind::InternalError,
        }
    }

    pub fn new(kind: ProtocolErrorKind, s: &str) -> (error: ProtocolError)
        ensures
            error.spec_kind() == kind,
            error.text() == s@,
    {
        ProtocolError { kind, message: String::from_str(s) }
    }

    pub fn kind(&self) -> (kind: ProtocolErrorKind)
        ensures
            kind == self.spec_kind(),
    {
        self.kind
    }

    pub fn message(&self) -> (s: &str)
        ensures
            s@ == self.text(),
    {
        self.message.as_str()
    }

    /// A refused card as a client is told of it.
    pub fn from_play_error(error: PlayError) -> (told: ProtocolError)
        ensures
            told.spec_kind() == ProtocolErrorKind::BadState,
            told.text() == "play: "@ + error.text(),
    {
        let words = error.to_string();
        ProtocolError {
            kind: ProtocolErrorKind::BadState,
            message: String::from_str("play: ").concat(words.as_str()),
        }
    }

    /// A failed command as a client is told of it.
    pub fn from_engine_error(error: EngineError) -> (told: ProtocolError)
        ensures
            told.spec_kind() == ProtocolError::kind_of(error),
            told.text() == ProtocolError::words_of(error),
    {
        match error {
            EngineError::Play(e) => ProtocolError::from_play_error(e),
            EngineError::UnknownPlayer => ProtocolError::new(
                ProtocolErrorKind::BadState,
                "not in a game",
            ),
            EngineError::Exhausted => ProtocolError::new(
                ProtocolErrorKind::InternalError,
                "the source is exhausted",
            ),
        }
    }
}

/// The command that gives a player a role.
#[derive(Debug, Clone, Copy, PartialEq, Eq, Structural)]
pub struct SetPlayerRoleCommand {
    pub role: PlayerRole,
}

/// The commands of the game itself.
#[derive(Debug, Clone, Copy, PartialEq, Eq, Structural)]
pub enum GamePlayCommand {
    Play(PlayCommand),
}

/// The command that plays a card.
#[derive(Debug, Clone, Copy, PartialEq, Eq, Structural)]
pub struct PlayCommand {
    pub card: Card,
}

} // verus!
