//! What a session takes in and gives out: the commands that drive it, the
//! events it emits for the connections, and what it asks of its host.

use vstd::prelude::*;
use crate::message::{ServerMsg, ServerMsgView};

verus! {

/// A command for a session, as the connection layer hands it over.
#[derive(Debug, PartialEq, Eq)]
#[allow(inconsistent_fields)]
pub enum GameCommand {
    Join { socket_id: String, client_id: String, username: String },
    SelectAnswer { socket_id: String, answer_key: usize },
    StartGame { socket_id: String },
    AbortQuiz { socket_id: String },
    NextQuestion { socket_id: String },
    ShowLeaderboard {  },
    KickPlayer { socket_id: String, player_id: String },
    PlayerDisconnect { socket_id: String },
    ManagerDisconnect { socket_id: String },
    PlayerReconnect { socket_id: String, client_id: String },
    ManagerReconnect { socket_id: String, client_id: String },
    ManagerDisconnectCheck { game_id: String },
}

#[allow(inconsistent_fields)]
pub enum GameCommandView {
    Join { socket_id: Seq<char>, client_id: Seq<char>, username: Seq<char> },
    SelectAnswer { socket_id: Seq<char>, answer_key: usize },
    StartGame { socket_id: Seq<char> },
    AbortQuiz { socket_id: Seq<char> },
    NextQuestion { socket_id: Seq<char> },
    ShowLeaderboard {  },
    KickPlayer { socket_id: Seq<char>, player_id: Seq<char> },
    PlayerDisconnect { socket_id: Seq<char> },
    ManagerDisconnect { socket_id: Seq<char> },
    PlayerReconnect { socket_id: Seq<char>, client_id: Seq<char> },
    ManagerReconnect { socket_id: Seq<char>, client_id: Seq<char> },
    ManagerDisconnectCheck { game_id: Seq<char> },
}

impl View for GameCommand {
    type V = GameCommandView;

    open spec fn view(&self) -> GameCommandView {
        match *self {
            GameCommand::Join { socket_id, client_id, username } => GameCommandView::Join {
                socket_id: socket_id@,
                client_id: client_id@,
                username: username@,
            },
            GameCommand::SelectAnswer { socket_id, answer_key } => GameCommandView::SelectAnswer {
                socket_id: socket_id@,
                answer_key,
            },
            GameCommand::StartGame { socket_id } => GameCommandView::StartGame {
                socket_id: socket_id@,
            },
            GameCommand::AbortQuiz { socket_id } => GameCommandView::AbortQuiz {
                socket_id: socket_id@,
            },
            GameCommand::NextQuestion { socket_id } => GameCommandView::NextQuestion {
                socket_id: socket_id@,
            },
            GameCommand::ShowLeaderboard {  } => GameCommandView::ShowLeaderboard {  },
            GameCommand::KickPlayer { socket_id, player_id } => GameCommandView::KickPlayer {
                socket_id: socket_id@,
                player_id: player_id@,
            },
            GameCommand::PlayerDisconnect { socket_id } => GameCommandView::PlayerDisconnect {
                socket_id: socket_id@,
            },
            GameCommand::ManagerDisconnect { socket_id } => GameCommandView::ManagerDisconnect {
                socket_id: socket_id@,
            },
            GameCommand::PlayerReconnect { socket_id, client_id } => {
                GameCommandView::PlayerReconnect { socket_id: socket_id@, client_id: client_id@ }
            },
            GameCommand::ManagerReconnect { socket_id, client_id } => {
                GameCommandView::ManagerReconnect { socket_id: socket_id@, client_id: client_id@ }
            },
            GameCommand::ManagerDisconnectCheck { game_id } => {
                GameCommandView::ManagerDisconnectCheck { game_id: game_id@ }
            },
        }
    }
}

impl Clone for GameCommand {
    fn clone(&self) -> (r: Self)
        ensures
            r@ == self@,
    {
        match self {
            GameCommand::Join { socket_id, client_id, username } => GameCommand::Join {
                socket_id: socket_id.clone(),
                client_id: client_id.clone(),
                username: username.clone(),
            },
            GameCommand::SelectAnswer { socket_id, answer_key } => GameCommand::SelectAnswer {
                socket_id: socket_id.clone(),
                answer_key: *answer_key,
            },
            GameCommand::StartGame { socket_id } => GameCommand::StartGame {
                socket_id: socket_id.clone(),
            },
            GameCommand::AbortQuiz { socket_id } => GameCommand::AbortQuiz {
                socket_id: socket_id.clone(),
            },
            GameCommand::NextQuestion { socket_id } => GameCommand::NextQuestion {
                socket_id: socket_id.clone(),
            },
            GameCommand::ShowLeaderboard {  } => GameCommand::ShowLeaderboard {  },
            GameCommand::KickPlayer { socket_id, player_id } => GameCommand::KickPlayer {
                socket_id: socket_id.clone(),
                player_id: player_id.clone(),
            },
            GameCommand::PlayerDisconnect { socket_id } => GameCommand::PlayerDisconnect {
                socket_id: socket_id.clone(),
            },
            GameCommand::ManagerDisconnect { socket_id } => GameCommand::ManagerDisconnect {
                socket_id: socket_id.clone(),
            },
            GameCommand::PlayerReconnect { socket_id, client_id } => GameCommand::PlayerReconnect {
                socket_id: socket_id.clone(),
                client_id: client_id.clone(),
            },
            GameCommand::ManagerReconnect { socket_id, client_id } => GameCommand::ManagerReconnect {
                socket_id: socket_id.clone(),
                client_id: client_id.clone(),
            },
            GameCommand::ManagerDisconnectCheck { game_id } => GameCommand::ManagerDisconnectCheck {
                game_id: game_id.clone(),
            },
        }
    }
}

/// An event a session emits: a message and who is to receive it.
#[derive(Debug, PartialEq, Eq)]
#[allow(inconsistent_fields)]
pub enum GameEvent {
    /// For one socket.
    SendTo { socket_id: String, msg: ServerMsg },
    /// For every socket of the game.
    Broadcast { msg: ServerMsg },
    /// For every socket of the game but one.
    BroadcastExcept { exclude: String, msg: ServerMsg },
    /// For one socket, which is closed once the message is delivered.
    KickSocket { socket_id: String, msg: ServerMsg },
}

#[allow(inconsistent_fields)]
pub enum GameEventView {
    SendTo { socket_id: Seq<char>, msg: ServerMsgView },
    Broadcast { msg: ServerMsgView },
    BroadcastExcept { exclude: Seq<char>, msg: ServerMsgView },
    KickSocket { socket_id: Seq<char>, msg: ServerMsgView },
}

impl GameEventView {
    /// Whether the connection of socket `socket_id` is to write this event's
    /// message to its socket.
    pub open spec fn is_for(self, socket_id: Seq<char>) -> bool {
        match self {
            GameEventView::SendTo { socket_id: target, .. } => target == socket_id,
            GameEventView::Broadcast { .. } => true,
            GameEventView::BroadcastExcept { exclude, .. } => exclude != socket_id,
            GameEventView::KickSocket { socket_id: target, .. } => target == socket_id,
        }
    }

    /// Whether the connection of socket `socket_id` is to close after
    /// delivering this event.
    pub open spec fn closes(self, socket_id: Seq<char>) -> bool {
        match self {
            GameEventView::KickSocket { socket_id: target, .. } => target == socket_id,
            _ => false,
        }
    }

    /// The message the event carries.
    pub open spec fn message(self) -> ServerMsgView {
        match self {
            GameEventView::SendTo { msg, .. } => msg,
            GameEventView::Broadcast { msg } => msg,
            GameEventView::BroadcastExcept { msg, .. } => msg,
            GameEventView::KickSocket { msg, .. } => msg,
        }
    }
}

impl View for GameEvent {
    type V = GameEventView;

    open spec fn view(&self) -> GameEventView {
        match *self {
            GameEvent::SendTo { socket_id, msg } => GameEventView::SendTo {
                socket_id: socket_id@,
                msg: msg@,
            },
            GameEvent::Broadcast { msg } => GameEventView::Broadcast { msg: msg@ },
            GameEvent::BroadcastExcept { exclude, msg } => GameEventView::BroadcastExcept {
                exclude: exclude@,
                msg: msg@,
            },
            GameEvent::KickSocket { socket_id, msg } => GameEventView::KickSocket {
                socket_id: socket_id@,
                msg: msg@,
            },
        }
    }
}

impl DeepView for GameEvent {
    type V = GameEventView;

    open spec fn deep_view(&self) -> GameEventView {
        self@
    }
}

impl Clone for GameEvent {
    fn clone(&self) -> (r: Self)
        ensures
            r@ == self@,
    {
        match self {
            GameEvent::SendTo { socket_id, msg } => GameEvent::SendTo {
                socket_id: socket_id.clone(),
                msg: msg.clone(),
            },
            GameEvent::Broadcast { msg } => GameEvent::Broadcast { msg: msg.clone() },
            GameEvent::BroadcastExcept { exclude, msg } => GameEvent::BroadcastExcept {
                exclude: exclude.clone(),
                msg: msg.clone(),
            },
            GameEvent::KickSocket { socket_id, msg } => GameEvent::KickSocket {
                socket_id: socket_id.clone(),
                msg: msg.clone(),
            },
        }
    }
}

impl GameEvent {
    /// Decides whether the connection of socket `socket_id` delivers this
    /// event.
    pub fn is_for(&self, socket_id: &String) -> (r: bool)
        ensures
            r == self@.is_for(socket_id@),
    {
        match self {
            GameEvent::SendTo { socket_id: target, .. } => *target == *socket_id,
            GameEvent::Broadcast { .. } => true,
            GameEvent::BroadcastExcept { exclude, .. } => !(*exclude == *socket_id),
            GameEvent::KickSocket { socket_id: target, .. } => *target == *socket_id,
        }
    }

    /// Decides whether the connection of socket `socket_id` closes after
    /// delivering this event.
    pub fn closes(&self, socket_id: &String) -> (r: bool)
        ensures
            r == self@.closes(socket_id@),
    {
        match self {
            GameEvent::KickSocket { socket_id: target, .. } => *target == *socket_id,
            _ => false,
        }
    }

    /// The message the event carries.
    pub fn message(&self) -> (r: &ServerMsg)
        ensures
            r@ == self@.message(),
    {
        match self {
            GameEvent::SendTo { msg, .. } => msg,
            GameEvent::Broadcast { msg } => msg,
            GameEvent::BroadcastExcept { msg, .. } => msg,
            GameEvent::KickSocket { msg, .. } => msg,
        }
    }
}

/// What a step asks the host to do with the session's one timer.
#[derive(Debug, Clone, Copy, PartialEq, Eq, Structural)]
pub enum TimerAction {
    /// Leave the timer as it is.
    Keep,
    /// Stop the timer: the session waits for nothing.
    Clear,
    /// Restart the timer so that it fires after this many seconds.
    Arm { seconds: u64 },
}

/// What a step of a session leaves for its host to carry out.
#[derive(Debug)]
pub struct Outcome {
    /// The events to publish, in order.
    pub events: Vec<GameEvent>,
    pub timer: TimerAction,
    /// Set when the session is to be sent `ManagerDisconnectCheck` after
    /// this many seconds.
    pub check_after: Option<u64>,
    /// Set when the session has been removed and takes no further command.
    pub destroyed: bool,
}

pub struct OutcomeView {
    pub events: Seq<GameEventView>,
    pub timer: TimerAction,
    pub check_after: Option<u64>,
    pub destroyed: bool,
}

impl OutcomeView {
    /// The outcome of a step that did nothing.
    pub open spec fn nothing() -> OutcomeView {
        OutcomeView {
            events: Seq::empty(),
            timer: TimerAction::Keep,
            check_after: None,
            destroyed: false,
        }
    }
}

impl View for Outcome {
    type V = OutcomeView;

    open spec fn view(&self) -> OutcomeView {
        OutcomeView {
            events: self.events.deep_view(),
            timer: self.timer,
            check_after: self.check_after,
            destroyed: self.destroyed,
        }
    }
}

impl Outcome {
    /// The outcome of a step that did nothing.
    pub fn new() -> (r: Outcome)
        ensures
            r@ == OutcomeView::nothing(),
    {
        let r = Outcome {
            events: Vec::new(),
            timer: TimerAction::Keep,
            check_after: None,
            destroyed: false,
        };
        assert(r.events.deep_view() =~= Seq::<GameEventView>::empty());
        r
    }

    /// Adds an event behind those already there.
    pub fn emit(&mut self, event: GameEvent)
        ensures
            final(self)@ == (OutcomeView { events: old(self)@.events.push(event@), ..old(self)@ }),
    {
        self.events.push(event);
        assert(self.events.deep_view() =~= old(self).events.deep_view().push(event@));
    }
}

} // verus!
