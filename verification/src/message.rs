//! The messages exchanged with clients: what a client may send, what the
//! server replies, and the payload that comes with each game status.

use std::collections::HashMap;
use vstd::prelude::*;
use crate::types::{GameStatus, Player, PlayerView, QuestionProgress, QuizWithId, QuizWithIdView};

verus! {

/// The payload of a status frame; the variant decides the status.
#[derive(Debug, PartialEq, Eq)]
#[allow(inconsistent_fields)]
pub enum StatusData {
    Wait { text: String },
    ShowStart { time: u64, subject: String },
    ShowPrepared { total_answers: usize, question_number: usize },
    ShowQuestion { question: String, image: Option<String>, cooldown: u64 },
    SelectAnswer {
        question: String,
        answers: Vec<String>,
        image: Option<String>,
        video: Option<String>,
        audio: Option<String>,
        time: u64,
        total_player: usize,
    },
    ShowResult {
        correct: bool,
        message: String,
        points: u64,
        my_points: u128,
        rank: usize,
        ahead_of_me: Option<String>,
        answer_image: Option<String>,
    },
    ShowResponses {
        question: String,
        /// How often each answer index was chosen; an index nobody chose has
        /// no entry.
        responses: HashMap<usize, usize>,
        correct: usize,
        answers: Vec<String>,
        image: Option<String>,
    },
    ShowLeaderboard { old_leaderboard: Vec<Player>, leaderboard: Vec<Player> },
    Finished { subject: String, top: Vec<Player> },
}

#[allow(inconsistent_fields)]
pub enum StatusDataView {
    Wait { text: Seq<char> },
    ShowStart { time: u64, subject: Seq<char> },
    ShowPrepared { total_answers: usize, question_number: usize },
    ShowQuestion { question: Seq<char>, image: Option<Seq<char>>, cooldown: u64 },
    SelectAnswer {
        question: Seq<char>,
        answers: Seq<Seq<char>>,
        image: Option<Seq<char>>,
        video: Option<Seq<char>>,
        audio: Option<Seq<char>>,
        time: u64,
        total_player: usize,
    },
    ShowResult {
        correct: bool,
        message: Seq<char>,
        points: nat,
        my_points: nat,
        rank: usize,
        ahead_of_me: Option<Seq<char>>,
        answer_image: Option<Seq<char>>,
    },
    ShowResponses {
        question: Seq<char>,
        responses: Map<usize, usize>,
        correct: usize,
        answers: Seq<Seq<char>>,
        image: Option<Seq<char>>,
    },
    ShowLeaderboard { old_leaderboard: Seq<PlayerView>, leaderboard: Seq<PlayerView> },
    Finished { subject: Seq<char>, top: Seq<PlayerView> },
}

impl StatusDataView {
    /// The status that a payload of this shape is sent under.
    pub open spec fn status(self) -> GameStatus {
        match self {
            StatusDataView::Wait { .. } => GameStatus::Wait,
            StatusDataView::ShowStart { .. } => GameStatus::ShowStart,
            StatusDataView::ShowPrepared { .. } => GameStatus::ShowPrepared,
            StatusDataView::ShowQuestion { .. } => GameStatus::ShowQuestion,
            StatusDataView::SelectAnswer { .. } => GameStatus::SelectAnswer,
            StatusDataView::ShowResult { .. } => GameStatus::ShowResult,
            StatusDataView::ShowResponses { .. } => GameStatus::ShowResponses,
            StatusDataView::ShowLeaderboard { .. } => GameStatus::ShowLeaderboard,
            StatusDataView::Finished { .. } => GameStatus::Finished,
        }
    }
}

impl View for StatusData {
    type V = StatusDataView;

    open spec fn view(&self) -> StatusDataView {
        match *self {
            StatusData::Wait { text } => StatusDataView::Wait { text: text@ },
            StatusData::ShowStart { time, subject } => StatusDataView::ShowStart {
                time,
                subject: subject@,
            },
            StatusData::ShowPrepared { total_answers, question_number } => {
                StatusDataView::ShowPrepared { total_answers, question_number }
            },
            StatusData::ShowQuestion { question, image, cooldown } => StatusDataView::ShowQuestion {
                question: question@,
                image: image.deep_view(),
                cooldown,
            },
            StatusData::SelectAnswer { question, answers, image, video, audio, time, total_player } => {
                StatusDataView::SelectAnswer {
                    question: question@,
                    answers: answers.deep_view(),
                    image: image.deep_view(),
                    video: video.deep_view(),
                    audio: audio.deep_view(),
                    time,
                    total_player,
                }
            },
            StatusData::ShowResult {
                correct,
                message,
                points,
                my_points,
                rank,
                ahead_of_me,
                answer_image,
            } => StatusDataView::ShowResult {
                correct,
                message: message@,
                points: points as nat,
                my_points: my_points as nat,
                rank,
                ahead_of_me: ahead_of_me.deep_view(),
                answer_image: answer_image.deep_view(),
            },
            StatusData::ShowResponses { question, responses, correct, answers, image } => {
                StatusDataView::ShowResponses {
                    question: question@,
                    responses: responses@,
                    correct,
                    answers: answers.deep_view(),
                    image: image.deep_view(),
                }
            },
            StatusData::ShowLeaderboard { old_leaderboard, leaderboard } => {
                StatusDataView::ShowLeaderboard {
                    old_leaderboard: old_leaderboard.deep_view(),
                    leaderboard: leaderboard.deep_view(),
                }
            },
            StatusData::Finished { subject, top } => StatusDataView::Finished {
                subject: subject@,
                top: top.deep_view(),
            },
        }
    }
}

impl DeepView for StatusData {
    type V = StatusDataView;

    open spec fn deep_view(&self) -> StatusDataView {
        self@
    }
}

impl StatusData {
    /// The status this payload is sent under.
    pub fn status(&self) -> (r: GameStatus)
        ensures
            r == self@.status(),
    {
        match self {
            StatusData::Wait { .. } => GameStatus::Wait,
            StatusData::ShowStart { .. } => GameStatus::ShowStart,
            StatusData::ShowPrepared { .. } => GameStatus::ShowPrepared,
            StatusData::ShowQuestion { .. } => GameStatus::ShowQuestion,
            StatusData::SelectAnswer { .. } => GameStatus::SelectAnswer,
            StatusData::ShowResult { .. } => GameStatus::ShowResult,
            StatusData::ShowResponses { .. } => GameStatus::ShowResponses,
            StatusData::ShowLeaderboard { .. } => GameStatus::ShowLeaderboard,
            StatusData::Finished { .. } => GameStatus::Finished,
        }
    }
}

impl Clone for StatusData {
    fn clone(&self) -> (r: Self)
        ensures
            r@ == self@,
    {
        match self {
            StatusData::Wait { text } => StatusData::Wait { text: text.clone() },
            StatusData::ShowStart { time, subject } => StatusData::ShowStart {
                time: *time,
                subject: subject.clone(),
            },
            StatusData::ShowPrepared { total_answers, question_number } => StatusData::ShowPrepared {
                total_answers: *total_answers,
                question_number: *question_number,
            },
            StatusData::ShowQuestion { question, image, cooldown } => StatusData::ShowQuestion {
                question: question.clone(),
                image: image.clone(),
                cooldown: *cooldown,
            },
            StatusData::SelectAnswer { question, answers, image, video, audio, time, total_player } => {
                let answers2 = answers.clone();
                assert(answers2.deep_view() =~= answers.deep_view());
                StatusData::SelectAnswer {
                    question: question.clone(),
                    answers: answers2,
                    image: image.clone(),
                    video: video.clone(),
                    audio: audio.clone(),
                    time: *time,
                    total_player: *total_player,
                }
            },
            StatusData::ShowResult {
                correct,
                message,
                points,
                my_points,
                rank,
                ahead_of_me,
                answer_image,
            } => StatusData::ShowResult {
                correct: *correct,
                message: message.clone(),
                points: *points,
                my_points: *my_points,
                rank: *rank,
                ahead_of_me: ahead_of_me.clone(),
                answer_image: answer_image.clone(),
            },
            StatusData::ShowResponses { question, responses, correct, answers, image } => {
                let responses2 = responses.clone();
                let answers2 = answers.clone();
                assert(answers2.deep_view() =~= answers.deep_view());
                StatusData::ShowResponses {
                    question: question.clone(),
                    responses: responses2,
                    correct: *correct,
                    answers: answers2,
                    image: image.clone(),
                }
            },
            StatusData::ShowLeaderboard { old_leaderboard, leaderboard } => {
                let old2 = old_leaderboard.clone();
                assert(old2.deep_view() =~= old_leaderboard.deep_view());
                let new2 = leaderboard.clone();
                assert(new2.deep_view() =~= leaderboard.deep_view());
                StatusData::ShowLeaderboard { old_leaderboard: old2, leaderboard: new2 }
            },
            StatusData::Finished { subject, top } => {
                let top2 = top.clone();
                assert(top2.deep_view() =~= top.deep_view());
                StatusData::Finished { subject: subject.clone(), top: top2 }
            },
        }
    }
}

/// A message from the server to one client.
#[derive(Debug, PartialEq, Eq)]
#[allow(inconsistent_fields)]
pub enum ServerMsg {
    GameStatus { status: GameStatus, data: StatusData },
    SuccessRoom { game_id: String },
    SuccessJoin { game_id: String },
    TotalPlayers { count: usize },
    ErrorMessage { message: String },
    StartCooldown,
    Cooldown { count: u64 },
    Reset { message: String },
    UpdateQuestion { current: usize, total: usize },
    PlayerAnswer { count: usize },
    QuizList { quizzes: Vec<QuizWithId> },
    GameCreated { game_id: String, invite_code: String },
    ManagerReconnected {
        game_id: String,
        status: GameStatus,
        data: StatusData,
        players: Vec<Player>,
        current_question: QuestionProgress,
    },
    NewPlayer { player: Player },
    RemovePlayer { player_id: String },
    PlayerKicked { player_id: String },
    PlayerReconnected {
        game_id: String,
        status: GameStatus,
        data: StatusData,
        username: String,
        points: u128,
        current_question: QuestionProgress,
    },
    UpdateLeaderboard { leaderboard: Vec<Player> },
}

#[allow(inconsistent_fields)]
pub enum ServerMsgView {
    GameStatus { status: GameStatus, data: StatusDataView },
    SuccessRoom { game_id: Seq<char> },
    SuccessJoin { game_id: Seq<char> },
    TotalPlayers { count: usize },
    ErrorMessage { message: Seq<char> },
    StartCooldown,
    Cooldown { count: u64 },
    Reset { message: Seq<char> },
    UpdateQuestion { current: usize, total: usize },
    PlayerAnswer { count: usize },
    QuizList { quizzes: Seq<QuizWithIdView> },
    GameCreated { game_id: Seq<char>, invite_code: Seq<char> },
    ManagerReconnected {
        game_id: Seq<char>,
        status: GameStatus,
        data: StatusDataView,
        players: Seq<PlayerView>,
        current_question: QuestionProgress,
    },
    NewPlayer { player: PlayerView },
    RemovePlayer { player_id: Seq<char> },
    PlayerKicked { player_id: Seq<char> },
    PlayerReconnected {
        game_id: Seq<char>,
        status: GameStatus,
        data: StatusDataView,
        username: Seq<char>,
        points: nat,
        current_question: QuestionProgress,
    },
    UpdateLeaderboard { leaderboard: Seq<PlayerView> },
}

impl ServerMsgView {
    /// The status frame that carries `data`.
    pub open spec fn frame(data: StatusDataView) -> ServerMsgView {
        ServerMsgView::GameStatus { status: data.status(), data }
    }
}

impl View for ServerMsg {
    type V = ServerMsgView;

    open spec fn view(&self) -> ServerMsgView {
        match *self {
            ServerMsg::GameStatus { status, data } => ServerMsgView::GameStatus { status, data: data@ },
            ServerMsg::SuccessRoom { game_id } => ServerMsgView::SuccessRoom { game_id: game_id@ },
            ServerMsg::SuccessJoin { game_id } => ServerMsgView::SuccessJoin { game_id: game_id@ },
            ServerMsg::TotalPlayers { count } => ServerMsgView::TotalPlayers { count },
            ServerMsg::ErrorMessage { message } => ServerMsgView::ErrorMessage { message: message@ },
            ServerMsg::StartCooldown => ServerMsgView::StartCooldown,
            ServerMsg::Cooldown { count } => ServerMsgView::Cooldown { count },
            ServerMsg::Reset { message } => ServerMsgView::Reset { message: message@ },
            ServerMsg::UpdateQuestion { current, total } => ServerMsgView::UpdateQuestion {
                current,
                total,
            },
            ServerMsg::PlayerAnswer { count } => ServerMsgView::PlayerAnswer { count },
            ServerMsg::QuizList { quizzes } => ServerMsgView::QuizList {
                quizzes: quizzes.deep_view(),
            },
            ServerMsg::GameCreated { game_id, invite_code } => ServerMsgView::GameCreated {
                game_id: game_id@,
                invite_code: invite_code@,
            },
            ServerMsg::ManagerReconnected { game_id, status, data, players, current_question } => {
                ServerMsgView::ManagerReconnected {
                    game_id: game_id@,
                    status,
                    data: data@,
                    players: players.deep_view(),
                    current_question,
                }
            },
            ServerMsg::NewPlayer { player } => ServerMsgView::NewPlayer { player: player@ },
            ServerMsg::RemovePlayer { player_id } => ServerMsgView::RemovePlayer {
                player_id: player_id@,
            },
            ServerMsg::PlayerKicked { player_id } => ServerMsgView::PlayerKicked {
                player_id: player_id@,
            },
            ServerMsg::PlayerReconnected {
                game_id,
                status,
                data,
                username,
                points,
                current_question,
            } => ServerMsgView::PlayerReconnected {
                game_id: game_id@,
                status,
                data: data@,
                username: username@,
                points: points as nat,
                current_question,
            },
            ServerMsg::UpdateLeaderboard { leaderboard } => ServerMsgView::UpdateLeaderboard {
                leaderboard: leaderboard.deep_view(),
            },
        }
    }
}

impl DeepView for ServerMsg {
    type V = ServerMsgView;

    open spec fn deep_view(&self) -> ServerMsgView {
        self@
    }
}

impl ServerMsg {
    /// Wraps a payload into the status frame it belongs to.
    pub fn frame(data: StatusData) -> (r: ServerMsg)
        ensures
            r@ == ServerMsgView::frame(data@),
    {
        let status = data.status();
        ServerMsg::GameStatus { status, data }
    }

    /// An `ErrorMessage` with the given text.
    pub fn error(text: &str) -> (r: ServerMsg)
        ensures
            r@ == (ServerMsgView::ErrorMessage { message: text@ }),
    {
        ServerMsg::ErrorMessage { message: text.to_owned() }
    }

    /// A `Reset` with the given text.
    pub fn reset(text: &str) -> (r: ServerMsg)
        ensures
            r@ == (ServerMsgView::Reset { message: text@ }),
    {
        ServerMsg::Reset { message: text.to_owned() }
    }
}

impl Clone for ServerMsg {
    fn clone(&self) -> (r: Self)
        ensures
            r@ == self@,
    {
        match self {
            ServerMsg::GameStatus { status, data } => ServerMsg::GameStatus {
                status: *status,
                data: data.clone(),
            },
            ServerMsg::SuccessRoom { game_id } => ServerMsg::SuccessRoom { game_id: game_id.clone() },
            ServerMsg::SuccessJoin { game_id } => ServerMsg::SuccessJoin { game_id: game_id.clone() },
            ServerMsg::TotalPlayers { count } => ServerMsg::TotalPlayers { count: *count },
            ServerMsg::ErrorMessage { message } => ServerMsg::ErrorMessage {
                message: message.clone(),
            },
            ServerMsg::StartCooldown => ServerMsg::StartCooldown,
            ServerMsg::Cooldown { count } => ServerMsg::Cooldown { count: *count },
            ServerMsg::Reset { message } => ServerMsg::Reset { message: message.clone() },
            ServerMsg::UpdateQuestion { current, total } => ServerMsg::UpdateQuestion {
                current: *current,
                total: *total,
            },
            ServerMsg::PlayerAnswer { count } => ServerMsg::PlayerAnswer { count: *count },
            ServerMsg::QuizList { quizzes } => {
                let quizzes2 = quizzes.clone();
                assert(quizzes2.deep_view() =~= quizzes.deep_view());
                ServerMsg::QuizList { quizzes: quizzes2 }
            },
            ServerMsg::GameCreated { game_id, invite_code } => ServerMsg::GameCreated {
                game_id: game_id.clone(),
                invite_code: invite_code.clone(),
            },
            ServerMsg::ManagerReconnected { game_id, status, data, players, current_question } => {
                let players2 = players.clone();
                assert(players2.deep_view() =~= players.deep_view());
                ServerMsg::ManagerReconnected {
                    game_id: game_id.clone(),
                    status: *status,
                    data: data.clone(),
                    players: players2,
                    current_question: *current_question,
                }
            },
            ServerMsg::NewPlayer { player } => ServerMsg::NewPlayer { player: player.clone() },
            ServerMsg::RemovePlayer { player_id } => ServerMsg::RemovePlayer {
                player_id: player_id.clone(),
            },
            ServerMsg::PlayerKicked { player_id } => ServerMsg::PlayerKicked {
                player_id: player_id.clone(),
            },
            ServerMsg::PlayerReconnected {
                game_id,
                status,
                data,
                username,
                points,
                current_question,
            } => ServerMsg::PlayerReconnected {
                game_id: game_id.clone(),
                status: *status,
                data: data.clone(),
                username: username.clone(),
                points: *points,
                current_question: *current_question,
            },
            ServerMsg::UpdateLeaderboard { leaderboard } => {
                let leaderboard2 = leaderboard.clone();
                assert(leaderboard2.deep_view() =~= leaderboard.deep_view());
                ServerMsg::UpdateLeaderboard { leaderboard: leaderboard2 }
            },
        }
    }
}

/// A message from a client to the server.
#[derive(Debug, PartialEq, Eq)]
pub enum ClientMsg {
    ManagerAuth { password: String },
    CreateGame { quiz_id: String },
    ManagerReconnect { game_id: String },
    StartGame { game_id: String },
    AbortQuiz { game_id: String },
    NextQuestion { game_id: String },
    ShowLeaderboard { game_id: String },
    KickPlayer { game_id: String, player_id: String },
    PlayerJoin { invite_code: String },
    PlayerLogin { game_id: String, username: String },
    PlayerReconnect { game_id: String },
    SelectedAnswer { game_id: String, answer_key: usize },
}

pub enum ClientMsgView {
    ManagerAuth { password: Seq<char> },
    CreateGame { quiz_id: Seq<char> },
    ManagerReconnect { game_id: Seq<char> },
    StartGame { game_id: Seq<char> },
    AbortQuiz { game_id: Seq<char> },
    NextQuestion { game_id: Seq<char> },
    ShowLeaderboard { game_id: Seq<char> },
    KickPlayer { game_id: Seq<char>, player_id: Seq<char> },
    PlayerJoin { invite_code: Seq<char> },
    PlayerLogin { game_id: Seq<char>, username: Seq<char> },
    PlayerReconnect { game_id: Seq<char> },
    SelectedAnswer { game_id: Seq<char>, answer_key: usize },
}

impl View for ClientMsg {
    type V = ClientMsgView;

    open spec fn view(&self) -> ClientMsgView {
        match *self {
            ClientMsg::ManagerAuth { password } => ClientMsgView::ManagerAuth { password: password@ },
            ClientMsg::CreateGame { quiz_id } => ClientMsgView::CreateGame { quiz_id: quiz_id@ },
            ClientMsg::ManagerReconnect { game_id } => ClientMsgView::ManagerReconnect {
                game_id: game_id@,
            },
            ClientMsg::StartGame { game_id } => ClientMsgView::StartGame { game_id: game_id@ },
            ClientMsg::AbortQuiz { game_id } => ClientMsgView::AbortQuiz { game_id: game_id@ },
            ClientMsg::NextQuestion { game_id } => ClientMsgView::NextQuestion { game_id: game_id@ },
            ClientMsg::ShowLeaderboard { game_id } => ClientMsgView::ShowLeaderboard {
                game_id: game_id@,
            },
            ClientMsg::KickPlayer { game_id, player_id } => ClientMsgView::KickPlayer {
                game_id: game_id@,
                player_id: player_id@,
            },
            ClientMsg::PlayerJoin { invite_code } => ClientMsgView::PlayerJoin {
                invite_code: invite_code@,
            },
            ClientMsg::PlayerLogin { game_id, username } => ClientMsgView::PlayerLogin {
                game_id: game_id@,
                username: username@,
            },
            ClientMsg::PlayerReconnect { game_id } => ClientMsgView::PlayerReconnect {
                game_id: game_id@,
            },
            ClientMsg::SelectedAnswer { game_id, answer_key } => ClientMsgView::SelectedAnswer {
                game_id: game_id@,
                answer_key,
            },
        }
    }
}

impl Clone for ClientMsg {
    fn clone(&self) -> (r: Self)
        ensures
            r@ == self@,
    {
        match self {
            ClientMsg::ManagerAuth { password } => ClientMsg::ManagerAuth {
                password: password.clone(),
            },
            ClientMsg::CreateGame { quiz_id } => ClientMsg::CreateGame { quiz_id: quiz_id.clone() },
            ClientMsg::ManagerReconnect { game_id } => ClientMsg::ManagerReconnect {
                game_id: game_id.clone(),
            },
            ClientMsg::StartGame { game_id } => ClientMsg::StartGame { game_id: game_id.clone() },
            ClientMsg::AbortQuiz { game_id } => ClientMsg::AbortQuiz { game_id: game_id.clone() },
            ClientMsg::NextQuestion { game_id } => ClientMsg::NextQuestion {
                game_id: game_id.clone(),
            },
            ClientMsg::ShowLeaderboard { game_id } => ClientMsg::ShowLeaderboard {
                game_id: game_id.clone(),
            },
            ClientMsg::KickPlayer { game_id, player_id } => ClientMsg::KickPlayer {
                game_id: game_id.clone(),
                player_id: player_id.clone(),
            },
            ClientMsg::PlayerJoin { invite_code } => ClientMsg::PlayerJoin {
                invite_code: invite_code.clone(),
            },
            ClientMsg::PlayerLogin { game_id, username } => ClientMsg::PlayerLogin {
                game_id: game_id.clone(),
                username: username.clone(),
            },
            ClientMsg::PlayerReconnect { game_id } => ClientMsg::PlayerReconnect {
                game_id: game_id.clone(),
            },
            ClientMsg::SelectedAnswer { game_id, answer_key } => ClientMsg::SelectedAnswer {
                game_id: game_id.clone(),
                answer_key: *answer_key,
            },
        }
    }
}

} // verus!
