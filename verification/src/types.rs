//! The data model: quizzes, players, answer records and game statuses, each
//! with the mathematical view that the contracts speak of.

use vstd::prelude::*;
use crate::text::same_text;

verus! {

/// A participant of a game session.
#[derive(Debug, PartialEq, Eq)]
pub struct Player {
    /// The socket the player is currently attached to.
    pub id: String,
    /// The stable identifier of the player's browser.
    pub client_id: String,
    pub connected: bool,
    pub username: String,
    /// Cumulative points; every round adds a whole number of at most 1000.
    pub points: u128,
}

pub struct PlayerView {
    pub id: Seq<char>,
    pub client_id: Seq<char>,
    pub connected: bool,
    pub username: Seq<char>,
    pub points: nat,
}

impl View for Player {
    type V = PlayerView;

    open spec fn view(&self) -> PlayerView {
        PlayerView {
            id: self.id@,
            client_id: self.client_id@,
            connected: self.connected,
            username: self.username@,
            points: self.points as nat,
        }
    }
}

impl DeepView for Player {
    type V = PlayerView;

    open spec fn deep_view(&self) -> PlayerView {
        self@
    }
}

impl Clone for Player {
    fn clone(&self) -> (r: Self)
        ensures
            r == *self,
    {
        Player {
            id: self.id.clone(),
            client_id: self.client_id.clone(),
            connected: self.connected,
            username: self.username.clone(),
            points: self.points,
        }
    }
}

/// One answer submitted during a round.
#[derive(Debug, PartialEq, Eq)]
pub struct Answer {
    pub player_id: String,
    pub answer_id: usize,
    /// The points the answer is worth if it is right, fixed at submission.
    pub points: u64,
}

pub struct AnswerView {
    pub player_id: Seq<char>,
    pub answer_id: usize,
    pub points: nat,
}

impl View for Answer {
    type V = AnswerView;

    open spec fn view(&self) -> AnswerView {
        AnswerView { player_id: self.player_id@, answer_id: self.answer_id, points: self.points as nat }
    }
}

impl DeepView for Answer {
    type V = AnswerView;

    open spec fn deep_view(&self) -> AnswerView {
        self@
    }
}

impl Clone for Answer {
    fn clone(&self) -> (r: Self)
        ensures
            r == *self,
    {
        Answer { player_id: self.player_id.clone(), answer_id: self.answer_id, points: self.points }
    }
}

/// A single question of a quiz.
#[derive(Debug, PartialEq, Eq)]
pub struct Question {
    pub question: String,
    pub image: Option<String>,
    pub video: Option<String>,
    pub audio: Option<String>,
    pub answer_image: Option<String>,
    pub answers: Vec<String>,
    pub solution: usize,
    /// Seconds the prompt is shown before answers are accepted.
    pub cooldown: u64,
    /// Seconds of the answer window.
    pub time: u64,
}

pub struct QuestionView {
    pub question: Seq<char>,
    pub image: Option<Seq<char>>,
    pub video: Option<Seq<char>>,
    pub audio: Option<Seq<char>>,
    pub answer_image: Option<Seq<char>>,
    pub answers: Seq<Seq<char>>,
    pub solution: usize,
    pub cooldown: u64,
    pub time: u64,
}

impl View for Question {
    type V = QuestionView;

    open spec fn view(&self) -> QuestionView {
        QuestionView {
            question: self.question@,
            image: self.image.deep_view(),
            video: self.video.deep_view(),
            audio: self.audio.deep_view(),
            answer_image: self.answer_image.deep_view(),
            answers: self.answers.deep_view(),
            solution: self.solution,
            cooldown: self.cooldown,
            time: self.time,
        }
    }
}

impl DeepView for Question {
    type V = QuestionView;

    open spec fn deep_view(&self) -> QuestionView {
        self@
    }
}

impl Clone for Question {
    fn clone(&self) -> (r: Self)
        ensures
            r@ == self@,
    {
        let answers = self.answers.clone();
        assert(answers.deep_view() =~= self.answers.deep_view());
        Question {
            question: self.question.clone(),
            image: self.image.clone(),
            video: self.video.clone(),
            audio: self.audio.clone(),
            answer_image: self.answer_image.clone(),
            answers,
            solution: self.solution,
            cooldown: self.cooldown,
            time: self.time,
        }
    }
}

/// A quiz: a subject and its questions in order.
#[derive(Debug, PartialEq, Eq)]
pub struct Quiz {
    pub subject: String,
    pub questions: Vec<Question>,
}

pub struct QuizView {
    pub subject: Seq<char>,
    pub questions: Seq<QuestionView>,
}

impl View for Quiz {
    type V = QuizView;

    open spec fn view(&self) -> QuizView {
        QuizView { subject: self.subject@, questions: self.questions.deep_view() }
    }
}

impl DeepView for Quiz {
    type V = QuizView;

    open spec fn deep_view(&self) -> QuizView {
        self@
    }
}

impl Clone for Quiz {
    fn clone(&self) -> (r: Self)
        ensures
            r@ == self@,
    {
        let questions = self.questions.clone();
        assert(questions.deep_view() =~= self.questions.deep_view());
        Quiz { subject: self.subject.clone(), questions }
    }
}

/// A quiz together with the identifier it is listed under.
#[derive(Debug, PartialEq, Eq)]
pub struct QuizWithId {
    pub id: String,
    pub quiz: Quiz,
}

pub struct QuizWithIdView {
    pub id: Seq<char>,
    pub quiz: QuizView,
}

impl View for QuizWithId {
    type V = QuizWithIdView;

    open spec fn view(&self) -> QuizWithIdView {
        QuizWithIdView { id: self.id@, quiz: self.quiz@ }
    }
}

impl DeepView for QuizWithId {
    type V = QuizWithIdView;

    open spec fn deep_view(&self) -> QuizWithIdView {
        self@
    }
}

impl Clone for QuizWithId {
    fn clone(&self) -> (r: Self)
        ensures
            r@ == self@,
    {
        QuizWithId { id: self.id.clone(), quiz: self.quiz.clone() }
    }
}

/// The server-wide settings.
#[derive(Debug, PartialEq, Eq)]
pub struct GameConfig {
    pub manager_password: String,
    pub manager_emails: Vec<String>,
}

pub struct GameConfigView {
    pub manager_password: Seq<char>,
    pub manager_emails: Seq<Seq<char>>,
}

impl View for GameConfig {
    type V = GameConfigView;

    open spec fn view(&self) -> GameConfigView {
        GameConfigView {
            manager_password: self.manager_password@,
            manager_emails: self.manager_emails.deep_view(),
        }
    }
}

impl Clone for GameConfig {
    fn clone(&self) -> (r: Self)
        ensures
            r@ == self@,
    {
        let manager_emails = self.manager_emails.clone();
        assert(manager_emails.deep_view() =~= self.manager_emails.deep_view());
        GameConfig { manager_password: self.manager_password.clone(), manager_emails }
    }
}

/// The one-based number of the current question and the number of questions.
#[derive(Debug, Clone, Copy, PartialEq, Eq, Structural)]
pub struct QuestionProgress {
    pub current: usize,
    pub total: usize,
}

/// The frames a client can be asked to render.
#[derive(Debug, Clone, Copy, PartialEq, Eq, Hash, Structural)]
pub enum GameStatus {
    ShowRoom,
    ShowStart,
    ShowPrepared,
    ShowQuestion,
    SelectAnswer,
    ShowResult,
    ShowResponses,
    ShowLeaderboard,
    Finished,
    Wait,
}

impl GameStatus {
    /// The name of the status on the wire.
    pub open spec fn wire_name(self) -> Seq<char> {
        match self {
            GameStatus::ShowRoom => "SHOW_ROOM"@,
            GameStatus::ShowStart => "SHOW_START"@,
            GameStatus::ShowPrepared => "SHOW_PREPARED"@,
            GameStatus::ShowQuestion => "SHOW_QUESTION"@,
            GameStatus::SelectAnswer => "SELECT_ANSWER"@,
            GameStatus::ShowResult => "SHOW_RESULT"@,
            GameStatus::ShowResponses => "SHOW_RESPONSES"@,
            GameStatus::ShowLeaderboard => "SHOW_LEADERBOARD"@,
            GameStatus::Finished => "FINISHED"@,
            GameStatus::Wait => "WAIT"@,
        }
    }

    /// The status that is written as `name` on the wire, if there is one.
    pub open spec fn named(name: Seq<char>) -> Option<GameStatus> {
        if name == "SHOW_ROOM"@ {
            Some(GameStatus::ShowRoom)
        } else if name == "SHOW_START"@ {
            Some(GameStatus::ShowStart)
        } else if name == "SHOW_PREPARED"@ {
            Some(GameStatus::ShowPrepared)
        } else if name == "SHOW_QUESTION"@ {
            Some(GameStatus::ShowQuestion)
        } else if name == "SELECT_ANSWER"@ {
            Some(GameStatus::SelectAnswer)
        } else if name == "SHOW_RESULT"@ {
            Some(GameStatus::ShowResult)
        } else if name == "SHOW_RESPONSES"@ {
            Some(GameStatus::ShowResponses)
        } else if name == "SHOW_LEADERBOARD"@ {
            Some(GameStatus::ShowLeaderboard)
        } else if name == "FINISHED"@ {
            Some(GameStatus::Finished)
        } else if name == "WAIT"@ {
            Some(GameStatus::Wait)
        } else {
            None
        }
    }

    /// Reads a status from its name on the wire.
    pub fn parse(name: &str) -> (r: Option<GameStatus>)
        ensures
            r == GameStatus::named(name@),
    {
        if same_text(name, "SHOW_ROOM") {
            Some(GameStatus::ShowRoom)
        } else if same_text(name, "SHOW_START") {
            Some(GameStatus::ShowStart)
        } else if same_text(name, "SHOW_PREPARED") {
            Some(GameStatus::ShowPrepared)
        } else if same_text(name, "SHOW_QUESTION") {
            Some(GameStatus::ShowQuestion)
        } else if same_text(name, "SELECT_ANSWER") {
            Some(GameStatus::SelectAnswer)
        } else if same_text(name, "SHOW_RESULT") {
            Some(GameStatus::ShowResult)
        } else if same_text(name, "SHOW_RESPONSES") {
            Some(GameStatus::ShowResponses)
        } else if same_text(name, "SHOW_LEADERBOARD") {
            Some(GameStatus::ShowLeaderboard)
        } else if same_text(name, "FINISHED") {
            Some(GameStatus::Finished)
        } else if same_text(name, "WAIT") {
            Some(GameStatus::Wait)
        } else {
            None
        }
    }

    /// Renders the status as it is written on the wire.
    pub fn name(&self) -> (r: String)
        ensures
            r@ == self.wire_name(),
    {
        match self {
            GameStatus::ShowRoom => "SHOW_ROOM".to_owned(),
            GameStatus::ShowStart => "SHOW_START".to_owned(),
            GameStatus::ShowPrepared => "SHOW_PREPARED".to_owned(),
            GameStatus::ShowQuestion => "SHOW_QUESTION".to_owned(),
            GameStatus::SelectAnswer => "SELECT_ANSWER".to_owned(),
            GameStatus::ShowResult => "SHOW_RESULT".to_owned(),
            GameStatus::ShowResponses => "SHOW_RESPONSES".to_owned(),
            GameStatus::ShowLeaderboard => "SHOW_LEADERBOARD".to_owned(),
            GameStatus::Finished => "FINISHED".to_owned(),
            GameStatus::Wait => "WAIT".to_owned(),
        }
    }
}

/// Every status is read back from the name it is written as.
pub proof fn lemma_status_name_round_trip(status: GameStatus)
    ensures
        GameStatus::named(status.wire_name()) == Some(status),
{
    reveal_strlit("SHOW_ROOM");
    reveal_strlit("SHOW_START");
    reveal_strlit("SHOW_PREPARED");
    reveal_strlit("SHOW_QUESTION");
    reveal_strlit("SELECT_ANSWER");
    reveal_strlit("SHOW_RESULT");
    reveal_strlit("SHOW_RESPONSES");
    reveal_strlit("SHOW_LEADERBOARD");
    reveal_strlit("FINISHED");
    reveal_strlit("WAIT");
    assert("SHOW_ROOM"@.len() == 9);
    assert("SHOW_START"@.len() == 10);
    assert("SHOW_PREPARED"@.len() == 13);
    assert("SHOW_QUESTION"@.len() == 13);
    assert("SELECT_ANSWER"@.len() == 13);
    assert("SHOW_RESULT"@.len() == 11);
    assert("SHOW_RESPONSES"@.len() == 14);
    assert("SHOW_LEADERBOARD"@.len() == 16);
    assert("FINISHED"@.len() == 8);
    assert("WAIT"@.len() == 4);
    assert("SHOW_PREPARED"@[5] != "SHOW_QUESTION"@[5]);
    assert("SHOW_PREPARED"@[1] != "SELECT_ANSWER"@[1]);
    assert("SHOW_QUESTION"@[1] != "SELECT_ANSWER"@[1]);
}

} // verus!
