//! The state of one game session and the mathematical model of every
//! transition it can make.

use vstd::prelude::*;
use crate::command::{GameCommandView, GameEventView, OutcomeView, TimerAction};
use crate::config::resolved_image;
use crate::lookup::first_index;
use crate::message::{ServerMsgView, StatusData, StatusDataView};
use crate::ranking::ranked;
use crate::registry::{RegistryView, Role};
use crate::scoring::{earned_points, elapsed_between};
use crate::types::{
    Answer, AnswerView, Player, PlayerView, QuestionProgress, QuestionView, Quiz, QuizView,
};

verus! {

/// Seconds between the start announcement and the warm-up countdown.
pub const START_DELAY: u64 = 3;

/// Seconds of the warm-up countdown before the first round.
pub const WARMUP_SECONDS: u64 = 3;

/// Seconds a round is announced before its question is shown.
pub const PREPARE_DELAY: u64 = 2;

/// Seconds a manager has to come back before a game that is not running
/// is removed.
pub const MANAGER_GRACE: u64 = 10;

pub const MIN_USERNAME_LEN: usize = 4;

pub const MAX_USERNAME_LEN: usize = 20;

/// Entries of the leaderboard shown between rounds.
pub const LEADERBOARD_SIZE: usize = 5;

/// Entries of the podium shown at the end.
pub const PODIUM_SIZE: usize = 3;

/// Where a session stands in its life.
#[derive(Debug, Clone, Copy, PartialEq, Eq, Structural)]
pub enum Phase {
    /// Players gather; the manager has not started the game.
    Lobby,
    /// The game iterates over its questions.
    Running,
    /// The last leaderboard has been shown.
    Finished,
}

/// What a countdown leads to.
#[derive(Debug, Clone, Copy, PartialEq, Eq, Structural)]
pub enum CountdownKind {
    /// The countdown before the first round.
    Warmup,
    /// The answer window of a round.
    Answers,
}

/// The timed wait a session is in.
#[derive(Debug, Clone, Copy, PartialEq, Eq, Structural)]
pub enum Wait {
    /// The session waits for commands only.
    Idle,
    /// The start has been announced.
    Intro,
    /// A countdown runs; `remaining` is the last count announced, or the
    /// length of the countdown if none has been.
    Countdown { kind: CountdownKind, remaining: u64 },
    /// A round has been announced.
    Prepared,
    /// The question is shown; answers are not yet accepted.
    Question,
}

/// The last status frame sent to one player.
#[derive(Debug, PartialEq, Eq)]
pub struct StatusEntry {
    pub player_id: String,
    pub data: StatusData,
}

pub struct StatusEntryView {
    pub player_id: Seq<char>,
    pub data: StatusDataView,
}

impl View for StatusEntry {
    type V = StatusEntryView;

    open spec fn view(&self) -> StatusEntryView {
        StatusEntryView { player_id: self.player_id@, data: self.data@ }
    }
}

impl DeepView for StatusEntry {
    type V = StatusEntryView;

    open spec fn deep_view(&self) -> StatusEntryView {
        self@
    }
}

/// One game session.
#[derive(Debug)]
pub struct Session {
    pub game_id: String,
    pub invite_code: String,
    pub manager_socket_id: String,
    pub manager_client_id: String,
    pub manager_connected: bool,
    pub phase: Phase,
    pub quiz: Quiz,
    /// The roster; after a round it is in order of rank.
    pub players: Vec<Player>,
    pub current_question: usize,
    pub round_answers: Vec<Answer>,
    /// The reading of the host's clock, in nanoseconds, when the answer
    /// window of the round opened.
    pub round_start_time: u64,
    pub leaderboard: Vec<Player>,
    pub old_leaderboard: Option<Vec<Player>>,
    pub wait: Wait,
    /// The payload of the last status frame sent to everyone.
    pub last_broadcast_status: Option<StatusData>,
    /// The payload of the last status frame sent to the manager alone.
    pub manager_status: Option<StatusData>,
    /// The last status frame sent to each player alone, at most one entry
    /// per player id.
    pub player_statuses: Vec<StatusEntry>,
    pub base_url: String,
}

pub struct SessionView {
    pub game_id: Seq<char>,
    pub invite_code: Seq<char>,
    pub manager_socket_id: Seq<char>,
    pub manager_client_id: Seq<char>,
    pub manager_connected: bool,
    pub phase: Phase,
    pub quiz: QuizView,
    pub players: Seq<PlayerView>,
    pub current_question: nat,
    pub round_answers: Seq<AnswerView>,
    pub round_start_time: u64,
    pub leaderboard: Seq<PlayerView>,
    pub old_leaderboard: Option<Seq<PlayerView>>,
    pub wait: Wait,
    pub last_broadcast_status: Option<StatusDataView>,
    pub manager_status: Option<StatusDataView>,
    pub player_statuses: Seq<StatusEntryView>,
    pub base_url: Seq<char>,
}

impl View for Session {
    type V = SessionView;

    open spec fn view(&self) -> SessionView {
        SessionView {
            game_id: self.game_id@,
            invite_code: self.invite_code@,
            manager_socket_id: self.manager_socket_id@,
            manager_client_id: self.manager_client_id@,
            manager_connected: self.manager_connected,
            phase: self.phase,
            quiz: self.quiz@,
            players: self.players.deep_view(),
            current_question: self.current_question as nat,
            round_answers: self.round_answers.deep_view(),
            round_start_time: self.round_start_time,
            leaderboard: self.leaderboard.deep_view(),
            old_leaderboard: self.old_leaderboard.deep_view(),
            wait: self.wait,
            last_broadcast_status: self.last_broadcast_status.deep_view(),
            manager_status: self.manager_status.deep_view(),
            player_statuses: self.player_statuses.deep_view(),
            base_url: self.base_url@,
        }
    }
}

// ---------------------------------------------------------------------
// Rosters, answer records and status caches
// ---------------------------------------------------------------------

/// The socket ids of a roster, in order.
pub open spec fn ids_of(players: Seq<PlayerView>) -> Seq<Seq<char>> {
    Seq::new(players.len(), |i: int| players[i].id)
}

/// The client ids of a roster, in order.
pub open spec fn client_ids_of(players: Seq<PlayerView>) -> Seq<Seq<char>> {
    Seq::new(players.len(), |i: int| players[i].client_id)
}

/// The player ids of the answer records, in order.
pub open spec fn answerers_of(answers: Seq<AnswerView>) -> Seq<Seq<char>> {
    Seq::new(answers.len(), |i: int| answers[i].player_id)
}

/// The player ids of the status entries, in order.
pub open spec fn status_keys(statuses: Seq<StatusEntryView>) -> Seq<Seq<char>> {
    Seq::new(statuses.len(), |i: int| statuses[i].player_id)
}

/// The number of connected players of a roster.
pub open spec fn connected_count(players: Seq<PlayerView>) -> nat
    decreases players.len(),
{
    if players.len() == 0 {
        0
    } else {
        connected_count(players.drop_last()) + if players.last().connected {
            1nat
        } else {
            0nat
        }
    }
}

/// The roster without the players whose socket id is `id`.
pub open spec fn without_player(players: Seq<PlayerView>, id: Seq<char>) -> Seq<PlayerView>
    decreases players.len(),
{
    if players.len() == 0 {
        players
    } else if players.last().id == id {
        without_player(players.drop_last(), id)
    } else {
        without_player(players.drop_last(), id).push(players.last())
    }
}

/// The first `n` entries of a board, or all of it if it is shorter.
pub open spec fn top_of(board: Seq<PlayerView>, n: nat) -> Seq<PlayerView> {
    if board.len() <= n {
        board
    } else {
        board.take(n as int)
    }
}

/// The status recorded for a player, if any.
pub open spec fn status_get(statuses: Seq<StatusEntryView>, id: Seq<char>) -> Option<StatusDataView> {
    match first_index(status_keys(statuses), id) {
        Some(i) => Some(statuses[i].data),
        None => None,
    }
}

/// The statuses after `data` has been recorded for a player: it takes the
/// place of the player's entry, or becomes a new last entry.
pub open spec fn status_put(statuses: Seq<StatusEntryView>, id: Seq<char>, data: StatusDataView) -> Seq<
    StatusEntryView,
> {
    match first_index(status_keys(statuses), id) {
        Some(i) => statuses.update(i, StatusEntryView { player_id: id, data }),
        None => statuses.push(StatusEntryView { player_id: id, data }),
    }
}

/// The statuses without the entry of a player.
pub open spec fn status_remove(statuses: Seq<StatusEntryView>, id: Seq<char>) -> Seq<StatusEntryView> {
    match first_index(status_keys(statuses), id) {
        Some(i) => statuses.remove(i),
        None => statuses,
    }
}

/// The record a player submitted in the round, if any.
pub open spec fn answer_of(answers: Seq<AnswerView>, player_id: Seq<char>) -> Option<AnswerView> {
    match first_index(answerers_of(answers), player_id) {
        Some(i) => Some(answers[i]),
        None => None,
    }
}

/// Whether a player submitted the right answer.
pub open spec fn answered_right(answers: Seq<AnswerView>, solution: usize, player_id: Seq<char>) -> bool {
    match answer_of(answers, player_id) {
        Some(a) => a.answer_id == solution,
        None => false,
    }
}

/// The points a player earns in the round: those of the record if it is
/// right, none otherwise.
pub open spec fn round_points(answers: Seq<AnswerView>, solution: usize, player_id: Seq<char>) -> nat {
    match answer_of(answers, player_id) {
        Some(a) => if a.answer_id == solution {
            a.points
        } else {
            0
        },
        None => 0,
    }
}

/// The roster with the points of the round added, in unchanged order.
pub open spec fn scored(players: Seq<PlayerView>, answers: Seq<AnswerView>, solution: usize) -> Seq<
    PlayerView,
> {
    Seq::new(
        players.len(),
        |i: int|
            PlayerView {
                points: players[i].points + round_points(answers, solution, players[i].id),
                ..players[i]
            },
    )
}

/// How often each answer index was chosen in the round. An index nobody
/// chose has no entry.
pub open spec fn tally(answers: Seq<AnswerView>) -> Map<usize, usize> {
    Map::new(
        |answer: usize| times_chosen(answers, answer) > 0,
        |answer: usize| times_chosen(answers, answer) as usize,
    )
}

/// What the player at position `i` of a ranked roster is told at the end of
/// a round: whether the answer was right, the points earned, the total,
/// the rank counted from one, and who stands just ahead.
pub open spec fn result_data(
    players: Seq<PlayerView>,
    i: int,
    answers: Seq<AnswerView>,
    solution: usize,
    answer_image: Option<Seq<char>>,
) -> StatusDataView {
    let p = players[i];
    let right = answered_right(answers, solution, p.id);
    StatusDataView::ShowResult {
        correct: right,
        message: if right {
            "Nice!"@
        } else {
            "Too bad"@
        },
        points: round_points(answers, solution, p.id),
        my_points: p.points,
        rank: (i + 1) as usize,
        ahead_of_me: if i > 0 {
            Some(players[i - 1].username)
        } else {
            None
        },
        answer_image,
    }
}

/// The number of records that chose the answer index `answer`.
pub open spec fn times_chosen(answers: Seq<AnswerView>, answer: usize) -> nat
    decreases answers.len(),
{
    if answers.len() == 0 {
        0
    } else {
        times_chosen(answers.drop_last(), answer) + if answers.last().answer_id == answer {
            1nat
        } else {
            0nat
        }
    }
}

/// Some player of the roster has the client id `client_id`.
pub open spec fn has_client(players: Seq<PlayerView>, client_id: Seq<char>) -> bool {
    exists|k: int| 0 <= k < players.len() && (#[trigger] players[k]).client_id == client_id
}

/// From the roster `before` to the roster `after` nobody came or went,
/// nobody lost points and nobody gained more than a thousand; players
/// are told apart by their client ids.
pub open spec fn gains_within(before: Seq<PlayerView>, after: Seq<PlayerView>) -> bool {
    &&& after.len() == before.len()
    &&& forall|j: int| 0 <= j < before.len() ==> has_client(after, (#[trigger] before[j]).client_id)
    &&& forall|i: int, j: int|
        0 <= i < after.len() && 0 <= j < before.len() && (#[trigger] after[i]).client_id == (
        #[trigger] before[j]).client_id ==> before[j].points <= after[i].points
            <= before[j].points + 1000
}

/// Every player of the roster has at most `bound` points.
pub open spec fn points_within(players: Seq<PlayerView>, bound: nat) -> bool {
    forall|i: int| 0 <= i < players.len() ==> (#[trigger] players[i]).points <= bound
}

/// No record is worth more than a thousand points.
pub open spec fn answers_within(answers: Seq<AnswerView>) -> bool {
    forall|i: int| 0 <= i < answers.len() ==> (#[trigger] answers[i]).points <= 1000
}

impl SessionView {
    /// A fresh session: in its lobby, without players, waiting for nothing.
    pub open spec fn lobby(
        game_id: Seq<char>,
        invite_code: Seq<char>,
        manager_socket_id: Seq<char>,
        manager_client_id: Seq<char>,
        quiz: QuizView,
        base_url: Seq<char>,
        now: u64,
    ) -> SessionView {
        SessionView {
            game_id,
            invite_code,
            manager_socket_id,
            manager_client_id,
            manager_connected: true,
            phase: Phase::Lobby,
            quiz,
            players: Seq::empty(),
            current_question: 0,
            round_answers: Seq::empty(),
            round_start_time: now,
            leaderboard: Seq::empty(),
            old_leaderboard: None,
            wait: Wait::Idle,
            last_broadcast_status: None,
            manager_status: None,
            player_statuses: Seq::empty(),
            base_url,
        }
    }

    /// The question of the current round.
    pub open spec fn question(self) -> QuestionView {
        self.quiz.questions[self.current_question as int]
    }

    pub open spec fn running(self) -> bool {
        self.phase == Phase::Running
    }

    /// A round is under way: it has been announced and its results are
    /// not out.
    pub open spec fn round_under_way(self) -> bool {
        match self.wait {
            Wait::Prepared => true,
            Wait::Question => true,
            Wait::Countdown { kind, .. } => kind == CountdownKind::Answers,
            _ => false,
        }
    }

    /// The round can be scored without anybody getting more than a
    /// thousand points for each round played: the game runs, the session
    /// waits for nothing, and the round has not been scored.
    pub open spec fn scorable(self) -> bool {
        &&& self.running()
        &&& self.wait == Wait::Idle
        &&& points_within(self.players, 1000 * self.current_question)
    }

    pub open spec fn is_last_question(self) -> bool {
        self.current_question + 1 == self.quiz.questions.len()
    }

    /// The one-based number of the current question and the total.
    pub open spec fn progress(self) -> QuestionProgress {
        QuestionProgress {
            current: (self.current_question + 1) as usize,
            total: self.quiz.questions.len() as usize,
        }
    }

    /// What holds of every session: the current question exists; no client
    /// id stands twice on the roster; no player has two records in a
    /// round and no record is worth more than a thousand points; no
    /// player has two status entries; nobody has
    /// points before the game starts, nobody has more than a thousand per
    /// round played; and only a started game waits on its timer.
    pub open spec fn wf(self) -> bool {
        &&& self.current_question < self.quiz.questions.len()
        &&& answerers_of(self.round_answers).no_duplicates()
        &&& answers_within(self.round_answers)
        &&& status_keys(self.player_statuses).no_duplicates()
        &&& self.phase == Phase::Lobby ==> self.wait == Wait::Idle && self.current_question == 0
        &&& self.roster_ok(self.players)
    }

    /// `players` can be the roster of this session: no client id stands
    /// twice, and the points are within what the session allows: none in
    /// the lobby, a thousand per round played otherwise, where the round
    /// under way counts only once it has been scored.
    pub open spec fn roster_ok(self, players: Seq<PlayerView>) -> bool {
        &&& client_ids_of(players).no_duplicates()
        &&& points_within(players, 1000 * (self.current_question + 1))
        &&& self.wait != Wait::Idle ==> points_within(players, 1000 * self.current_question)
        &&& self.phase == Phase::Lobby ==> points_within(players, 0)
    }
}

impl Session {
    pub open spec fn wf(&self) -> bool {
        self@.wf()
    }
}

// ---------------------------------------------------------------------
// The model of the transitions
// ---------------------------------------------------------------------

/// A session together with what the step under way has produced so far.
pub struct Machine {
    pub session: SessionView,
    pub out: OutcomeView,
}

/// What a whole step leaves behind.
pub struct Step {
    pub session: SessionView,
    pub registry: RegistryView,
    pub out: OutcomeView,
}

/// The payload shown to a participant for whom nothing else is recorded.
pub open spec fn waiting_for_players() -> StatusDataView {
    StatusDataView::Wait { text: "Waiting for players"@ }
}

impl Machine {
    /// The machine at the start of a step.
    pub open spec fn start(session: SessionView) -> Machine {
        Machine { session, out: OutcomeView::nothing() }
    }

    pub open spec fn emit(self, event: GameEventView) -> Machine {
        Machine { out: OutcomeView { events: self.out.events.push(event), ..self.out }, ..self }
    }

    pub open spec fn broadcast(self, msg: ServerMsgView) -> Machine {
        self.emit(GameEventView::Broadcast { msg })
    }

    pub open spec fn send_to(self, socket_id: Seq<char>, msg: ServerMsgView) -> Machine {
        self.emit(GameEventView::SendTo { socket_id, msg })
    }

    /// Sends a status frame to everyone and remembers it as the last
    /// broadcast.
    pub open spec fn broadcast_status(self, data: StatusDataView) -> Machine {
        Machine {
            session: SessionView { last_broadcast_status: Some(data), ..self.session },
            ..self
        }.broadcast(ServerMsgView::frame(data))
    }

    /// Sends a status frame to one socket and remembers it for that socket:
    /// as the manager's if it is the manager's socket, else as that
    /// player's.
    pub open spec fn send_status(self, target: Seq<char>, data: StatusDataView) -> Machine {
        let session = if target == self.session.manager_socket_id {
            SessionView { manager_status: Some(data), ..self.session }
        } else {
            SessionView {
                player_statuses: status_put(self.session.player_statuses, target, data),
                ..self.session
            }
        };
        Machine { session, ..self }.send_to(target, ServerMsgView::frame(data))
    }

    /// Tells everyone how many players are connected.
    pub open spec fn broadcast_total_players(self) -> Machine {
        self.broadcast(
            ServerMsgView::TotalPlayers { count: connected_count(self.session.players) as usize },
        )
    }

    /// Enters a wait and tells the host what to do with the timer.
    pub open spec fn waiting(self, wait: Wait, timer: TimerAction) -> Machine {
        Machine {
            session: SessionView { wait, ..self.session },
            out: OutcomeView { timer, ..self.out },
        }
    }

    /// The result frame of the player at position `i` of the ranked roster.
    pub open spec fn result_of(self, i: int) -> StatusDataView {
        let s = self.session;
        let q = s.question();
        result_data(
            s.players,
            i,
            s.round_answers,
            q.solution,
            resolved_image(q.answer_image, s.base_url),
        )
    }

    /// Sends the first `n` players of the roster their result frames.
    pub open spec fn deliver_results(self, n: nat) -> Machine
        decreases n,
    {
        if n == 0 {
            self
        } else {
            let before = self.deliver_results((n - 1) as nat);
            before.send_status(self.session.players[n - 1].id, self.result_of(n - 1))
        }
    }

    /// The end of a round: points are added, the roster is ranked, every
    /// player is sent a result, the manager is sent the responses, and the
    /// leaderboards move on.
    pub open spec fn show_results(self) -> Machine {
        let s = self.session;
        let q = s.question();
        let old_board = if s.leaderboard.len() == 0 {
            s.players
        } else {
            s.leaderboard
        };
        let players = ranked(scored(s.players, s.round_answers, q.solution));
        let m1 = Machine { session: SessionView { players, ..s }, ..self };
        let m2 = m1.deliver_results(players.len());
        let m3 = m2.send_status(
            s.manager_socket_id,
            StatusDataView::ShowResponses {
                question: q.question,
                responses: tally(s.round_answers),
                correct: q.solution,
                answers: q.answers,
                image: resolved_image(q.image, s.base_url),
            },
        );
        Machine {
            session: SessionView {
                leaderboard: players,
                old_leaderboard: Some(old_board),
                ..m3.session
            },
            ..m3
        }
    }

    /// The start of a round. A session that is not running goes idle.
    pub open spec fn new_round(self) -> Machine {
        let s = self.session;
        if !s.running() {
            self.waiting(Wait::Idle, TimerAction::Clear)
        } else {
            let q = s.question();
            let m1 = Machine {
                session: SessionView {
                    player_statuses: Seq::empty(),
                    round_answers: Seq::empty(),
                    ..s
                },
                ..self
            };
            let m2 = m1.broadcast(
                ServerMsgView::UpdateQuestion { current: s.progress().current, total: s.progress().total },
            );
            let m3 = Machine { session: SessionView { manager_status: None, ..m2.session }, ..m2 };
            m3.broadcast_status(
                StatusDataView::ShowPrepared {
                    total_answers: q.answers.len() as usize,
                    question_number: s.progress().current,
                },
            ).waiting(Wait::Prepared, TimerAction::Arm { seconds: PREPARE_DELAY })
        }
    }

    /// What follows a countdown that ran out or was cut short.
    pub open spec fn countdown_done(self, kind: CountdownKind) -> Machine {
        let idle = self.waiting(Wait::Idle, TimerAction::Clear);
        match kind {
            CountdownKind::Warmup => idle.new_round(),
            CountdownKind::Answers => if self.session.running() {
                idle.show_results()
            } else {
                idle
            },
        }
    }

    /// Cuts a running countdown short; any other wait goes on.
    pub open spec fn cancel_cooldown(self) -> Machine {
        match self.session.wait {
            Wait::Countdown { kind, .. } => self.countdown_done(kind),
            _ => self,
        }
    }

    /// The timer of the session fired at time `now`.
    pub open spec fn timer_fired(self, now: u64) -> Machine {
        let s = self.session;
        match s.wait {
            Wait::Idle => self,
            Wait::Intro => self.broadcast(ServerMsgView::StartCooldown).waiting(
                Wait::Countdown { kind: CountdownKind::Warmup, remaining: WARMUP_SECONDS },
                TimerAction::Arm { seconds: 1 },
            ),
            Wait::Countdown { kind, remaining } => if remaining > 1 {
                self.broadcast(ServerMsgView::Cooldown { count: (remaining - 1) as u64 }).waiting(
                    Wait::Countdown { kind, remaining: (remaining - 1) as u64 },
                    TimerAction::Arm { seconds: 1 },
                )
            } else {
                self.countdown_done(kind)
            },
            Wait::Prepared => if !s.running() {
                self.waiting(Wait::Idle, TimerAction::Clear)
            } else {
                let q = s.question();
                self.broadcast_status(
                    StatusDataView::ShowQuestion {
                        question: q.question,
                        image: resolved_image(q.image, s.base_url),
                        cooldown: q.cooldown,
                    },
                ).waiting(Wait::Question, TimerAction::Arm { seconds: q.cooldown })
            },
            Wait::Question => if !s.running() {
                self.waiting(Wait::Idle, TimerAction::Clear)
            } else {
                let q = s.question();
                Machine { session: SessionView { round_start_time: now, ..s }, ..self }.broadcast_status(
                    StatusDataView::SelectAnswer {
                        question: q.question,
                        answers: q.answers,
                        image: resolved_image(q.image, s.base_url),
                        video: q.video,
                        audio: q.audio,
                        time: q.time,
                        total_player: connected_count(s.players) as usize,
                    },
                ).waiting(
                    Wait::Countdown { kind: CountdownKind::Answers, remaining: q.time },
                    TimerAction::Arm { seconds: 1 },
                )
            },
        }
    }

    /// Why a player may not join, if anything stands against it.
    pub open spec fn join_refusal(self, client_id: Seq<char>, username: Seq<char>) -> Option<Seq<char>> {
        if first_index(client_ids_of(self.session.players), client_id) is Some {
            Some("Player already connected"@)
        } else if username.len() < MIN_USERNAME_LEN {
            Some("Username cannot be less than 4 characters"@)
        } else if username.len() > MAX_USERNAME_LEN {
            Some("Username cannot exceed 20 characters"@)
        } else {
            None
        }
    }

    /// A socket asks to join under a name.
    pub open spec fn join(self, socket_id: Seq<char>, client_id: Seq<char>, username: Seq<char>) -> Machine {
        let s = self.session;
        match self.join_refusal(client_id, username) {
            Some(message) => self.send_to(socket_id, ServerMsgView::ErrorMessage { message }),
            None => {
                let player = PlayerView {
                    id: socket_id,
                    client_id,
                    connected: true,
                    username,
                    points: 0,
                };
                Machine { session: SessionView { players: s.players.push(player), ..s }, ..self }.send_to(
                    s.manager_socket_id,
                    ServerMsgView::NewPlayer { player },
                ).broadcast_total_players().send_to(
                    socket_id,
                    ServerMsgView::SuccessJoin { game_id: s.game_id },
                )
            },
        }
    }

    /// Whether an answer from `socket_id` is taken: the socket is on the
    /// roster and has no record in this round.
    pub open spec fn takes_answer(self, socket_id: Seq<char>) -> bool {
        &&& first_index(ids_of(self.session.players), socket_id) is Some
        &&& first_index(answerers_of(self.session.round_answers), socket_id) is None
    }

    /// A socket submits an answer at time `now`. The answer window ends
    /// early once there are at least as many records as connected players;
    /// there can be more where a player who answered has left since.
    pub open spec fn select_answer(self, socket_id: Seq<char>, answer_key: usize, now: u64) -> Machine {
        let s = self.session;
        if !self.takes_answer(socket_id) {
            self
        } else {
            let record = AnswerView {
                player_id: socket_id,
                answer_id: answer_key,
                points: earned_points(
                    elapsed_between(s.round_start_time, now),
                    s.question().time as nat,
                ),
            };
            let answers = s.round_answers.push(record);
            let m = Machine { session: SessionView { round_answers: answers, ..s }, ..self }.send_status(
                socket_id,
                StatusDataView::Wait { text: "Waiting for the players to answer"@ },
            ).emit(
                GameEventView::BroadcastExcept {
                    exclude: socket_id,
                    msg: ServerMsgView::PlayerAnswer { count: answers.len() as usize },
                },
            ).broadcast_total_players();
            if answers.len() >= connected_count(s.players) {
                m.cancel_cooldown()
            } else {
                m
            }
        }
    }

    /// The manager starts the game; this works once, from the lobby.
    pub open spec fn start_game(self, socket_id: Seq<char>) -> Machine {
        let s = self.session;
        if socket_id == s.manager_socket_id && s.phase == Phase::Lobby {
            Machine { session: SessionView { phase: Phase::Running, ..s }, ..self }.broadcast_status(
                StatusDataView::ShowStart { time: START_DELAY, subject: s.quiz.subject },
            ).waiting(Wait::Intro, TimerAction::Arm { seconds: START_DELAY })
        } else {
            self
        }
    }

    /// The manager cuts the running countdown short.
    pub open spec fn abort_quiz(self, socket_id: Seq<char>) -> Machine {
        let s = self.session;
        if socket_id == s.manager_socket_id && s.running() {
            self.cancel_cooldown()
        } else {
            self
        }
    }

    /// The manager moves on to the next question, whatever the session is
    /// waiting for. A round that is under way ends with its results
    /// first; then the next round starts. Nothing happens on the last
    /// question.
    pub open spec fn next_question(self, socket_id: Seq<char>) -> Machine {
        let s = self.session;
        if socket_id == s.manager_socket_id && s.running() && !s.is_last_question() {
            let ended = if s.round_under_way() {
                self.waiting(Wait::Idle, TimerAction::Clear).show_results()
            } else {
                self
            };
            Machine {
                session: SessionView {
                    current_question: ended.session.current_question + 1,
                    ..ended.session
                },
                ..ended
            }.new_round()
        } else {
            self
        }
    }

    /// Anyone asks for the leaderboard: on the last question the game
    /// finishes and everyone is shown the podium, else the manager is
    /// shown the previous and the current board.
    pub open spec fn show_leaderboard(self) -> Machine {
        let s = self.session;
        if s.is_last_question() {
            Machine { session: SessionView { phase: Phase::Finished, ..s }, ..self }.broadcast_status(
                StatusDataView::Finished {
                    subject: s.quiz.subject,
                    top: top_of(s.leaderboard, PODIUM_SIZE as nat),
                },
            )
        } else {
            let old_board = match s.old_leaderboard {
                Some(board) => board,
                None => s.leaderboard,
            };
            Machine { session: SessionView { old_leaderboard: None, ..s }, ..self }.send_status(
                s.manager_socket_id,
                StatusDataView::ShowLeaderboard {
                    old_leaderboard: top_of(old_board, LEADERBOARD_SIZE as nat),
                    leaderboard: top_of(s.leaderboard, LEADERBOARD_SIZE as nat),
                },
            )
        }
    }

    /// Whether the manager's kick of `player_id` takes effect.
    pub open spec fn kicks(self, socket_id: Seq<char>, player_id: Seq<char>) -> bool {
        &&& socket_id == self.session.manager_socket_id
        &&& first_index(ids_of(self.session.players), player_id) is Some
    }

    /// The manager removes a player.
    pub open spec fn kick_player(self, socket_id: Seq<char>, player_id: Seq<char>) -> Machine {
        let s = self.session;
        if !self.kicks(socket_id, player_id) {
            self
        } else {
            Machine {
                session: SessionView {
                    players: without_player(s.players, player_id),
                    player_statuses: status_remove(s.player_statuses, player_id),
                    ..s
                },
                ..self
            }.emit(
                GameEventView::KickSocket {
                    socket_id: player_id,
                    msg: ServerMsgView::Reset { message: "You have been kicked by the manager"@ },
                },
            ).send_to(
                s.manager_socket_id,
                ServerMsgView::PlayerKicked { player_id },
            ).broadcast_total_players()
        }
    }

    /// The socket of a player went away: the player leaves the roster of a
    /// game that is not running, and is kept as disconnected in one that
    /// is. Everyone is told the number of connected players, also where
    /// the socket was no player's.
    pub open spec fn player_disconnect(self, socket_id: Seq<char>) -> Machine {
        let s = self.session;
        match first_index(ids_of(s.players), socket_id) {
            None => self.broadcast_total_players(),
            Some(i) => if !s.running() {
                Machine {
                    session: SessionView { players: without_player(s.players, socket_id), ..s },
                    ..self
                }.send_to(
                    s.manager_socket_id,
                    ServerMsgView::RemovePlayer { player_id: socket_id },
                ).broadcast_total_players()
            } else {
                Machine {
                    session: SessionView {
                        players: s.players.update(
                            i,
                            PlayerView { connected: false, ..s.players[i] },
                        ),
                        ..s
                    },
                    ..self
                }.broadcast_total_players()
            },
        }
    }

    /// The socket of the manager went away; `live` says whether the
    /// session is still registered, so that it can be checked on later.
    pub open spec fn manager_disconnect(self, socket_id: Seq<char>, live: bool) -> Machine {
        let s = self.session;
        if socket_id != s.manager_socket_id {
            self
        } else {
            Machine {
                session: SessionView { manager_connected: false, ..s },
                out: OutcomeView {
                    check_after: if live {
                        Some(MANAGER_GRACE)
                    } else {
                        None
                    },
                    ..self.out
                },
            }
        }
    }

    /// Whether the check after the manager's grace period ends the session.
    pub open spec fn abandoned(self, game_id: Seq<char>) -> bool {
        let s = self.session;
        game_id == s.game_id && !s.manager_connected && !s.running()
    }

    /// The check after the manager's grace period.
    pub open spec fn disconnect_check(self, game_id: Seq<char>) -> Machine {
        if !self.abandoned(game_id) {
            self
        } else {
            let m = self.cancel_cooldown().broadcast(
                ServerMsgView::Reset { message: "Manager disconnected"@ },
            );
            Machine { out: OutcomeView { destroyed: true, ..m.out }, ..m }
        }
    }

    /// Whether a reconnect of `client_id` as a player is accepted: a player
    /// with that client id is on the roster and is not connected.
    pub open spec fn readmits(self, client_id: Seq<char>) -> bool {
        match first_index(client_ids_of(self.session.players), client_id) {
            Some(i) => !self.session.players[i].connected,
            None => false,
        }
    }

    /// A player comes back on a new socket.
    pub open spec fn player_reconnect(self, socket_id: Seq<char>, client_id: Seq<char>) -> Machine {
        let s = self.session;
        match first_index(client_ids_of(s.players), client_id) {
            None => self.send_to(socket_id, ServerMsgView::Reset { message: "Game not found"@ }),
            Some(i) => if s.players[i].connected {
                self.send_to(
                    socket_id,
                    ServerMsgView::Reset { message: "Player already connected"@ },
                )
            } else {
                let old_id = s.players[i].id;
                let statuses = match status_get(s.player_statuses, old_id) {
                    Some(data) => status_put(status_remove(s.player_statuses, old_id), socket_id, data),
                    None => s.player_statuses,
                };
                let data = match status_get(statuses, socket_id) {
                    Some(data) => data,
                    None => match s.last_broadcast_status {
                        Some(data) => data,
                        None => waiting_for_players(),
                    },
                };
                Machine {
                    session: SessionView {
                        players: s.players.update(
                            i,
                            PlayerView { id: socket_id, connected: true, ..s.players[i] },
                        ),
                        player_statuses: statuses,
                        ..s
                    },
                    ..self
                }.send_to(
                    socket_id,
                    ServerMsgView::PlayerReconnected {
                        game_id: s.game_id,
                        status: data.status(),
                        data,
                        username: s.players[i].username,
                        points: s.players[i].points,
                        current_question: s.progress(),
                    },
                ).broadcast_total_players()
            },
        }
    }

    /// Whether a reconnect of `client_id` as the manager is accepted.
    pub open spec fn readmits_manager(self, client_id: Seq<char>) -> bool {
        self.session.manager_client_id == client_id && !self.session.manager_connected
    }

    /// The manager comes back on a new socket.
    pub open spec fn manager_reconnect(self, socket_id: Seq<char>, client_id: Seq<char>) -> Machine {
        let s = self.session;
        if s.manager_client_id != client_id {
            self.send_to(socket_id, ServerMsgView::Reset { message: "Game not found"@ })
        } else if s.manager_connected {
            self.send_to(socket_id, ServerMsgView::Reset { message: "Manager already connected"@ })
        } else {
            let data = match s.manager_status {
                Some(data) => data,
                None => match s.last_broadcast_status {
                    Some(data) => data,
                    None => waiting_for_players(),
                },
            };
            Machine {
                session: SessionView { manager_socket_id: socket_id, manager_connected: true, ..s },
                ..self
            }.send_to(
                socket_id,
                ServerMsgView::ManagerReconnected {
                    game_id: s.game_id,
                    status: data.status(),
                    data,
                    players: s.players,
                    current_question: s.progress(),
                },
            ).broadcast_total_players()
        }
    }
}

/// What the readmission of the player at position `k` of the roster
/// comes to. The new socket is sent `PlayerReconnected` with the
/// player's name and points and the frame to resume with, and no `Reset`;
/// everyone is told the number of connected players; and the player is
/// on the roster as connected under the new socket. The frame is the
/// player's own last one where there is one, else the last one sent to
/// everyone, else the frame for those who wait.
pub open spec fn readmitted(
    before: SessionView,
    after: SessionView,
    out: OutcomeView,
    socket_id: Seq<char>,
    k: int,
) -> bool {
    let p = before.players[k];
    &&& after.players == before.players.update(
        k,
        PlayerView { id: socket_id, connected: true, ..p },
    )
    &&& out.events.len() == 2
    &&& out.events[1] == (GameEventView::Broadcast {
        msg: ServerMsgView::TotalPlayers { count: connected_count(after.players) as usize },
    })
    &&& out.events[0] matches GameEventView::SendTo {
        socket_id: to,
        msg: ServerMsgView::PlayerReconnected {
            game_id,
            status,
            data,
            username,
            points,
            current_question,
        },
    }
    &&& to == socket_id
    &&& game_id == before.game_id
    &&& username == p.username
    &&& points == p.points
    &&& current_question == before.progress()
    &&& status == data.status()
    &&& (status_get(before.player_statuses, p.id) matches Some(own) ==> data == own)
    &&& (status_get(before.player_statuses, p.id) is None && status_get(
        before.player_statuses,
        socket_id,
    ) is None ==> data == match before.last_broadcast_status {
        Some(last) => last,
        None => waiting_for_players(),
    })
}

/// What a NextQuestion from `socket_id` comes to. For the manager of a
/// running game with a question left, the current question is the next
/// one and its round has been announced, whatever the session was
/// waiting for. For anyone else, and on the last question, the session is
/// as it was and nothing is left to the host.
pub open spec fn moved_on(before: SessionView, after: SessionView, out: OutcomeView, socket_id: Seq<char>) -> bool {
    if socket_id == before.manager_socket_id && before.running() && !before.is_last_question() {
        &&& after.current_question == before.current_question + 1
        &&& after.quiz == before.quiz
        &&& after.phase == before.phase
        &&& after.wait == Wait::Prepared
        &&& after.round_answers == Seq::<AnswerView>::empty()
        &&& out.timer == (TimerAction::Arm { seconds: PREPARE_DELAY })
    } else {
        after == before && out == OutcomeView::nothing()
    }
}

/// The registry after a socket asked to join: an accepted player's socket
/// is bound to the game.
pub open spec fn join_registry(
    s: SessionView,
    registry: RegistryView,
    socket_id: Seq<char>,
    client_id: Seq<char>,
    username: Seq<char>,
) -> RegistryView {
    if Machine::start(s).join_refusal(client_id, username) is None {
        registry.bound(Role::Player, socket_id, s.game_id)
    } else {
        registry
    }
}

/// The registry after a kick: a kicked player's socket is unbound.
pub open spec fn kick_registry(
    s: SessionView,
    registry: RegistryView,
    socket_id: Seq<char>,
    player_id: Seq<char>,
) -> RegistryView {
    if Machine::start(s).kicks(socket_id, player_id) {
        registry.unbound(Role::Player, player_id)
    } else {
        registry
    }
}

/// The registry after the manager's socket went away.
pub open spec fn manager_disconnect_registry(
    s: SessionView,
    registry: RegistryView,
    socket_id: Seq<char>,
) -> RegistryView {
    if socket_id == s.manager_socket_id {
        registry.unbound(Role::Manager, socket_id)
    } else {
        registry
    }
}

/// The registry after the check on an absent manager: an abandoned
/// session is removed.
pub open spec fn check_registry(s: SessionView, registry: RegistryView, game_id: Seq<char>) -> RegistryView {
    if Machine::start(s).abandoned(game_id) {
        registry.removed(s.game_id)
    } else {
        registry
    }
}

/// The registry after a player asked to come back: the socket of a
/// readmitted player takes the place of the one the player had.
pub open spec fn player_reconnect_registry(
    s: SessionView,
    registry: RegistryView,
    socket_id: Seq<char>,
    client_id: Seq<char>,
) -> RegistryView {
    match first_index(client_ids_of(s.players), client_id) {
        Some(i) => if s.players[i].connected {
            registry
        } else {
            registry.unbound(Role::Player, s.players[i].id).bound(
                Role::Player,
                socket_id,
                s.game_id,
            )
        },
        None => registry,
    }
}

/// The registry after the manager asked to come back.
pub open spec fn manager_reconnect_registry(
    s: SessionView,
    registry: RegistryView,
    socket_id: Seq<char>,
    client_id: Seq<char>,
) -> RegistryView {
    if Machine::start(s).readmits_manager(client_id) {
        registry.unbound(Role::Manager, s.manager_socket_id).bound(
            Role::Manager,
            socket_id,
            s.game_id,
        )
    } else {
        registry
    }
}

/// The step a command asks of a session at time `now`: what becomes of the
/// session and of the registry, and what is left to the host.
pub open spec fn step(s: SessionView, registry: RegistryView, cmd: GameCommandView, now: u64) -> Step {
    let m = Machine::start(s);
    match cmd {
        GameCommandView::Join { socket_id, client_id, username } => Step::of(
            m.join(socket_id, client_id, username),
            join_registry(s, registry, socket_id, client_id, username),
        ),
        GameCommandView::SelectAnswer { socket_id, answer_key } => Step::of(
            m.select_answer(socket_id, answer_key, now),
            registry,
        ),
        GameCommandView::StartGame { socket_id } => Step::of(m.start_game(socket_id), registry),
        GameCommandView::AbortQuiz { socket_id } => Step::of(m.abort_quiz(socket_id), registry),
        GameCommandView::NextQuestion { socket_id } => Step::of(m.next_question(socket_id), registry),
        GameCommandView::ShowLeaderboard {  } => Step::of(m.show_leaderboard(), registry),
        GameCommandView::KickPlayer { socket_id, player_id } => Step::of(
            m.kick_player(socket_id, player_id),
            kick_registry(s, registry, socket_id, player_id),
        ),
        GameCommandView::PlayerDisconnect { socket_id } => Step::of(
            m.player_disconnect(socket_id),
            registry.unbound(Role::Player, socket_id),
        ),
        GameCommandView::ManagerDisconnect { socket_id } => Step::of(
            m.manager_disconnect(socket_id, registry.is_live(s.game_id)),
            manager_disconnect_registry(s, registry, socket_id),
        ),
        GameCommandView::PlayerReconnect { socket_id, client_id } => Step::of(
            m.player_reconnect(socket_id, client_id),
            player_reconnect_registry(s, registry, socket_id, client_id),
        ),
        GameCommandView::ManagerReconnect { socket_id, client_id } => Step::of(
            m.manager_reconnect(socket_id, client_id),
            manager_reconnect_registry(s, registry, socket_id, client_id),
        ),
        GameCommandView::ManagerDisconnectCheck { game_id } => Step::of(
            m.disconnect_check(game_id),
            check_registry(s, registry, game_id),
        ),
    }
}

impl Step {
    /// The step that ends with the machine `m` and the registry `registry`.
    pub open spec fn of(m: Machine, registry: RegistryView) -> Step {
        Step { session: m.session, registry, out: m.out }
    }
}

} // verus!
