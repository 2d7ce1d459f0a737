use std::collections::HashMap;

use quizrush::command::{GameCommand, GameEvent, Outcome, TimerAction};
use quizrush::game::open_game;
use quizrush::message::{ServerMsg, StatusData};
use quizrush::registry::{Registry, Role};
use quizrush::session::{CountdownKind, Phase, Session, StatusEntry, Wait};
use quizrush::types::{GameStatus, Player, Question, QuestionProgress, Quiz};

const SEC: u64 = 1_000_000_000;

fn s(v: &str) -> String {
    v.to_string()
}

fn question(prompt: &str, solution: usize, cooldown: u64, time: u64) -> Question {
    Question {
        question: s(prompt),
        image: Some(s("images/q.png")),
        video: None,
        audio: Some(s("https://cdn.example/a.mp3")),
        answer_image: Some(s("http://x/solution.png")),
        answers: vec![s("No"), s("Correct"), s("No"), s("No")],
        solution,
        cooldown,
        time,
    }
}

fn quiz_of(n: usize) -> Quiz {
    let mut questions = Vec::new();
    for i in 0..n {
        questions.push(question(&format!("Question {}", i + 1), 1, 5, 10));
    }
    Quiz { subject: s("Demo"), questions }
}

fn new_game(n: usize) -> (Registry, Session) {
    let mut registry = Registry::new();
    let (_, session) = open_game(
        &mut registry,
        s("G"),
        s("123456"),
        s("mgr"),
        s("client-mgr"),
        quiz_of(n),
        s("http://h"),
        0,
    )
    .expect("id and code are free");
    (registry, session)
}

fn join(session: &mut Session, registry: &mut Registry, socket: &str, client: &str, name: &str) -> Outcome {
    session.handle(
        registry,
        GameCommand::Join { socket_id: s(socket), client_id: s(client), username: s(name) },
        0,
    )
}

fn answer(session: &mut Session, registry: &mut Registry, socket: &str, key: usize, now: u64) -> Outcome {
    session.handle(registry, GameCommand::SelectAnswer { socket_id: s(socket), answer_key: key }, now)
}

fn with_two_players(n: usize) -> (Registry, Session) {
    let (mut registry, mut session) = new_game(n);
    join(&mut session, &mut registry, "a", "client-a", "alice");
    join(&mut session, &mut registry, "b", "client-b", "bobby");
    (registry, session)
}

/// Starts the game and lets the timer fire until the answer window of the
/// first round opens at time `opened`.
fn open_first_round(session: &mut Session, registry: &mut Registry, opened: u64) {
    session.handle(registry, GameCommand::StartGame { socket_id: s("mgr") }, 0);
    session.on_timer(0); // start delay over
    session.on_timer(0); // 2
    session.on_timer(0); // 1
    session.on_timer(0); // warm-up over, round announced
    session.on_timer(0); // question shown
    session.on_timer(opened); // answers accepted
}

fn broadcast(msg: ServerMsg) -> GameEvent {
    GameEvent::Broadcast { msg }
}

fn send_to(socket: &str, msg: ServerMsg) -> GameEvent {
    GameEvent::SendTo { socket_id: s(socket), msg }
}

fn frame(data: StatusData) -> ServerMsg {
    ServerMsg::frame(data)
}

fn player(id: &str, client: &str, name: &str, points: u128, connected: bool) -> Player {
    Player { id: s(id), client_id: s(client), connected, username: s(name), points }
}

fn waiting_to_answer() -> StatusData {
    StatusData::Wait { text: s("Waiting for the players to answer") }
}

fn select_answer_frame(total_player: usize) -> StatusData {
    StatusData::SelectAnswer {
        question: s("Question 1"),
        answers: vec![s("No"), s("Correct"), s("No"), s("No")],
        image: Some(s("http://h/images/q.png")),
        video: None,
        audio: Some(s("https://cdn.example/a.mp3")),
        time: 10,
        total_player,
    }
}

#[test]
fn join_tells_manager_everyone_and_joiner() {
    let (mut registry, mut session) = new_game(1);
    let out = join(&mut session, &mut registry, "a", "client-a", "alice");
    let alice = player("a", "client-a", "alice", 0, true);
    assert_eq!(
        out.events,
        vec![
            send_to("mgr", ServerMsg::NewPlayer { player: alice.clone() }),
            broadcast(ServerMsg::TotalPlayers { count: 1 }),
            send_to("a", ServerMsg::SuccessJoin { game_id: s("G") }),
        ]
    );
    assert_eq!(out.timer, TimerAction::Keep);
    assert_eq!(out.check_after, None);
    assert!(!out.destroyed);
    assert_eq!(session.players, vec![alice]);
    assert_eq!(registry.socket_game(Role::Player, &s("a")), Some(s("G")));
}

#[test]
fn short_username_is_rejected() {
    let (mut registry, mut session) = new_game(1);
    let out = join(&mut session, &mut registry, "a", "client-a", "abc");
    assert_eq!(
        out.events,
        vec![send_to("a", ServerMsg::error("Username cannot be less than 4 characters"))]
    );
    assert!(session.players.is_empty());
    assert_eq!(registry.socket_game(Role::Player, &s("a")), None);
}

#[test]
fn long_username_is_rejected() {
    let (mut registry, mut session) = new_game(1);
    let out = join(&mut session, &mut registry, "a", "client-a", "abcdefghijklmnopqrstu");
    assert_eq!(out.events, vec![send_to("a", ServerMsg::error("Username cannot exceed 20 characters"))]);
    assert!(session.players.is_empty());
    // Four and twenty characters are both fine.
    join(&mut session, &mut registry, "a", "client-a", "abcd");
    join(&mut session, &mut registry, "b", "client-b", "abcdefghijklmnopqrst");
    assert_eq!(session.players.len(), 2);
}

#[test]
fn username_length_counts_characters() {
    let (mut registry, mut session) = new_game(1);
    // Three characters of two bytes each are still three characters.
    let out = join(&mut session, &mut registry, "a", "client-a", "\u{e9}\u{e9}\u{e9}");
    assert_eq!(
        out.events,
        vec![send_to("a", ServerMsg::error("Username cannot be less than 4 characters"))]
    );
    let out = join(&mut session, &mut registry, "a", "client-a", "\u{e9}\u{e9}\u{e9}\u{e9}");
    assert_eq!(out.events.len(), 3);
}

#[test]
fn same_client_cannot_join_twice() {
    let (mut registry, mut session) = new_game(1);
    join(&mut session, &mut registry, "a", "client-a", "alice");
    let out = join(&mut session, &mut registry, "a2", "client-a", "alice2");
    assert_eq!(out.events, vec![send_to("a2", ServerMsg::error("Player already connected"))]);
    assert_eq!(session.players.len(), 1);
    // The client is refused before the name is looked at.
    let out = join(&mut session, &mut registry, "a2", "client-a", "x");
    assert_eq!(out.events, vec![send_to("a2", ServerMsg::error("Player already connected"))]);
}

#[test]
fn start_game_runs_the_scripted_sequence() {
    let (mut registry, mut session) = with_two_players(1);
    let out = session.handle(&mut registry, GameCommand::StartGame { socket_id: s("mgr") }, 0);
    let start = StatusData::ShowStart { time: 3, subject: s("Demo") };
    assert_eq!(out.events, vec![broadcast(frame(start.clone()))]);
    assert_eq!(out.timer, TimerAction::Arm { seconds: 3 });
    assert_eq!(session.phase, Phase::Running);
    assert_eq!(session.wait, Wait::Intro);
    assert_eq!(session.last_broadcast_status, Some(start));

    let out = session.on_timer(0);
    assert_eq!(out.events, vec![broadcast(ServerMsg::StartCooldown)]);
    assert_eq!(out.timer, TimerAction::Arm { seconds: 1 });
    assert_eq!(session.wait, Wait::Countdown { kind: CountdownKind::Warmup, remaining: 3 });

    let out = session.on_timer(0);
    assert_eq!(out.events, vec![broadcast(ServerMsg::Cooldown { count: 2 })]);
    assert_eq!(out.timer, TimerAction::Arm { seconds: 1 });
    let out = session.on_timer(0);
    assert_eq!(out.events, vec![broadcast(ServerMsg::Cooldown { count: 1 })]);
    assert_eq!(out.timer, TimerAction::Arm { seconds: 1 });

    let out = session.on_timer(0);
    let prepared = StatusData::ShowPrepared { total_answers: 4, question_number: 1 };
    assert_eq!(
        out.events,
        vec![
            broadcast(ServerMsg::UpdateQuestion { current: 1, total: 1 }),
            broadcast(frame(prepared.clone())),
        ]
    );
    assert_eq!(out.timer, TimerAction::Arm { seconds: 2 });
    assert_eq!(session.wait, Wait::Prepared);

    let out = session.on_timer(0);
    let shown = StatusData::ShowQuestion {
        question: s("Question 1"),
        image: Some(s("http://h/images/q.png")),
        cooldown: 5,
    };
    assert_eq!(out.events, vec![broadcast(frame(shown))]);
    assert_eq!(out.timer, TimerAction::Arm { seconds: 5 });
    assert_eq!(session.wait, Wait::Question);

    let out = session.on_timer(42 * SEC);
    assert_eq!(out.events, vec![broadcast(frame(select_answer_frame(2)))]);
    assert_eq!(out.timer, TimerAction::Arm { seconds: 1 });
    assert_eq!(session.wait, Wait::Countdown { kind: CountdownKind::Answers, remaining: 10 });
    assert_eq!(session.round_start_time, 42 * SEC);
    assert_eq!(session.last_broadcast_status, Some(select_answer_frame(2)));
}

#[test]
fn only_the_manager_starts_and_only_once() {
    let (mut registry, mut session) = with_two_players(1);
    let out = session.handle(&mut registry, GameCommand::StartGame { socket_id: s("a") }, 0);
    assert!(out.events.is_empty());
    assert_eq!(out.timer, TimerAction::Keep);
    assert_eq!(session.phase, Phase::Lobby);
    session.handle(&mut registry, GameCommand::StartGame { socket_id: s("mgr") }, 0);
    let out = session.handle(&mut registry, GameCommand::StartGame { socket_id: s("mgr") }, 0);
    assert!(out.events.is_empty());
    assert_eq!(out.timer, TimerAction::Keep);
    assert_eq!(session.wait, Wait::Intro);
}

#[test]
fn answer_window_counts_down_to_the_results() {
    let (mut registry, mut session) = with_two_players(1);
    open_first_round(&mut session, &mut registry, 0);
    for count in (1..10).rev() {
        let out = session.on_timer(0);
        assert_eq!(out.events, vec![broadcast(ServerMsg::Cooldown { count })]);
        assert_eq!(out.timer, TimerAction::Arm { seconds: 1 });
    }
    let out = session.on_timer(0);
    assert_eq!(out.timer, TimerAction::Clear);
    assert_eq!(session.wait, Wait::Idle);
    // Two results and the responses for the manager.
    assert_eq!(out.events.len(), 3);
    assert_eq!(
        out.events[2],
        send_to(
            "mgr",
            frame(StatusData::ShowResponses {
                question: s("Question 1"),
                responses: HashMap::new(),
                correct: 1,
                answers: vec![s("No"), s("Correct"), s("No"), s("No")],
                image: Some(s("http://h/images/q.png")),
            })
        )
    );
    // A timer that fires while nothing is waited for does nothing.
    let out = session.on_timer(0);
    assert!(out.events.is_empty());
    assert_eq!(out.timer, TimerAction::Keep);
}

#[test]
fn scoring_scenario() {
    let (mut registry, mut session) = with_two_players(1);
    let opened = 100 * SEC;
    open_first_round(&mut session, &mut registry, opened);

    let out = answer(&mut session, &mut registry, "a", 1, opened + 2 * SEC);
    assert_eq!(
        out.events,
        vec![
            send_to("a", frame(waiting_to_answer())),
            GameEvent::BroadcastExcept { exclude: s("a"), msg: ServerMsg::PlayerAnswer { count: 1 } },
            broadcast(ServerMsg::TotalPlayers { count: 2 }),
        ]
    );
    assert_eq!(out.timer, TimerAction::Keep);
    assert_eq!(session.round_answers.len(), 1);
    assert_eq!(session.round_answers[0].points, 800);
    assert_eq!(
        session.player_statuses,
        vec![StatusEntry { player_id: s("a"), data: waiting_to_answer() }]
    );

    let out = answer(&mut session, &mut registry, "b", 0, opened + 5 * SEC);
    let alice_result = StatusData::ShowResult {
        correct: true,
        message: s("Nice!"),
        points: 800,
        my_points: 800,
        rank: 1,
        ahead_of_me: None,
        answer_image: Some(s("http://x/solution.png")),
    };
    let bob_result = StatusData::ShowResult {
        correct: false,
        message: s("Too bad"),
        points: 0,
        my_points: 0,
        rank: 2,
        ahead_of_me: Some(s("alice")),
        answer_image: Some(s("http://x/solution.png")),
    };
    let responses = StatusData::ShowResponses {
        question: s("Question 1"),
        responses: HashMap::from([(0, 1), (1, 1)]),
        correct: 1,
        answers: vec![s("No"), s("Correct"), s("No"), s("No")],
        image: Some(s("http://h/images/q.png")),
    };
    assert_eq!(
        out.events,
        vec![
            send_to("b", frame(waiting_to_answer())),
            GameEvent::BroadcastExcept { exclude: s("b"), msg: ServerMsg::PlayerAnswer { count: 2 } },
            broadcast(ServerMsg::TotalPlayers { count: 2 }),
            send_to("a", frame(alice_result.clone())),
            send_to("b", frame(bob_result.clone())),
            send_to("mgr", frame(responses.clone())),
        ]
    );
    let alice = player("a", "client-a", "alice", 800, true);
    let bob = player("b", "client-b", "bobby", 0, true);
    assert_eq!(session.players, vec![alice.clone(), bob.clone()]);
    assert_eq!(session.leaderboard, vec![alice, bob]);
    assert_eq!(
        session.old_leaderboard,
        Some(vec![
            player("a", "client-a", "alice", 0, true),
            player("b", "client-b", "bobby", 0, true)
        ])
    );
    assert_eq!(session.manager_status, Some(responses));
    assert_eq!(
        session.player_statuses,
        vec![
            StatusEntry { player_id: s("a"), data: alice_result },
            StatusEntry { player_id: s("b"), data: bob_result },
        ]
    );
}

#[test]
fn early_end_when_everyone_has_answered() {
    let (mut registry, mut session) = with_two_players(1);
    open_first_round(&mut session, &mut registry, 0);
    let out = answer(&mut session, &mut registry, "b", 1, SEC);
    assert_eq!(out.timer, TimerAction::Keep);
    assert_eq!(session.wait, Wait::Countdown { kind: CountdownKind::Answers, remaining: 10 });
    let out = answer(&mut session, &mut registry, "a", 1, SEC);
    // The countdown is over at once and the results are out.
    assert_eq!(out.timer, TimerAction::Clear);
    assert_eq!(session.wait, Wait::Idle);
    assert_eq!(out.events.len(), 6);
    // Both earn the same, and level players keep their order on the roster.
    assert_eq!(session.players[0].username, "alice");
    assert_eq!(session.players[0].points, 900);
    assert_eq!(session.players[1].points, 900);
}

#[test]
fn ranking_after_scoring_puts_the_winner_first() {
    let (mut registry, mut session) = with_two_players(1);
    open_first_round(&mut session, &mut registry, 0);
    answer(&mut session, &mut registry, "a", 0, SEC);
    let out = answer(&mut session, &mut registry, "b", 1, 4 * SEC);
    assert_eq!(session.players[0], player("b", "client-b", "bobby", 600, true));
    assert_eq!(session.players[1], player("a", "client-a", "alice", 0, true));
    match &out.events[3] {
        GameEvent::SendTo { socket_id, msg: ServerMsg::GameStatus { status, data } } => {
            assert_eq!(socket_id, "b");
            assert_eq!(*status, GameStatus::ShowResult);
            assert_eq!(
                *data,
                StatusData::ShowResult {
                    correct: true,
                    message: s("Nice!"),
                    points: 600,
                    my_points: 600,
                    rank: 1,
                    ahead_of_me: None,
                    answer_image: Some(s("http://x/solution.png")),
                }
            );
        }
        other => panic!("unexpected event {:?}", other),
    }
}

#[test]
fn answers_are_taken_once_and_from_players_only() {
    let (mut registry, mut session) = with_two_players(1);
    open_first_round(&mut session, &mut registry, 0);
    let out = answer(&mut session, &mut registry, "stranger", 1, SEC);
    assert!(out.events.is_empty());
    assert!(session.round_answers.is_empty());
    answer(&mut session, &mut registry, "a", 1, SEC);
    let out = answer(&mut session, &mut registry, "a", 0, 2 * SEC);
    assert!(out.events.is_empty());
    assert_eq!(out.timer, TimerAction::Keep);
    assert_eq!(session.round_answers.len(), 1);
    assert_eq!(session.round_answers[0].answer_id, 1);
    assert_eq!(session.round_answers[0].points, 900);
}

#[test]
fn answer_before_the_window_opens_counts_from_its_opening() {
    let (mut registry, mut session) = with_two_players(1);
    open_first_round(&mut session, &mut registry, 50 * SEC);
    // A clock reading before the opening counts as no time gone.
    answer(&mut session, &mut registry, "a", 1, 10 * SEC);
    assert_eq!(session.round_answers[0].points, 1000);
    let (mut registry, mut session) = with_two_players(1);
    open_first_round(&mut session, &mut registry, 50 * SEC);
    answer(&mut session, &mut registry, "a", 1, 70 * SEC);
    assert_eq!(session.round_answers[0].points, 0);
}

#[test]
fn abort_quiz_ends_the_answer_window() {
    let (mut registry, mut session) = with_two_players(1);
    open_first_round(&mut session, &mut registry, 0);
    answer(&mut session, &mut registry, "a", 1, SEC);
    let out = session.handle(&mut registry, GameCommand::AbortQuiz { socket_id: s("b") }, 0);
    assert!(out.events.is_empty());
    assert_eq!(out.timer, TimerAction::Keep);
    let out = session.handle(&mut registry, GameCommand::AbortQuiz { socket_id: s("mgr") }, 0);
    assert_eq!(out.timer, TimerAction::Clear);
    assert_eq!(out.events.len(), 3);
    assert_eq!(session.players[0].points, 900);
    assert_eq!(session.wait, Wait::Idle);
    // With nothing counting down there is nothing to abort.
    let out = session.handle(&mut registry, GameCommand::AbortQuiz { socket_id: s("mgr") }, 0);
    assert!(out.events.is_empty());
    assert_eq!(out.timer, TimerAction::Keep);
}

#[test]
fn abort_quiz_skips_the_warm_up() {
    let (mut registry, mut session) = with_two_players(1);
    session.handle(&mut registry, GameCommand::StartGame { socket_id: s("mgr") }, 0);
    // During the start delay nothing counts down yet.
    let out = session.handle(&mut registry, GameCommand::AbortQuiz { socket_id: s("mgr") }, 0);
    assert!(out.events.is_empty());
    assert_eq!(session.wait, Wait::Intro);
    session.on_timer(0);
    let out = session.handle(&mut registry, GameCommand::AbortQuiz { socket_id: s("mgr") }, 0);
    assert_eq!(out.timer, TimerAction::Arm { seconds: 2 });
    assert_eq!(session.wait, Wait::Prepared);
    assert_eq!(out.events.len(), 2);
}

#[test]
fn leaderboard_between_rounds_goes_to_the_manager() {
    let (mut registry, mut session) = with_two_players(2);
    open_first_round(&mut session, &mut registry, 0);
    answer(&mut session, &mut registry, "a", 0, SEC);
    answer(&mut session, &mut registry, "b", 1, SEC);
    let out = session.handle(&mut registry, GameCommand::ShowLeaderboard {}, 0);
    let board = StatusData::ShowLeaderboard {
        old_leaderboard: vec![
            player("a", "client-a", "alice", 0, true),
            player("b", "client-b", "bobby", 0, true),
        ],
        leaderboard: vec![
            player("b", "client-b", "bobby", 900, true),
            player("a", "client-a", "alice", 0, true),
        ],
    };
    assert_eq!(out.events, vec![send_to("mgr", frame(board.clone()))]);
    assert_eq!(session.manager_status, Some(board));
    assert_eq!(session.old_leaderboard, None);
    assert_eq!(session.phase, Phase::Running);
    // Asked again, the previous board is the current one.
    let out = session.handle(&mut registry, GameCommand::ShowLeaderboard {}, 0);
    let again = StatusData::ShowLeaderboard {
        old_leaderboard: vec![
            player("b", "client-b", "bobby", 900, true),
            player("a", "client-a", "alice", 0, true),
        ],
        leaderboard: vec![
            player("b", "client-b", "bobby", 900, true),
            player("a", "client-a", "alice", 0, true),
        ],
    };
    assert_eq!(out.events, vec![send_to("mgr", frame(again))]);
}

#[test]
fn leaderboard_shows_at_most_five_and_podium_three() {
    let (mut registry, mut session) = new_game(2);
    for i in 0..7 {
        join(&mut session, &mut registry, &format!("s{}", i), &format!("c{}", i), &format!("name{}", i));
    }
    open_first_round(&mut session, &mut registry, 0);
    session.handle(&mut registry, GameCommand::AbortQuiz { socket_id: s("mgr") }, 0);
    let out = session.handle(&mut registry, GameCommand::ShowLeaderboard {}, 0);
    match &out.events[0] {
        GameEvent::SendTo {
            msg: ServerMsg::GameStatus { data: StatusData::ShowLeaderboard { old_leaderboard, leaderboard }, .. },
            ..
        } => {
            assert_eq!(old_leaderboard.len(), 5);
            assert_eq!(leaderboard.len(), 5);
            assert_eq!(leaderboard[4].username, "name4");
        }
        other => panic!("unexpected event {:?}", other),
    }
    session.handle(&mut registry, GameCommand::NextQuestion { socket_id: s("mgr") }, 0);
    let out = session.handle(&mut registry, GameCommand::ShowLeaderboard {}, 0);
    match &out.events[0] {
        GameEvent::Broadcast {
            msg: ServerMsg::GameStatus { status, data: StatusData::Finished { subject, top } },
        } => {
            assert_eq!(*status, GameStatus::Finished);
            assert_eq!(subject, "Demo");
            assert_eq!(top.len(), 3);
            assert_eq!(top[2].username, "name2");
        }
        other => panic!("unexpected event {:?}", other),
    }
    assert_eq!(session.phase, Phase::Finished);
}

#[test]
fn last_leaderboard_finishes_the_game() {
    let (mut registry, mut session) = with_two_players(1);
    open_first_round(&mut session, &mut registry, 0);
    answer(&mut session, &mut registry, "a", 1, 2 * SEC);
    answer(&mut session, &mut registry, "b", 0, 5 * SEC);
    let out = session.handle(&mut registry, GameCommand::ShowLeaderboard {}, 0);
    let finished = StatusData::Finished {
        subject: s("Demo"),
        top: vec![
            player("a", "client-a", "alice", 800, true),
            player("b", "client-b", "bobby", 0, true),
        ],
    };
    assert_eq!(out.events, vec![broadcast(frame(finished.clone()))]);
    assert_eq!(session.phase, Phase::Finished);
    assert_eq!(session.last_broadcast_status, Some(finished));
    // A finished game is not started again.
    let out = session.handle(&mut registry, GameCommand::StartGame { socket_id: s("mgr") }, 0);
    assert!(out.events.is_empty());
    assert_eq!(session.phase, Phase::Finished);
}

#[test]
fn next_question_starts_the_next_round() {
    let (mut registry, mut session) = with_two_players(2);
    open_first_round(&mut session, &mut registry, 0);
    answer(&mut session, &mut registry, "a", 1, SEC);
    answer(&mut session, &mut registry, "b", 1, SEC);
    let out = session.handle(&mut registry, GameCommand::NextQuestion { socket_id: s("a") }, 0);
    assert!(out.events.is_empty());
    let out = session.handle(&mut registry, GameCommand::NextQuestion { socket_id: s("mgr") }, 0);
    assert_eq!(
        out.events,
        vec![
            broadcast(ServerMsg::UpdateQuestion { current: 2, total: 2 }),
            broadcast(frame(StatusData::ShowPrepared { total_answers: 4, question_number: 2 })),
        ]
    );
    assert_eq!(out.timer, TimerAction::Arm { seconds: 2 });
    assert_eq!(session.current_question, 1);
    assert!(session.round_answers.is_empty());
    assert!(session.player_statuses.is_empty());
    assert_eq!(session.manager_status, None);
    // Points add up over the rounds.
    session.on_timer(0);
    session.on_timer(0);
    answer(&mut session, &mut registry, "a", 1, 0);
    answer(&mut session, &mut registry, "b", 0, 0);
    assert_eq!(session.players[0], player("a", "client-a", "alice", 1900, true));
    assert_eq!(session.players[1], player("b", "client-b", "bobby", 900, true));
    // There is no question after the last.
    let out = session.handle(&mut registry, GameCommand::NextQuestion { socket_id: s("mgr") }, 0);
    assert!(out.events.is_empty());
    assert_eq!(session.current_question, 1);
}

#[test]
fn next_question_needs_a_running_game() {
    let (mut registry, mut session) = with_two_players(2);
    let out = session.handle(&mut registry, GameCommand::NextQuestion { socket_id: s("mgr") }, 0);
    assert!(out.events.is_empty());
    assert_eq!(session.current_question, 0);
    assert_eq!(session.wait, Wait::Idle);
}

#[test]
fn kick_removes_the_player_and_closes_the_socket() {
    let (mut registry, mut session) = with_two_players(1);
    open_first_round(&mut session, &mut registry, 0);
    answer(&mut session, &mut registry, "a", 1, SEC);
    let out = session.handle(
        &mut registry,
        GameCommand::KickPlayer { socket_id: s("b"), player_id: s("a") },
        0,
    );
    assert!(out.events.is_empty());
    assert_eq!(session.players.len(), 2);
    let out = session.handle(
        &mut registry,
        GameCommand::KickPlayer { socket_id: s("mgr"), player_id: s("nobody") },
        0,
    );
    assert!(out.events.is_empty());
    let out = session.handle(
        &mut registry,
        GameCommand::KickPlayer { socket_id: s("mgr"), player_id: s("a") },
        0,
    );
    assert_eq!(
        out.events,
        vec![
            GameEvent::KickSocket {
                socket_id: s("a"),
                msg: ServerMsg::reset("You have been kicked by the manager"),
            },
            send_to("mgr", ServerMsg::PlayerKicked { player_id: s("a") }),
            broadcast(ServerMsg::TotalPlayers { count: 1 }),
        ]
    );
    assert_eq!(session.players, vec![player("b", "client-b", "bobby", 0, true)]);
    assert!(session.player_statuses.is_empty());
    assert_eq!(registry.socket_game(Role::Player, &s("a")), None);
    assert_eq!(registry.socket_game(Role::Player, &s("b")), Some(s("G")));
}

#[test]
fn player_leaving_the_lobby_is_removed() {
    let (mut registry, mut session) = with_two_players(1);
    let out = session.handle(&mut registry, GameCommand::PlayerDisconnect { socket_id: s("a") }, 0);
    assert_eq!(
        out.events,
        vec![
            send_to("mgr", ServerMsg::RemovePlayer { player_id: s("a") }),
            broadcast(ServerMsg::TotalPlayers { count: 1 }),
        ]
    );
    assert_eq!(session.players, vec![player("b", "client-b", "bobby", 0, true)]);
    assert_eq!(registry.socket_game(Role::Player, &s("a")), None);
    // A socket that is no player's is unbound, and the count is told again.
    registry.bind_socket(Role::Player, s("x"), s("G"));
    let out = session.handle(&mut registry, GameCommand::PlayerDisconnect { socket_id: s("x") }, 0);
    assert_eq!(out.events, vec![broadcast(ServerMsg::TotalPlayers { count: 1 })]);
    assert_eq!(session.players, vec![player("b", "client-b", "bobby", 0, true)]);
    assert_eq!(registry.socket_game(Role::Player, &s("x")), None);
}

#[test]
fn player_reconnect_mid_game() {
    let (mut registry, mut session) = with_two_players(1);
    open_first_round(&mut session, &mut registry, 0);
    let out = session.handle(&mut registry, GameCommand::PlayerDisconnect { socket_id: s("a") }, 0);
    assert_eq!(out.events, vec![broadcast(ServerMsg::TotalPlayers { count: 1 })]);
    assert_eq!(session.players[0], player("a", "client-a", "alice", 0, false));
    assert_eq!(registry.socket_game(Role::Player, &s("a")), None);

    let out = session.handle(
        &mut registry,
        GameCommand::PlayerReconnect { socket_id: s("a2"), client_id: s("client-a") },
        0,
    );
    assert_eq!(
        out.events,
        vec![
            send_to(
                "a2",
                ServerMsg::PlayerReconnected {
                    game_id: s("G"),
                    status: GameStatus::SelectAnswer,
                    data: select_answer_frame(2),
                    username: s("alice"),
                    points: 0,
                    current_question: QuestionProgress { current: 1, total: 1 },
                }
            ),
            broadcast(ServerMsg::TotalPlayers { count: 2 }),
        ]
    );
    assert_eq!(session.players[0], player("a2", "client-a", "alice", 0, true));
    assert_eq!(registry.socket_game(Role::Player, &s("a2")), Some(s("G")));
}

#[test]
fn player_reconnect_resumes_the_own_frame_and_keeps_points() {
    let (mut registry, mut session) = with_two_players(2);
    open_first_round(&mut session, &mut registry, 0);
    answer(&mut session, &mut registry, "a", 1, 2 * SEC);
    answer(&mut session, &mut registry, "b", 1, 3 * SEC);
    session.handle(&mut registry, GameCommand::NextQuestion { socket_id: s("mgr") }, 0);
    session.on_timer(0);
    session.on_timer(0);
    answer(&mut session, &mut registry, "a", 1, 0);
    session.handle(&mut registry, GameCommand::PlayerDisconnect { socket_id: s("a") }, 0);
    let out = session.handle(
        &mut registry,
        GameCommand::PlayerReconnect { socket_id: s("a2"), client_id: s("client-a") },
        0,
    );
    assert_eq!(
        out.events[0],
        send_to(
            "a2",
            ServerMsg::PlayerReconnected {
                game_id: s("G"),
                status: GameStatus::Wait,
                data: waiting_to_answer(),
                username: s("alice"),
                points: 800,
                current_question: QuestionProgress { current: 2, total: 2 },
            }
        )
    );
    // The frame moved to the new socket.
    assert_eq!(
        session.player_statuses,
        vec![StatusEntry { player_id: s("a2"), data: waiting_to_answer() }]
    );
}

#[test]
fn reconnect_twice_is_refused_the_second_time() {
    let (mut registry, mut session) = with_two_players(1);
    open_first_round(&mut session, &mut registry, 0);
    session.handle(&mut registry, GameCommand::PlayerDisconnect { socket_id: s("a") }, 0);
    let first = session.handle(
        &mut registry,
        GameCommand::PlayerReconnect { socket_id: s("a2"), client_id: s("client-a") },
        0,
    );
    assert!(matches!(
        &first.events[0],
        GameEvent::SendTo { msg: ServerMsg::PlayerReconnected { .. }, .. }
    ));
    let second = session.handle(
        &mut registry,
        GameCommand::PlayerReconnect { socket_id: s("a2"), client_id: s("client-a") },
        0,
    );
    assert_eq!(second.events, vec![send_to("a2", ServerMsg::reset("Player already connected"))]);
}

#[test]
fn reconnect_of_an_unknown_client_is_refused() {
    let (mut registry, mut session) = with_two_players(1);
    let out = session.handle(
        &mut registry,
        GameCommand::PlayerReconnect { socket_id: s("z"), client_id: s("client-z") },
        0,
    );
    assert_eq!(out.events, vec![send_to("z", ServerMsg::reset("Game not found"))]);
    let out = session.handle(
        &mut registry,
        GameCommand::PlayerReconnect { socket_id: s("z"), client_id: s("client-a") },
        0,
    );
    assert_eq!(out.events, vec![send_to("z", ServerMsg::reset("Player already connected"))]);
    assert_eq!(registry.socket_game(Role::Player, &s("z")), None);
}

#[test]
fn reconnect_in_the_lobby_shows_the_waiting_frame() {
    let (mut registry, mut session) = with_two_players(1);
    session.handle(&mut registry, GameCommand::StartGame { socket_id: s("mgr") }, 0);
    // Forget what was broadcast so that nothing is recorded at all.
    session.last_broadcast_status = None;
    session.handle(&mut registry, GameCommand::PlayerDisconnect { socket_id: s("b") }, 0);
    let out = session.handle(
        &mut registry,
        GameCommand::PlayerReconnect { socket_id: s("b2"), client_id: s("client-b") },
        0,
    );
    assert_eq!(
        out.events[0],
        send_to(
            "b2",
            ServerMsg::PlayerReconnected {
                game_id: s("G"),
                status: GameStatus::Wait,
                data: StatusData::Wait { text: s("Waiting for players") },
                username: s("bobby"),
                points: 0,
                current_question: QuestionProgress { current: 1, total: 1 },
            }
        )
    );
}

#[test]
fn manager_disconnect_before_start_destroys_the_session() {
    let (mut registry, mut session) = with_two_players(1);
    let out = session.handle(&mut registry, GameCommand::ManagerDisconnect { socket_id: s("a") }, 0);
    assert_eq!(out.check_after, None);
    assert!(session.manager_connected);
    let out = session.handle(&mut registry, GameCommand::ManagerDisconnect { socket_id: s("mgr") }, 0);
    assert!(out.events.is_empty());
    assert_eq!(out.check_after, Some(10));
    assert!(!out.destroyed);
    assert!(!session.manager_connected);
    assert_eq!(registry.socket_game(Role::Manager, &s("mgr")), None);

    let out = session.handle(
        &mut registry,
        GameCommand::ManagerDisconnectCheck { game_id: s("other") },
        0,
    );
    assert!(out.events.is_empty() && !out.destroyed);
    let out = session.handle(&mut registry, GameCommand::ManagerDisconnectCheck { game_id: s("G") }, 0);
    assert_eq!(out.events, vec![broadcast(ServerMsg::reset("Manager disconnected"))]);
    assert!(out.destroyed);
    assert_eq!(registry.lookup_by_game_id(&s("G")), None);
    assert_eq!(registry.lookup_by_invite(&s("123456")), None);
    assert_eq!(registry.socket_game(Role::Player, &s("a")), None);
    assert_eq!(registry.socket_game(Role::Player, &s("b")), None);
}

#[test]
fn manager_reconnect_within_grace_keeps_the_session() {
    let (mut registry, mut session) = with_two_players(1);
    session.handle(&mut registry, GameCommand::ManagerDisconnect { socket_id: s("mgr") }, 0);
    let out = session.handle(
        &mut registry,
        GameCommand::ManagerReconnect { socket_id: s("mgr2"), client_id: s("client-mgr") },
        5 * SEC,
    );
    assert_eq!(
        out.events,
        vec![
            send_to(
                "mgr2",
                ServerMsg::ManagerReconnected {
                    game_id: s("G"),
                    status: GameStatus::Wait,
                    data: StatusData::Wait { text: s("Waiting for players") },
                    players: vec![
                        player("a", "client-a", "alice", 0, true),
                        player("b", "client-b", "bobby", 0, true),
                    ],
                    current_question: QuestionProgress { current: 1, total: 1 },
                }
            ),
            broadcast(ServerMsg::TotalPlayers { count: 2 }),
        ]
    );
    assert!(session.manager_connected);
    assert_eq!(session.manager_socket_id, "mgr2");
    assert_eq!(registry.socket_game(Role::Manager, &s("mgr2")), Some(s("G")));
    let out = session.handle(&mut registry, GameCommand::ManagerDisconnectCheck { game_id: s("G") }, 0);
    assert!(out.events.is_empty());
    assert!(!out.destroyed);
    assert!(registry.is_live(&s("G")));
    // The new socket is the manager's now.
    let out = session.handle(&mut registry, GameCommand::StartGame { socket_id: s("mgr") }, 0);
    assert!(out.events.is_empty());
    let out = session.handle(&mut registry, GameCommand::StartGame { socket_id: s("mgr2") }, 0);
    assert_eq!(out.events.len(), 1);
}

#[test]
fn manager_reconnect_is_refused_for_strangers_and_for_the_connected() {
    let (mut registry, mut session) = with_two_players(1);
    let out = session.handle(
        &mut registry,
        GameCommand::ManagerReconnect { socket_id: s("x"), client_id: s("client-x") },
        0,
    );
    assert_eq!(out.events, vec![send_to("x", ServerMsg::reset("Game not found"))]);
    let out = session.handle(
        &mut registry,
        GameCommand::ManagerReconnect { socket_id: s("x"), client_id: s("client-mgr") },
        0,
    );
    assert_eq!(out.events, vec![send_to("x", ServerMsg::reset("Manager already connected"))]);
    assert_eq!(session.manager_socket_id, "mgr");
}

#[test]
fn manager_reconnect_resumes_the_manager_frame() {
    let (mut registry, mut session) = with_two_players(2);
    open_first_round(&mut session, &mut registry, 0);
    session.handle(&mut registry, GameCommand::AbortQuiz { socket_id: s("mgr") }, 0);
    session.handle(&mut registry, GameCommand::ManagerDisconnect { socket_id: s("mgr") }, 0);
    let out = session.handle(
        &mut registry,
        GameCommand::ManagerReconnect { socket_id: s("mgr2"), client_id: s("client-mgr") },
        0,
    );
    match &out.events[0] {
        GameEvent::SendTo { socket_id, msg: ServerMsg::ManagerReconnected { status, data, .. } } => {
            assert_eq!(socket_id, "mgr2");
            assert_eq!(*status, GameStatus::ShowResponses);
            assert!(matches!(data, StatusData::ShowResponses { .. }));
        }
        other => panic!("unexpected event {:?}", other),
    }
    // A running game outlives the check on its manager.
    session.handle(&mut registry, GameCommand::ManagerDisconnect { socket_id: s("mgr2") }, 0);
    let out = session.handle(&mut registry, GameCommand::ManagerDisconnectCheck { game_id: s("G") }, 0);
    assert!(out.events.is_empty());
    assert!(!out.destroyed);
    assert!(registry.is_live(&s("G")));
}

#[test]
fn game_finished_mid_round_lets_the_round_lapse() {
    let (mut registry, mut session) = with_two_players(1);
    open_first_round(&mut session, &mut registry, 0);
    answer(&mut session, &mut registry, "a", 1, SEC);
    session.handle(&mut registry, GameCommand::ShowLeaderboard {}, 0);
    assert_eq!(session.phase, Phase::Finished);
    let out = answer(&mut session, &mut registry, "b", 1, SEC);
    // Both have answered, the countdown is cut short, but no results follow.
    assert_eq!(out.events.len(), 3);
    assert_eq!(out.timer, TimerAction::Clear);
    assert_eq!(session.wait, Wait::Idle);
    assert_eq!(session.players[0].points, 0);
}

#[test]
fn question_progress_and_helpers() {
    let (_registry, session) = with_two_players(3);
    assert_eq!(session.question_progress(), QuestionProgress { current: 1, total: 3 });
    assert!(!session.running());
    assert_eq!(session.question().question, "Question 1");
    assert_eq!(
        session.resolve_image(&Some(s("images/x.png"))),
        Some(s("http://h/images/x.png"))
    );
    assert_eq!(session.last_frame(), StatusData::Wait { text: s("Waiting for players") });
}

#[test]
fn sessions_the_engine_made_pass_the_check() {
    let (mut registry, mut session) = with_two_players(2);
    assert!(session.check());
    open_first_round(&mut session, &mut registry, 0);
    assert!(session.check());
    answer(&mut session, &mut registry, "a", 1, SEC);
    answer(&mut session, &mut registry, "b", 1, SEC);
    assert!(session.check());
    session.handle(&mut registry, GameCommand::NextQuestion { socket_id: s("mgr") }, 0);
    assert!(session.check());
}

#[test]
fn sessions_changed_by_hand_fail_the_check() {
    let (_registry, session) = with_two_players(2);
    let mut broken = session;
    broken.current_question = 2;
    assert!(!broken.check());
    let (_registry, mut broken) = with_two_players(2);
    broken.players[0].points = 1;
    assert!(!broken.check());
    let (_registry, mut broken) = with_two_players(2);
    broken.wait = Wait::Prepared;
    assert!(!broken.check());
    let (mut registry, mut broken) = with_two_players(2);
    open_first_round(&mut broken, &mut registry, 0);
    answer(&mut broken, &mut registry, "a", 1, SEC);
    broken.round_answers[0].points = 1001;
    assert!(!broken.check());
    broken.round_answers[0].points = 1000;
    assert!(broken.check());
    let copy = broken.round_answers[0].clone();
    broken.round_answers.push(copy);
    assert!(!broken.check());
    let (_registry, mut broken) = with_two_players(2);
    broken.players[1].client_id = s("client-a");
    assert!(!broken.check());
}

#[test]
fn answer_window_without_length_ends_after_one_second() {
    let mut registry = Registry::new();
    let mut quiz = quiz_of(1);
    quiz.questions[0].time = 0;
    quiz.questions[0].cooldown = 0;
    let (_, mut session) =
        open_game(&mut registry, s("G"), s("123456"), s("mgr"), s("client-mgr"), quiz, s("http://h"), 0)
            .expect("id and code are free");
    join(&mut session, &mut registry, "a", "client-a", "alice");
    session.handle(&mut registry, GameCommand::StartGame { socket_id: s("mgr") }, 0);
    session.on_timer(0);
    session.on_timer(0);
    session.on_timer(0);
    session.on_timer(0);
    let out = session.on_timer(0);
    // A question that is shown for no time is followed at once.
    assert_eq!(out.timer, TimerAction::Arm { seconds: 0 });
    let out = session.on_timer(5 * SEC);
    assert_eq!(out.timer, TimerAction::Arm { seconds: 1 });
    assert_eq!(session.wait, Wait::Countdown { kind: CountdownKind::Answers, remaining: 0 });
    // Whatever is answered now comes too late.
    let out = answer(&mut session, &mut registry, "a", 1, 5 * SEC);
    assert_eq!(out.timer, TimerAction::Clear);
    assert_eq!(session.players[0].points, 0);
    assert_eq!(session.wait, Wait::Idle);
}

#[test]
fn one_second_window_announces_no_count() {
    let mut registry = Registry::new();
    let mut quiz = quiz_of(1);
    quiz.questions[0].time = 1;
    let (_, mut session) =
        open_game(&mut registry, s("G"), s("123456"), s("mgr"), s("client-mgr"), quiz, s("http://h"), 0)
            .expect("id and code are free");
    join(&mut session, &mut registry, "a", "client-a", "alice");
    open_first_round(&mut session, &mut registry, 0);
    let out = session.on_timer(SEC);
    assert_eq!(out.timer, TimerAction::Clear);
    assert_eq!(out.events.len(), 2);
    assert!(out.events.iter().all(|e| !matches!(e.message(), ServerMsg::Cooldown { .. })));
}

#[test]
fn answer_in_the_lobby_is_recorded_and_dropped_by_the_first_round() {
    let (mut registry, mut session) = with_two_players(1);
    let out = answer(&mut session, &mut registry, "a", 1, 0);
    assert_eq!(out.events.len(), 3);
    assert_eq!(out.timer, TimerAction::Keep);
    assert_eq!(session.round_answers.len(), 1);
    assert_eq!(session.round_answers[0].points, 1000);
    open_first_round(&mut session, &mut registry, 0);
    assert!(session.round_answers.is_empty());
    assert!(session.player_statuses.is_empty());
    assert_eq!(session.players[0].points, 0);
}

#[test]
fn leaderboard_in_the_lobby_of_a_one_question_quiz_finishes_it() {
    let (mut registry, mut session) = with_two_players(1);
    let out = session.handle(&mut registry, GameCommand::ShowLeaderboard {}, 0);
    assert_eq!(
        out.events,
        vec![broadcast(frame(StatusData::Finished { subject: s("Demo"), top: vec![] }))]
    );
    assert_eq!(session.phase, Phase::Finished);
    let out = session.handle(&mut registry, GameCommand::StartGame { socket_id: s("mgr") }, 0);
    assert!(out.events.is_empty());
}

#[test]
fn player_leaving_a_finished_game_is_removed() {
    let (mut registry, mut session) = with_two_players(1);
    open_first_round(&mut session, &mut registry, 0);
    answer(&mut session, &mut registry, "a", 1, SEC);
    answer(&mut session, &mut registry, "b", 1, SEC);
    session.handle(&mut registry, GameCommand::ShowLeaderboard {}, 0);
    let out = session.handle(&mut registry, GameCommand::PlayerDisconnect { socket_id: s("b") }, 0);
    assert_eq!(
        out.events,
        vec![
            send_to("mgr", ServerMsg::RemovePlayer { player_id: s("b") }),
            broadcast(ServerMsg::TotalPlayers { count: 1 }),
        ]
    );
    assert_eq!(session.players.len(), 1);
    // The board that was shown keeps the player.
    assert_eq!(session.leaderboard.len(), 2);
}

#[test]
fn finished_game_without_its_manager_is_removed_by_the_check() {
    let (mut registry, mut session) = with_two_players(1);
    open_first_round(&mut session, &mut registry, 0);
    session.handle(&mut registry, GameCommand::AbortQuiz { socket_id: s("mgr") }, 0);
    session.handle(&mut registry, GameCommand::ShowLeaderboard {}, 0);
    session.handle(&mut registry, GameCommand::ManagerDisconnect { socket_id: s("mgr") }, 0);
    let out = session.handle(&mut registry, GameCommand::ManagerDisconnectCheck { game_id: s("G") }, 0);
    assert!(out.destroyed);
    assert!(!registry.is_live(&s("G")));
}

#[test]
fn answer_window_ends_early_when_only_the_connected_have_answered() {
    let (mut registry, mut session) = with_two_players(1);
    open_first_round(&mut session, &mut registry, 0);
    session.handle(&mut registry, GameCommand::PlayerDisconnect { socket_id: s("b") }, 0);
    let out = answer(&mut session, &mut registry, "a", 1, 3 * SEC);
    assert_eq!(out.timer, TimerAction::Clear);
    assert_eq!(session.players[0], player("a", "client-a", "alice", 700, true));
    assert_eq!(session.players[1], player("b", "client-b", "bobby", 0, false));
    // The one who is away is sent a result all the same.
    assert_eq!(out.events.len(), 6);
}

#[test]
fn manager_disconnect_of_an_unregistered_session_schedules_no_check() {
    let (mut registry, mut session) = with_two_players(1);
    registry.remove_game(&s("G"));
    let out = session.handle(&mut registry, GameCommand::ManagerDisconnect { socket_id: s("mgr") }, 0);
    assert_eq!(out.check_after, None);
    assert!(!session.manager_connected);
}

#[test]
fn status_for_the_manager_is_kept_apart_from_the_players() {
    let (mut registry, mut session) = new_game(1);
    // The manager plays along on the managing socket.
    join(&mut session, &mut registry, "mgr", "client-mgr", "boss");
    open_first_round(&mut session, &mut registry, 0);
    let out = answer(&mut session, &mut registry, "mgr", 1, SEC);
    assert_eq!(out.timer, TimerAction::Clear);
    assert!(session.player_statuses.is_empty());
    assert!(matches!(session.manager_status, Some(StatusData::ShowResponses { .. })));
    assert_eq!(session.players[0].points, 900);
}

#[test]
fn next_question_during_a_round_ends_it_with_results() {
    let (mut registry, mut session) = with_two_players(2);
    open_first_round(&mut session, &mut registry, 0);
    answer(&mut session, &mut registry, "a", 1, SEC);
    let out = session.handle(&mut registry, GameCommand::NextQuestion { socket_id: s("mgr") }, 0);
    assert_eq!(out.events.len(), 5);
    assert_eq!(
        out.events[0],
        send_to(
            "a",
            frame(StatusData::ShowResult {
                correct: true,
                message: s("Nice!"),
                points: 900,
                my_points: 900,
                rank: 1,
                ahead_of_me: None,
                answer_image: Some(s("http://x/solution.png")),
            })
        )
    );
    assert!(matches!(
        &out.events[2],
        GameEvent::SendTo { msg: ServerMsg::GameStatus { data: StatusData::ShowResponses { .. }, .. }, .. }
    ));
    assert_eq!(out.events[3], broadcast(ServerMsg::UpdateQuestion { current: 2, total: 2 }));
    assert_eq!(
        out.events[4],
        broadcast(frame(StatusData::ShowPrepared { total_answers: 4, question_number: 2 }))
    );
    assert_eq!(out.timer, TimerAction::Arm { seconds: 2 });
    assert_eq!(session.wait, Wait::Prepared);
    assert_eq!(session.current_question, 1);
    assert_eq!(session.players[0], player("a", "client-a", "alice", 900, true));
    assert_eq!(session.leaderboard.len(), 2);
    assert!(session.round_answers.is_empty());
    assert!(session.player_statuses.is_empty());
    assert!(session.check());
}

#[test]
fn next_question_before_the_first_round_skips_to_the_second() {
    let (mut registry, mut session) = with_two_players(3);
    session.handle(&mut registry, GameCommand::StartGame { socket_id: s("mgr") }, 0);
    // During the start delay no round is under way: nothing is scored.
    let out = session.handle(&mut registry, GameCommand::NextQuestion { socket_id: s("mgr") }, 0);
    assert_eq!(
        out.events,
        vec![
            broadcast(ServerMsg::UpdateQuestion { current: 2, total: 3 }),
            broadcast(frame(StatusData::ShowPrepared { total_answers: 4, question_number: 2 })),
        ]
    );
    assert_eq!(out.timer, TimerAction::Arm { seconds: 2 });
    assert_eq!(session.current_question, 1);
    assert_eq!(session.wait, Wait::Prepared);
    assert!(session.leaderboard.is_empty());
    // While the round is announced it is under way: moving on scores it.
    let out = session.handle(&mut registry, GameCommand::NextQuestion { socket_id: s("mgr") }, 0);
    assert_eq!(out.events.len(), 5);
    assert_eq!(session.current_question, 2);
    assert_eq!(session.leaderboard.len(), 2);
    // On the last question the command does nothing, whatever is waited for.
    let out = session.handle(&mut registry, GameCommand::NextQuestion { socket_id: s("mgr") }, 0);
    assert!(out.events.is_empty());
    assert_eq!(out.timer, TimerAction::Keep);
    assert_eq!(session.current_question, 2);
    assert_eq!(session.wait, Wait::Prepared);
    assert!(session.check());
}

#[test]
fn responses_count_each_chosen_answer() {
    let (mut registry, mut session) = new_game(1);
    for i in 0..5 {
        join(&mut session, &mut registry, &format!("s{}", i), &format!("c{}", i), &format!("name{}", i));
    }
    open_first_round(&mut session, &mut registry, 0);
    answer(&mut session, &mut registry, "s0", 2, SEC);
    answer(&mut session, &mut registry, "s1", 0, SEC);
    answer(&mut session, &mut registry, "s2", 2, SEC);
    answer(&mut session, &mut registry, "s3", 2, SEC);
    let out = session.handle(&mut registry, GameCommand::AbortQuiz { socket_id: s("mgr") }, 0);
    match out.events.last() {
        Some(GameEvent::SendTo {
            socket_id,
            msg: ServerMsg::GameStatus { data: StatusData::ShowResponses { responses, correct, .. }, .. },
        }) => {
            assert_eq!(socket_id, "mgr");
            assert_eq!(*correct, 1);
            assert_eq!(*responses, HashMap::from([(2, 3), (0, 1)]));
            assert_eq!(responses.get(&1), None);
        }
        other => panic!("unexpected event {:?}", other),
    }
}

#[test]
fn scoring_ranks_the_roster_and_gives_at_most_a_thousand() {
    let (mut registry, mut session) = new_game(1);
    for i in 0..4 {
        join(&mut session, &mut registry, &format!("s{}", i), &format!("c{}", i), &format!("name{}", i));
    }
    open_first_round(&mut session, &mut registry, 0);
    answer(&mut session, &mut registry, "s2", 1, 0);
    answer(&mut session, &mut registry, "s0", 1, 4 * SEC);
    answer(&mut session, &mut registry, "s3", 0, SEC);
    let before = session.players.clone();
    session.wait = Wait::Idle;
    let mut out = Outcome::new();
    session.handle_show_results(&mut out);
    let names: Vec<&str> = session.players.iter().map(|p| p.username.as_str()).collect();
    assert_eq!(names, vec!["name2", "name0", "name1", "name3"]);
    let points: Vec<u128> = session.players.iter().map(|p| p.points).collect();
    assert_eq!(points, vec![1000, 600, 0, 0]);
    assert_eq!(session.players.len(), before.len());
    for old in &before {
        let now = session.players.iter().find(|p| p.client_id == old.client_id).expect("still there");
        assert!(now.points >= old.points && now.points <= old.points + 1000);
    }
    assert_eq!(out.events.len(), 5);
    assert_eq!(session.leaderboard, session.players);
    assert_eq!(session.old_leaderboard, Some(before));
    assert!(session.check());
}
