use quizrush::command::GameCommand;
use quizrush::message::{ClientMsg, ServerMsg};
use quizrush::registry::{GameHandle, Registry, Role};
use quizrush::router::{find_quiz, on_socket_closed, route, Routed};
use quizrush::session::Phase;
use quizrush::types::{GameConfig, Question, Quiz, QuizWithId};

fn t(v: &str) -> String {
    v.to_string()
}

fn demo_quiz(questions: usize) -> Quiz {
    let mut list = Vec::new();
    for _ in 0..questions {
        list.push(Question {
            question: t("What is the correct answer?"),
            image: None,
            video: None,
            audio: None,
            answer_image: None,
            answers: vec![t("No"), t("Correct"), t("No"), t("No")],
            solution: 1,
            cooldown: 5,
            time: 15,
        });
    }
    Quiz { subject: t("Example Quiz"), questions: list }
}

fn catalog() -> Vec<QuizWithId> {
    vec![
        QuizWithId { id: t("demo"), quiz: demo_quiz(1) },
        QuizWithId { id: t("empty"), quiz: demo_quiz(0) },
        QuizWithId { id: t("demo"), quiz: demo_quiz(3) },
    ]
}

fn settings() -> GameConfig {
    GameConfig { manager_password: t("PASSWORD"), manager_emails: vec![] }
}

fn send(registry: &mut Registry, socket: &str, client: &str, msg: ClientMsg) -> Routed {
    route(msg, &t(socket), &t(client), registry, &settings(), &catalog(), &t("http://h"), 7)
}

fn reply_of(routed: Routed) -> ServerMsg {
    match routed {
        Routed::Reply { msg } => msg,
        other => panic!("expected a reply, got {:?}", other),
    }
}

fn created(registry: &mut Registry) -> GameHandle {
    match send(registry, "mgr", "client-mgr", ClientMsg::CreateGame { quiz_id: t("demo") }) {
        Routed::Created { handle, .. } => handle,
        other => panic!("expected a created game, got {:?}", other),
    }
}

#[test]
fn manager_auth_lists_the_quizzes() {
    let mut registry = Registry::new();
    let reply = reply_of(send(&mut registry, "m", "c", ClientMsg::ManagerAuth { password: t("PASSWORD") }));
    assert_eq!(reply, ServerMsg::QuizList { quizzes: catalog() });
}

#[test]
fn wrong_password_is_rejected() {
    let mut registry = Registry::new();
    for wrong in ["password", "PASSWORD ", "", "PASSWOR"] {
        let reply = reply_of(send(&mut registry, "m", "c", ClientMsg::ManagerAuth { password: t(wrong) }));
        assert_eq!(reply, ServerMsg::error("Invalid password"));
    }
}

#[test]
fn create_and_join() {
    let mut registry = Registry::new();
    let routed = send(&mut registry, "mgr", "client-mgr", ClientMsg::CreateGame { quiz_id: t("demo") });
    let (handle, mut session) = match routed {
        Routed::Created { handle, session, reply } => {
            assert_eq!(
                reply,
                ServerMsg::GameCreated {
                    game_id: handle.game_id.clone(),
                    invite_code: handle.invite_code.clone(),
                }
            );
            (handle, session)
        }
        other => panic!("expected a created game, got {:?}", other),
    };
    assert_eq!(handle.invite_code.len(), 6);
    assert!(handle.invite_code.chars().all(|c| c.is_ascii_digit()));
    assert_eq!(session.game_id, handle.game_id);
    assert_eq!(session.manager_socket_id, "mgr");
    assert_eq!(session.manager_client_id, "client-mgr");
    assert_eq!(session.phase, Phase::Lobby);
    // The first quiz of that id is the one that is played.
    assert_eq!(session.quiz, demo_quiz(1));
    assert_eq!(session.base_url, "http://h");
    assert_eq!(session.round_start_time, 7);
    assert_eq!(registry.socket_game(Role::Manager, &t("mgr")), Some(handle.game_id.clone()));

    let routed = send(&mut registry, "pa", "client-pa", ClientMsg::PlayerJoin { invite_code: handle.invite_code.clone() });
    match routed {
        Routed::Entered { handle: entered, reply } => {
            assert_eq!(entered, handle);
            assert_eq!(reply, ServerMsg::SuccessRoom { game_id: handle.game_id.clone() });
        }
        other => panic!("expected to enter, got {:?}", other),
    }

    let routed = send(
        &mut registry,
        "pa",
        "client-pa",
        ClientMsg::PlayerLogin { game_id: handle.game_id.clone(), username: t("alice") },
    );
    let delivery = match routed {
        Routed::Forward { delivery, attach } => {
            assert!(attach);
            delivery
        }
        other => panic!("expected a command, got {:?}", other),
    };
    assert_eq!(delivery.handle, handle);
    assert_eq!(
        delivery.command,
        GameCommand::Join { socket_id: t("pa"), client_id: t("client-pa"), username: t("alice") }
    );
    let out = session.handle(&mut registry, delivery.command, 0);
    assert_eq!(out.events.len(), 3);
    let manager = t("mgr");
    let seen: Vec<&ServerMsg> =
        out.events.iter().filter(|e| e.is_for(&manager)).map(|e| e.message()).collect();
    assert_eq!(seen.len(), 2);
    match seen[0] {
        ServerMsg::NewPlayer { player } => assert_eq!(player.username, "alice"),
        other => panic!("unexpected message {:?}", other),
    }
    assert_eq!(*seen[1], ServerMsg::TotalPlayers { count: 1 });
    let joiner = t("pa");
    let told: Vec<&ServerMsg> =
        out.events.iter().filter(|e| e.is_for(&joiner)).map(|e| e.message()).collect();
    assert_eq!(*told[1], ServerMsg::SuccessJoin { game_id: handle.game_id.clone() });
}

#[test]
fn unknown_or_empty_quiz_is_not_found() {
    let mut registry = Registry::new();
    let reply = reply_of(send(&mut registry, "m", "c", ClientMsg::CreateGame { quiz_id: t("nope") }));
    assert_eq!(reply, ServerMsg::error("Quiz not found"));
    let reply = reply_of(send(&mut registry, "m", "c", ClientMsg::CreateGame { quiz_id: t("empty") }));
    assert_eq!(reply, ServerMsg::error("Quiz not found"));
    assert_eq!(registry.socket_game(Role::Manager, &t("m")), None);
}

#[test]
fn find_quiz_takes_the_first_of_an_id() {
    assert_eq!(find_quiz(&catalog(), &t("demo")), Some(0));
    assert_eq!(find_quiz(&catalog(), &t("empty")), Some(1));
    assert_eq!(find_quiz(&catalog(), &t("Demo")), None);
    assert_eq!(find_quiz(&Vec::new(), &t("demo")), None);
}

#[test]
fn invite_code_of_wrong_length_is_invalid() {
    let mut registry = Registry::new();
    created(&mut registry);
    for code in ["", "12345", "1234567"] {
        let reply = reply_of(send(&mut registry, "p", "c", ClientMsg::PlayerJoin { invite_code: t(code) }));
        assert_eq!(reply, ServerMsg::error("Invalid invite code"));
    }
}

#[test]
fn unknown_invite_code_finds_no_game() {
    let mut registry = Registry::new();
    let handle = created(&mut registry);
    let other = if handle.invite_code == "000000" { "000001" } else { "000000" };
    let reply = reply_of(send(&mut registry, "p", "c", ClientMsg::PlayerJoin { invite_code: t(other) }));
    assert_eq!(reply, ServerMsg::error("Game not found"));
    let reply = reply_of(send(&mut registry, "p", "c", ClientMsg::PlayerJoin { invite_code: t("abcdef") }));
    assert_eq!(reply, ServerMsg::error("Game not found"));
}

#[test]
fn session_messages_become_commands() {
    let mut registry = Registry::new();
    let handle = created(&mut registry);
    let g = handle.game_id.clone();
    let cases = vec![
        (
            ClientMsg::SelectedAnswer { game_id: g.clone(), answer_key: 2 },
            GameCommand::SelectAnswer { socket_id: t("s"), answer_key: 2 },
            false,
        ),
        (ClientMsg::StartGame { game_id: g.clone() }, GameCommand::StartGame { socket_id: t("s") }, false),
        (ClientMsg::AbortQuiz { game_id: g.clone() }, GameCommand::AbortQuiz { socket_id: t("s") }, false),
        (
            ClientMsg::NextQuestion { game_id: g.clone() },
            GameCommand::NextQuestion { socket_id: t("s") },
            false,
        ),
        (ClientMsg::ShowLeaderboard { game_id: g.clone() }, GameCommand::ShowLeaderboard {}, false),
        (
            ClientMsg::KickPlayer { game_id: g.clone(), player_id: t("p") },
            GameCommand::KickPlayer { socket_id: t("s"), player_id: t("p") },
            false,
        ),
        (
            ClientMsg::PlayerReconnect { game_id: g.clone() },
            GameCommand::PlayerReconnect { socket_id: t("s"), client_id: t("c") },
            true,
        ),
        (
            ClientMsg::ManagerReconnect { game_id: g.clone() },
            GameCommand::ManagerReconnect { socket_id: t("s"), client_id: t("c") },
            true,
        ),
    ];
    for (msg, command, attach) in cases {
        match send(&mut registry, "s", "c", msg.clone()) {
            Routed::Forward { delivery, attach: follows } => {
                assert_eq!(delivery.handle, handle);
                assert_eq!(delivery.command, command);
                assert_eq!(follows, attach);
            }
            other => panic!("expected a command for {:?}, got {:?}", msg, other),
        }
    }
}

#[test]
fn messages_for_a_missing_session() {
    let mut registry = Registry::new();
    let g = t("gone");
    let silent = vec![
        ClientMsg::PlayerLogin { game_id: g.clone(), username: t("alice") },
        ClientMsg::SelectedAnswer { game_id: g.clone(), answer_key: 0 },
        ClientMsg::StartGame { game_id: g.clone() },
        ClientMsg::AbortQuiz { game_id: g.clone() },
        ClientMsg::NextQuestion { game_id: g.clone() },
        ClientMsg::ShowLeaderboard { game_id: g.clone() },
        ClientMsg::KickPlayer { game_id: g.clone(), player_id: t("p") },
    ];
    for msg in silent {
        assert!(matches!(send(&mut registry, "s", "c", msg), Routed::Ignored));
    }
    let reply = reply_of(send(&mut registry, "s", "c", ClientMsg::PlayerReconnect { game_id: g.clone() }));
    assert_eq!(reply, ServerMsg::reset("Game not found"));
    let reply = reply_of(send(&mut registry, "s", "c", ClientMsg::ManagerReconnect { game_id: g }));
    assert_eq!(reply, ServerMsg::reset("Game expired"));
}

#[test]
fn closed_socket_tells_its_sessions() {
    let mut registry = Registry::new();
    let handle = created(&mut registry);
    assert!(on_socket_closed(&registry, &t("nobody")).is_empty());
    let told = on_socket_closed(&registry, &t("mgr"));
    assert_eq!(told.len(), 1);
    assert_eq!(told[0].handle, handle);
    assert_eq!(told[0].command, GameCommand::ManagerDisconnect { socket_id: t("mgr") });

    registry.bind_socket(Role::Player, t("pa"), handle.game_id.clone());
    let told = on_socket_closed(&registry, &t("pa"));
    assert_eq!(told.len(), 1);
    assert_eq!(told[0].command, GameCommand::PlayerDisconnect { socket_id: t("pa") });

    // A socket in both roles tells the managed session first.
    registry.bind_socket(Role::Player, t("mgr"), handle.game_id.clone());
    let told = on_socket_closed(&registry, &t("mgr"));
    assert_eq!(told.len(), 2);
    assert_eq!(told[0].command, GameCommand::ManagerDisconnect { socket_id: t("mgr") });
    assert_eq!(told[1].command, GameCommand::PlayerDisconnect { socket_id: t("mgr") });

    // A socket bound to a session that is gone tells nobody.
    registry.bind_socket(Role::Player, t("late"), t("gone"));
    assert!(on_socket_closed(&registry, &t("late")).is_empty());
}
