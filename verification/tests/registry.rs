use quizrush::game::{create_game, open_game};
use quizrush::registry::{differs, GameHandle, Registry, Role};
use quizrush::session::{Phase, Wait};
use quizrush::types::{Question, Quiz};

fn text(s: &str) -> String {
    s.to_string()
}

fn handle_for(game: &str, code: &str) -> GameHandle {
    GameHandle { game_id: text(game), invite_code: text(code) }
}

fn one_question_quiz() -> Quiz {
    Quiz {
        subject: text("Demo"),
        questions: vec![Question {
            question: text("What is the correct answer?"),
            image: None,
            video: None,
            audio: None,
            answer_image: None,
            answers: vec![text("No"), text("Correct"), text("No"), text("No")],
            solution: 1,
            cooldown: 5,
            time: 10,
        }],
    }
}

#[test]
fn empty_registry_finds_nothing() {
    let registry = Registry::new();
    assert_eq!(registry.lookup_by_game_id(&text("g")), None);
    assert_eq!(registry.lookup_by_invite(&text("123456")), None);
    assert_eq!(registry.socket_game(Role::Player, &text("s")), None);
    assert_eq!(registry.socket_game(Role::Manager, &text("s")), None);
    assert!(!registry.is_live(&text("g")));
}

#[test]
fn registered_session_is_found_by_id_and_by_invite() {
    let mut registry = Registry::new();
    registry.register(&handle_for("g1", "123456"));
    registry.register(&handle_for("g2", "654321"));
    assert_eq!(registry.lookup_by_game_id(&text("g1")), Some(handle_for("g1", "123456")));
    assert_eq!(registry.lookup_by_invite(&text("654321")), Some(handle_for("g2", "654321")));
    assert_eq!(registry.lookup_by_invite(&text("g1")), None);
    assert_eq!(registry.lookup_by_game_id(&text("123456")), None);
    assert!(registry.is_live(&text("g2")));
}

#[test]
fn sockets_are_bound_by_role() {
    let mut registry = Registry::new();
    registry.register(&handle_for("g1", "123456"));
    registry.bind_socket(Role::Player, text("s1"), text("g1"));
    registry.bind_socket(Role::Manager, text("m1"), text("g1"));
    assert_eq!(registry.socket_game(Role::Player, &text("s1")), Some(text("g1")));
    assert_eq!(registry.socket_game(Role::Manager, &text("s1")), None);
    assert_eq!(registry.socket_game(Role::Manager, &text("m1")), Some(text("g1")));
    assert_eq!(registry.socket_game(Role::Player, &text("m1")), None);
    registry.unbind_socket(Role::Manager, &text("s1"));
    assert_eq!(registry.socket_game(Role::Player, &text("s1")), Some(text("g1")));
    registry.unbind_socket(Role::Player, &text("s1"));
    assert_eq!(registry.socket_game(Role::Player, &text("s1")), None);
    // Binding again moves the socket.
    registry.register(&handle_for("g2", "222222"));
    registry.bind_socket(Role::Manager, text("m1"), text("g2"));
    assert_eq!(registry.socket_game(Role::Manager, &text("m1")), Some(text("g2")));
}

#[test]
fn removing_a_session_removes_all_that_points_to_it() {
    let mut registry = Registry::new();
    registry.register(&handle_for("g1", "111111"));
    registry.register(&handle_for("g2", "222222"));
    registry.bind_socket(Role::Manager, text("m1"), text("g1"));
    registry.bind_socket(Role::Manager, text("m2"), text("g2"));
    registry.bind_socket(Role::Player, text("pa"), text("g1"));
    registry.bind_socket(Role::Player, text("pb"), text("g1"));
    registry.bind_socket(Role::Player, text("pc"), text("g2"));
    registry.remove_game(&text("g1"));
    assert_eq!(registry.lookup_by_game_id(&text("g1")), None);
    assert_eq!(registry.lookup_by_invite(&text("111111")), None);
    assert_eq!(registry.socket_game(Role::Manager, &text("m1")), None);
    assert_eq!(registry.socket_game(Role::Player, &text("pa")), None);
    assert_eq!(registry.socket_game(Role::Player, &text("pb")), None);
    assert_eq!(registry.lookup_by_game_id(&text("g2")), Some(handle_for("g2", "222222")));
    assert_eq!(registry.lookup_by_invite(&text("222222")), Some(handle_for("g2", "222222")));
    assert_eq!(registry.socket_game(Role::Manager, &text("m2")), Some(text("g2")));
    assert_eq!(registry.socket_game(Role::Player, &text("pc")), Some(text("g2")));
    // Removing what is not there changes nothing.
    registry.remove_game(&text("g1"));
    registry.remove_game(&text("nope"));
    assert!(registry.is_live(&text("g2")));
}

#[test]
fn strings_differ() {
    assert!(differs(&text("a"), &text("b")));
    assert!(!differs(&text("a"), &text("a")));
}

#[test]
fn opened_game_is_registered_and_in_its_lobby() {
    let mut registry = Registry::new();
    let (handle, session) = open_game(
        &mut registry,
        text("g1"),
        text("424242"),
        text("m1"),
        text("client-m"),
        one_question_quiz(),
        text("http://h"),
        77,
    )
    .expect("id and code are free");
    assert_eq!(handle, handle_for("g1", "424242"));
    assert_eq!(registry.lookup_by_invite(&text("424242")), Some(handle_for("g1", "424242")));
    assert_eq!(registry.socket_game(Role::Manager, &text("m1")), Some(text("g1")));
    assert_eq!(session.game_id, "g1");
    assert_eq!(session.invite_code, "424242");
    assert_eq!(session.manager_socket_id, "m1");
    assert_eq!(session.manager_client_id, "client-m");
    assert!(session.manager_connected);
    assert_eq!(session.phase, Phase::Lobby);
    assert_eq!(session.wait, Wait::Idle);
    assert_eq!(session.quiz, one_question_quiz());
    assert!(session.players.is_empty());
    assert_eq!(session.current_question, 0);
    assert!(session.round_answers.is_empty());
    assert_eq!(session.round_start_time, 77);
    assert!(session.leaderboard.is_empty());
    assert_eq!(session.old_leaderboard, None);
    assert_eq!(session.last_broadcast_status, None);
    assert_eq!(session.manager_status, None);
    assert!(session.player_statuses.is_empty());
    assert_eq!(session.base_url, "http://h");
}

#[test]
fn created_game_gets_fresh_id_and_six_digit_code() {
    let mut registry = Registry::new();
    let (h1, s1) = create_game(
        &mut registry,
        text("m1"),
        text("c1"),
        one_question_quiz(),
        text("http://h"),
        0,
    )
    .expect("a free id and code are drawn");
    let (h2, _s2) = create_game(
        &mut registry,
        text("m2"),
        text("c2"),
        one_question_quiz(),
        text("http://h"),
        0,
    )
    .expect("a free id and code are drawn");
    assert_ne!(h1.invite_code, h2.invite_code);
    assert_eq!(h1.invite_code.len(), 6);
    assert!(h1.invite_code.chars().all(|c| c.is_ascii_digit()));
    assert_eq!(h1.game_id.len(), 36);
    assert_ne!(h1.game_id, h2.game_id);
    assert_eq!(s1.game_id, h1.game_id);
    assert_eq!(s1.invite_code, h1.invite_code);
    assert_eq!(registry.lookup_by_game_id(&h1.game_id), Some(h1.clone()));
    assert_eq!(registry.socket_game(Role::Manager, &text("m1")), Some(h1.game_id.clone()));
    assert_eq!(registry.socket_game(Role::Manager, &text("m2")), Some(h2.game_id.clone()));
}

fn open(registry: &mut Registry, game: &str, code: &str, manager: &str) -> Option<GameHandle> {
    open_game(
        registry,
        text(game),
        text(code),
        text(manager),
        text("client"),
        one_question_quiz(),
        text("http://h"),
        0,
    )
    .map(|opened| opened.0)
}

#[test]
fn invite_code_in_use_opens_no_game() {
    let mut registry = Registry::new();
    assert_eq!(open(&mut registry, "g1", "111111", "m1"), Some(handle_for("g1", "111111")));
    assert_eq!(open(&mut registry, "g2", "111111", "m2"), None);
    // Nothing changed: the code still leads to the first game and the
    // second manager is bound to nothing.
    assert_eq!(registry.lookup_by_invite(&text("111111")), Some(handle_for("g1", "111111")));
    assert_eq!(registry.lookup_by_game_id(&text("g2")), None);
    assert_eq!(registry.socket_game(Role::Manager, &text("m2")), None);
    assert_eq!(registry.socket_game(Role::Manager, &text("m1")), Some(text("g1")));
    assert!(registry.invite_in_use(&text("111111")));
    assert!(!registry.invite_in_use(&text("222222")));
}

#[test]
fn game_id_in_use_opens_no_game() {
    let mut registry = Registry::new();
    assert_eq!(open(&mut registry, "g1", "111111", "m1"), Some(handle_for("g1", "111111")));
    assert_eq!(open(&mut registry, "g1", "222222", "m2"), None);
    assert_eq!(registry.lookup_by_game_id(&text("g1")), Some(handle_for("g1", "111111")));
    assert_eq!(registry.lookup_by_invite(&text("222222")), None);
    assert_eq!(registry.socket_game(Role::Manager, &text("m2")), None);
    // Once the first game is gone, its id and code are free again.
    registry.remove_game(&text("g1"));
    assert_eq!(open(&mut registry, "g1", "111111", "m2"), Some(handle_for("g1", "111111")));
    assert_eq!(registry.socket_game(Role::Manager, &text("m2")), Some(text("g1")));
}

#[test]
fn every_created_game_keeps_its_own_invite_code() {
    let mut registry = Registry::new();
    let mut handles = Vec::new();
    for i in 0..200 {
        let created = create_game(
            &mut registry,
            format!("m{}", i),
            text("client"),
            one_question_quiz(),
            text("http://h"),
            0,
        );
        let (handle, _) = created.expect("a free id and code are drawn");
        handles.push(handle);
    }
    for handle in &handles {
        assert_eq!(registry.lookup_by_invite(&handle.invite_code), Some(handle.clone()));
        assert_eq!(registry.lookup_by_game_id(&handle.game_id), Some(handle.clone()));
        let same_code = handles.iter().filter(|h| h.invite_code == handle.invite_code).count();
        assert_eq!(same_code, 1);
    }
}

#[test]
fn removing_a_session_leaves_the_codes_of_others() {
    let mut registry = Registry::new();
    // Entered by hand, two sessions can come to share a code; the code
    // then leads to the later one.
    registry.register(&handle_for("g1", "111111"));
    registry.register(&handle_for("g2", "111111"));
    assert_eq!(registry.lookup_by_invite(&text("111111")), Some(handle_for("g2", "111111")));
    registry.remove_game(&text("g1"));
    assert_eq!(registry.lookup_by_game_id(&text("g1")), None);
    assert_eq!(registry.lookup_by_invite(&text("111111")), Some(handle_for("g2", "111111")));
    registry.remove_game(&text("g2"));
    assert_eq!(registry.lookup_by_invite(&text("111111")), None);
    assert!(!registry.invite_in_use(&text("111111")));
}
