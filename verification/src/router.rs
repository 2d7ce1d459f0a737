//! The decisions of a connection: what to do with each message a client
//! sends, and whom to tell when its socket goes away.

use vstd::prelude::*;
use vstd::utf8::encode_utf8;
use crate::auth::check_password;
use crate::command::{GameCommand, GameCommandView};
use crate::game::{create_game, is_opening, one_code_each};
use crate::invite::{is_invite_code, INVITE_CODE_LEN};
use crate::lookup::{first_index, lemma_first_index_found, lemma_first_index_none};
use crate::message::{ClientMsg, ClientMsgView, ServerMsg, ServerMsgView};
use crate::registry::{entry_of, GameHandle, GameHandleView, Registry, RegistryView, Role};
use crate::roster::found_at;
use crate::session::{Session, SessionView};
use crate::types::{GameConfig, GameConfigView, QuizView, QuizWithId, QuizWithIdView};

verus! {

/// A command and the session it is for.
#[derive(Debug)]
pub struct Delivery {
    pub handle: GameHandle,
    pub command: GameCommand,
}

pub struct DeliveryView {
    pub handle: GameHandleView,
    pub command: GameCommandView,
}

impl View for Delivery {
    type V = DeliveryView;

    open spec fn view(&self) -> DeliveryView {
        DeliveryView { handle: self.handle@, command: self.command@ }
    }
}

impl DeepView for Delivery {
    type V = DeliveryView;

    open spec fn deep_view(&self) -> DeliveryView {
        self@
    }
}

/// What a connection is to do with a message of its client.
#[derive(Debug)]
#[allow(inconsistent_fields)]
pub enum Routed {
    /// Write the reply to the socket.
    Reply { msg: ServerMsg },
    /// A session was created: host it, follow its events, and write the
    /// reply to the socket.
    Created { handle: GameHandle, session: Session, reply: ServerMsg },
    /// Follow the events of the session and write the reply to the socket.
    Entered { handle: GameHandle, reply: ServerMsg },
    /// Hand the command to its session, and follow the events of the
    /// session if `attach` is set.
    Forward { delivery: Delivery, attach: bool },
    /// Do nothing.
    Ignored,
}

#[allow(inconsistent_fields)]
pub enum RoutedView {
    Reply { msg: ServerMsgView },
    Created { handle: GameHandleView, session: SessionView, reply: ServerMsgView },
    Entered { handle: GameHandleView, reply: ServerMsgView },
    Forward { delivery: DeliveryView, attach: bool },
    Ignored,
}

impl View for Routed {
    type V = RoutedView;

    open spec fn view(&self) -> RoutedView {
        match *self {
            Routed::Reply { msg } => RoutedView::Reply { msg: msg@ },
            Routed::Created { handle, session, reply } => RoutedView::Created {
                handle: handle@,
                session: session@,
                reply: reply@,
            },
            Routed::Entered { handle, reply } => RoutedView::Entered {
                handle: handle@,
                reply: reply@,
            },
            Routed::Forward { delivery, attach } => RoutedView::Forward {
                delivery: delivery@,
                attach,
            },
            Routed::Ignored => RoutedView::Ignored,
        }
    }
}

/// The ids of the quizzes of a catalog, in order.
pub open spec fn quiz_ids(quizzes: Seq<QuizWithIdView>) -> Seq<Seq<char>> {
    Seq::new(quizzes.len(), |i: int| quizzes[i].id)
}

/// The quiz a game can be created for: the first of the catalog with the
/// given id, provided it has a question.
pub open spec fn playable_quiz(quizzes: Seq<QuizWithIdView>, quiz_id: Seq<char>) -> Option<QuizView> {
    match first_index(quiz_ids(quizzes), quiz_id) {
        Some(i) => if quizzes[i].quiz.questions.len() > 0 {
            Some(quizzes[i].quiz)
        } else {
            None
        },
        None => None,
    }
}

/// The quiz that a message asks to create a game for, if it asks for one
/// that can be played.
pub open spec fn quiz_to_create(msg: ClientMsgView, quizzes: Seq<QuizWithIdView>) -> Option<QuizView> {
    match msg {
        ClientMsgView::CreateGame { quiz_id } => playable_quiz(quizzes, quiz_id),
        _ => None,
    }
}

/// The session a message is for, the command it stands for, and whether
/// the connection is to follow the session from now on. A message that is
/// for no session has none of these.
pub open spec fn command_of(msg: ClientMsgView, socket_id: Seq<char>, client_id: Seq<char>) -> Option<
    (Seq<char>, GameCommandView, bool),
> {
    match msg {
        ClientMsgView::PlayerLogin { game_id, username } => Some(
            (game_id, GameCommandView::Join { socket_id, client_id, username }, true),
        ),
        ClientMsgView::SelectedAnswer { game_id, answer_key } => Some(
            (game_id, GameCommandView::SelectAnswer { socket_id, answer_key }, false),
        ),
        ClientMsgView::StartGame { game_id } => Some(
            (game_id, GameCommandView::StartGame { socket_id }, false),
        ),
        ClientMsgView::AbortQuiz { game_id } => Some(
            (game_id, GameCommandView::AbortQuiz { socket_id }, false),
        ),
        ClientMsgView::NextQuestion { game_id } => Some(
            (game_id, GameCommandView::NextQuestion { socket_id }, false),
        ),
        ClientMsgView::ShowLeaderboard { game_id } => Some(
            (game_id, GameCommandView::ShowLeaderboard {  }, false),
        ),
        ClientMsgView::KickPlayer { game_id, player_id } => Some(
            (game_id, GameCommandView::KickPlayer { socket_id, player_id }, false),
        ),
        ClientMsgView::PlayerReconnect { game_id } => Some(
            (game_id, GameCommandView::PlayerReconnect { socket_id, client_id }, true),
        ),
        ClientMsgView::ManagerReconnect { game_id } => Some(
            (game_id, GameCommandView::ManagerReconnect { socket_id, client_id }, true),
        ),
        _ => None,
    }
}

/// What a client is told when the session its message is for does not
/// exist: a reconnect is answered, any other message is dropped.
pub open spec fn missing_game(msg: ClientMsgView) -> RoutedView {
    match msg {
        ClientMsgView::PlayerReconnect { .. } => RoutedView::Reply {
            msg: ServerMsgView::Reset { message: "Game not found"@ },
        },
        ClientMsgView::ManagerReconnect { .. } => RoutedView::Reply {
            msg: ServerMsgView::Reset { message: "Game expired"@ },
        },
        _ => RoutedView::Ignored,
    }
}

/// What is done with a message that does not create a game.
pub open spec fn routed(
    msg: ClientMsgView,
    socket_id: Seq<char>,
    client_id: Seq<char>,
    registry: RegistryView,
    config: GameConfigView,
    quizzes: Seq<QuizWithIdView>,
) -> RoutedView {
    match msg {
        ClientMsgView::ManagerAuth { password } => RoutedView::Reply {
            msg: if password == config.manager_password {
                ServerMsgView::QuizList { quizzes }
            } else {
                ServerMsgView::ErrorMessage { message: "Invalid password"@ }
            },
        },
        ClientMsgView::CreateGame { .. } => RoutedView::Reply {
            msg: ServerMsgView::ErrorMessage { message: "Quiz not found"@ },
        },
        ClientMsgView::PlayerJoin { invite_code } => if encode_utf8(invite_code).len()
            != INVITE_CODE_LEN {
            RoutedView::Reply { msg: ServerMsgView::ErrorMessage { message: "Invalid invite code"@ } }
        } else {
            match registry.handle_of_invite(invite_code) {
                Some(handle) => RoutedView::Entered {
                    handle,
                    reply: ServerMsgView::SuccessRoom { game_id: handle.game_id },
                },
                None => RoutedView::Reply {
                    msg: ServerMsgView::ErrorMessage { message: "Game not found"@ },
                },
            }
        },
        _ => match command_of(msg, socket_id, client_id) {
            Some((game_id, command, attach)) => match registry.handle_of(game_id) {
                Some(handle) => RoutedView::Forward {
                    delivery: DeliveryView { handle, command },
                    attach,
                },
                None => missing_game(msg),
            },
            None => RoutedView::Ignored,
        },
    }
}

/// What a client is told when no free id and invite code were drawn for
/// the game it asked for.
pub open spec fn not_created() -> RoutedView {
    RoutedView::Reply { msg: ServerMsgView::ErrorMessage { message: "Game could not be created"@ } }
}

/// What `route` owes for a message. Where the message asks for a game
/// that can be played, either the game is created, under an id and an
/// invite code of six digits that no live session had, or the client is
/// told that it could not be and the registry is as it was. Any other
/// message gets the plain decision and leaves the registry as it was.
pub open spec fn route_result(
    r: RoutedView,
    before: RegistryView,
    after: RegistryView,
    msg: ClientMsgView,
    socket_id: Seq<char>,
    client_id: Seq<char>,
    config: GameConfigView,
    quizzes: Seq<QuizWithIdView>,
    base_url: Seq<char>,
    now: u64,
) -> bool {
    match quiz_to_create(msg, quizzes) {
        Some(quiz) => {
            ||| {
                &&& r matches RoutedView::Created { handle, session, reply }
                &&& is_invite_code(handle.invite_code)
                &&& is_opening(
                    handle,
                    session,
                    before,
                    after,
                    socket_id,
                    client_id,
                    quiz,
                    base_url,
                    now,
                )
                &&& reply == (ServerMsgView::GameCreated {
                    game_id: handle.game_id,
                    invite_code: handle.invite_code,
                })
            }
            ||| r == not_created() && after == before
        },
        None => r == routed(msg, socket_id, client_id, before, config, quizzes) && after == before,
    }
}

/// What is told to the sessions of a socket that went away: the session
/// it managed learns that its manager left, the session it played in
/// learns that a player left.
pub open spec fn farewells(registry: RegistryView, socket_id: Seq<char>) -> Seq<DeliveryView> {
    let managed = match entry_of(registry.manager_sockets, socket_id) {
        Some(game_id) => match registry.handle_of(game_id) {
            Some(handle) => seq![
                DeliveryView { handle, command: GameCommandView::ManagerDisconnect { socket_id } },
            ],
            None => Seq::empty(),
        },
        None => Seq::empty(),
    };
    let played = match entry_of(registry.player_sockets, socket_id) {
        Some(game_id) => match registry.handle_of(game_id) {
            Some(handle) => seq![
                DeliveryView { handle, command: GameCommandView::PlayerDisconnect { socket_id } },
            ],
            None => Seq::empty(),
        },
        None => Seq::empty(),
    };
    managed + played
}

/// The position of the first quiz with the id `quiz_id`.
pub fn find_quiz(quizzes: &Vec<QuizWithId>, quiz_id: &String) -> (r: Option<usize>)
    ensures
        found_at(r, quiz_ids(quizzes.deep_view()), quiz_id@),
{
    let ghost keys = quiz_ids(quizzes.deep_view());
    let mut i: usize = 0;
    while i < quizzes.len()
        invariant
            i <= quizzes.len(),
            keys == quiz_ids(quizzes.deep_view()),
            forall|j: int| 0 <= j < i ==> keys[j] != quiz_id@,
        decreases quizzes.len() - i,
    {
        if quizzes[i].id == *quiz_id {
            proof {
                lemma_first_index_found(keys, quiz_id@, i as int);
            }
            return Some(i);
        }
        i += 1;
    }
    proof {
        lemma_first_index_none(keys, quiz_id@);
    }
    None
}

/// Hands a command to the live session `game_id`, or answers for the
/// session that is not there.
fn forward(
    registry: &Registry,
    game_id: &String,
    command: GameCommand,
    attach: bool,
    missing: Routed,
) -> (r: Routed)
    ensures
        r@ == match registry@.handle_of(game_id@) {
            Some(handle) => RoutedView::Forward {
                delivery: DeliveryView { handle, command: command@ },
                attach,
            },
            None => missing@,
        },
{
    match registry.lookup_by_game_id(game_id) {
        Some(handle) => Routed::Forward { delivery: Delivery { handle, command }, attach },
        None => missing,
    }
}

/// Decides what to do with a message from the client of socket
/// `socket_id`. A message for a session becomes a command for it; the
/// others are answered at once, and a request for a game creates one.
///
/// A game is created only for a quiz that has a question: a session
/// cannot stand on a question that does not exist, so a listed quiz
/// without questions is answered like one that is not listed, with
/// "Quiz not found". A registry whose indices agree stays so.
pub fn route(
    msg: ClientMsg,
    socket_id: &String,
    client_id: &String,
    registry: &mut Registry,
    config: &GameConfig,
    quizzes: &Vec<QuizWithId>,
    base_url: &String,
    now: u64,
) -> (r: Routed)
    ensures
        route_result(
            r@,
            old(registry)@,
            final(registry)@,
            msg@,
            socket_id@,
            client_id@,
            config@,
            quizzes.deep_view(),
            base_url@,
            now,
        ),
        old(registry)@.wf() ==> final(registry)@.wf(),
        old(registry)@.wf() ==> (r@ matches RoutedView::Created { handle, .. } ==> one_code_each(
            old(registry)@,
            final(registry)@,
            handle,
        )),
{
    match msg {
        ClientMsg::ManagerAuth { password } => {
            if check_password(&password, &config.manager_password) {
                let list = quizzes.clone();
                assert(list.deep_view() =~= quizzes.deep_view());
                Routed::Reply { msg: ServerMsg::QuizList { quizzes: list } }
            } else {
                Routed::Reply { msg: ServerMsg::error("Invalid password") }
            }
        },
        ClientMsg::CreateGame { quiz_id } => {
            match find_quiz(quizzes, &quiz_id) {
                Some(i) => {
                    assert(quizzes.deep_view()[i as int] == quizzes[i as int]@);
                    assert(quizzes[i as int]@.quiz.questions.len() == quizzes[i as int].quiz.questions.len());
                    if quizzes[i].quiz.questions.len() > 0 {
                        let quiz = quizzes[i].quiz.clone();
                        assert(quiz@.questions.len() == quiz.questions.len());
                        match create_game(
                            registry,
                            socket_id.clone(),
                            client_id.clone(),
                            quiz,
                            base_url.clone(),
                            now,
                        ) {
                            Some(created) => {
                                let reply = ServerMsg::GameCreated {
                                    game_id: created.0.game_id.clone(),
                                    invite_code: created.0.invite_code.clone(),
                                };
                                Routed::Created { handle: created.0, session: created.1, reply }
                            },
                            None => Routed::Reply {
                                msg: ServerMsg::error("Game could not be created"),
                            },
                        }
                    } else {
                        Routed::Reply { msg: ServerMsg::error("Quiz not found") }
                    }
                },
                None => Routed::Reply { msg: ServerMsg::error("Quiz not found") },
            }
        },
        ClientMsg::PlayerJoin { invite_code } => {
            if invite_code.as_str().as_bytes().len() != INVITE_CODE_LEN {
                Routed::Reply { msg: ServerMsg::error("Invalid invite code") }
            } else {
                match registry.lookup_by_invite(&invite_code) {
                    Some(handle) => {
                        let reply = ServerMsg::SuccessRoom { game_id: handle.game_id.clone() };
                        Routed::Entered { handle, reply }
                    },
                    None => Routed::Reply { msg: ServerMsg::error("Game not found") },
                }
            }
        },
        ClientMsg::PlayerLogin { game_id, username } => forward(
            registry,
            &game_id,
            GameCommand::Join {
                socket_id: socket_id.clone(),
                client_id: client_id.clone(),
                username,
            },
            true,
            Routed::Ignored,
        ),
        ClientMsg::SelectedAnswer { game_id, answer_key } => forward(
            registry,
            &game_id,
            GameCommand::SelectAnswer { socket_id: socket_id.clone(), answer_key },
            false,
            Routed::Ignored,
        ),
        ClientMsg::StartGame { game_id } => forward(
            registry,
            &game_id,
            GameCommand::StartGame { socket_id: socket_id.clone() },
            false,
            Routed::Ignored,
        ),
        ClientMsg::AbortQuiz { game_id } => forward(
            registry,
            &game_id,
            GameCommand::AbortQuiz { socket_id: socket_id.clone() },
            false,
            Routed::Ignored,
        ),
        ClientMsg::NextQuestion { game_id } => forward(
            registry,
            &game_id,
            GameCommand::NextQuestion { socket_id: socket_id.clone() },
            false,
            Routed::Ignored,
        ),
        ClientMsg::ShowLeaderboard { game_id } => forward(
            registry,
            &game_id,
            GameCommand::ShowLeaderboard {  },
            false,
            Routed::Ignored,
        ),
        ClientMsg::KickPlayer { game_id, player_id } => forward(
            registry,
            &game_id,
            GameCommand::KickPlayer { socket_id: socket_id.clone(), player_id },
            false,
            Routed::Ignored,
        ),
        ClientMsg::PlayerReconnect { game_id } => forward(
            registry,
            &game_id,
            GameCommand::PlayerReconnect {
                socket_id: socket_id.clone(),
                client_id: client_id.clone(),
            },
            true,
            Routed::Reply { msg: ServerMsg::reset("Game not found") },
        ),
        ClientMsg::ManagerReconnect { game_id } => forward(
            registry,
            &game_id,
            GameCommand::ManagerReconnect {
                socket_id: socket_id.clone(),
                client_id: client_id.clone(),
            },
            true,
            Routed::Reply { msg: ServerMsg::reset("Game expired") },
        ),
    }
}

/// Decides whom to tell that the socket `socket_id` went away.
pub fn on_socket_closed(registry: &Registry, socket_id: &String) -> (r: Vec<Delivery>)
    ensures
        r.deep_view() == farewells(registry@, socket_id@),
{
    let mut r: Vec<Delivery> = Vec::new();
    assert(r.deep_view() =~= Seq::<DeliveryView>::empty());
    match registry.socket_game(Role::Manager, socket_id) {
        Some(game_id) => match registry.lookup_by_game_id(&game_id) {
            Some(handle) => {
                let d = Delivery {
                    handle,
                    command: GameCommand::ManagerDisconnect { socket_id: socket_id.clone() },
                };
                r.push(d);
                assert(r.deep_view() =~= seq![d@]);
            },
            None => {},
        },
        None => {},
    }
    let ghost managed = r.deep_view();
    match registry.socket_game(Role::Player, socket_id) {
        Some(game_id) => match registry.lookup_by_game_id(&game_id) {
            Some(handle) => {
                let d = Delivery {
                    handle,
                    command: GameCommand::PlayerDisconnect { socket_id: socket_id.clone() },
                };
                r.push(d);
                assert(r.deep_view() =~= managed + seq![d@]);
            },
            None => {
                assert(r.deep_view() =~= managed + Seq::<DeliveryView>::empty());
            },
        },
        None => {
            assert(r.deep_view() =~= managed + Seq::<DeliveryView>::empty());
        },
    }
    r
}

} // verus!
