//! The creation of sessions: a session is entered into the registry only
//! under an id and an invite code that no live session has.

use vstd::prelude::*;
use crate::invite::{create_invite_code, is_invite_code};
use crate::registry::{
    lemma_bind_keeps_agreement, lemma_register_keeps_agreement, GameHandle, GameHandleView,
    Registry, RegistryView, Role,
};
use crate::session::{Session, SessionView};
use crate::types::Quiz;

verus! {

/// How often an id and an invite code are drawn before the creation of a
/// game is given up.
pub const MAX_DRAWS: usize = 64;

/// `Uuid::new_v4` written out by `to_string`: a random identifier in the
/// hyphenated form, which is 36 characters long.
#[verifier::external_body]
fn fresh_game_id() -> (id: String)
    ensures
        id@.len() == 36,
{
    uuid::Uuid::new_v4().to_string()
}

/// The registry after a session has been opened: the session is
/// registered and its manager's socket is bound to it.
pub open spec fn opened(registry: RegistryView, handle: GameHandleView, manager_socket_id: Seq<char>) -> RegistryView {
    registry.registered(handle).bound(Role::Manager, manager_socket_id, handle.game_id)
}

/// What an opened game is: the handle and the session in its lobby, under
/// an id and an invite code that were free, with the registry opened for
/// them.
pub open spec fn is_opening(
    handle: GameHandleView,
    session: SessionView,
    before: RegistryView,
    after: RegistryView,
    manager_socket_id: Seq<char>,
    manager_client_id: Seq<char>,
    quiz: crate::types::QuizView,
    base_url: Seq<char>,
    now: u64,
) -> bool {
    &&& before.is_free(handle)
    &&& session == SessionView::lobby(
        handle.game_id,
        handle.invite_code,
        manager_socket_id,
        manager_client_id,
        quiz,
        base_url,
        now,
    )
    &&& session.wf()
    &&& after == opened(before, handle, manager_socket_id)
}

/// What opening a session means for the invite codes: the indices agree,
/// the new session is live with exactly one invite code, its own, and
/// every session that was live is still live with exactly the one invite
/// code it had.
pub open spec fn one_code_each(before: RegistryView, after: RegistryView, handle: GameHandleView) -> bool {
    &&& after.wf()
    &&& after.is_live(handle.game_id)
    &&& after.games[handle.game_id] == handle.invite_code
    &&& after.invite_codes_of(handle.game_id) == set![handle.invite_code]
    &&& forall|g: Seq<char>| #[trigger]
        before.is_live(g) ==> {
            &&& after.is_live(g)
            &&& after.games[g] == before.games[g]
            &&& after.invite_codes_of(g) == set![before.games[g]]
        }
}

/// Opening a session under an id and an invite code that are free keeps
/// the registry in agreement: the new session has exactly one invite
/// code, its own, and every session that was live keeps its own.
pub proof fn lemma_opening_keeps_agreement(
    registry: RegistryView,
    handle: GameHandleView,
    manager_socket_id: Seq<char>,
)
    requires
        registry.wf(),
        is_invite_code(handle.invite_code),
        registry.is_free(handle),
    ensures
        one_code_each(registry, opened(registry, handle, manager_socket_id), handle),
{
    lemma_register_keeps_agreement(registry, handle);
    lemma_bind_keeps_agreement(
        registry.registered(handle),
        Role::Manager,
        manager_socket_id,
        handle.game_id,
    );
    let after = opened(registry, handle, manager_socket_id);
    assert(after.games.contains_key(handle.game_id));
    assert(after.invite_codes_of(handle.game_id) =~= set![handle.invite_code]);
    assert forall|g: Seq<char>| #[trigger] registry.is_live(g) implies {
        &&& after.is_live(g)
        &&& after.games[g] == registry.games[g]
        &&& after.invite_codes_of(g) == set![registry.games[g]]
    } by {
        assert(registry.games.contains_key(g));
        assert(g != handle.game_id);
        assert(after.games.contains_key(g));
        crate::registry::lemma_one_invite_code_per_session(after, g);
    }
}

/// Enters a session under an id and an invite code that are known to be
/// free.
fn enter_game(
    registry: &mut Registry,
    game_id: String,
    invite_code: String,
    manager_socket_id: String,
    manager_client_id: String,
    quiz: Quiz,
    base_url: String,
    now: u64,
) -> (r: (GameHandle, Session))
    requires
        quiz.questions.len() > 0,
        old(registry)@.is_free(GameHandleView { game_id: game_id@, invite_code: invite_code@ }),
    ensures
        r.0@ == (GameHandleView { game_id: game_id@, invite_code: invite_code@ }),
        is_opening(
            r.0@,
            r.1@,
            old(registry)@,
            final(registry)@,
            manager_socket_id@,
            manager_client_id@,
            quiz@,
            base_url@,
            now,
        ),
        old(registry)@.wf() && is_invite_code(invite_code@) ==> one_code_each(
            old(registry)@,
            final(registry)@,
            r.0@,
        ),
{
    proof {
        if registry@.wf() && is_invite_code(invite_code@) {
            lemma_opening_keeps_agreement(
                registry@,
                GameHandleView { game_id: game_id@, invite_code: invite_code@ },
                manager_socket_id@,
            );
        }
    }
    let handle = GameHandle { game_id: game_id.clone(), invite_code: invite_code.clone() };
    registry.register(&handle);
    registry.bind_socket(Role::Manager, manager_socket_id.clone(), game_id.clone());
    let session = Session::new(
        game_id,
        invite_code,
        manager_socket_id,
        manager_client_id,
        quiz,
        base_url,
        now,
    );
    (handle, session)
}

/// What opening under a given id and invite code owes: nothing, and the
/// registry as it was, exactly if the pair is not free; else the session
/// entered under that pair.
pub open spec fn open_result(
    r: Option<(GameHandleView, SessionView)>,
    before: RegistryView,
    after: RegistryView,
    handle: GameHandleView,
    manager_socket_id: Seq<char>,
    manager_client_id: Seq<char>,
    quiz: crate::types::QuizView,
    base_url: Seq<char>,
    now: u64,
) -> bool {
    match r {
        None => !before.is_free(handle) && after == before,
        Some(p) => {
            &&& p.0 == handle
            &&& is_opening(
                p.0,
                p.1,
                before,
                after,
                manager_socket_id,
                manager_client_id,
                quiz,
                base_url,
                now,
            )
            &&& before.wf() && is_invite_code(handle.invite_code) ==> one_code_each(
                before,
                after,
                handle,
            )
        },
    }
}

/// The views of what an opening hands out.
pub open spec fn opening_view(r: Option<(GameHandle, Session)>) -> Option<
    (GameHandleView, SessionView),
> {
    match r {
        Some(p) => Some((p.0@, p.1@)),
        None => None,
    }
}

/// Opens a session under the given id and invite code if the pair is
/// free, for a manager and a quiz that are only borrowed.
fn try_open(
    registry: &mut Registry,
    game_id: String,
    invite_code: String,
    manager_socket_id: &String,
    manager_client_id: &String,
    quiz: &Quiz,
    base_url: &String,
    now: u64,
) -> (r: Option<(GameHandle, Session)>)
    requires
        quiz.questions.len() > 0,
    ensures
        open_result(
            opening_view(r),
            old(registry)@,
            final(registry)@,
            GameHandleView { game_id: game_id@, invite_code: invite_code@ },
            manager_socket_id@,
            manager_client_id@,
            quiz@,
            base_url@,
            now,
        ),
{
    if registry.is_live(&game_id) || registry.invite_in_use(&invite_code) {
        return None;
    }
    let owned = quiz.clone();
    assert(owned@.questions.len() == owned.questions.len());
    assert(quiz@.questions.len() == quiz.questions.len());
    Some(
        enter_game(
            registry,
            game_id,
            invite_code,
            manager_socket_id.clone(),
            manager_client_id.clone(),
            owned,
            base_url.clone(),
            now,
        ),
    )
}

/// Opens a session under the given id and invite code, if no live session
/// has that id and the code is not in use: registers it, binds the
/// manager's socket to it, and puts it in its lobby. Otherwise nothing is
/// opened and the registry stays as it was. The quiz must have a question.
pub fn open_game(
    registry: &mut Registry,
    game_id: String,
    invite_code: String,
    manager_socket_id: String,
    manager_client_id: String,
    quiz: Quiz,
    base_url: String,
    now: u64,
) -> (r: Option<(GameHandle, Session)>)
    requires
        quiz.questions.len() > 0,
    ensures
        r is None <==> !old(registry)@.is_free(
            GameHandleView { game_id: game_id@, invite_code: invite_code@ },
        ),
        open_result(
            opening_view(r),
            old(registry)@,
            final(registry)@,
            GameHandleView { game_id: game_id@, invite_code: invite_code@ },
            manager_socket_id@,
            manager_client_id@,
            quiz@,
            base_url@,
            now,
        ),
{
    try_open(
        registry,
        game_id,
        invite_code,
        &manager_socket_id,
        &manager_client_id,
        &quiz,
        &base_url,
        now,
    )
}

/// Creates a session for a quiz that has a question. An id and an invite
/// code of six digits are drawn at random, at most `MAX_DRAWS` times, and
/// each pair is tried as `open_game` tries it: the first that is free is
/// taken, and the session is handed out in its lobby together with its
/// handle. If no draw was free, nothing is created and the registry stays
/// as it was. Either way a registry whose indices agree stays so: every
/// live session keeps exactly one invite code.
pub fn create_game(
    registry: &mut Registry,
    manager_socket_id: String,
    manager_client_id: String,
    quiz: Quiz,
    base_url: String,
    now: u64,
) -> (r: Option<(GameHandle, Session)>)
    requires
        quiz.questions.len() > 0,
    ensures
        r matches Some(p) ==> is_invite_code(p.0@.invite_code) && is_opening(
            p.0@,
            p.1@,
            old(registry)@,
            final(registry)@,
            manager_socket_id@,
            manager_client_id@,
            quiz@,
            base_url@,
            now,
        ),
        r is None ==> final(registry)@ == old(registry)@,
        old(registry)@.wf() ==> final(registry)@.wf(),
        old(registry)@.wf() ==> (r matches Some(p) ==> one_code_each(
            old(registry)@,
            final(registry)@,
            p.0@,
        )),
{
    let mut draws: usize = 0;
    while draws < MAX_DRAWS
        invariant
            draws <= MAX_DRAWS,
            quiz.questions.len() > 0,
            registry@ == old(registry)@,
        decreases MAX_DRAWS - draws,
    {
        let game_id = fresh_game_id();
        let invite_code = create_invite_code();
        match try_open(
            registry,
            game_id,
            invite_code,
            &manager_socket_id,
            &manager_client_id,
            &quiz,
            &base_url,
            now,
        ) {
            Some(opened_game) => {
                return Some(opened_game);
            },
            None => {},
        }
        draws += 1;
    }
    None
}

} // verus!
