//! Proof that every transition of the model keeps a session well-formed.

use vstd::prelude::*;
use crate::command::{GameCommandView, GameEventView, TimerAction};
use crate::config::resolved_image;
use crate::engine::{
    lemma_ranked_clients, lemma_ranked_within, lemma_roster_ok, lemma_round_points_bounded,
};
use crate::lookup::{first_index, lemma_first_index_is_first};
use crate::message::{ServerMsgView, StatusDataView};
use crate::ranking::ranked;
use crate::registry::RegistryView;
use crate::roster::{lemma_status_put_distinct, lemma_status_remove_distinct};
use crate::scoring::{earned_points, elapsed_between, lemma_earned_at_most_max};
use crate::session::{
    answerers_of, client_ids_of, has_client, ids_of, moved_on, points_within, scored, status_get, status_keys,
    status_remove, step, tally, top_of, without_player, CountdownKind, Machine, SessionView, Wait,
    LEADERBOARD_SIZE,
};
use crate::types::{AnswerView, PlayerView};

verus! {

/// What a transition that only sends status frames leaves as it was.
pub open spec fn same_but_statuses(a: SessionView, b: SessionView) -> bool {
    a == (SessionView {
        manager_status: a.manager_status,
        player_statuses: a.player_statuses,
        last_broadcast_status: a.last_broadcast_status,
        ..b
    })
}

/// Sending a status frame keeps the session well-formed and touches
/// nothing but the record of frames.
pub proof fn lemma_send_status_keeps_wf(m: Machine, target: Seq<char>, data: StatusDataView)
    requires
        m.session.wf(),
    ensures
        m.send_status(target, data).session.wf(),
        same_but_statuses(m.send_status(target, data).session, m.session),
{
    lemma_status_put_distinct(m.session.player_statuses, target, data);
}

/// Sending out the results touches nothing but the record of frames.
pub proof fn lemma_deliver_results_frame(m: Machine, n: nat)
    ensures
        same_but_statuses(m.deliver_results(n).session, m.session),
        m.deliver_results(n).out.timer == m.out.timer,
        m.deliver_results(n).out.check_after == m.out.check_after,
        m.deliver_results(n).out.destroyed == m.out.destroyed,
    decreases n,
{
    if n > 0 {
        lemma_deliver_results_frame(m, (n - 1) as nat);
    }
}

/// The end of a round touches nothing but the roster, the leaderboards
/// and the record of frames.
pub proof fn lemma_show_results_frame(m: Machine)
    ensures
        m.show_results().session == (SessionView {
            players: m.show_results().session.players,
            leaderboard: m.show_results().session.leaderboard,
            old_leaderboard: m.show_results().session.old_leaderboard,
            manager_status: m.show_results().session.manager_status,
            player_statuses: m.show_results().session.player_statuses,
            last_broadcast_status: m.show_results().session.last_broadcast_status,
            ..m.session
        }),
        m.show_results().out.timer == m.out.timer,
        m.show_results().out.check_after == m.out.check_after,
        m.show_results().out.destroyed == m.out.destroyed,
{
    let s = m.session;
    let players = ranked(scored(s.players, s.round_answers, s.question().solution));
    let m1 = Machine { session: SessionView { players, ..s }, ..m };
    lemma_deliver_results_frame(m1, players.len());
}

/// Moving on to the next question comes to what `moved_on` says.
pub proof fn lemma_next_question_advances(s: SessionView, socket_id: Seq<char>)
    ensures
        moved_on(
            s,
            Machine::start(s).next_question(socket_id).session,
            Machine::start(s).next_question(socket_id).out,
            socket_id,
        ),
{
    let m = Machine::start(s);
    if socket_id == s.manager_socket_id && s.running() && !s.is_last_question() {
        if s.round_under_way() {
            lemma_show_results_frame(m.waiting(Wait::Idle, TimerAction::Clear));
        }
    }
}

/// Sending out the results keeps the session well-formed and touches
/// nothing but the record of frames.
pub proof fn lemma_deliver_results_keeps_wf(m: Machine, n: nat)
    requires
        m.session.wf(),
    ensures
        m.deliver_results(n).session.wf(),
        same_but_statuses(m.deliver_results(n).session, m.session),
    decreases n,
{
    if n > 0 {
        lemma_deliver_results_keeps_wf(m, (n - 1) as nat);
        lemma_send_status_keeps_wf(
            m.deliver_results((n - 1) as nat),
            m.session.players[n - 1].id,
            m.result_of(n - 1),
        );
    }
}

/// The end of a round keeps the session well-formed, provided the round
/// had not been scored before.
pub proof fn lemma_show_results_keeps_wf(m: Machine)
    requires
        m.session.wf(),
        m.session.running(),
        m.session.wait == Wait::Idle,
        points_within(m.session.players, 1000 * m.session.current_question),
    ensures
        m.show_results().session.wf(),
        m.show_results().session.wait == Wait::Idle,
        m.show_results().session.phase == m.session.phase,
        m.show_results().session.current_question == m.session.current_question,
        m.show_results().session.quiz == m.session.quiz,
        m.show_results().session.manager_socket_id == m.session.manager_socket_id,
{
    let s = m.session;
    let solution = s.question().solution;
    let gained = scored(s.players, s.round_answers, solution);
    assert forall|i: int| 0 <= i < gained.len() implies (#[trigger] gained[i]).points <= 1000 * (
    s.current_question + 1) by {
        assert(s.players[i].points <= 1000 * s.current_question);
        lemma_round_points_bounded(s.round_answers, solution, s.players[i].id);
    }
    lemma_ranked_within(gained, 1000 * (s.current_question + 1));
    assert(client_ids_of(gained) =~= client_ids_of(s.players));
    lemma_ranked_clients(gained);
    let players = ranked(gained);
    let m1 = Machine { session: SessionView { players, ..s }, ..m };
    assert(m1.session.wf());
    lemma_deliver_results_keeps_wf(m1, players.len());
    let m2 = m1.deliver_results(players.len());
    lemma_send_status_keeps_wf(
        m2,
        s.manager_socket_id,
        StatusDataView::ShowResponses {
            question: s.question().question,
            responses: tally(s.round_answers),
            correct: solution,
            answers: s.question().answers,
            image: resolved_image(s.question().image, s.base_url),
        },
    );
}

/// The start of a round keeps the session well-formed, provided no
/// player has more than a thousand points for each round before it.
pub proof fn lemma_new_round_keeps_wf(m: Machine)
    requires
        m.session.wf(),
        points_within(m.session.players, 1000 * m.session.current_question),
    ensures
        m.new_round().session.wf(),
{
    let s = m.session;
    if s.running() {
        let cleared = SessionView {
            player_statuses: Seq::empty(),
            round_answers: Seq::empty(),
            ..s
        };
        assert(answerers_of(cleared.round_answers) =~= Seq::empty());
        assert(status_keys(cleared.player_statuses) =~= Seq::empty());
    }
}

/// What follows a countdown keeps the session well-formed.
pub proof fn lemma_countdown_done_keeps_wf(m: Machine, kind: CountdownKind)
    requires
        m.session.wf(),
        points_within(m.session.players, 1000 * m.session.current_question),
    ensures
        m.countdown_done(kind).session.wf(),
{
    let idle = m.waiting(Wait::Idle, TimerAction::Clear);
    assert(idle.session.wf());
    match kind {
        CountdownKind::Warmup => lemma_new_round_keeps_wf(idle),
        CountdownKind::Answers => {
            if m.session.running() {
                lemma_show_results_keeps_wf(idle);
            }
        },
    }
}

/// Cutting a countdown short keeps the session well-formed.
pub proof fn lemma_cancel_keeps_wf(m: Machine)
    requires
        m.session.wf(),
    ensures
        m.cancel_cooldown().session.wf(),
{
    match m.session.wait {
        Wait::Countdown { kind, .. } => lemma_countdown_done_keeps_wf(m, kind),
        _ => {},
    }
}

/// The firing of the timer keeps the session well-formed.
pub proof fn lemma_timer_keeps_wf(m: Machine, now: u64)
    requires
        m.session.wf(),
    ensures
        m.timer_fired(now).session.wf(),
{
    match m.session.wait {
        Wait::Countdown { kind, remaining } => {
            if remaining <= 1 {
                lemma_countdown_done_keeps_wf(m, kind);
            }
        },
        _ => {},
    }
}

/// Taking an answer keeps the session well-formed.
pub proof fn lemma_select_answer_keeps_wf(m: Machine, socket_id: Seq<char>, answer_key: usize, now: u64)
    requires
        m.session.wf(),
    ensures
        m.select_answer(socket_id, answer_key, now).session.wf(),
{
    let s = m.session;
    if m.takes_answer(socket_id) {
        let points = earned_points(elapsed_between(s.round_start_time, now), s.question().time as nat);
        lemma_earned_at_most_max(elapsed_between(s.round_start_time, now), s.question().time as nat);
        let record = AnswerView { player_id: socket_id, answer_id: answer_key, points };
        let before = s.round_answers;
        let answers = before.push(record);
        lemma_first_index_is_first(answerers_of(before), socket_id);
        assert forall|i: int, j: int|
            0 <= i < answerers_of(answers).len() && 0 <= j < answerers_of(answers).len() && i
                != j implies answerers_of(answers)[i] != answerers_of(answers)[j] by {
            if i < before.len() {
                assert(answerers_of(answers)[i] == answerers_of(before)[i]);
            }
            if j < before.len() {
                assert(answerers_of(answers)[j] == answerers_of(before)[j]);
            }
        }
        assert forall|i: int| 0 <= i < answers.len() implies (#[trigger] answers[i]).points
            <= 1000 by {
            if i < before.len() {
                assert(before[i].points <= 1000);
            }
        }
        let m1 = Machine { session: SessionView { round_answers: answers, ..s }, ..m };
        assert(m1.session.wf());
        let data = StatusDataView::Wait { text: "Waiting for the players to answer"@ };
        lemma_send_status_keeps_wf(m1, socket_id, data);
        let m2 = m1.send_status(socket_id, data);
        let m3 = m2.emit(
            GameEventView::BroadcastExcept {
                exclude: socket_id,
                msg: ServerMsgView::PlayerAnswer { count: answers.len() as usize },
            },
        ).broadcast_total_players();
        assert(m3.session == m2.session);
        lemma_cancel_keeps_wf(m3);
    }
}

/// Letting a player join keeps the session well-formed.
pub proof fn lemma_join_keeps_wf(m: Machine, socket_id: Seq<char>, client_id: Seq<char>, username: Seq<char>)
    requires
        m.session.wf(),
    ensures
        m.join(socket_id, client_id, username).session.wf(),
{
    lemma_roster_ok(m.session);
    let player = PlayerView { id: socket_id, client_id, connected: true, username, points: 0 };
    lemma_first_index_is_first(client_ids_of(m.session.players), client_id);
    if m.join_refusal(client_id, username) is None {
        assert(!has_client(m.session.players, client_id)) by {
            if has_client(m.session.players, client_id) {
                let k = choose|k: int|
                    0 <= k < m.session.players.len() && (#[trigger] m.session.players[k]).client_id
                        == client_id;
                assert(client_ids_of(m.session.players)[k] == client_id);
            }
        }
        assert(m.session.roster_ok(m.session.players.push(player)));
    }
}

/// Moving on to the next question keeps the session well-formed.
pub proof fn lemma_next_question_keeps_wf(m: Machine, socket_id: Seq<char>)
    requires
        m.session.wf(),
    ensures
        m.next_question(socket_id).session.wf(),
{
    let s = m.session;
    if socket_id == s.manager_socket_id && s.running() && !s.is_last_question() {
        let ended = if s.round_under_way() {
            let idle = m.waiting(Wait::Idle, TimerAction::Clear);
            assert(idle.session.wf());
            lemma_show_results_keeps_wf(idle);
            idle.show_results()
        } else {
            m
        };
        let e = ended.session;
        assert(e.wf());
        let next = Machine {
            session: SessionView { current_question: e.current_question + 1, ..e },
            ..ended
        };
        assert(points_within(next.session.players, 1000 * next.session.current_question));
        assert forall|i: int| 0 <= i < e.players.len() implies (#[trigger] e.players[i]).points
            <= 1000 * (e.current_question + 2) by {
            assert(e.players[i].points <= 1000 * (e.current_question + 1));
        }
        assert(next.session.wf());
        lemma_new_round_keeps_wf(next);
    }
}

/// Removing a player keeps the session well-formed.
pub proof fn lemma_kick_keeps_wf(m: Machine, socket_id: Seq<char>, player_id: Seq<char>)
    requires
        m.session.wf(),
    ensures
        m.kick_player(socket_id, player_id).session.wf(),
{
    lemma_roster_ok(m.session);
    lemma_status_remove_distinct(m.session.player_statuses, player_id);
    assert(m.session.roster_ok(without_player(m.session.players, player_id)));
}

/// Losing the socket of a player keeps the session well-formed.
pub proof fn lemma_player_disconnect_keeps_wf(m: Machine, socket_id: Seq<char>)
    requires
        m.session.wf(),
    ensures
        m.player_disconnect(socket_id).session.wf(),
{
    let s = m.session;
    lemma_roster_ok(s);
    lemma_first_index_is_first(ids_of(s.players), socket_id);
    assert(s.roster_ok(without_player(s.players, socket_id)));
    match first_index(ids_of(s.players), socket_id) {
        Some(i) => {
            assert(s.roster_ok(
                s.players.update(i, PlayerView { connected: false, ..s.players[i] }),
            ));
        },
        None => {},
    }
}

/// Readmitting a player keeps the session well-formed.
pub proof fn lemma_player_reconnect_keeps_wf(m: Machine, socket_id: Seq<char>, client_id: Seq<char>)
    requires
        m.session.wf(),
    ensures
        m.player_reconnect(socket_id, client_id).session.wf(),
{
    let s = m.session;
    lemma_roster_ok(s);
    lemma_first_index_is_first(client_ids_of(s.players), client_id);
    match first_index(client_ids_of(s.players), client_id) {
        Some(i) => {
            if !s.players[i].connected {
                let old_id = s.players[i].id;
                assert(s.roster_ok(
                    s.players.update(
                        i,
                        PlayerView { id: socket_id, connected: true, ..s.players[i] },
                    ),
                ));
                lemma_status_remove_distinct(s.player_statuses, old_id);
                match status_get(s.player_statuses, old_id) {
                    Some(data) => lemma_status_put_distinct(
                        status_remove(s.player_statuses, old_id),
                        socket_id,
                        data,
                    ),
                    None => {},
                }
            }
        },
        None => {},
    }
}

/// The check on an absent manager keeps the session well-formed.
pub proof fn lemma_disconnect_check_keeps_wf(m: Machine, game_id: Seq<char>)
    requires
        m.session.wf(),
    ensures
        m.disconnect_check(game_id).session.wf(),
{
    lemma_cancel_keeps_wf(m);
}

/// Asking for the leaderboard keeps the session well-formed.
pub proof fn lemma_show_leaderboard_keeps_wf(m: Machine)
    requires
        m.session.wf(),
    ensures
        m.show_leaderboard().session.wf(),
{
    let s = m.session;
    if !s.is_last_question() {
        let cleared = Machine { session: SessionView { old_leaderboard: None, ..s }, ..m };
        assert(cleared.session.wf());
        let old_board = match s.old_leaderboard {
            Some(board) => board,
            None => s.leaderboard,
        };
        lemma_send_status_keeps_wf(
            cleared,
            s.manager_socket_id,
            StatusDataView::ShowLeaderboard {
                old_leaderboard: top_of(
                    old_board,
                    LEADERBOARD_SIZE as nat,
                ),
                leaderboard: top_of(
                    s.leaderboard,
                    LEADERBOARD_SIZE as nat,
                ),
            },
        );
    }
}

/// Whatever a session is asked to do, it stays well-formed: in
/// particular no player ever has two records in a round, and nobody has
/// more than a thousand points for each round played.
pub proof fn lemma_step_keeps_wf(s: SessionView, registry: RegistryView, cmd: GameCommandView, now: u64)
    requires
        s.wf(),
    ensures
        step(s, registry, cmd, now).session.wf(),
{
    let m = Machine::start(s);
    match cmd {
        GameCommandView::Join { socket_id, client_id, username } => {
            lemma_join_keeps_wf(m, socket_id, client_id, username);
        },
        GameCommandView::SelectAnswer { socket_id, answer_key } => {
            lemma_select_answer_keeps_wf(m, socket_id, answer_key, now);
        },
        GameCommandView::StartGame { socket_id } => {},
        GameCommandView::AbortQuiz { socket_id } => {
            lemma_cancel_keeps_wf(m);
        },
        GameCommandView::NextQuestion { socket_id } => {
            lemma_next_question_keeps_wf(m, socket_id);
        },
        GameCommandView::ShowLeaderboard {  } => {
            lemma_show_leaderboard_keeps_wf(m);
        },
        GameCommandView::KickPlayer { socket_id, player_id } => {
            lemma_kick_keeps_wf(m, socket_id, player_id);
        },
        GameCommandView::PlayerDisconnect { socket_id } => {
            lemma_player_disconnect_keeps_wf(m, socket_id);
        },
        GameCommandView::ManagerDisconnect { socket_id } => {},
        GameCommandView::PlayerReconnect { socket_id, client_id } => {
            lemma_player_reconnect_keeps_wf(m, socket_id, client_id);
        },
        GameCommandView::ManagerReconnect { socket_id, client_id } => {},
        GameCommandView::ManagerDisconnectCheck { game_id } => {
            lemma_disconnect_check_keeps_wf(m, game_id);
        },
    }
}

} // verus!
