//! What holds of the engine as a whole, proved from the model of its
//! transitions.

use vstd::prelude::*;
use crate::command::{GameCommandView, GameEventView, OutcomeView};
use crate::engine::lemma_round_points_bounded;
use crate::lookup::{first_index, lemma_first_index_found, lemma_first_index_is_first};
use crate::message::ServerMsgView;
use crate::ranking::{is_ranked, lemma_ranked_is_ranked, ranked};
use crate::roster::{lemma_status_put_get, lemma_times_chosen_bounded};
use crate::types::AnswerView;
use crate::registry::{
    lemma_bind_keeps_agreement, lemma_remove_keeps_agreement, lemma_unbind_keeps_agreement,
    RegistryView, Role,
};
use crate::session::{
    answerers_of, answers_within, client_ids_of, readmitted, scored, status_get, status_remove,
    step, tally, times_chosen, Machine, SessionView, Wait,
};

verus! {

/// Whatever a live session is asked to do, the registry stays in
/// agreement: every live session keeps exactly one invite code.
pub proof fn lemma_step_keeps_agreement(
    s: SessionView,
    registry: RegistryView,
    cmd: GameCommandView,
    now: u64,
)
    requires
        registry.wf(),
        registry.is_live(s.game_id),
    ensures
        step(s, registry, cmd, now).registry.wf(),
{
    match cmd {
        GameCommandView::Join { socket_id, .. } => {
            lemma_bind_keeps_agreement(registry, Role::Player, socket_id, s.game_id);
        },
        GameCommandView::KickPlayer { player_id, .. } => {
            lemma_unbind_keeps_agreement(registry, Role::Player, player_id);
        },
        GameCommandView::PlayerDisconnect { socket_id } => {
            lemma_unbind_keeps_agreement(registry, Role::Player, socket_id);
        },
        GameCommandView::ManagerDisconnect { socket_id } => {
            lemma_unbind_keeps_agreement(registry, Role::Manager, socket_id);
        },
        GameCommandView::PlayerReconnect { socket_id, client_id } => {
            match first_index(client_ids_of(s.players), client_id) {
                Some(i) => {
                    let old_id = s.players[i].id;
                    lemma_unbind_keeps_agreement(registry, Role::Player, old_id);
                    lemma_bind_keeps_agreement(
                        registry.unbound(Role::Player, old_id),
                        Role::Player,
                        socket_id,
                        s.game_id,
                    );
                },
                None => {},
            }
        },
        GameCommandView::ManagerReconnect { socket_id, .. } => {
            lemma_unbind_keeps_agreement(registry, Role::Manager, s.manager_socket_id);
            lemma_bind_keeps_agreement(
                registry.unbound(Role::Manager, s.manager_socket_id),
                Role::Manager,
                socket_id,
                s.game_id,
            );
        },
        GameCommandView::ManagerDisconnectCheck { .. } => {
            lemma_remove_keeps_agreement(registry, s.game_id);
        },
        _ => {},
    }
}

/// In any round no player id stands on two answer records.
pub proof fn lemma_one_record_per_player(s: SessionView, i: int, j: int)
    requires
        s.wf(),
        0 <= i < s.round_answers.len(),
        0 <= j < s.round_answers.len(),
        s.round_answers[i].player_id == s.round_answers[j].player_id,
    ensures
        i == j,
{
    assert(answerers_of(s.round_answers)[i] == s.round_answers[i].player_id);
    assert(answerers_of(s.round_answers)[j] == s.round_answers[j].player_id);
}

/// An answer from a player who has a record in the round changes nothing.
pub proof fn lemma_second_answer_is_ignored(m: Machine, socket_id: Seq<char>, answer_key: usize, now: u64)
    requires
        exists|i: int|
            0 <= i < m.session.round_answers.len() && m.session.round_answers[i].player_id
                == socket_id,
    ensures
        m.select_answer(socket_id, answer_key, now) == m,
{
    lemma_first_index_is_first(answerers_of(m.session.round_answers), socket_id);
    let i = choose|i: int|
        0 <= i < m.session.round_answers.len() && m.session.round_answers[i].player_id
            == socket_id;
    assert(answerers_of(m.session.round_answers)[i] == socket_id);
}

/// Sending out the results changes neither the roster nor the records.
pub proof fn lemma_delivery_keeps_roster(m: Machine, n: nat)
    ensures
        m.deliver_results(n).session.players == m.session.players,
        m.deliver_results(n).session.round_answers == m.session.round_answers,
        m.deliver_results(n).session.manager_socket_id == m.session.manager_socket_id,
        m.deliver_results(n).session.leaderboard == m.session.leaderboard,
        m.deliver_results(n).out.events.len() == m.out.events.len() + n,
    decreases n,
{
    if n > 0 {
        lemma_delivery_keeps_roster(m, (n - 1) as nat);
    }
}

/// After scoring the roster is in descending order of points, it holds
/// the same players as before, and each of them has gained no less than
/// nothing and no more than a thousand points.
pub proof fn lemma_results_are_ranked(m: Machine)
    requires
        answers_within(m.session.round_answers),
    ensures
        ({
            let before = m.session.players;
            let gained = scored(before, m.session.round_answers, m.session.question().solution);
            let after = m.show_results().session;
            &&& is_ranked(after.players)
            &&& after.players == ranked(gained)
            &&& after.players.to_multiset() == gained.to_multiset()
            &&& after.leaderboard == after.players
            &&& gained.len() == before.len()
            &&& forall|i: int|
                0 <= i < before.len() ==> {
                    &&& before[i].points <= (#[trigger] gained[i]).points <= before[i].points + 1000
                    &&& gained[i].id == before[i].id
                    &&& gained[i].client_id == before[i].client_id
                    &&& gained[i].username == before[i].username
                    &&& gained[i].connected == before[i].connected
                }
        }),
{
    let s = m.session;
    let solution = s.question().solution;
    let before = s.players;
    let gained = scored(before, s.round_answers, solution);
    let players = ranked(gained);
    let m1 = Machine { session: SessionView { players, ..s }, ..m };
    lemma_delivery_keeps_roster(m1, players.len());
    lemma_ranked_is_ranked(gained);
    assert forall|i: int| 0 <= i < before.len() implies before[i].points <= (
    #[trigger] gained[i]).points <= before[i].points + 1000 by {
        lemma_round_points_bounded(s.round_answers, solution, before[i].id);
    }
}

/// The player with the client id `client_id`, if disconnected, is
/// readmitted as `readmitted` says.
pub proof fn lemma_reconnect_readmits(s: SessionView, socket_id: Seq<char>, client_id: Seq<char>, k: int)
    requires
        s.wf(),
        0 <= k < s.players.len(),
        s.players[k].client_id == client_id,
        !s.players[k].connected,
    ensures
        Machine::start(s).readmits(client_id),
        readmitted(
            s,
            Machine::start(s).player_reconnect(socket_id, client_id).session,
            Machine::start(s).player_reconnect(socket_id, client_id).out,
            socket_id,
            k,
        ),
{
    let keys = client_ids_of(s.players);
    lemma_first_index_is_first(keys, client_id);
    assert(keys[k] == client_id);
    let i = first_index(keys, client_id)->0;
    assert(keys[i] == client_id);
    assert(i == k);
    match status_get(s.player_statuses, s.players[k].id) {
        Some(own) => {
            lemma_status_put_get(
                status_remove(s.player_statuses, s.players[k].id),
                socket_id,
                own,
            );
        },
        None => {},
    }
}

/// A player who is readmitted and asks again on the same socket is told
/// that the player is already connected, and nothing else happens.
pub proof fn lemma_second_reconnect_is_refused(s: SessionView, socket_id: Seq<char>, client_id: Seq<char>)
    requires
        Machine::start(s).readmits(client_id),
    ensures
        ({
            let first = Machine::start(s).player_reconnect(socket_id, client_id);
            let second = Machine::start(first.session).player_reconnect(socket_id, client_id);
            &&& first.out.events.len() == 2
            &&& first.out.events[0] matches GameEventView::SendTo { socket_id: to, msg }
            &&& to == socket_id
            &&& msg is PlayerReconnected
            &&& second.session == first.session
            &&& second.out == (OutcomeView {
                events: seq![
                    GameEventView::SendTo {
                        socket_id,
                        msg: ServerMsgView::Reset { message: "Player already connected"@ },
                    },
                ],
                ..OutcomeView::nothing()
            })
        }),
{
    let keys = client_ids_of(s.players);
    lemma_first_index_is_first(keys, client_id);
    let i = first_index(keys, client_id)->0;
    let first = Machine::start(s).player_reconnect(socket_id, client_id);
    let keys2 = client_ids_of(first.session.players);
    assert(keys2 =~= keys);
    lemma_first_index_found(keys2, client_id, i);
    let second = Machine::start(first.session).player_reconnect(socket_id, client_id);
    assert(first.session.players[i].connected);
    assert(second.out.events =~= seq![
        GameEventView::SendTo {
            socket_id,
            msg: ServerMsgView::Reset { message: "Player already connected"@ },
        },
    ]);
}

/// A countdown of `remaining` seconds announces `remaining - 1` after its
/// first second and goes on from there; the last second announces
/// nothing and ends the countdown.
pub proof fn lemma_countdown_tick(m: Machine, now: u64)
    requires
        m.session.wait is Countdown,
    ensures
        ({
            let kind = m.session.wait->kind;
            let remaining = m.session.wait->remaining;
            let next = m.timer_fired(now);
            if remaining > 1 {
                &&& next.session.wait == (Wait::Countdown { kind, remaining: (remaining - 1) as u64 })
                &&& next.out.events == m.out.events.push(
                    GameEventView::Broadcast {
                        msg: ServerMsgView::Cooldown { count: (remaining - 1) as u64 },
                    },
                )
            } else {
                next == m.countdown_done(kind)
            }
        }),
{
}

/// The responses shown to the manager count the submitted answers and
/// nothing else: an answer index has an entry exactly if some record
/// chose it, and the entry tells how many records did.
pub proof fn lemma_tally_counts(answers: Seq<AnswerView>, answer: usize)
    requires
        answers.len() <= usize::MAX,
    ensures
        tally(answers).contains_key(answer) <==> exists|i: int|
            0 <= i < answers.len() && answers[i].answer_id == answer,
        tally(answers).contains_key(answer) ==> tally(answers)[answer] == times_chosen(
            answers,
            answer,
        ) && tally(answers)[answer] >= 1,
{
    lemma_times_chosen_bounded(answers, answer);
    lemma_times_chosen_counts(answers, answer);
}

/// An answer index was chosen at least once exactly if some record holds
/// it.
proof fn lemma_times_chosen_counts(answers: Seq<AnswerView>, answer: usize)
    ensures
        times_chosen(answers, answer) > 0 <==> exists|i: int|
            0 <= i < answers.len() && answers[i].answer_id == answer,
    decreases answers.len(),
{
    if answers.len() > 0 {
        let front = answers.drop_last();
        lemma_times_chosen_counts(front, answer);
        if times_chosen(answers, answer) > 0 {
            if answers.last().answer_id == answer {
                assert(answers[answers.len() - 1].answer_id == answer);
            } else {
                let i = choose|i: int| 0 <= i < front.len() && front[i].answer_id == answer;
                assert(answers[i].answer_id == answer);
            }
        }
        if exists|i: int| 0 <= i < answers.len() && answers[i].answer_id == answer {
            let i = choose|i: int| 0 <= i < answers.len() && answers[i].answer_id == answer;
            if i < front.len() {
                assert(front[i].answer_id == answer);
            }
        }
    }
}

/// The machine after its timer has fired `k` times in a row at time `now`.
pub open spec fn after_ticks(m: Machine, now: u64, k: nat) -> Machine
    decreases k,
{
    if k == 0 {
        m
    } else {
        after_ticks(m, now, (k - 1) as nat).timer_fired(now)
    }
}

/// The first `k` announcements of a countdown of `seconds` seconds: the
/// counts from `seconds - 1` downwards.
pub open spec fn countdown_counts(seconds: u64, k: nat) -> Seq<GameEventView> {
    Seq::new(
        k,
        |i: int|
            GameEventView::Broadcast {
                msg: ServerMsgView::Cooldown { count: (seconds - 1 - i) as u64 },
            },
    )
}

/// A countdown of `seconds` seconds announces the counts `seconds - 1`,
/// `seconds - 2`, down to 1, one with each second, and changes nothing
/// else; its last second passes without an announcement and ends it.
pub proof fn lemma_countdown_announces(m: Machine, now: u64, k: nat)
    requires
        m.session.wait is Countdown,
        k < m.session.wait->remaining,
    ensures
        ({
            let kind = m.session.wait->kind;
            let seconds = m.session.wait->remaining;
            let left = (seconds - k) as u64;
            let then = after_ticks(m, now, k);
            &&& then.session == (SessionView {
                wait: Wait::Countdown { kind, remaining: left },
                ..m.session
            })
            &&& then.out.events == m.out.events + countdown_counts(seconds, k)
            &&& left == 1 ==> then.timer_fired(now) == then.countdown_done(kind)
        }),
    decreases k,
{
    let seconds = m.session.wait->remaining;
    if k == 0 {
        assert(m.out.events + countdown_counts(seconds, 0) =~= m.out.events);
    } else {
        lemma_countdown_announces(m, now, (k - 1) as nat);
        let before = after_ticks(m, now, (k - 1) as nat);
        let then = after_ticks(m, now, k);
        assert(then.out.events =~= m.out.events + countdown_counts(seconds, k));
    }
}

} // verus!
