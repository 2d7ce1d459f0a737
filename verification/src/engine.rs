//! The executable session: every operation does what its model says.

use vstd::prelude::*;
use crate::command::{GameCommand, GameCommandView, GameEvent, Outcome, TimerAction};
use crate::config::{resolve_image, resolved_image};
use crate::laws::{lemma_reconnect_readmits, lemma_step_keeps_agreement};
use crate::lookup::lemma_first_index_is_first;
use crate::preservation::lemma_next_question_advances;
use crate::message::{ServerMsg, StatusData};
use crate::ranking::{insert_ranked, is_ranked, lemma_ranked_is_ranked, rank_players, ranked};
use crate::registry::{Registry, Role};
use crate::roster::{
    copy_players, copy_texts, count_connected, count_responses, find_answer, find_client,
    find_player, get_status, lemma_status_put_distinct, lemma_status_remove_distinct, put_status,
    remove_player, take_status, take_top,
};
use crate::scoring::time_to_points;
use crate::session::{
    answered_right, answerers_of, answers_within, check_registry, client_ids_of, gains_within,
    has_client, join_registry, kick_registry, manager_disconnect_registry,
    manager_reconnect_registry, moved_on, player_reconnect_registry, points_within, readmitted,
    result_data, round_points, scored, status_get, status_remove, step, waiting_for_players,
    without_player, CountdownKind, Machine, Phase, Session, SessionView, Step, Wait,
    LEADERBOARD_SIZE, MANAGER_GRACE, MAX_USERNAME_LEN, MIN_USERNAME_LEN, PODIUM_SIZE,
    PREPARE_DELAY, START_DELAY, WARMUP_SECONDS,
};
use crate::types::{Answer, AnswerView, Player, PlayerView, Question, QuestionProgress, Quiz};

verus! {

/// The machine made of a session and the outcome of the step under way.
pub open spec fn machine(s: Session, o: Outcome) -> Machine {
    Machine { session: s@, out: o@ }
}

/// Nobody earns more than a thousand points in a round.
pub proof fn lemma_round_points_bounded(answers: Seq<AnswerView>, solution: usize, player_id: Seq<char>)
    requires
        answers_within(answers),
    ensures
        round_points(answers, solution, player_id) <= 1000,
{
    lemma_first_index_is_first(answerers_of(answers), player_id);
}

/// Ranking a roster leaves every player within the bound that held of all.
pub proof fn lemma_ranked_within(players: Seq<PlayerView>, bound: nat)
    requires
        points_within(players, bound),
    ensures
        points_within(ranked(players), bound),
{
    broadcast use vstd::seq_lib::group_to_multiset_ensures;

    lemma_ranked_is_ranked(players);
    assert forall|i: int| 0 <= i < ranked(players).len() implies (#[trigger] ranked(
        players,
    )[i]).points <= bound by {
        let p = ranked(players)[i];
        assert(ranked(players).contains(p));
        assert(ranked(players).to_multiset().count(p) > 0);
        assert(players.to_multiset().count(p) > 0);
        assert(players.contains(p));
        let k = choose|k: int| 0 <= k < players.len() && players[k] == p;
        assert(players[k].points <= bound);
    }
}

/// A bound on the points of a roster holds of every larger bound too, and
/// of the roster after players have left, have been added without points,
/// or have changed in anything but their points.
pub proof fn lemma_points_within(players: Seq<PlayerView>, bound: nat)
    requires
        points_within(players, bound),
    ensures
        forall|larger: nat| bound <= larger ==> #[trigger] points_within(players, larger),
        forall|id: Seq<char>| #[trigger] points_within(without_player(players, id), bound),
        forall|p: PlayerView| p.points <= bound ==> #[trigger] points_within(players.push(p), bound),
        forall|i: int, p: PlayerView|
            0 <= i < players.len() && p.points <= bound ==> #[trigger] points_within(
                players.update(i, p),
                bound,
            ),
{
    assert forall|larger: nat| bound <= larger implies #[trigger] points_within(
        players,
        larger,
    ) by {
        assert forall|i: int| 0 <= i < players.len() implies (#[trigger] players[i]).points
            <= larger by {
            assert(players[i].points <= bound);
        }
    }
    assert forall|id: Seq<char>| #[trigger] points_within(without_player(players, id), bound) by {
        lemma_without_player_within(players, id, bound);
    }
    assert forall|p: PlayerView| p.points <= bound implies #[trigger] points_within(
        players.push(p),
        bound,
    ) by {
        assert forall|i: int| 0 <= i < players.push(p).len() implies (#[trigger] players.push(
            p,
        )[i]).points <= bound by {
            if i < players.len() {
                assert(players[i].points <= bound);
            }
        }
    }
    assert forall|i: int, p: PlayerView|
        0 <= i < players.len() && p.points <= bound implies #[trigger] points_within(
        players.update(i, p),
        bound,
    ) by {
        assert forall|k: int| 0 <= k < players.update(i, p).len() implies (#[trigger] players.update(
            i,
            p,
        )[k]).points <= bound by {
            if k != i {
                assert(players[k].points <= bound);
            }
        }
    }
}

/// Leaving out players keeps the client ids of a roster distinct and adds
/// none.
pub proof fn lemma_without_player_clients(players: Seq<PlayerView>, id: Seq<char>)
    requires
        client_ids_of(players).no_duplicates(),
    ensures
        client_ids_of(without_player(players, id)).no_duplicates(),
        forall|c: Seq<char>| #[trigger]
            has_client(without_player(players, id), c) ==> has_client(players, c),
    decreases players.len(),
{
    if players.len() > 0 {
        let front = players.drop_last();
        let last = players.last();
        assert(client_ids_of(front) =~= client_ids_of(players).drop_last());
        assert forall|a: int, b: int|
            0 <= a < front.len() && 0 <= b < front.len() && a != b implies client_ids_of(front)[a]
            != client_ids_of(front)[b] by {
            assert(client_ids_of(players)[a] != client_ids_of(players)[b]);
        }
        lemma_without_player_clients(front, id);
        let rest = without_player(front, id);
        let out = without_player(players, id);
        assert forall|c: Seq<char>| #[trigger] has_client(out, c) implies has_client(players, c) by {
            let k = choose|k: int| 0 <= k < out.len() && (#[trigger] out[k]).client_id == c;
            if k < rest.len() {
                assert(rest[k].client_id == c);
                assert(has_client(rest, c));
                let j = choose|j: int| 0 <= j < front.len() && (#[trigger] front[j]).client_id == c;
                assert(players[j].client_id == c);
            } else {
                assert(players[players.len() - 1].client_id == c);
            }
        }
        if last.id != id {
            assert forall|a: int, b: int|
                0 <= a < out.len() && 0 <= b < out.len() && a != b implies client_ids_of(out)[a]
                != client_ids_of(out)[b] by {
                let (lo, hi) = if a < b {
                    (a, b)
                } else {
                    (b, a)
                };
                if hi < rest.len() {
                    assert(client_ids_of(rest)[lo] != client_ids_of(rest)[hi]);
                } else {
                    assert(rest[lo].client_id == client_ids_of(out)[lo]);
                    if rest[lo].client_id == last.client_id {
                        assert(has_client(rest, last.client_id));
                        let j = choose|j: int|
                            0 <= j < front.len() && (#[trigger] front[j]).client_id
                                == last.client_id;
                        assert(client_ids_of(players)[j] != client_ids_of(players)[players.len()
                            - 1]);
                    }
                }
            }
        }
    }
}

/// Putting a player with a new client id into a ranked roster keeps the
/// client ids distinct and adds that one only.
pub proof fn lemma_insert_ranked_clients(roster: Seq<PlayerView>, p: PlayerView)
    requires
        client_ids_of(roster).no_duplicates(),
        !has_client(roster, p.client_id),
    ensures
        client_ids_of(insert_ranked(roster, p)).no_duplicates(),
        forall|c: Seq<char>| #[trigger]
            has_client(insert_ranked(roster, p), c) ==> c == p.client_id || has_client(roster, c),
    decreases roster.len(),
{
    let out = insert_ranked(roster, p);
    if roster.len() == 0 {
        assert(out =~= seq![p]);
    } else if roster.last().points >= p.points {
        assert forall|a: int, b: int|
            0 <= a < out.len() && 0 <= b < out.len() && a != b implies client_ids_of(out)[a]
            != client_ids_of(out)[b] by {
            let (lo, hi) = if a < b {
                (a, b)
            } else {
                (b, a)
            };
            if hi < roster.len() {
                assert(client_ids_of(roster)[lo] != client_ids_of(roster)[hi]);
            } else {
                assert(roster[lo].client_id != p.client_id);
            }
        }
        assert forall|c: Seq<char>| #[trigger] has_client(out, c) implies c == p.client_id
            || has_client(roster, c) by {
            let k = choose|k: int| 0 <= k < out.len() && (#[trigger] out[k]).client_id == c;
            if k < roster.len() {
                assert(roster[k].client_id == c);
            }
        }
    } else {
        let front = roster.drop_last();
        let last = roster.last();
        assert forall|a: int, b: int|
            0 <= a < front.len() && 0 <= b < front.len() && a != b implies client_ids_of(front)[a]
            != client_ids_of(front)[b] by {
            assert(client_ids_of(roster)[a] != client_ids_of(roster)[b]);
        }
        if has_client(front, p.client_id) {
            let j = choose|j: int| 0 <= j < front.len() && (#[trigger] front[j]).client_id
                == p.client_id;
            assert(roster[j].client_id == p.client_id);
        }
        lemma_insert_ranked_clients(front, p);
        let inner = insert_ranked(front, p);
        assert(out == inner.push(last));
        assert(last.client_id != p.client_id) by {
            assert(roster[roster.len() - 1].client_id == last.client_id);
        }
        assert forall|c: Seq<char>| #[trigger] has_client(out, c) implies c == p.client_id
            || has_client(roster, c) by {
            let k = choose|k: int| 0 <= k < out.len() && (#[trigger] out[k]).client_id == c;
            if k < inner.len() {
                assert(inner[k].client_id == c);
                assert(has_client(inner, c));
                if c != p.client_id {
                    let j = choose|j: int| 0 <= j < front.len() && (#[trigger] front[j]).client_id
                        == c;
                    assert(roster[j].client_id == c);
                }
            } else {
                assert(roster[roster.len() - 1].client_id == c);
            }
        }
        assert forall|a: int, b: int|
            0 <= a < out.len() && 0 <= b < out.len() && a != b implies client_ids_of(out)[a]
            != client_ids_of(out)[b] by {
            let (lo, hi) = if a < b {
                (a, b)
            } else {
                (b, a)
            };
            if hi < inner.len() {
                assert(client_ids_of(inner)[lo] != client_ids_of(inner)[hi]);
            } else {
                assert(inner[lo].client_id == client_ids_of(out)[lo]);
                if inner[lo].client_id == last.client_id {
                    assert(has_client(inner, last.client_id));
                    let j = choose|j: int|
                        0 <= j < front.len() && (#[trigger] front[j]).client_id == last.client_id;
                    assert(client_ids_of(roster)[j] != client_ids_of(roster)[roster.len() - 1]);
                }
            }
        }
    }
}

/// Ranking a roster keeps its client ids distinct and adds none.
pub proof fn lemma_ranked_clients(players: Seq<PlayerView>)
    requires
        client_ids_of(players).no_duplicates(),
    ensures
        client_ids_of(ranked(players)).no_duplicates(),
        forall|c: Seq<char>| #[trigger] has_client(ranked(players), c) ==> has_client(players, c),
    decreases players.len(),
{
    if players.len() == 0 {
    } else {
        let front = players.drop_last();
        let last = players.last();
        assert forall|a: int, b: int|
            0 <= a < front.len() && 0 <= b < front.len() && a != b implies client_ids_of(front)[a]
            != client_ids_of(front)[b] by {
            assert(client_ids_of(players)[a] != client_ids_of(players)[b]);
        }
        lemma_ranked_clients(front);
        if has_client(ranked(front), last.client_id) {
            assert(has_client(front, last.client_id));
            let j = choose|j: int| 0 <= j < front.len() && (#[trigger] front[j]).client_id
                == last.client_id;
            assert(client_ids_of(players)[j] != client_ids_of(players)[players.len() - 1]);
        }
        lemma_insert_ranked_clients(ranked(front), last);
        assert forall|c: Seq<char>| #[trigger] has_client(ranked(players), c) implies has_client(
            players,
            c,
        ) by {
            if c == last.client_id {
                assert(players[players.len() - 1].client_id == c);
            } else {
                assert(has_client(ranked(front), c));
                assert(has_client(front, c));
                let j = choose|j: int| 0 <= j < front.len() && (#[trigger] front[j]).client_id == c;
                assert(players[j].client_id == c);
            }
        }
    }
}

/// Scoring and ranking a roster whose client ids are distinct takes
/// nobody off it and puts nobody on it, takes no points from anybody and
/// gives nobody more than a thousand.
pub proof fn lemma_scoring_gains(before: Seq<PlayerView>, answers: Seq<AnswerView>, solution: usize)
    requires
        client_ids_of(before).no_duplicates(),
        answers_within(answers),
    ensures
        gains_within(before, ranked(scored(before, answers, solution))),
        is_ranked(ranked(scored(before, answers, solution))),
{
    broadcast use vstd::seq_lib::group_to_multiset_ensures;

    let gained = scored(before, answers, solution);
    let after = ranked(gained);
    lemma_ranked_is_ranked(gained);
    assert forall|j: int| 0 <= j < before.len() implies has_client(
        after,
        (#[trigger] before[j]).client_id,
    ) by {
        let p = gained[j];
        assert(gained.contains(p));
        assert(gained.to_multiset().count(p) > 0);
        assert(after.to_multiset().count(p) > 0);
        assert(after.contains(p));
        let i = choose|i: int| 0 <= i < after.len() && after[i] == p;
        assert(after[i].client_id == before[j].client_id);
    }
    assert forall|i: int, j: int|
        0 <= i < after.len() && 0 <= j < before.len() && (#[trigger] after[i]).client_id == (
        #[trigger] before[j]).client_id implies before[j].points <= after[i].points
        <= before[j].points + 1000 by {
        let p = after[i];
        assert(after.contains(p));
        assert(after.to_multiset().count(p) > 0);
        assert(gained.to_multiset().count(p) > 0);
        assert(gained.contains(p));
        let k = choose|k: int| 0 <= k < gained.len() && gained[k] == p;
        assert(client_ids_of(before)[k] == before[k].client_id);
        assert(client_ids_of(before)[j] == before[j].client_id);
        assert(k == j);
        lemma_round_points_bounded(answers, solution, before[j].id);
    }
}

/// The roster of a session stays one the session can have when players
/// leave it, join it without points under a new client id, or change in
/// anything but their points and their client id.
pub proof fn lemma_roster_ok(s: SessionView)
    requires
        s.wf(),
    ensures
        forall|id: Seq<char>| #[trigger] s.roster_ok(without_player(s.players, id)),
        forall|p: PlayerView|
            p.points == 0 && !has_client(s.players, p.client_id) ==> #[trigger] s.roster_ok(
                s.players.push(p),
            ),
        forall|i: int, p: PlayerView|
            0 <= i < s.players.len() && p.points == s.players[i].points && p.client_id
                == s.players[i].client_id ==> #[trigger] s.roster_ok(s.players.update(i, p)),
{
    lemma_points_within(s.players, 1000 * (s.current_question + 1));
    if s.wait != Wait::Idle {
        lemma_points_within(s.players, 1000 * s.current_question);
    }
    if s.phase == Phase::Lobby {
        lemma_points_within(s.players, 0);
    }
    assert forall|id: Seq<char>| #[trigger] s.roster_ok(without_player(s.players, id)) by {
        lemma_without_player_clients(s.players, id);
    }
    assert forall|p: PlayerView|
        p.points == 0 && !has_client(s.players, p.client_id) implies #[trigger] s.roster_ok(
        s.players.push(p),
    ) by {
        let after = client_ids_of(s.players.push(p));
        assert forall|a: int, b: int|
            0 <= a < after.len() && 0 <= b < after.len() && a != b implies after[a]
            != after[b] by {
            let (lo, hi) = if a < b {
                (a, b)
            } else {
                (b, a)
            };
            if hi < s.players.len() {
                assert(client_ids_of(s.players)[lo] != client_ids_of(s.players)[hi]);
            } else {
                assert(s.players[lo].client_id != p.client_id);
            }
        }
    }
    assert forall|i: int, p: PlayerView|
        0 <= i < s.players.len() && p.points == s.players[i].points && p.client_id
            == s.players[i].client_id implies #[trigger] s.roster_ok(s.players.update(i, p)) by {
        assert(s.players[i].points <= 1000 * (s.current_question + 1));
        if s.wait != Wait::Idle {
            assert(s.players[i].points <= 1000 * s.current_question);
        }
        if s.phase == Phase::Lobby {
            assert(s.players[i].points <= 0);
        }
        assert(client_ids_of(s.players.update(i, p)) =~= client_ids_of(s.players));
    }
}

proof fn lemma_without_player_within(players: Seq<PlayerView>, id: Seq<char>, bound: nat)
    requires
        points_within(players, bound),
    ensures
        points_within(without_player(players, id), bound),
    decreases players.len(),
{
    if players.len() > 0 {
        assert forall|i: int| 0 <= i < players.drop_last().len() implies (
        #[trigger] players.drop_last()[i]).points <= bound by {
            assert(players[i].points <= bound);
        }
        lemma_without_player_within(players.drop_last(), id, bound);
        assert(players.last().points <= bound);
    }
}

/// The points a player earns in a round and whether the answer was right.
pub fn round_result(answers: &Vec<Answer>, solution: usize, player_id: &String) -> (r: (u64, bool))
    requires
        answers_within(answers.deep_view()),
    ensures
        r.0 == round_points(answers.deep_view(), solution, player_id@),
        r.1 == answered_right(answers.deep_view(), solution, player_id@),
        r.0 <= 1000,
{
    match find_answer(answers, player_id) {
        Some(i) => {
            assert(answers.deep_view()[i as int] == answers[i as int]@);
            if answers[i].answer_id == solution {
                (answers[i].points, true)
            } else {
                (0, false)
            }
        },
        None => (0, false),
    }
}

/// Adds to every player the points of the round.
pub fn score_players(players: &Vec<Player>, answers: &Vec<Answer>, solution: usize) -> (out: Vec<
    Player,
>)
    requires
        answers_within(answers.deep_view()),
        forall|i: int| 0 <= i < players.len() ==> (#[trigger] players[i]).points + 1000 <= u128::MAX,
    ensures
        out.deep_view() == scored(players.deep_view(), answers.deep_view(), solution),
{
    let mut out: Vec<Player> = Vec::new();
    let mut i: usize = 0;
    let ghost target = scored(players.deep_view(), answers.deep_view(), solution);
    assert(out.deep_view() =~= target.take(0));
    while i < players.len()
        invariant
            i <= players.len(),
            answers_within(answers.deep_view()),
            forall|i: int| 0 <= i < players.len() ==> (#[trigger] players[i]).points + 1000 <= u128::MAX,
            target == scored(players.deep_view(), answers.deep_view(), solution),
            out.deep_view() == target.take(i as int),
        decreases players.len() - i,
    {
        let ghost before = out.deep_view();
        let p = &players[i];
        let earned = round_result(answers, solution, &p.id);
        let q = Player {
            id: p.id.clone(),
            client_id: p.client_id.clone(),
            connected: p.connected,
            username: p.username.clone(),
            points: p.points + earned.0 as u128,
        };
        assert(q@ == target[i as int]);
        out.push(q);
        assert(out.deep_view() =~= before.push(q@));
        assert(target.take(i + 1) =~= before.push(target[i as int]));
        i += 1;
    }
    assert(target.take(i as int) =~= target);
    out
}

/// Builds what the player at position `i` of a ranked roster is told at
/// the end of a round.
pub fn result_frame(
    players: &Vec<Player>,
    i: usize,
    answers: &Vec<Answer>,
    solution: usize,
    answer_image: &Option<String>,
) -> (data: StatusData)
    requires
        i < players.len(),
        answers_within(answers.deep_view()),
    ensures
        data@ == result_data(
            players.deep_view(),
            i as int,
            answers.deep_view(),
            solution,
            answer_image.deep_view(),
        ),
{
    let p = &players[i];
    let earned = round_result(answers, solution, &p.id);
    let message = if earned.1 {
        "Nice!".to_owned()
    } else {
        "Too bad".to_owned()
    };
    let ahead_of_me = if i > 0 {
        Some(players[i - 1].username.clone())
    } else {
        None
    };
    StatusData::ShowResult {
        correct: earned.1,
        message,
        points: earned.0,
        my_points: p.points,
        rank: i + 1,
        ahead_of_me,
        answer_image: answer_image.clone(),
    }
}

impl Session {
    /// A session in its lobby, for a quiz that has at least one question.
    pub fn new(
        game_id: String,
        invite_code: String,
        manager_socket_id: String,
        manager_client_id: String,
        quiz: Quiz,
        base_url: String,
        now: u64,
    ) -> (s: Session)
        requires
            quiz.questions.len() > 0,
        ensures
            s@ == SessionView::lobby(
                game_id@,
                invite_code@,
                manager_socket_id@,
                manager_client_id@,
                quiz@,
                base_url@,
                now,
            ),
            s.wf(),
    {
        let s = Session {
            game_id,
            invite_code,
            manager_socket_id,
            manager_client_id,
            manager_connected: true,
            phase: Phase::Lobby,
            quiz,
            players: Vec::new(),
            current_question: 0,
            round_answers: Vec::new(),
            round_start_time: now,
            leaderboard: Vec::new(),
            old_leaderboard: None,
            wait: Wait::Idle,
            last_broadcast_status: None,
            manager_status: None,
            player_statuses: Vec::new(),
            base_url,
        };
        assert(s@.quiz.questions.len() == s.quiz.questions.len());
        assert(s.players.deep_view() =~= Seq::empty());
        assert(client_ids_of(s@.players) =~= Seq::empty());
        assert(s.round_answers.deep_view() =~= Seq::empty());
        assert(s.leaderboard.deep_view() =~= Seq::empty());
        assert(s.player_statuses.deep_view() =~= Seq::empty());
        s
    }

    /// Publishes a message to every socket of the game.
    fn broadcast(&self, out: &mut Outcome, msg: ServerMsg)
        ensures
            machine(*self, *final(out)) == machine(*self, *old(out)).broadcast(msg@),
    {
        out.emit(GameEvent::Broadcast { msg });
    }

    /// Publishes a message to one socket.
    fn send_to(&self, out: &mut Outcome, socket_id: &String, msg: ServerMsg)
        ensures
            machine(*self, *final(out)) == machine(*self, *old(out)).send_to(socket_id@, msg@),
    {
        out.emit(GameEvent::SendTo { socket_id: socket_id.clone(), msg });
    }

    /// Publishes a status frame to everyone and keeps it as the last
    /// broadcast.
    fn broadcast_status(&mut self, out: &mut Outcome, data: StatusData)
        ensures
            machine(*final(self), *final(out)) == machine(*old(self), *old(out)).broadcast_status(
                data@,
            ),
            old(self).wf() ==> final(self).wf(),
    {
        self.last_broadcast_status = Some(data.clone());
        self.broadcast(out, ServerMsg::frame(data));
    }

    /// Publishes a status frame to one socket and keeps it for that socket.
    fn send_status(&mut self, out: &mut Outcome, target: &String, data: StatusData)
        ensures
            machine(*final(self), *final(out)) == machine(*old(self), *old(out)).send_status(
                target@,
                data@,
            ),
            old(self).wf() ==> final(self).wf(),
    {
        proof {
            if self.wf() {
                lemma_status_put_distinct(self@.player_statuses, target@, data@);
            }
        }
        if *target == self.manager_socket_id {
            self.manager_status = Some(data.clone());
        } else {
            put_status(&mut self.player_statuses, target.clone(), data.clone());
        }
        self.send_to(out, target, ServerMsg::frame(data));
    }

    /// Tells everyone how many players are connected.
    fn broadcast_total_players(&self, out: &mut Outcome)
        ensures
            machine(*self, *final(out)) == machine(*self, *old(out)).broadcast_total_players(),
    {
        let count: usize = count_connected(&self.players);
        self.broadcast(out, ServerMsg::TotalPlayers { count });
    }

    /// The one-based number of the current question and the total.
    pub fn question_progress(&self) -> (r: QuestionProgress)
        requires
            self.wf(),
        ensures
            r == self@.progress(),
    {
        assert(self@.quiz.questions.len() == self.quiz.questions.len());
        QuestionProgress { current: self.current_question + 1, total: self.quiz.questions.len() }
    }

    /// Resolves an asset reference of the quiz against the session's base.
    pub fn resolve_image(&self, path: &Option<String>) -> (r: Option<String>)
        ensures
            r.deep_view() == resolved_image(path.deep_view(), self@.base_url),
    {
        resolve_image(path, self.base_url.as_str())
    }

    /// Enters a wait and tells the host what to do with the timer.
    fn enter(&mut self, out: &mut Outcome, wait: Wait, timer: TimerAction)
        ensures
            machine(*final(self), *final(out)) == machine(*old(self), *old(out)).waiting(wait, timer),
    {
        self.wait = wait;
        out.timer = timer;
    }

    /// Whether the game iterates over its questions.
    pub fn running(&self) -> (r: bool)
        ensures
            r == self@.running(),
    {
        match self.phase {
            Phase::Running => true,
            _ => false,
        }
    }

    /// The question of the current round.
    pub fn question(&self) -> (q: &Question)
        requires
            self.wf(),
        ensures
            q@ == self@.question(),
    {
        assert(self@.quiz.questions.len() == self.quiz.questions.len());
        assert(self@.quiz.questions[self.current_question as int]
            == self.quiz.questions[self.current_question as int]@);
        &self.quiz.questions[self.current_question]
    }

    /// Ends the round: adds the points, ranks the roster, sends every
    /// player a result and the manager the responses, and moves the
    /// leaderboards on. Afterwards the roster is in descending order of
    /// points; nobody has come or gone, nobody has lost points and nobody
    /// has gained more than a thousand. The session stays well-formed
    /// where the round could be scored.
    pub fn handle_show_results(&mut self, out: &mut Outcome)
        requires
            old(self).wf(),
        ensures
            machine(*final(self), *final(out)) == machine(*old(self), *old(out)).show_results(),
            is_ranked(final(self)@.players),
            gains_within(old(self)@.players, final(self)@.players),
            old(self)@.scorable() ==> final(self).wf(),
            final(self)@.current_question == old(self)@.current_question,
            final(self)@.quiz == old(self)@.quiz,
            final(self)@.phase == old(self)@.phase,
            final(self)@.wait == old(self)@.wait,
            final(self)@.manager_socket_id == old(self)@.manager_socket_id,
    {
        let ghost fit = self@.scorable();
        assert(self@.quiz.questions.len() == self.quiz.questions.len());
        assert(self@.quiz.questions[self.current_question as int]
            == self.quiz.questions[self.current_question as int]@);
        let q = self.quiz.questions[self.current_question].clone();
        let solution: usize = q.solution;
        let old_board = if self.leaderboard.len() == 0 {
            copy_players(&self.players)
        } else {
            copy_players(&self.leaderboard)
        };
        let responses = count_responses(&self.round_answers);
        assert forall|i: int| 0 <= i < self.players.len() implies (#[trigger] self.players[i]).points
            + 1000 <= u128::MAX by {
            assert(self@.players[i] == self.players[i]@);
            assert(self@.players[i].points <= 1000 * (self@.current_question + 1));
            assert(1000 * (self@.current_question + 1) <= 1000 * (usize::MAX + 1)) by (nonlinear_arith)
                requires
                    self@.current_question <= usize::MAX,
            ;
        }
        let scored_players = score_players(&self.players, &self.round_answers, solution);
        let ranked_players = rank_players(&scored_players);
        proof {
            let before = self@.players;
            let after = scored(before, self@.round_answers, solution);
            if fit {
                assert forall|i: int| 0 <= i < after.len() implies (#[trigger] after[i]).points
                    <= 1000 * (self@.current_question + 1) by {
                    assert(before[i].points <= 1000 * self@.current_question);
                    lemma_round_points_bounded(self@.round_answers, solution, before[i].id);
                }
                lemma_ranked_within(after, 1000 * (self@.current_question + 1));
            }
            lemma_scoring_gains(before, self@.round_answers, solution);
            assert(client_ids_of(after) =~= client_ids_of(before));
            lemma_ranked_clients(after);
        }
        self.players = ranked_players;
        let ghost m1 = machine(*self, *out);
        let answer_image = self.resolve_image(&q.answer_image);
        let n: usize = self.players.len();
        let mut i: usize = 0;
        while i < n
            invariant
                i <= n,
                n == self@.players.len(),
                fit ==> self.wf(),
                machine(*self, *out) == m1.deliver_results(i as nat),
                self@.players == m1.session.players,
                self@.round_answers == m1.session.round_answers,
                self@.quiz == m1.session.quiz,
                self@.current_question == m1.session.current_question,
                self@.base_url == m1.session.base_url,
                self@.manager_socket_id == m1.session.manager_socket_id,
                self@.leaderboard == m1.session.leaderboard,
                self@.phase == m1.session.phase,
                self@.wait == m1.session.wait,
                m1.session.current_question < m1.session.quiz.questions.len(),
                answers_within(m1.session.round_answers),
                q@ == m1.session.question(),
                solution == q.solution,
                answer_image.deep_view() == resolved_image(
                    q@.answer_image,
                    m1.session.base_url,
                ),
            decreases n - i,
        {
            assert(self.players.len() == self@.players.len());
            let data = result_frame(&self.players, i, &self.round_answers, solution, &answer_image);
            let id = self.players[i].id.clone();
            assert(self@.players[i as int] == self.players[i as int]@);
            self.send_status(out, &id, data);
            i += 1;
        }
        let manager = self.manager_socket_id.clone();
        let image = self.resolve_image(&q.image);
        self.send_status(
            out,
            &manager,
            StatusData::ShowResponses {
                question: q.question.clone(),
                responses,
                correct: solution,
                answers: copy_texts(&q.answers),
                image,
            },
        );
        self.leaderboard = copy_players(&self.players);
        self.old_leaderboard = Some(old_board);
    }

    /// Starts a round. A session that is not running goes idle.
    fn handle_new_round(&mut self, out: &mut Outcome)
        requires
            old(self).wf(),
            points_within(old(self)@.players, 1000 * old(self)@.current_question),
        ensures
            machine(*final(self), *final(out)) == machine(*old(self), *old(out)).new_round(),
            final(self).wf(),
    {
        if !self.running() {
            self.enter(out, Wait::Idle, TimerAction::Clear);
            return ;
        }
        let progress = self.question_progress();
        let total_answers: usize = self.question().answers.len();
        assert(self@.question().answers.len() == total_answers);
        self.player_statuses.clear();
        self.round_answers.clear();
        assert(self.player_statuses.deep_view() =~= Seq::empty());
        assert(self.round_answers.deep_view() =~= Seq::empty());
        self.broadcast(
            out,
            ServerMsg::UpdateQuestion { current: progress.current, total: progress.total },
        );
        self.manager_status = None;
        self.broadcast_status(
            out,
            StatusData::ShowPrepared { total_answers, question_number: progress.current },
        );
        self.enter(out, Wait::Prepared, TimerAction::Arm { seconds: PREPARE_DELAY });
    }

    /// Carries out what follows a countdown that ran out or was cut short.
    fn countdown_done(&mut self, out: &mut Outcome, kind: CountdownKind)
        requires
            old(self).wf(),
            points_within(old(self)@.players, 1000 * old(self)@.current_question),
        ensures
            machine(*final(self), *final(out)) == machine(*old(self), *old(out)).countdown_done(
                kind,
            ),
            final(self).wf(),
    {
        let running = self.running();
        self.enter(out, Wait::Idle, TimerAction::Clear);
        match kind {
            CountdownKind::Warmup => self.handle_new_round(out),
            CountdownKind::Answers => {
                if running {
                    self.handle_show_results(out);
                }
            },
        }
    }

    /// Cuts a running countdown short; any other wait goes on.
    fn cancel_cooldown(&mut self, out: &mut Outcome)
        requires
            old(self).wf(),
        ensures
            machine(*final(self), *final(out)) == machine(*old(self), *old(out)).cancel_cooldown(),
            final(self).wf(),
    {
        match self.wait {
            Wait::Countdown { kind, .. } => self.countdown_done(out, kind),
            _ => {},
        }
    }

    /// Takes the step that is due when the session's timer fires at time
    /// `now`, a reading of the host's clock in nanoseconds.
    pub fn on_timer(&mut self, now: u64) -> (out: Outcome)
        requires
            old(self).wf(),
        ensures
            machine(*final(self), out) == Machine::start(old(self)@).timer_fired(now),
            final(self).wf(),
    {
        let mut out = Outcome::new();
        match self.wait {
            Wait::Idle => {},
            Wait::Intro => {
                self.broadcast(&mut out, ServerMsg::StartCooldown);
                self.enter(
                    &mut out,
                    Wait::Countdown { kind: CountdownKind::Warmup, remaining: WARMUP_SECONDS },
                    TimerAction::Arm { seconds: 1 },
                );
            },
            Wait::Countdown { kind, remaining } => {
                if remaining > 1 {
                    self.broadcast(&mut out, ServerMsg::Cooldown { count: remaining - 1 });
                    self.enter(
                        &mut out,
                        Wait::Countdown { kind, remaining: remaining - 1 },
                        TimerAction::Arm { seconds: 1 },
                    );
                } else {
                    self.countdown_done(&mut out, kind);
                }
            },
            Wait::Prepared => {
                if !self.running() {
                    self.enter(&mut out, Wait::Idle, TimerAction::Clear);
                } else {
                    let q = self.question().clone();
                    let image = self.resolve_image(&q.image);
                    self.broadcast_status(
                        &mut out,
                        StatusData::ShowQuestion {
                            question: q.question.clone(),
                            image,
                            cooldown: q.cooldown,
                        },
                    );
                    self.enter(&mut out, Wait::Question, TimerAction::Arm { seconds: q.cooldown });
                }
            },
            Wait::Question => {
                if !self.running() {
                    self.enter(&mut out, Wait::Idle, TimerAction::Clear);
                } else {
                    let q = self.question().clone();
                    self.round_start_time = now;
                    let image = self.resolve_image(&q.image);
                    let total_player: usize = count_connected(&self.players);
                    self.broadcast_status(
                        &mut out,
                        StatusData::SelectAnswer {
                            question: q.question.clone(),
                            answers: copy_texts(&q.answers),
                            image,
                            video: q.video.clone(),
                            audio: q.audio.clone(),
                            time: q.time,
                            total_player,
                        },
                    );
                    self.enter(
                        &mut out,
                        Wait::Countdown { kind: CountdownKind::Answers, remaining: q.time },
                        TimerAction::Arm { seconds: 1 },
                    );
                }
            },
        }
        out
    }

    /// Lets a socket join under a name, or tells it why it may not.
    pub fn handle_join(
        &mut self,
        registry: &mut Registry,
        socket_id: String,
        client_id: String,
        username: String,
    ) -> (out: Outcome)
        requires
            old(self).wf(),
        ensures
            machine(*final(self), out) == Machine::start(old(self)@).join(
                socket_id@,
                client_id@,
                username@,
            ),
            final(registry)@ == join_registry(
                old(self)@,
                old(registry)@,
                socket_id@,
                client_id@,
                username@,
            ),
            final(self).wf(),
    {
        let mut out = Outcome::new();
        if find_client(&self.players, &client_id).is_some() {
            self.send_to(&mut out, &socket_id, ServerMsg::error("Player already connected"));
            return out;
        }
        let len: usize = username.as_str().unicode_len();
        if len < MIN_USERNAME_LEN {
            self.send_to(
                &mut out,
                &socket_id,
                ServerMsg::error("Username cannot be less than 4 characters"),
            );
            return out;
        }
        if len > MAX_USERNAME_LEN {
            self.send_to(
                &mut out,
                &socket_id,
                ServerMsg::error("Username cannot exceed 20 characters"),
            );
            return out;
        }
        let player = Player {
            id: socket_id.clone(),
            client_id,
            connected: true,
            username,
            points: 0,
        };
        proof {
            lemma_roster_ok(self@);
            lemma_first_index_is_first(client_ids_of(self@.players), player@.client_id);
            assert(!has_client(self@.players, player@.client_id)) by {
                if has_client(self@.players, player@.client_id) {
                    let k = choose|k: int|
                        0 <= k < self@.players.len() && (#[trigger] self@.players[k]).client_id
                            == player@.client_id;
                    assert(client_ids_of(self@.players)[k] == player@.client_id);
                }
            }
            assert(self@.roster_ok(self@.players.push(player@)));
        }
        let ghost before = self.players.deep_view();
        self.players.push(player.clone());
        assert(self.players.deep_view() =~= before.push(player@));
        registry.bind_socket(Role::Player, socket_id.clone(), self.game_id.clone());
        let manager = self.manager_socket_id.clone();
        self.send_to(&mut out, &manager, ServerMsg::NewPlayer { player });
        self.broadcast_total_players(&mut out);
        self.send_to(&mut out, &socket_id, ServerMsg::SuccessJoin { game_id: self.game_id.clone() });
        out
    }

    /// Records the answer of a socket given at time `now`, a reading of
    /// the host's clock in nanoseconds, and ends the answer window early
    /// once every connected player has answered.
    pub fn handle_select_answer(&mut self, socket_id: String, answer_key: usize, now: u64) -> (out:
        Outcome)
        requires
            old(self).wf(),
        ensures
            machine(*final(self), out) == Machine::start(old(self)@).select_answer(
                socket_id@,
                answer_key,
                now,
            ),
            final(self).wf(),
    {
        let mut out = Outcome::new();
        if find_player(&self.players, &socket_id).is_none() {
            return out;
        }
        if find_answer(&self.round_answers, &socket_id).is_some() {
            return out;
        }
        let elapsed: u64 = if now >= self.round_start_time {
            now - self.round_start_time
        } else {
            0
        };
        let points: u64 = time_to_points(elapsed, self.question().time);
        let ghost before = self.round_answers.deep_view();
        let record = Answer { player_id: socket_id.clone(), answer_id: answer_key, points };
        proof {
            lemma_first_index_is_first(answerers_of(before), socket_id@);
            let after = before.push(record@);
            assert forall|i: int, j: int|
                0 <= i < answerers_of(after).len() && 0 <= j < answerers_of(after).len() && i
                    != j implies answerers_of(after)[i] != answerers_of(after)[j] by {
                if i < before.len() {
                    assert(answerers_of(after)[i] == answerers_of(before)[i]);
                }
                if j < before.len() {
                    assert(answerers_of(after)[j] == answerers_of(before)[j]);
                }
            }
            assert forall|i: int| 0 <= i < after.len() implies (#[trigger] after[i]).points
                <= 1000 by {
                if i < before.len() {
                    assert(before[i].points <= 1000);
                }
            }
        }
        self.round_answers.push(record);
        assert(self.round_answers.deep_view() =~= before.push(record@));
        self.send_status(
            &mut out,
            &socket_id,
            StatusData::Wait { text: "Waiting for the players to answer".to_owned() },
        );
        let count: usize = self.round_answers.len();
        out.emit(
            GameEvent::BroadcastExcept { exclude: socket_id, msg: ServerMsg::PlayerAnswer { count } },
        );
        self.broadcast_total_players(&mut out);
        let connected: usize = count_connected(&self.players);
        if self.round_answers.len() >= connected {
            self.cancel_cooldown(&mut out);
        }
        out
    }

    /// Starts the game for the manager; this works once, from the lobby.
    pub fn handle_start_game(&mut self, socket_id: String) -> (out: Outcome)
        requires
            old(self).wf(),
        ensures
            machine(*final(self), out) == Machine::start(old(self)@).start_game(socket_id@),
            final(self).wf(),
    {
        let mut out = Outcome::new();
        let in_lobby = match self.phase {
            Phase::Lobby => true,
            _ => false,
        };
        if socket_id == self.manager_socket_id && in_lobby {
            self.phase = Phase::Running;
            self.broadcast_status(
                &mut out,
                StatusData::ShowStart { time: START_DELAY, subject: self.quiz.subject.clone() },
            );
            self.enter(&mut out, Wait::Intro, TimerAction::Arm { seconds: START_DELAY });
        }
        out
    }

    /// Cuts the running countdown short for the manager.
    pub fn handle_abort_quiz(&mut self, socket_id: String) -> (out: Outcome)
        requires
            old(self).wf(),
        ensures
            machine(*final(self), out) == Machine::start(old(self)@).abort_quiz(socket_id@),
            final(self).wf(),
    {
        let mut out = Outcome::new();
        if socket_id == self.manager_socket_id && self.running() {
            self.cancel_cooldown(&mut out);
        }
        out
    }

    /// Moves on to the next question for the manager, whatever the
    /// session is waiting for: a round that is under way ends with its
    /// results first.
    pub fn handle_next_question(&mut self, socket_id: String) -> (out: Outcome)
        requires
            old(self).wf(),
        ensures
            machine(*final(self), out) == Machine::start(old(self)@).next_question(socket_id@),
            moved_on(old(self)@, final(self)@, out@, socket_id@),
            final(self).wf(),
    {
        proof {
            lemma_next_question_advances(self@, socket_id@);
        }
        let mut out = Outcome::new();
        assert(self@.quiz.questions.len() == self.quiz.questions.len());
        if socket_id == self.manager_socket_id && self.running() && self.current_question + 1
            < self.quiz.questions.len() {
            let under_way = match self.wait {
                Wait::Prepared => true,
                Wait::Question => true,
                Wait::Countdown { kind, .. } => match kind {
                    CountdownKind::Answers => true,
                    CountdownKind::Warmup => false,
                },
                _ => false,
            };
            if under_way {
                self.enter(&mut out, Wait::Idle, TimerAction::Clear);
                self.handle_show_results(&mut out);
            }
            proof {
                lemma_points_within(self@.players, 1000 * (self@.current_question + 1));
            }
            assert(self@.quiz.questions.len() == self.quiz.questions.len());
            self.current_question = self.current_question + 1;
            assert(points_within(self@.players, 1000 * (self@.current_question + 1)));
            self.handle_new_round(&mut out);
        }
        out
    }

    /// Shows the leaderboard: on the last question the game finishes and
    /// everyone is shown the podium, else the manager is shown the
    /// previous and the current board.
    pub fn handle_show_leaderboard(&mut self) -> (out: Outcome)
        requires
            old(self).wf(),
        ensures
            machine(*final(self), out) == Machine::start(old(self)@).show_leaderboard(),
            final(self).wf(),
    {
        let mut out = Outcome::new();
        assert(self@.quiz.questions.len() == self.quiz.questions.len());
        if self.current_question + 1 == self.quiz.questions.len() {
            self.phase = Phase::Finished;
            let top = take_top(&self.leaderboard, PODIUM_SIZE);
            self.broadcast_status(
                &mut out,
                StatusData::Finished { subject: self.quiz.subject.clone(), top },
            );
            return out;
        }
        let old_top = match &self.old_leaderboard {
            Some(board) => take_top(board, LEADERBOARD_SIZE),
            None => take_top(&self.leaderboard, LEADERBOARD_SIZE),
        };
        self.old_leaderboard = None;
        let top = take_top(&self.leaderboard, LEADERBOARD_SIZE);
        let manager = self.manager_socket_id.clone();
        self.send_status(
            &mut out,
            &manager,
            StatusData::ShowLeaderboard { old_leaderboard: old_top, leaderboard: top },
        );
        out
    }

    /// Removes a player for the manager and has the player's socket closed.
    pub fn handle_kick_player(&mut self, registry: &mut Registry, socket_id: String, player_id: String) -> (out:
        Outcome)
        requires
            old(self).wf(),
        ensures
            machine(*final(self), out) == Machine::start(old(self)@).kick_player(
                socket_id@,
                player_id@,
            ),
            final(registry)@ == kick_registry(old(self)@, old(registry)@, socket_id@, player_id@),
            final(self).wf(),
    {
        let mut out = Outcome::new();
        if !(socket_id == self.manager_socket_id) {
            return out;
        }
        if find_player(&self.players, &player_id).is_none() {
            return out;
        }
        proof {
            lemma_roster_ok(self@);
            assert(self@.roster_ok(without_player(self@.players, player_id@)));
        }
        proof {
            lemma_status_remove_distinct(self@.player_statuses, player_id@);
        }
        self.players = remove_player(&self.players, &player_id);
        let _ = take_status(&mut self.player_statuses, &player_id);
        registry.unbind_socket(Role::Player, &player_id);
        out.emit(
            GameEvent::KickSocket {
                socket_id: player_id.clone(),
                msg: ServerMsg::reset("You have been kicked by the manager"),
            },
        );
        let manager = self.manager_socket_id.clone();
        self.send_to(&mut out, &manager, ServerMsg::PlayerKicked { player_id });
        self.broadcast_total_players(&mut out);
        out
    }

    /// Takes note that the socket of a player went away.
    pub fn handle_player_disconnect(&mut self, registry: &mut Registry, socket_id: String) -> (out:
        Outcome)
        requires
            old(self).wf(),
        ensures
            machine(*final(self), out) == Machine::start(old(self)@).player_disconnect(socket_id@),
            final(registry)@ == old(registry)@.unbound(Role::Player, socket_id@),
            final(self).wf(),
    {
        let mut out = Outcome::new();
        registry.unbind_socket(Role::Player, &socket_id);
        match find_player(&self.players, &socket_id) {
            None => {
                self.broadcast_total_players(&mut out);
            },
            Some(i) => {
                let ghost before = self.players.deep_view();
                proof {
                    lemma_roster_ok(self@);
                    assert(self@.roster_ok(without_player(before, socket_id@)));
                    assert(self@.roster_ok(
                        before.update(i as int, PlayerView { connected: false, ..before[i as int] }),
                    ));
                }
                if !self.running() {
                    self.players = remove_player(&self.players, &socket_id);
                    let manager = self.manager_socket_id.clone();
                    self.send_to(&mut out, &manager, ServerMsg::RemovePlayer { player_id: socket_id });
                } else {
                    self.players[i].connected = false;
                    assert(self.players.deep_view() =~= before.update(
                        i as int,
                        PlayerView { connected: false, ..before[i as int] },
                    ));
                }
                self.broadcast_total_players(&mut out);
            },
        }
        out
    }

    /// Takes note that the socket of the manager went away, and asks to be
    /// checked on after the grace period.
    pub fn handle_manager_disconnect(&mut self, registry: &mut Registry, socket_id: String) -> (out:
        Outcome)
        requires
            old(self).wf(),
        ensures
            machine(*final(self), out) == Machine::start(old(self)@).manager_disconnect(
                socket_id@,
                old(registry)@.is_live(old(self)@.game_id),
            ),
            final(registry)@ == manager_disconnect_registry(old(self)@, old(registry)@, socket_id@),
            final(self).wf(),
    {
        let mut out = Outcome::new();
        if !(socket_id == self.manager_socket_id) {
            return out;
        }
        self.manager_connected = false;
        let live = registry.is_live(&self.game_id);
        registry.unbind_socket(Role::Manager, &socket_id);
        if live {
            out.check_after = Some(MANAGER_GRACE);
        }
        out
    }

    /// Checks on the session after the manager's grace period: a game that
    /// is not running and whose manager is still away is removed.
    pub fn handle_disconnect_check(&mut self, registry: &mut Registry, game_id: String) -> (out:
        Outcome)
        requires
            old(self).wf(),
        ensures
            machine(*final(self), out) == Machine::start(old(self)@).disconnect_check(game_id@),
            final(registry)@ == check_registry(old(self)@, old(registry)@, game_id@),
            final(self).wf(),
    {
        let mut out = Outcome::new();
        if game_id == self.game_id && !self.manager_connected && !self.running() {
            self.cancel_cooldown(&mut out);
            self.broadcast(&mut out, ServerMsg::reset("Manager disconnected"));
            registry.remove_game(&self.game_id);
            out.destroyed = true;
        }
        out
    }

    /// Lets a player come back on a new socket and shows the frame the
    /// player last saw.
    pub fn handle_player_reconnect(
        &mut self,
        registry: &mut Registry,
        socket_id: String,
        client_id: String,
    ) -> (out: Outcome)
        requires
            old(self).wf(),
        ensures
            machine(*final(self), out) == Machine::start(old(self)@).player_reconnect(
                socket_id@,
                client_id@,
            ),
            final(registry)@ == player_reconnect_registry(
                old(self)@,
                old(registry)@,
                socket_id@,
                client_id@,
            ),
            forall|k: int|
                0 <= k < old(self)@.players.len() && (#[trigger] old(self)@.players[k]).client_id
                    == client_id@ && !old(self)@.players[k].connected ==> readmitted(
                    old(self)@,
                    final(self)@,
                    out@,
                    socket_id@,
                    k,
                ),
            final(self).wf(),
    {
        proof {
            assert forall|k: int|
                0 <= k < self@.players.len() && (#[trigger] self@.players[k]).client_id
                    == client_id@ && !self@.players[k].connected implies readmitted(
                self@,
                Machine::start(self@).player_reconnect(socket_id@, client_id@).session,
                Machine::start(self@).player_reconnect(socket_id@, client_id@).out,
                socket_id@,
                k,
            ) by {
                lemma_reconnect_readmits(self@, socket_id@, client_id@, k);
            }
        }
        let mut out = Outcome::new();
        match find_client(&self.players, &client_id) {
            None => {
                self.send_to(&mut out, &socket_id, ServerMsg::reset("Game not found"));
            },
            Some(i) => {
                if self.players[i].connected {
                    self.send_to(&mut out, &socket_id, ServerMsg::reset("Player already connected"));
                } else {
                    proof {
                        lemma_roster_ok(self@);
                    }
                    let ghost before = self.players.deep_view();
                    assert(before[i as int] == self.players[i as int]@);
                    assert(self@.roster_ok(
                        before.update(
                            i as int,
                            PlayerView { id: socket_id@, connected: true, ..before[i as int] },
                        ),
                    ));
                    let old_id = self.players[i].id.clone();
                    let username = self.players[i].username.clone();
                    let points: u128 = self.players[i].points;
                    self.players[i].id = socket_id.clone();
                    self.players[i].connected = true;
                    assert(self.players.deep_view() =~= before.update(
                        i as int,
                        PlayerView { id: socket_id@, connected: true, ..before[i as int] },
                    ));
                    registry.unbind_socket(Role::Player, &old_id);
                    registry.bind_socket(Role::Player, socket_id.clone(), self.game_id.clone());
                    proof {
                        let statuses = self@.player_statuses;
                        lemma_status_remove_distinct(statuses, old_id@);
                        match status_get(statuses, old_id@) {
                            Some(kept) => lemma_status_put_distinct(
                                status_remove(statuses, old_id@),
                                socket_id@,
                                kept,
                            ),
                            None => {},
                        }
                    }
                    match take_status(&mut self.player_statuses, &old_id) {
                        Some(kept) => put_status(&mut self.player_statuses, socket_id.clone(), kept),
                        None => {},
                    }
                    let data = match get_status(&self.player_statuses, &socket_id) {
                        Some(data) => data,
                        None => self.last_frame(),
                    };
                    let status = data.status();
                    let current_question = self.question_progress();
                    self.send_to(
                        &mut out,
                        &socket_id,
                        ServerMsg::PlayerReconnected {
                            game_id: self.game_id.clone(),
                            status,
                            data,
                            username,
                            points,
                            current_question,
                        },
                    );
                    self.broadcast_total_players(&mut out);
                }
            },
        }
        out
    }

    /// The last frame sent to everyone, or the frame for those who wait.
    pub fn last_frame(&self) -> (data: StatusData)
        ensures
            data@ == match self@.last_broadcast_status {
                Some(d) => d,
                None => waiting_for_players(),
            },
    {
        match &self.last_broadcast_status {
            Some(data) => data.clone(),
            None => StatusData::Wait { text: "Waiting for players".to_owned() },
        }
    }

    /// Lets the manager come back on a new socket and shows the frame the
    /// manager last saw.
    pub fn handle_manager_reconnect(
        &mut self,
        registry: &mut Registry,
        socket_id: String,
        client_id: String,
    ) -> (out: Outcome)
        requires
            old(self).wf(),
        ensures
            machine(*final(self), out) == Machine::start(old(self)@).manager_reconnect(
                socket_id@,
                client_id@,
            ),
            final(registry)@ == manager_reconnect_registry(
                old(self)@,
                old(registry)@,
                socket_id@,
                client_id@,
            ),
            final(self).wf(),
    {
        let mut out = Outcome::new();
        if !(self.manager_client_id == client_id) {
            self.send_to(&mut out, &socket_id, ServerMsg::reset("Game not found"));
            return out;
        }
        if self.manager_connected {
            self.send_to(&mut out, &socket_id, ServerMsg::reset("Manager already connected"));
            return out;
        }
        let old_id = self.manager_socket_id.clone();
        let data = match &self.manager_status {
            Some(data) => data.clone(),
            None => self.last_frame(),
        };
        self.manager_socket_id = socket_id.clone();
        self.manager_connected = true;
        registry.unbind_socket(Role::Manager, &old_id);
        registry.bind_socket(Role::Manager, socket_id.clone(), self.game_id.clone());
        let status = data.status();
        let current_question = self.question_progress();
        let players = copy_players(&self.players);
        self.send_to(
            &mut out,
            &socket_id,
            ServerMsg::ManagerReconnected {
                game_id: self.game_id.clone(),
                status,
                data,
                players,
                current_question,
            },
        );
        self.broadcast_total_players(&mut out);
        out
    }

    /// Takes the step a command asks for, at time `now`, a reading of the
    /// host's clock in nanoseconds. The step of a live session leaves a
    /// registry whose indices agree in agreement.
    #[verifier::rlimit(60)]
    #[verifier::spinoff_prover]
    pub fn handle(&mut self, registry: &mut Registry, cmd: GameCommand, now: u64) -> (out: Outcome)
        requires
            old(self).wf(),
        ensures
            (Step { session: final(self)@, registry: final(registry)@, out: out@ }) == step(
                old(self)@,
                old(registry)@,
                cmd@,
                now,
            ),
            final(self).wf(),
            old(registry)@.wf() && old(registry)@.is_live(old(self)@.game_id)
                ==> final(registry)@.wf(),
            cmd@ matches GameCommandView::NextQuestion { socket_id } ==> moved_on(
                old(self)@,
                final(self)@,
                out@,
                socket_id,
            ),
    {
        proof {
            if registry@.wf() && registry@.is_live(self@.game_id) {
                lemma_step_keeps_agreement(self@, registry@, cmd@, now);
            }
        }
        match cmd {
            GameCommand::Join { socket_id, client_id, username } => self.handle_join(
                registry,
                socket_id,
                client_id,
                username,
            ),
            GameCommand::SelectAnswer { socket_id, answer_key } => self.handle_select_answer(
                socket_id,
                answer_key,
                now,
            ),
            GameCommand::StartGame { socket_id } => self.handle_start_game(socket_id),
            GameCommand::AbortQuiz { socket_id } => self.handle_abort_quiz(socket_id),
            GameCommand::NextQuestion { socket_id } => self.handle_next_question(socket_id),
            GameCommand::ShowLeaderboard {  } => self.handle_show_leaderboard(),
            GameCommand::KickPlayer { socket_id, player_id } => self.handle_kick_player(
                registry,
                socket_id,
                player_id,
            ),
            GameCommand::PlayerDisconnect { socket_id } => self.handle_player_disconnect(
                registry,
                socket_id,
            ),
            GameCommand::ManagerDisconnect { socket_id } => self.handle_manager_disconnect(
                registry,
                socket_id,
            ),
            GameCommand::PlayerReconnect { socket_id, client_id } => self.handle_player_reconnect(
                registry,
                socket_id,
                client_id,
            ),
            GameCommand::ManagerReconnect { socket_id, client_id } => self.handle_manager_reconnect(
                registry,
                socket_id,
                client_id,
            ),
            GameCommand::ManagerDisconnectCheck { game_id } => self.handle_disconnect_check(
                registry,
                game_id,
            ),
        }
    }
}

} // verus!
