//! A check, at run time, of what holds of every session.

use vstd::prelude::*;
use crate::lookup::{is_first_at, lemma_first_index_is_first};
use crate::roster::{find_answer, find_client, find_status};
use crate::session::{
    answerers_of, answers_within, client_ids_of, points_within, status_keys, Phase, Session,
    StatusEntry, Wait,
};
use crate::types::{Answer, Player};

verus! {

/// Whether every player of a roster has at most `bound` points.
pub fn all_within(players: &Vec<Player>, bound: u128) -> (r: bool)
    ensures
        r == points_within(players.deep_view(), bound as nat),
{
    let mut i: usize = 0;
    while i < players.len()
        invariant
            i <= players.len(),
            forall|k: int| 0 <= k < i ==> (#[trigger] players.deep_view()[k]).points <= bound,
        decreases players.len() - i,
    {
        assert(players.deep_view()[i as int] == players[i as int]@);
        if players[i].points > bound {
            return false;
        }
        i += 1;
    }
    true
}

/// Whether no record is worth more than a thousand points.
pub fn records_within(answers: &Vec<Answer>) -> (r: bool)
    ensures
        r == answers_within(answers.deep_view()),
{
    let mut i: usize = 0;
    while i < answers.len()
        invariant
            i <= answers.len(),
            forall|k: int| 0 <= k < i ==> (#[trigger] answers.deep_view()[k]).points <= 1000,
        decreases answers.len() - i,
    {
        assert(answers.deep_view()[i as int] == answers[i as int]@);
        if answers[i].points > 1000 {
            return false;
        }
        i += 1;
    }
    true
}

/// Whether no player id stands on two records.
pub fn one_record_each(answers: &Vec<Answer>) -> (r: bool)
    ensures
        r == answerers_of(answers.deep_view()).no_duplicates(),
{
    let ghost keys = answerers_of(answers.deep_view());
    let mut i: usize = 0;
    while i < answers.len()
        invariant
            i <= answers.len(),
            keys == answerers_of(answers.deep_view()),
            forall|a: int, b: int| 0 <= a < b < i ==> keys[a] != keys[b],
        decreases answers.len() - i,
    {
        assert(keys[i as int] == answers[i as int].player_id@);
        let first = find_answer(answers, &answers[i].player_id);
        proof {
            lemma_first_index_is_first(keys, keys[i as int]);
        }
        match first {
            Some(j) => {
                if j != i {
                    assert(keys[j as int] == keys[i as int]);
                    return false;
                }
            },
            None => {
                return false;
            },
        }
        assert forall|a: int, b: int| 0 <= a < b < i + 1 implies keys[a] != keys[b] by {
            if b == i {
                assert(is_first_at(keys, keys[i as int], i as int));
            }
        }
        i += 1;
    }
    assert forall|a: int, b: int|
        0 <= a < keys.len() && 0 <= b < keys.len() && a != b implies keys[a] != keys[b] by {
        if a < b {
            assert(keys[a] != keys[b]);
        } else {
            assert(keys[b] != keys[a]);
        }
    }
    true
}

/// Whether no client id stands twice on the roster.
pub fn one_client_each(players: &Vec<Player>) -> (r: bool)
    ensures
        r == client_ids_of(players.deep_view()).no_duplicates(),
{
    let ghost keys = client_ids_of(players.deep_view());
    let mut i: usize = 0;
    while i < players.len()
        invariant
            i <= players.len(),
            keys == client_ids_of(players.deep_view()),
            forall|a: int, b: int| 0 <= a < b < i ==> keys[a] != keys[b],
        decreases players.len() - i,
    {
        assert(keys[i as int] == players[i as int].client_id@);
        let first = find_client(players, &players[i].client_id);
        proof {
            lemma_first_index_is_first(keys, keys[i as int]);
        }
        match first {
            Some(j) => {
                if j != i {
                    assert(keys[j as int] == keys[i as int]);
                    return false;
                }
            },
            None => {
                return false;
            },
        }
        assert forall|a: int, b: int| 0 <= a < b < i + 1 implies keys[a] != keys[b] by {
            if b == i {
                assert(is_first_at(keys, keys[i as int], i as int));
            }
        }
        i += 1;
    }
    assert forall|a: int, b: int|
        0 <= a < keys.len() && 0 <= b < keys.len() && a != b implies keys[a] != keys[b] by {
        if a < b {
            assert(keys[a] != keys[b]);
        } else {
            assert(keys[b] != keys[a]);
        }
    }
    true
}

/// Whether no player id stands on two status entries.
pub fn one_status_each(statuses: &Vec<StatusEntry>) -> (r: bool)
    ensures
        r == status_keys(statuses.deep_view()).no_duplicates(),
{
    let ghost keys = status_keys(statuses.deep_view());
    let mut i: usize = 0;
    while i < statuses.len()
        invariant
            i <= statuses.len(),
            keys == status_keys(statuses.deep_view()),
            forall|a: int, b: int| 0 <= a < b < i ==> keys[a] != keys[b],
        decreases statuses.len() - i,
    {
        assert(keys[i as int] == statuses[i as int].player_id@);
        let first = find_status(statuses, &statuses[i].player_id);
        proof {
            lemma_first_index_is_first(keys, keys[i as int]);
        }
        match first {
            Some(j) => {
                if j != i {
                    assert(keys[j as int] == keys[i as int]);
                    return false;
                }
            },
            None => {
                return false;
            },
        }
        assert forall|a: int, b: int| 0 <= a < b < i + 1 implies keys[a] != keys[b] by {
            if b == i {
                assert(is_first_at(keys, keys[i as int], i as int));
            }
        }
        i += 1;
    }
    assert forall|a: int, b: int|
        0 <= a < keys.len() && 0 <= b < keys.len() && a != b implies keys[a] != keys[b] by {
        if a < b {
            assert(keys[a] != keys[b]);
        } else {
            assert(keys[b] != keys[a]);
        }
    }
    true
}

impl Session {
    /// Checks what holds of every session the engine made and stepped. A
    /// host that has changed a session by hand can tell with this whether
    /// the session may still be stepped.
    pub fn check(&self) -> (r: bool)
        ensures
            r == self.wf(),
    {
        assert(self@.quiz.questions.len() == self.quiz.questions.len());
        if self.current_question >= self.quiz.questions.len() {
            return false;
        }
        if !one_record_each(&self.round_answers) || !records_within(&self.round_answers) {
            return false;
        }
        if !one_status_each(&self.player_statuses) || !one_client_each(&self.players) {
            return false;
        }
        let idle = match self.wait {
            Wait::Idle => true,
            _ => false,
        };
        let in_lobby = match self.phase {
            Phase::Lobby => true,
            _ => false,
        };
        if in_lobby && !(idle && self.current_question == 0) {
            return false;
        }
        let played: u128 = self.current_question as u128;
        if !all_within(&self.players, 1000 * (played + 1)) {
            return false;
        }
        if !idle && !all_within(&self.players, 1000 * played) {
            return false;
        }
        if in_lobby && !all_within(&self.players, 0) {
            return false;
        }
        true
    }
}

} // verus!
