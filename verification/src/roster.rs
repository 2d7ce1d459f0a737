//! Executable lookups and updates on rosters, answer records, response
//! counts and status caches.

use std::collections::HashMap;
use vstd::prelude::*;
use crate::lookup::{
    first_index, lemma_first_index_found, lemma_first_index_is_first, lemma_first_index_none,
};
use crate::message::StatusData;
use crate::session::{
    answerers_of, client_ids_of, connected_count, ids_of, status_get, status_keys, status_put,
    status_remove, tally, times_chosen, top_of, without_player, StatusEntry, StatusEntryView,
};
use crate::types::{Answer, AnswerView, Player, PlayerView};

verus! {

/// What an executable search says of the first index.
pub open spec fn found_at<K>(r: Option<usize>, keys: Seq<K>, key: K) -> bool {
    match r {
        Some(i) => first_index(keys, key) == Some(i as int) && i < keys.len(),
        None => first_index(keys, key) is None,
    }
}

/// The position of the first player with the socket id `id`.
pub fn find_player(players: &Vec<Player>, id: &String) -> (r: Option<usize>)
    ensures
        found_at(r, ids_of(players.deep_view()), id@),
{
    let ghost keys = ids_of(players.deep_view());
    let mut i: usize = 0;
    while i < players.len()
        invariant
            i <= players.len(),
            keys == ids_of(players.deep_view()),
            forall|j: int| 0 <= j < i ==> keys[j] != id@,
        decreases players.len() - i,
    {
        if players[i].id == *id {
            proof {
                lemma_first_index_found(keys, id@, i as int);
            }
            return Some(i);
        }
        i += 1;
    }
    proof {
        lemma_first_index_none(keys, id@);
    }
    None
}

/// The position of the first player with the client id `client_id`.
pub fn find_client(players: &Vec<Player>, client_id: &String) -> (r: Option<usize>)
    ensures
        found_at(r, client_ids_of(players.deep_view()), client_id@),
{
    let ghost keys = client_ids_of(players.deep_view());
    let mut i: usize = 0;
    while i < players.len()
        invariant
            i <= players.len(),
            keys == client_ids_of(players.deep_view()),
            forall|j: int| 0 <= j < i ==> keys[j] != client_id@,
        decreases players.len() - i,
    {
        if players[i].client_id == *client_id {
            proof {
                lemma_first_index_found(keys, client_id@, i as int);
            }
            return Some(i);
        }
        i += 1;
    }
    proof {
        lemma_first_index_none(keys, client_id@);
    }
    None
}

/// The position of the first record of the player `player_id`.
pub fn find_answer(answers: &Vec<Answer>, player_id: &String) -> (r: Option<usize>)
    ensures
        found_at(r, answerers_of(answers.deep_view()), player_id@),
{
    let ghost keys = answerers_of(answers.deep_view());
    let mut i: usize = 0;
    while i < answers.len()
        invariant
            i <= answers.len(),
            keys == answerers_of(answers.deep_view()),
            forall|j: int| 0 <= j < i ==> keys[j] != player_id@,
        decreases answers.len() - i,
    {
        if answers[i].player_id == *player_id {
            proof {
                lemma_first_index_found(keys, player_id@, i as int);
            }
            return Some(i);
        }
        i += 1;
    }
    proof {
        lemma_first_index_none(keys, player_id@);
    }
    None
}

/// The position of the status entry of the player `player_id`.
pub fn find_status(statuses: &Vec<StatusEntry>, player_id: &String) -> (r: Option<usize>)
    ensures
        found_at(r, status_keys(statuses.deep_view()), player_id@),
{
    let ghost keys = status_keys(statuses.deep_view());
    let mut i: usize = 0;
    while i < statuses.len()
        invariant
            i <= statuses.len(),
            keys == status_keys(statuses.deep_view()),
            forall|j: int| 0 <= j < i ==> keys[j] != player_id@,
        decreases statuses.len() - i,
    {
        if statuses[i].player_id == *player_id {
            proof {
                lemma_first_index_found(keys, player_id@, i as int);
            }
            return Some(i);
        }
        i += 1;
    }
    proof {
        lemma_first_index_none(keys, player_id@);
    }
    None
}

/// Counts the connected players of a roster.
pub fn count_connected(players: &Vec<Player>) -> (count: usize)
    ensures
        count == connected_count(players.deep_view()),
        count <= players.len(),
{
    let mut count: usize = 0;
    let mut i: usize = 0;
    assert(players.deep_view().take(0) =~= Seq::<PlayerView>::empty());
    while i < players.len()
        invariant
            i <= players.len(),
            count <= i,
            count == connected_count(players.deep_view().take(i as int)),
        decreases players.len() - i,
    {
        proof {
            let next = players.deep_view().take(i + 1);
            assert(next.drop_last() =~= players.deep_view().take(i as int));
            assert(next.last() == players[i as int]@);
        }
        if players[i].connected {
            count += 1;
        }
        i += 1;
    }
    assert(players.deep_view().take(i as int) =~= players.deep_view());
    count
}

/// The roster without the players whose socket id is `id`.
pub fn remove_player(players: &Vec<Player>, id: &String) -> (kept: Vec<Player>)
    ensures
        kept.deep_view() == without_player(players.deep_view(), id@),
{
    let mut kept: Vec<Player> = Vec::new();
    let mut i: usize = 0;
    assert(players.deep_view().take(0) =~= Seq::<PlayerView>::empty());
    assert(kept.deep_view() =~= Seq::<PlayerView>::empty());
    while i < players.len()
        invariant
            i <= players.len(),
            kept.deep_view() == without_player(players.deep_view().take(i as int), id@),
        decreases players.len() - i,
    {
        proof {
            let next = players.deep_view().take(i + 1);
            assert(next.drop_last() =~= players.deep_view().take(i as int));
            assert(next.last() == players[i as int]@);
        }
        if !(players[i].id == *id) {
            let ghost before = kept.deep_view();
            let p = players[i].clone();
            kept.push(p);
            assert(kept.deep_view() =~= before.push(p@));
        }
        i += 1;
    }
    assert(players.deep_view().take(i as int) =~= players.deep_view());
    kept
}

/// The first `n` entries of a board, or all of it if it is shorter.
pub fn take_top(board: &Vec<Player>, n: usize) -> (top: Vec<Player>)
    ensures
        top.deep_view() == top_of(board.deep_view(), n as nat),
{
    let limit: usize = if board.len() <= n {
        board.len()
    } else {
        n
    };
    let mut top: Vec<Player> = Vec::new();
    let mut i: usize = 0;
    assert(top.deep_view() =~= board.deep_view().take(0));
    while i < limit
        invariant
            i <= limit <= board.len(),
            top.deep_view() == board.deep_view().take(i as int),
        decreases limit - i,
    {
        let ghost before = top.deep_view();
        let p = board[i].clone();
        top.push(p);
        assert(top.deep_view() =~= before.push(p@));
        assert(board.deep_view().take(i + 1) =~= before.push(board[i as int]@));
        i += 1;
    }
    assert(board.deep_view().take(board.len() as int) =~= board.deep_view());
    top
}

/// A copy of a roster.
pub fn copy_players(players: &Vec<Player>) -> (copy: Vec<Player>)
    ensures
        copy.deep_view() == players.deep_view(),
{
    let copy = players.clone();
    assert(copy.deep_view() =~= players.deep_view());
    copy
}

/// A copy of a list of texts.
pub fn copy_texts(texts: &Vec<String>) -> (copy: Vec<String>)
    ensures
        copy.deep_view() == texts.deep_view(),
{
    let copy = texts.clone();
    assert(copy.deep_view() =~= texts.deep_view());
    copy
}

/// Recording a status keeps the entries at one per player.
pub proof fn lemma_status_put_distinct(
    statuses: Seq<StatusEntryView>,
    id: Seq<char>,
    data: crate::message::StatusDataView,
)
    requires
        status_keys(statuses).no_duplicates(),
    ensures
        status_keys(status_put(statuses, id, data)).no_duplicates(),
{
    let keys = status_keys(statuses);
    let after = status_keys(status_put(statuses, id, data));
    lemma_first_index_is_first(keys, id);
    match first_index(keys, id) {
        Some(i) => {
            assert(after =~= keys);
        },
        None => {
            assert(after =~= keys.push(id));
        },
    }
}

/// A status that has been recorded for a player is the one found for that
/// player.
pub proof fn lemma_status_put_get(
    statuses: Seq<StatusEntryView>,
    id: Seq<char>,
    data: crate::message::StatusDataView,
)
    ensures
        status_get(status_put(statuses, id, data), id) == Some(data),
{
    let keys = status_keys(statuses);
    let after = status_put(statuses, id, data);
    lemma_first_index_is_first(keys, id);
    match first_index(keys, id) {
        Some(i) => {
            assert(status_keys(after) =~= keys);
        },
        None => {
            assert(status_keys(after) =~= keys.push(id));
            lemma_first_index_found(status_keys(after), id, statuses.len() as int);
        },
    }
}

/// Forgetting the status of a player keeps the entries at one per player
/// and leaves none for that player.
pub proof fn lemma_status_remove_distinct(statuses: Seq<StatusEntryView>, id: Seq<char>)
    requires
        status_keys(statuses).no_duplicates(),
    ensures
        status_keys(status_remove(statuses, id)).no_duplicates(),
        first_index(status_keys(status_remove(statuses, id)), id) is None,
{
    let keys = status_keys(statuses);
    let after = status_keys(status_remove(statuses, id));
    lemma_first_index_is_first(keys, id);
    match first_index(keys, id) {
        Some(i) => {
            assert(after =~= keys.remove(i));
            assert forall|a: int, b: int|
                0 <= a < after.len() && 0 <= b < after.len() && a != b implies after[a]
                != after[b] by {
                let a0 = if a < i { a } else { a + 1 };
                let b0 = if b < i { b } else { b + 1 };
                assert(after[a] == keys[a0]);
                assert(after[b] == keys[b0]);
            }
            assert forall|j: int| 0 <= j < after.len() implies after[j] != id by {
                let j0 = if j < i { j } else { j + 1 };
                assert(after[j] == keys[j0]);
                assert(keys[i] == id);
            }
            lemma_first_index_none(after, id);
        },
        None => {},
    }
}

/// The status recorded for a player, if any.
pub fn get_status(statuses: &Vec<StatusEntry>, player_id: &String) -> (r: Option<StatusData>)
    ensures
        r.deep_view() == status_get(statuses.deep_view(), player_id@),
{
    match find_status(statuses, player_id) {
        Some(i) => Some(statuses[i].data.clone()),
        None => None,
    }
}

/// Records a status for a player, in place of the one recorded before.
pub fn put_status(statuses: &mut Vec<StatusEntry>, player_id: String, data: StatusData)
    ensures
        final(statuses).deep_view() == status_put(old(statuses).deep_view(), player_id@, data@),
{
    let ghost before = statuses.deep_view();
    let ghost entry = StatusEntryView { player_id: player_id@, data: data@ };
    match find_status(statuses, &player_id) {
        Some(i) => {
            statuses[i] = StatusEntry { player_id, data };
            assert(statuses.deep_view() =~= before.update(i as int, entry));
        },
        None => {
            statuses.push(StatusEntry { player_id, data });
            assert(statuses.deep_view() =~= before.push(entry));
        },
    }
}

/// Forgets the status recorded for a player and hands it out.
pub fn take_status(statuses: &mut Vec<StatusEntry>, player_id: &String) -> (r: Option<StatusData>)
    ensures
        final(statuses).deep_view() == status_remove(old(statuses).deep_view(), player_id@),
        r.deep_view() == status_get(old(statuses).deep_view(), player_id@),
{
    let ghost before = statuses.deep_view();
    match find_status(statuses, player_id) {
        Some(i) => {
            let entry = statuses.remove(i);
            assert(statuses.deep_view() =~= before.remove(i as int));
            Some(entry.data)
        },
        None => None,
    }
}

/// No answer index is chosen more often than there are answers.
pub proof fn lemma_times_chosen_bounded(answers: Seq<AnswerView>, answer: usize)
    ensures
        times_chosen(answers, answer) <= answers.len(),
    decreases answers.len(),
{
    if answers.len() > 0 {
        lemma_times_chosen_bounded(answers.drop_last(), answer);
    }
}

/// Counts how often each answer index was chosen.
pub fn count_responses(answers: &Vec<Answer>) -> (counts: HashMap<usize, usize>)
    ensures
        counts@ == tally(answers.deep_view()),
{
    broadcast use vstd::std_specs::hash::group_hash_axioms;

    let mut counts: HashMap<usize, usize> = HashMap::new();
    let mut i: usize = 0;
    assert(answers.deep_view().take(0) =~= Seq::<AnswerView>::empty());
    assert(counts@ =~= tally(answers.deep_view().take(0)));
    while i < answers.len()
        invariant
            i <= answers.len(),
            counts@ == tally(answers.deep_view().take(i as int)),
        decreases answers.len() - i,
    {
        let answer: usize = answers[i].answer_id;
        let ghost before = answers.deep_view().take(i as int);
        let ghost next = answers.deep_view().take(i + 1);
        proof {
            assert(next.drop_last() =~= before);
            assert(next.last() == answers[i as int]@);
            lemma_times_chosen_bounded(before, answer);
        }
        let seen: usize = match counts.get(&answer) {
            Some(count) => *count,
            None => 0,
        };
        assert(seen == times_chosen(before, answer));
        counts.insert(answer, seen + 1);
        proof {
            assert forall|k: usize| #[trigger] times_chosen(next, k) == times_chosen(before, k) + (if k
                == answer {
                1nat
            } else {
                0nat
            }) by {}
            assert(counts@ =~= tally(next));
        }
        i += 1;
    }
    assert(answers.deep_view().take(i as int) =~= answers.deep_view());
    counts
}

} // verus!
