//! Ranking of a roster: most points first, ties in the order they had.

use vstd::prelude::*;
use crate::types::{Player, PlayerView};

verus! {

/// `ranked` with `p` put behind every entry that has at least as many
/// points as `p`.
pub open spec fn insert_ranked(ranked: Seq<PlayerView>, p: PlayerView) -> Seq<PlayerView>
    decreases ranked.len(),
{
    if ranked.len() == 0 {
        seq![p]
    } else if ranked.last().points >= p.points {
        ranked.push(p)
    } else {
        insert_ranked(ranked.drop_last(), p).push(ranked.last())
    }
}

/// The roster ordered by points, highest first; players with equal points
/// keep the order they had.
pub open spec fn ranked(players: Seq<PlayerView>) -> Seq<PlayerView>
    decreases players.len(),
{
    if players.len() == 0 {
        players
    } else {
        insert_ranked(ranked(players.drop_last()), players.last())
    }
}

/// Points never rise from one position to the next.
pub open spec fn is_ranked(players: Seq<PlayerView>) -> bool {
    forall|i: int, j: int| 0 <= i < j < players.len() ==> players[i].points >= players[j].points
}

proof fn lemma_insert_at(ranked: Seq<PlayerView>, p: PlayerView, j: int)
    requires
        0 <= j <= ranked.len(),
        forall|k: int| j <= k < ranked.len() ==> ranked[k].points < p.points,
        j == 0 || ranked[j - 1].points >= p.points,
    ensures
        insert_ranked(ranked, p) == ranked.insert(j, p),
    decreases ranked.len(),
{
    if ranked.len() == 0 {
        assert(ranked.insert(j, p) =~= seq![p]);
    } else if j == ranked.len() {
        assert(ranked.insert(j, p) =~= ranked.push(p));
    } else {
        lemma_insert_at(ranked.drop_last(), p, j);
        assert(ranked.insert(j, p) =~= ranked.drop_last().insert(j, p).push(ranked.last()));
    }
}

/// Putting a player into a ranked roster keeps it ranked, makes it one
/// longer, and adds that player and no other.
proof fn lemma_insert_ranked(ranked: Seq<PlayerView>, p: PlayerView)
    requires
        is_ranked(ranked),
    ensures
        is_ranked(insert_ranked(ranked, p)),
        insert_ranked(ranked, p).len() == ranked.len() + 1,
        insert_ranked(ranked, p).to_multiset() == ranked.to_multiset().insert(p),
        forall|k: int|
            0 <= k < ranked.len() + 1 ==> (#[trigger] insert_ranked(ranked, p)[k]).points
                >= p.points || insert_ranked(ranked, p)[k].points >= ranked.last().points,
    decreases ranked.len(),
{
    broadcast use vstd::seq_lib::group_to_multiset_ensures;

    if ranked.len() == 0 {
    } else if ranked.last().points >= p.points {
    } else {
        let front = ranked.drop_last();
        lemma_insert_ranked(front, p);
        let inner = insert_ranked(front, p);
        let out = inner.push(ranked.last());
        assert(ranked =~= front.push(ranked.last()));
        assert(out.to_multiset() =~= ranked.to_multiset().insert(p));
        assert forall|i: int, j: int| 0 <= i < j < out.len() implies out[i].points
            >= out[j].points by {
            if j == out.len() - 1 {
                assert(out[i] == inner[i]);
                if front.len() > 0 {
                    assert(front.last().points >= ranked.last().points);
                }
            }
        }
    }
}

/// A ranked roster is in descending order of points.
pub proof fn lemma_ranked_is_ranked(players: Seq<PlayerView>)
    ensures
        is_ranked(ranked(players)),
        ranked(players).len() == players.len(),
        ranked(players).to_multiset() == players.to_multiset(),
    decreases players.len(),
{
    broadcast use vstd::seq_lib::group_to_multiset_ensures;

    if players.len() == 0 {
    } else {
        lemma_ranked_is_ranked(players.drop_last());
        lemma_insert_ranked(ranked(players.drop_last()), players.last());
        assert(players =~= players.drop_last().push(players.last()));
    }
}

/// Orders a roster by points, highest first, keeping the order of players
/// that are level.
pub fn rank_players(players: &Vec<Player>) -> (out: Vec<Player>)
    ensures
        out.deep_view() == ranked(players.deep_view()),
{
    let mut out: Vec<Player> = Vec::new();
    let mut i: usize = 0;
    assert(players.deep_view().take(0) =~= Seq::<PlayerView>::empty());
    assert(out.deep_view() =~= Seq::<PlayerView>::empty());
    while i < players.len()
        invariant
            i <= players.len(),
            out.deep_view() == ranked(players.deep_view().take(i as int)),
        decreases players.len() - i,
    {
        let p = players[i].clone();
        let mut j: usize = out.len();
        while j > 0 && out[j - 1].points < p.points
            invariant
                j <= out.len(),
                forall|k: int| j <= k < out.len() ==> out[k].points < p.points,
            decreases j,
        {
            j -= 1;
        }
        let ghost before = out.deep_view();
        proof {
            assert forall|k: int| j <= k < before.len() implies before[k].points < p@.points by {
                assert(before[k] == out[k]@);
            }
            if j > 0 {
                assert(before[j - 1] == out[j - 1]@);
            }
            lemma_insert_at(before, p@, j as int);
            let prefix = players.deep_view().take(i as int);
            let next = players.deep_view().take(i + 1);
            assert(next.drop_last() =~= prefix);
            assert(next.last() == p@);
        }
        out.insert(j, p);
        assert(out.deep_view() =~= before.insert(j as int, p@));
        i += 1;
    }
    assert(players.deep_view().take(i as int) =~= players.deep_view());
    out
}

} // verus!
