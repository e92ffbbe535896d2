//! The scoreboard engine: ranking the roster by one individual state under
//! the configured condition.
use vstd::prelude::*;
use crate::deck::{RenderedScoreBoard, ScoreBoard, ScoreBoardCondition, ScoreElement, StateEntry,
    StateModule};
use crate::id::UserId;
use crate::player::Player;
use crate::state::{entry_idx, find_state, lookup_entry, state_idx, state_idx_ensures};

verus! {

/// The (player id, score) pairs the ranking starts from: one per roster
/// member, in roster order, defaulting players without an entry.
pub open spec fn score_pairs(players: Seq<Player>, cv: i32, map: Seq<(UserId, i32)>) -> Seq<
    (UserId, i32),
> {
    players.map_values(
        |p: Player|
            (
                p.id,
                if entry_idx(map, p.id) >= 0 {
                    map[entry_idx(map, p.id)].1
                } else {
                    cv
                },
            ),
    )
}

/// Stable insertion of a pair into an ascending-by-score sequence: the new
/// pair lands after every pair it does not strictly undercut.
pub open spec fn insert_pair(s: Seq<(UserId, i32)>, x: (UserId, i32)) -> Seq<(UserId, i32)>
    decreases s.len(),
{
    if s.len() == 0 {
        seq![x]
    } else if x.1 < s.last().1 {
        insert_pair(s.drop_last(), x).push(s.last())
    } else {
        s.push(x)
    }
}

/// Stable ascending sort by score.
pub open spec fn sort_pairs(s: Seq<(UserId, i32)>) -> Seq<(UserId, i32)>
    decreases s.len(),
{
    if s.len() == 0 {
        Seq::<(UserId, i32)>::empty()
    } else {
        insert_pair(sort_pairs(s.drop_last()), s.last())
    }
}

pub proof fn lemma_insert_pair_multiset(s: Seq<(UserId, i32)>, x: (UserId, i32))
    ensures
        insert_pair(s, x).to_multiset() == s.to_multiset().insert(x),
        insert_pair(s, x).len() == s.len() + 1,
    decreases s.len(),
{
    broadcast use vstd::seq_lib::group_to_multiset_ensures;
    broadcast use vstd::multiset::group_multiset_axioms;
    broadcast use vstd::multiset::group_multiset_properties;

    if s.len() == 0 {
        assert(insert_pair(s, x) =~= seq![x]);
        assert(seq![x].drop_last() =~= Seq::<(UserId, i32)>::empty());
        assert(seq![x].to_multiset() =~= s.to_multiset().insert(x));
    } else if x.1 < s.last().1 {
        lemma_insert_pair_multiset(s.drop_last(), x);
        assert(s =~= s.drop_last().push(s.last()));
        assert(s.to_multiset() == s.drop_last().to_multiset().insert(s.last()));
        assert(insert_pair(s, x).to_multiset() == insert_pair(
            s.drop_last(),
            x,
        ).to_multiset().insert(s.last()));
        assert(insert_pair(s, x).to_multiset() =~= s.to_multiset().insert(x));
    } else {
        assert(insert_pair(s, x).to_multiset() =~= s.to_multiset().insert(x));
    }
}

pub proof fn lemma_sort_pairs_multiset(s: Seq<(UserId, i32)>)
    ensures
        sort_pairs(s).to_multiset() == s.to_multiset(),
        sort_pairs(s).len() == s.len(),
    decreases s.len(),
{
    broadcast use vstd::seq_lib::group_to_multiset_ensures;
    broadcast use vstd::multiset::group_multiset_axioms;
    broadcast use vstd::multiset::group_multiset_properties;

    if s.len() > 0 {
        lemma_sort_pairs_multiset(s.drop_last());
        lemma_insert_pair_multiset(sort_pairs(s.drop_last()), s.last());
        assert(s =~= s.drop_last().push(s.last()));
        assert(s.to_multiset() == s.drop_last().to_multiset().insert(s.last()));
        assert(sort_pairs(s).to_multiset() =~= s.to_multiset());
    }
}

/// Inserting at the position a backwards scan finds is `insert_pair`.
proof fn lemma_insert_pair_at(s: Seq<(UserId, i32)>, x: (UserId, i32), p: int)
    requires
        0 <= p <= s.len(),
        forall|t: int| p <= t < s.len() ==> (#[trigger] s[t]).1 > x.1,
        p > 0 ==> s[p - 1].1 <= x.1,
    ensures
        insert_pair(s, x) == s.insert(p, x),
    decreases s.len(),
{
    if s.len() == 0 {
        assert(insert_pair(s, x) =~= s.insert(p, x));
    } else if x.1 < s.last().1 {
        assert(forall|t: int|
            p <= t < s.drop_last().len() ==> (#[trigger] s.drop_last()[t]).1 > x.1);
        lemma_insert_pair_at(s.drop_last(), x, p);
        assert(insert_pair(s, x) =~= s.insert(p, x));
    } else {
        assert(p == s.len());
        assert(insert_pair(s, x) =~= s.insert(p, x));
    }
}

/// The first roster position holding the given id, or -1.
pub open spec fn player_idx(players: Seq<Player>, id: UserId) -> int
    decreases players.len(),
{
    if players.len() == 0 {
        -1
    } else if players[0].id == id {
        0
    } else {
        let rest = player_idx(players.drop_first(), id);
        if rest == -1 {
            -1
        } else {
            rest + 1
        }
    }
}

pub broadcast proof fn player_idx_ensures(players: Seq<Player>, id: UserId)
    ensures
        -1 <= #[trigger] player_idx(players, id) < players.len(),
        player_idx(players, id) >= 0 ==> players[player_idx(players, id)].id == id,
        player_idx(players, id) == -1 ==> forall|k: int|
            0 <= k < players.len() ==> (#[trigger] players[k]).id != id,
    decreases players.len(),
{
    if players.len() > 0 && players[0].id != id {
        player_idx_ensures(players.drop_first(), id);
        if player_idx(players, id) == -1 {
            assert(forall|k: int|
                1 <= k < players.len() ==> #[trigger] players[k] == players.drop_first()[k - 1]);
        }
    }
}

/// Finds the first roster member with the given id.
fn find_player(players: &Vec<Player>, id: UserId) -> (r: Option<usize>)
    ensures
        r is Some <==> player_idx(players@, id) >= 0,
        r matches Some(i) ==> i as int == player_idx(players@, id),
{
    let n = players.len();
    let mut k: usize = 0;
    proof {
        broadcast use player_idx_ensures;

    }
    while k < n
        invariant
            n == players@.len(),
            0 <= k <= n,
            forall|t: int| 0 <= t < k ==> (#[trigger] players@[t]).id != id,
            player_idx(players@, id) >= 0 ==> player_idx(players@, id) >= k,
        decreases n - k,
    {
        proof {
            broadcast use player_idx_ensures;

            player_idx_skip(players@, id, k as int);
        }
        if players[k].id == id {
            return Some(k);
        }
        k = k + 1;
    }
    None
}

proof fn player_idx_skip(players: Seq<Player>, id: UserId, k: int)
    requires
        0 <= k < players.len(),
        forall|t: int| 0 <= t < k ==> (#[trigger] players[t]).id != id,
    ensures
        players[k].id == id ==> player_idx(players, id) == k,
        players[k].id != id && player_idx(players, id) >= 0 ==> player_idx(players, id) > k,
    decreases k,
{
    if k > 0 {
        assert(forall|t: int|
            0 <= t < k - 1 ==> (#[trigger] players.drop_first()[t]).id == players[t + 1].id);
        player_idx_skip(players.drop_first(), id, k - 1);
    }
}

/// One rendered row: the first roster member holding the pair's id, the
/// pair's score, and the given position.
pub open spec fn row_ok(
    players: Seq<Player>,
    sorted: Seq<(UserId, i32)>,
    k: int,
    pos: int,
    row: ScoreElement,
) -> bool {
    let pi = player_idx(players, sorted[k].0);
    &&& pi >= 0
    &&& row.username == players[pi].username
    &&& row.value == sorted[k].1
    &&& row.position == pos
}

/// How the rendered rows relate to the ascending-sorted pairs: `Biggest`
/// walks the ascending order directly, `Lowest` walks it reversed; positions
/// are the walk index either way.
pub open spec fn rows_ok(
    cond: ScoreBoardCondition,
    players: Seq<Player>,
    sorted: Seq<(UserId, i32)>,
    data: Seq<ScoreElement>,
) -> bool {
    &&& data.len() == sorted.len()
    &&& if cond is Biggest {
        forall|i: int| 0 <= i < data.len() ==> row_ok(players, sorted, i, i, #[trigger] data[i])
    } else {
        forall|i: int|
            0 <= i < data.len() ==> row_ok(
                players,
                sorted,
                data.len() - 1 - i,
                i,
                #[trigger] data[i],
            )
    }
}

/// Whether a scoreboard request fails for this store: an identifier-less
/// spec, an unknown state, a shared state, or an unimplemented condition.
pub open spec fn scoreboard_err(sb: ScoreBoard, states: Seq<StateEntry>) -> bool {
    ||| sb.state.spec_get_ident() is None
    ||| state_idx(states, sb.state.spec_get_ident()->0@) < 0
    ||| !(states[state_idx(states, sb.state.spec_get_ident()->0@)].module is IndividualState)
    ||| !(sb.cond is Biggest || sb.cond is Lowest)
}

impl ScoreBoard {
    /// Ranks the roster by the configured individual state: players missing
    /// from the state's map score its default, pairs are sorted ascending by
    /// score, and positions are assigned walking that order as the condition
    /// directs. Errors exactly on the `scoreboard_err` cases, leaving no
    /// partial output.
    pub fn generate_scoreboard(&self, states: &Vec<StateEntry>, players: &Vec<Player>) -> (r:
        Result<RenderedScoreBoard, ()>)
        requires
            players@.len() <= i32::MAX,
        ensures
            r is Err <==> scoreboard_err(*self, states@),
            r matches Ok(rb) ==> {
                let si = state_idx(states@, self.state.spec_get_ident()->0@);
                let cv = states@[si].module->IndividualState_constructor_value;
                let map = states@[si].module->IndividualState_map@;
                &&& Some(rb.ident) == self.state.spec_get_ident()
                &&& rows_ok(
                    self.cond,
                    players@,
                    sort_pairs(score_pairs(players@, cv, map)),
                    rb.data@,
                )
            },
    {
        proof {
            broadcast use state_idx_ensures;
            broadcast use player_idx_ensures;
            broadcast use crate::state::entry_idx_ensures;

        }
        let ident = match self.state.get_ident() {
            Some(ident) => ident,
            None => {
                return Err(());
            },
        };
        let si = match find_state(states, &ident) {
            Some(si) => si,
            None => {
                return Err(());
            },
        };
        let (cv, map) = match &states[si].module {
            StateModule::IndividualState { constructor_value, map } => (*constructor_value, map),
            StateModule::SharedState { .. } => {
                return Err(());
            },
        };
        match self.cond {
            ScoreBoardCondition::Biggest | ScoreBoardCondition::Lowest => {},
            _ => {
                return Err(());
            },
        }
        // The (id, score) pair of every roster member.
        let mut pairs: Vec<(UserId, i32)> = Vec::new();
        let n = players.len();
        let mut i: usize = 0;
        while i < n
            invariant
                n == players@.len(),
                0 <= i <= n,
                pairs@.len() == i,
                forall|j: int|
                    0 <= j < i ==> #[trigger] pairs@[j] == score_pairs(players@, cv, map@)[j],
            decreases n - i,
        {
            let id = players[i].id;
            let value = match lookup_entry(map, id) {
                Some(v) => v,
                None => cv,
            };
            pairs.push((id, value));
            i = i + 1;
        }
        proof {
            assert(pairs@ =~= score_pairs(players@, cv, map@));
        }
        // Stable ascending insertion sort by score.
        let mut sorted: Vec<(UserId, i32)> = Vec::new();
        let mut i: usize = 0;
        proof {
            assert(pairs@.take(0int) =~= Seq::<(UserId, i32)>::empty());
        }
        while i < n
            invariant
                n == pairs@.len(),
                0 <= i <= n,
                sorted@ == sort_pairs(pairs@.take(i as int)),
            decreases n - i,
        {
            let x = pairs[i];
            let mut p = sorted.len();
            while p > 0 && sorted[p - 1].1 > x.1
                invariant
                    0 <= p <= sorted@.len(),
                    forall|t: int| p <= t < sorted@.len() ==> (#[trigger] sorted@[t]).1 > x.1,
                decreases p,
            {
                p = p - 1;
            }
            let ghost pre = sorted@;
            sorted.insert(p, x);
            proof {
                lemma_insert_pair_at(pre, x, p as int);
                assert(pairs@.take(i + 1int).drop_last() =~= pairs@.take(i as int));
                assert(pairs@.take(i + 1int).last() == pairs@[i as int]);
            }
            i = i + 1;
        }
        proof {
            assert(pairs@.take(n as int) =~= pairs@);
            lemma_sort_pairs_multiset(pairs@);
        }
        // Rows, walking the sorted pairs as the condition directs.
        let ghost gsorted = sorted@;
        let mut data: Vec<ScoreElement> = Vec::new();
        let descending = match self.cond {
            ScoreBoardCondition::Lowest => true,
            _ => false,
        };
        let mut i: usize = 0;
        while i < n
            invariant
                n == gsorted.len(),
                players@.len() == n,
                players@.len() <= i32::MAX,
                sorted@ == gsorted,
                gsorted.to_multiset() == score_pairs(players@, cv, map@).to_multiset(),
                0 <= i <= n,
                data@.len() == i,
                descending ==> forall|j: int|
                    0 <= j < i ==> row_ok(players@, gsorted, n - 1 - j, j, #[trigger] data@[j]),
                !descending ==> forall|j: int|
                    0 <= j < i ==> row_ok(players@, gsorted, j, j, #[trigger] data@[j]),
            decreases n - i,
        {
            let k: usize = if descending {
                n - 1 - i
            } else {
                i
            };
            let id = sorted[k].0;
            proof {
                broadcast use vstd::seq_lib::group_to_multiset_ensures;

                assert(gsorted.to_multiset().contains(gsorted[k as int]));
                let pr = score_pairs(players@, cv, map@);
                assert(pr.contains(gsorted[k as int]));
                let w = choose|w: int| 0 <= w < pr.len() && pr[w] == gsorted[k as int];
                assert(players@[w].id == id);
                player_idx_skip_contains(players@, id, w);
            }
            let pi = match find_player(players, id) {
                Some(pi) => pi,
                None => {
                    proof {
                        assert(false);
                    }
                    return Err(());
                },
            };
            proof {
                broadcast use player_idx_ensures;

                assert(pi < players@.len());
            }
            data.push(
                ScoreElement {
                    username: players[pi].username.clone(),
                    value: sorted[k].1,
                    position: i as i32,
                },
            );
            i = i + 1;
        }
        Ok(RenderedScoreBoard { ident, data })
    }
}

/// A roster position with the id witnesses that the first match exists.
proof fn player_idx_skip_contains(players: Seq<Player>, id: UserId, w: int)
    requires
        0 <= w < players.len(),
        players[w].id == id,
    ensures
        player_idx(players, id) >= 0,
    decreases w,
{
    if players[0].id != id {
        assert(players.drop_first()[w - 1].id == id);
        player_idx_skip_contains(players.drop_first(), id, w - 1);
    }
}

/// Over one store and roster, `Lowest` and `Biggest` render the same
/// players and scores in exactly reversed order.
pub proof fn lemma_lowest_reverses_biggest(
    players: Seq<Player>,
    sorted: Seq<(UserId, i32)>,
    big: Seq<ScoreElement>,
    low: Seq<ScoreElement>,
)
    requires
        rows_ok(ScoreBoardCondition::Biggest, players, sorted, big),
        rows_ok(ScoreBoardCondition::Lowest, players, sorted, low),
    ensures
        low.len() == big.len(),
        forall|i: int|
            0 <= i < low.len() ==> (#[trigger] low[i]).username == big[low.len() - 1 - i].username
                && low[i].value == big[low.len() - 1 - i].value,
{
    assert forall|i: int| 0 <= i < low.len() implies (#[trigger] low[i]).username == big[low.len()
        - 1 - i].username && low[i].value == big[low.len() - 1 - i].value by {
        assert(row_ok(players, sorted, low.len() - 1 - i, i, low[i]));
        assert(row_ok(players, sorted, low.len() - 1 - i, low.len() - 1 - i, big[low.len() - 1
            - i]));
    }
}

} // verus!
