//! The state store: reconciliation of per-player maps against the roster and
//! the targeted, soft-failing state updates the card engine applies.
use vstd::prelude::*;
use crate::deck::{Selector, StateEntry, StateModule};
use crate::id::UserId;
use crate::player::Players;
use vstd::pervasive::VecAdditionalExecFns;

verus! {

/// Saturating clamp of an unbounded integer into the i32 range.
pub open spec fn sat_i32(x: int) -> int {
    if x > i32::MAX {
        i32::MAX as int
    } else if x < i32::MIN {
        i32::MIN as int
    } else {
        x
    }
}

/// The index of the state a given identifier denotes: the last entry with
/// that identifier, as later declarations override earlier ones, or -1.
pub open spec fn state_idx(states: Seq<StateEntry>, ident: Seq<char>) -> int
    decreases states.len(),
{
    if states.len() == 0 {
        -1
    } else if states.last().ident@ == ident {
        states.len() - 1
    } else {
        state_idx(states.drop_last(), ident)
    }
}

pub broadcast proof fn state_idx_ensures(states: Seq<StateEntry>, ident: Seq<char>)
    ensures
        -1 <= #[trigger] state_idx(states, ident) < states.len(),
        state_idx(states, ident) >= 0 ==> states[state_idx(states, ident)].ident@ == ident,
    decreases states.len(),
{
    if states.len() > 0 && !(states.last().ident@ == ident) {
        state_idx_ensures(states.drop_last(), ident);
    }
}

/// The index of a player's entry in an individual state's map (first match),
/// or -1 when the player has none.
pub open spec fn entry_idx(map: Seq<(UserId, i32)>, id: UserId) -> int
    decreases map.len(),
{
    if map.len() == 0 {
        -1
    } else if map[0].0 == id {
        0
    } else {
        let rest = entry_idx(map.drop_first(), id);
        if rest == -1 {
            -1
        } else {
            rest + 1
        }
    }
}

pub broadcast proof fn entry_idx_ensures(map: Seq<(UserId, i32)>, id: UserId)
    ensures
        -1 <= #[trigger] entry_idx(map, id) < map.len(),
        entry_idx(map, id) >= 0 ==> map[entry_idx(map, id)].0 == id,
        entry_idx(map, id) == -1 ==> forall|k: int| 0 <= k < map.len() ==> (#[trigger] map[k]).0
            != id,
    decreases map.len(),
{
    if map.len() > 0 && map[0].0 != id {
        entry_idx_ensures(map.drop_first(), id);
        if entry_idx(map, id) == -1 {
            assert(forall|k: int|
                1 <= k < map.len() ==> #[trigger] map[k] == map.drop_first()[k - 1]);
        }
    }
}

/// The key column of an individual state's map.
pub open spec fn map_ids(map: Seq<(UserId, i32)>) -> Seq<UserId> {
    map.map_values(|e: (UserId, i32)| e.0)
}

/// The id column of a roster.
pub open spec fn roster_ids(players: Seq<crate::player::Player>) -> Seq<UserId> {
    players.map_values(|p: crate::player::Player| p.id)
}

/// What reconciliation leaves in one individual state's map, given the
/// roster: one entry per distinct roster id, in first-appearance order,
/// keeping the old value where the player already had one and taking the
/// state's default otherwise.
pub open spec fn reconciled_map(
    pre: Seq<(UserId, i32)>,
    cv: int,
    ids: Seq<UserId>,
    post: Seq<(UserId, i32)>,
) -> bool {
    &&& forall|k1: int, k2: int|
        0 <= k1 < k2 < post.len() ==> (#[trigger] post[k1]).0 != (#[trigger] post[k2]).0
    &&& forall|k: int|
        0 <= k < post.len() ==> ids.contains((#[trigger] post[k]).0) && post[k].1 as int == (
        if entry_idx(pre, post[k].0) >= 0 {
            pre[entry_idx(pre, post[k].0)].1 as int
        } else {
            cv
        })
    &&& forall|j: int| 0 <= j < ids.len() ==> map_ids(post).contains(#[trigger] ids[j])
}

/// How one state entry relates across reconciliation.
pub open spec fn reconciled_entry(pre: StateEntry, ids: Seq<UserId>, post: StateEntry) -> bool {
    &&& post.ident == pre.ident
    &&& match pre.module {
        StateModule::SharedState { .. } => post.module == pre.module,
        StateModule::IndividualState { constructor_value, map } => {
            &&& post.module matches StateModule::IndividualState {
                constructor_value: pcv,
                map: pmap,
            }
            &&& post.module->IndividualState_constructor_value == constructor_value
            &&& reconciled_map(
                map@,
                constructor_value as int,
                ids,
                post.module->IndividualState_map@,
            )
        },
    }
}

/// After reconciliation, every individual state's key set equals exactly
/// the roster's id set, whatever roster history came before.
pub proof fn lemma_reconcile_key_sets(pre: StateEntry, ids: Seq<UserId>, post: StateEntry)
    requires
        pre.module is IndividualState,
        reconciled_entry(pre, ids, post),
    ensures
        map_ids(post.module->IndividualState_map@).to_set() == ids.to_set(),
{
    let post_ids = map_ids(post.module->IndividualState_map@);
    let map = post.module->IndividualState_map@;
    assert forall|x: UserId| post_ids.to_set().contains(x) implies ids.to_set().contains(x) by {
        let t = choose|t: int| 0 <= t < post_ids.len() && post_ids[t] == x;
        assert(map[t].0 == x);
        assert(ids.contains(x));
    }
    assert forall|x: UserId| ids.to_set().contains(x) implies post_ids.to_set().contains(x) by {
        let j = choose|j: int| 0 <= j < ids.len() && ids[j] == x;
        assert(post_ids.contains(ids[j]));
    }
    assert(post_ids.to_set() =~= ids.to_set());
}

/// Rebuilds one individual map against the roster ids.
fn reconcile_map(map: &Vec<(UserId, i32)>, cv: i32, roster: &Vec<crate::player::Player>) -> (r: Vec<
    (UserId, i32),
>)
    ensures
        reconciled_map(map@, cv as int, roster_ids(roster@), r@),
{
    let mut out: Vec<(UserId, i32)> = Vec::new();
    let n = roster.len();
    let mut i: usize = 0;
    while i < n
        invariant
            n == roster@.len(),
            0 <= i <= n,
            forall|k1: int, k2: int|
                0 <= k1 < k2 < out@.len() ==> (#[trigger] out@[k1]).0 != (#[trigger] out@[k2]).0,
            forall|k: int|
                0 <= k < out@.len() ==> roster_ids(roster@).contains((#[trigger] out@[k]).0) && out@[k].1
                    as int == (if entry_idx(map@, out@[k].0) >= 0 {
                    map@[entry_idx(map@, out@[k].0)].1 as int
                } else {
                    cv as int
                }),
            forall|j: int|
                0 <= j < i ==> exists|t: int|
                    0 <= t < out@.len() && (#[trigger] out@[t]).0 == (#[trigger] roster_ids(
                        roster@,
                    )[j]),
        decreases n - i,
    {
        let id = roster[i].id;
        let mut seen = false;
        let m = out.len();
        let mut k: usize = 0;
        while k < m
            invariant
                m == out@.len(),
                0 <= k <= m,
                seen <==> exists|t: int| 0 <= t < k && (#[trigger] out@[t]).0 == id,
            decreases m - k,
        {
            if out[k].0 == id {
                seen = true;
            }
            k = k + 1;
        }
        let ghost pre_out = out@;
        if !seen {
            let e = lookup_entry(map, id);
            let value = match e {
                Some(v) => v,
                None => cv,
            };
            out.push((id, value));
        }
        proof {
            let ids = roster_ids(roster@);
            assert(ids[i as int] == id);
            assert forall|j: int| 0 <= j <= i implies exists|t: int|
                0 <= t < out@.len() && (#[trigger] out@[t]).0 == (#[trigger] ids[j]) by {
                if j < i {
                    let t = choose|t: int|
                        0 <= t < pre_out.len() && (#[trigger] pre_out[t]).0 == ids[j];
                    assert(out@[t].0 == ids[j]);
                } else if seen {
                    let t = choose|t: int| 0 <= t < pre_out.len() && (#[trigger] pre_out[t]).0
                        == id;
                    assert(out@[t].0 == ids[j]);
                } else {
                    assert(out@[out@.len() - 1].0 == ids[j]);
                }
            }
        }
        i = i + 1;
    }
    proof {
        let ids = roster_ids(roster@);
        assert forall|j: int| 0 <= j < ids.len() implies map_ids(out@).contains(
            #[trigger] ids[j],
        ) by {
            let t = choose|t: int| 0 <= t < out@.len() && (#[trigger] out@[t]).0 == ids[j];
            assert(map_ids(out@)[t] == ids[j]);
        }
    }
    out
}

/// Reads a player's value out of an individual map.
pub fn lookup_entry(map: &Vec<(UserId, i32)>, id: UserId) -> (r: Option<i32>)
    ensures
        r is Some <==> entry_idx(map@, id) >= 0,
        r matches Some(v) ==> v == map@[entry_idx(map@, id)].1,
{
    let n = map.len();
    let mut k: usize = 0;
    proof {
        broadcast use entry_idx_ensures;

    }
    while k < n
        invariant
            n == map@.len(),
            0 <= k <= n,
            forall|t: int| 0 <= t < k ==> (#[trigger] map@[t]).0 != id,
            entry_idx(map@, id) >= 0 ==> entry_idx(map@, id) >= k,
        decreases n - k,
    {
        proof {
            broadcast use entry_idx_ensures;

            entry_idx_skip(map@, id, k as int);
        }
        if map[k].0 == id {
            return Some(map[k].1);
        }
        k = k + 1;
    }
    None
}

/// Saturating addition within i32.
pub fn sat_add(a: i32, b: i32) -> (r: i32)
    ensures
        r as int == sat_i32(a as int + b as int),
{
    let s: i64 = a as i64 + b as i64;
    if s > i32::MAX as i64 {
        i32::MAX
    } else if s < i32::MIN as i64 {
        i32::MIN
    } else {
        s as i32
    }
}

/// Finds the state a given identifier denotes, scanning for the last match.
pub fn find_state(states: &Vec<StateEntry>, ident: &String) -> (r: Option<usize>)
    ensures
        r is Some <==> state_idx(states@, ident@) >= 0,
        r matches Some(i) ==> i as int == state_idx(states@, ident@),
{
    let n = states.len();
    let mut best: Option<usize> = None;
    let mut k: usize = 0;
    proof {
        assert(states@.take(0int) =~= Seq::<StateEntry>::empty());
    }
    while k < n
        invariant
            n == states@.len(),
            0 <= k <= n,
            best is Some <==> state_idx(states@.take(k as int), ident@) >= 0,
            best matches Some(i) ==> i as int == state_idx(states@.take(k as int), ident@),
        decreases n - k,
    {
        proof {
            assert(states@.take(k + 1int).drop_last() =~= states@.take(k as int));
            assert(states@.take(k + 1int).last() == states@[k as int]);
        }
        if states[k].ident == *ident {
            best = Some(k);
        }
        k = k + 1;
    }
    proof {
        assert(states@.take(n as int) =~= states@);
    }
    best
}

/// A state entry with its shared value bumped by `m`, everything else as in
/// `pre`.
pub open spec fn bumped_shared(pre: Seq<StateEntry>, si: int, m: int, post: Seq<StateEntry>) -> bool {
    &&& post.len() == pre.len()
    &&& forall|j: int| 0 <= j < pre.len() && j != si ==> post[j] == pre[j]
    &&& post[si].ident == pre[si].ident
    &&& pre[si].module matches StateModule::SharedState { ident, value }
    &&& post[si].module matches StateModule::SharedState { ident: pi, value: pv } && pi
        == pre[si].module->SharedState_ident && pv as int == sat_i32(
        pre[si].module->SharedState_value + m,
    )
}

/// A state entry with one player's individual value bumped by `m`.
pub open spec fn bumped_individual(
    pre: Seq<StateEntry>,
    si: int,
    e: int,
    m: int,
    post: Seq<StateEntry>,
) -> bool {
    &&& post.len() == pre.len()
    &&& forall|j: int| 0 <= j < pre.len() && j != si ==> post[j] == pre[j]
    &&& post[si].ident == pre[si].ident
    &&& pre[si].module matches StateModule::IndividualState { constructor_value, map }
    &&& post[si].module matches StateModule::IndividualState { constructor_value: pcv, map: pmap }
        && pcv == pre[si].module->IndividualState_constructor_value && ({
        let old_map = pre[si].module->IndividualState_map@;
        pmap@ == old_map.update(e, (old_map[e].0, sat_i32(old_map[e].1 + m) as i32))
    })
}

/// What a targeted state update does: a shared bump for the `NoPlayer`
/// selector, an individual bump for the player the selector resolves to, and
/// a silent no-op when the identifier is unknown, the state is of the wrong
/// kind, the roster is empty, or the player has no entry.
pub open spec fn apply_rel(
    pre: Seq<StateEntry>,
    sident: Seq<char>,
    m: int,
    sel: Selector,
    players: Players,
    post: Seq<StateEntry>,
) -> bool {
    let si = state_idx(pre, sident);
    if sel is NoPlayer {
        if si >= 0 && pre[si].module is SharedState {
            bumped_shared(pre, si, m, post)
        } else {
            post == pre
        }
    } else {
        if si >= 0 && pre[si].module is IndividualState && players.players@.len() > 0 {
            exists|i: int|
                #[trigger] players.picks(sel, i) && 0 <= i < players.players@.len() && ({
                    let e = entry_idx(
                        pre[si].module->IndividualState_map@,
                        players.players@[i].id,
                    );
                    if e >= 0 {
                        bumped_individual(pre, si, e, m, post)
                    } else {
                        post == pre
                    }
                })
        } else {
            post == pre
        }
    }
}

fn placeholder_entry() -> (r: StateEntry) {
    StateEntry {
        ident: String::new(),
        module: StateModule::SharedState { ident: String::new(), value: 0 },
    }
}

/// Applies one targeted update to the store, as `apply_rel` describes.
pub fn apply_update(
    states: &mut Vec<StateEntry>,
    ident: &String,
    modifier: i32,
    selector: Selector,
    players: &Players,
)
    requires
        players.wf(),
    ensures
        apply_rel(old(states)@, ident@, modifier as int, selector, *players, final(states)@),
{
    proof {
        broadcast use state_idx_ensures;
        broadcast use entry_idx_ensures;

    }
    let si = match find_state(states, ident) {
        Some(si) => si,
        None => {
            return ;
        },
    };
    match selector {
        Selector::NoPlayer => {
            let mut tmp = placeholder_entry();
            states.set_and_swap(si, &mut tmp);
            let StateEntry { ident: sid, module } = tmp;
            match module {
                StateModule::SharedState { ident: inner, value } => {
                    let bumped = sat_add(value, modifier);
                    let mut back = StateEntry {
                        ident: sid,
                        module: StateModule::SharedState { ident: inner, value: bumped },
                    };
                    states.set_and_swap(si, &mut back);
                    proof {
                        assert(bumped_shared(old(states)@, si as int, modifier as int, states@));
                    }
                },
                m => {
                    let mut back = StateEntry { ident: sid, module: m };
                    states.set_and_swap(si, &mut back);
                    proof {
                        assert(states@ =~= old(states)@);
                    }
                },
            }
        },
        _ => {
            let acting = players.clone_player(selector);
            let player = match acting {
                Some(p) => p,
                None => {
                    return ;
                },
            };
            let ghost iw = choose|i: int|
                #[trigger] players.picks(selector, i) && 0 <= i < players.players@.len() && player
                    == players.players@[i];
            let mut tmp = placeholder_entry();
            states.set_and_swap(si, &mut tmp);
            let StateEntry { ident: sid, module } = tmp;
            match module {
                StateModule::IndividualState { constructor_value, map } => {
                    let mut map = map;
                    let ghost old_map = map@;
                    let e = find_entry(&map, player.id);
                    match e {
                        Some(e) => {
                            let cur = map[e].1;
                            let bumped = sat_add(cur, modifier);
                            map.set(e, (player.id, bumped));
                            proof {
                                assert(map@ =~= old_map.update(
                                    e as int,
                                    (old_map[e as int].0, sat_i32(old_map[e as int].1 + modifier)
                                        as i32),
                                ));
                            }
                        },
                        None => {},
                    }
                    let mut back = StateEntry {
                        ident: sid,
                        module: StateModule::IndividualState { constructor_value, map },
                    };
                    states.set_and_swap(si, &mut back);
                    proof {
                        assert(players.picks(selector, iw));
                        let eg = entry_idx(old_map, players.players@[iw].id);
                        if eg >= 0 {
                            assert(bumped_individual(
                                old(states)@,
                                si as int,
                                eg,
                                modifier as int,
                                states@,
                            ));
                        } else {
                            assert(states@ =~= old(states)@);
                        }
                    }
                },
                m => {
                    let mut back = StateEntry { ident: sid, module: m };
                    states.set_and_swap(si, &mut back);
                    proof {
                        assert(states@ =~= old(states)@);
                    }
                },
            }
        },
    }
}

/// Reads a player's entry index out of an individual map.
pub fn find_entry(map: &Vec<(UserId, i32)>, id: UserId) -> (r: Option<usize>)
    ensures
        r is Some <==> entry_idx(map@, id) >= 0,
        r matches Some(e) ==> e as int == entry_idx(map@, id),
{
    let n = map.len();
    let mut k: usize = 0;
    proof {
        broadcast use entry_idx_ensures;

    }
    while k < n
        invariant
            n == map@.len(),
            0 <= k <= n,
            forall|t: int| 0 <= t < k ==> (#[trigger] map@[t]).0 != id,
            entry_idx(map@, id) >= 0 ==> entry_idx(map@, id) >= k,
        decreases n - k,
    {
        proof {
            broadcast use entry_idx_ensures;

            entry_idx_skip(map@, id, k as int);
        }
        if map[k].0 == id {
            return Some(k);
        }
        k = k + 1;
    }
    None
}

/// The map predicate that keeps every entry but the given player's.
pub open spec fn keeps_others(id: UserId) -> spec_fn((UserId, i32)) -> bool {
    |e: (UserId, i32)| e.0 != id
}

/// How one state entry relates across removal of one player's entries.
pub open spec fn removed_entry(pre: StateEntry, id: UserId, post: StateEntry) -> bool {
    &&& post.ident == pre.ident
    &&& match pre.module {
        StateModule::SharedState { .. } => post.module == pre.module,
        StateModule::IndividualState { constructor_value, map } => {
            &&& post.module matches StateModule::IndividualState { constructor_value: pcv, map: pmap }
            &&& post.module->IndividualState_constructor_value == constructor_value
            &&& post.module->IndividualState_map@ == map@.filter(keeps_others(id))
        },
    }
}

/// Drops the given player's entry from every individual state.
pub fn remove_player_entries(states: &mut Vec<StateEntry>, id: UserId)
    ensures
        final(states)@.len() == old(states)@.len(),
        forall|j: int|
            0 <= j < old(states)@.len() ==> removed_entry(
                old(states)@[j],
                id,
                #[trigger] final(states)@[j],
            ),
{
    let n = states.len();
    let mut i: usize = 0;
    while i < n
        invariant
            n == states@.len(),
            old(states)@.len() == n,
            0 <= i <= n,
            forall|j: int|
                0 <= j < i ==> removed_entry(old(states)@[j], id, #[trigger] states@[j]),
            forall|j: int| i <= j < n ==> states@[j] == old(states)@[j],
        decreases n - i,
    {
        let mut tmp = placeholder_entry();
        states.set_and_swap(i, &mut tmp);
        let StateEntry { ident: sid, module } = tmp;
        let new_module = match module {
            StateModule::IndividualState { constructor_value, map } => {
                let mut kept: Vec<(UserId, i32)> = Vec::new();
                let m = map.len();
                let mut k: usize = 0;
                proof {
                    assert(map@.take(0int).filter(keeps_others(id)) =~= Seq::<
                        (UserId, i32),
                    >::empty());
                }
                while k < m
                    invariant
                        m == map@.len(),
                        0 <= k <= m,
                        kept@ == map@.take(k as int).filter(keeps_others(id)),
                    decreases m - k,
                {
                    proof {
                        assert(map@.take(k + 1int).drop_last() =~= map@.take(k as int));
                        assert(map@.take(k + 1int).last() == map@[k as int]);
                        reveal(Seq::filter);
                    }
                    if map[k].0 != id {
                        kept.push((map[k].0, map[k].1));
                        proof {
                            assert(kept@ =~= map@.take(k + 1int).filter(keeps_others(id)));
                        }
                    }
                    k = k + 1;
                }
                proof {
                    assert(map@.take(m as int) =~= map@);
                }
                StateModule::IndividualState { constructor_value, map: kept }
            },
            m => m,
        };
        let mut back = StateEntry { ident: sid, module: new_module };
        states.set_and_swap(i, &mut back);
        i = i + 1;
    }
}

/// Reconciles every individual state's map against the roster: stale
/// entries go, every roster member gets an entry, defaults fill the gaps.
pub fn reconcile(states: &mut Vec<StateEntry>, roster: &Vec<crate::player::Player>)
    ensures
        final(states)@.len() == old(states)@.len(),
        forall|j: int|
            0 <= j < old(states)@.len() ==> reconciled_entry(
                old(states)@[j],
                roster_ids(roster@),
                #[trigger] final(states)@[j],
            ),
{
    let n = states.len();
    let mut i: usize = 0;
    while i < n
        invariant
            n == states@.len(),
            old(states)@.len() == n,
            0 <= i <= n,
            forall|j: int|
                0 <= j < i ==> reconciled_entry(
                    old(states)@[j],
                    roster_ids(roster@),
                    #[trigger] states@[j],
                ),
            forall|j: int| i <= j < n ==> states@[j] == old(states)@[j],
        decreases n - i,
    {
        let mut tmp = placeholder_entry();
        states.set_and_swap(i, &mut tmp);
        let StateEntry { ident: sid, module } = tmp;
        let new_module = match module {
            StateModule::IndividualState { constructor_value, map } => {
                let fresh = reconcile_map(&map, constructor_value, roster);
                StateModule::IndividualState { constructor_value, map: fresh }
            },
            m => m,
        };
        let mut back = StateEntry { ident: sid, module: new_module };
        states.set_and_swap(i, &mut back);
        i = i + 1;
    }
}

/// `entry_idx` relates to a scan that has ruled out the first `k` entries.
proof fn entry_idx_skip(map: Seq<(UserId, i32)>, id: UserId, k: int)
    requires
        0 <= k < map.len(),
        forall|t: int| 0 <= t < k ==> (#[trigger] map[t]).0 != id,
    ensures
        map[k].0 == id ==> entry_idx(map, id) == k,
        map[k].0 != id && entry_idx(map, id) >= 0 ==> entry_idx(map, id) > k,
    decreases k,
{
    if k > 0 {
        assert(forall|t: int|
            0 <= t < k - 1 ==> (#[trigger] map.drop_first()[t]).0 == map[t + 1].0);
        entry_idx_skip(map.drop_first(), id, k - 1);
    }
}

} // verus!
