//! The card engine: drawing cards, evaluating their actions into cached
//! text, assembling display text, building the outstanding option batch, and
//! resolving a chosen option's deferred updates.
use vstd::prelude::*;
use vstd::string::StringExecFns;
use crate::deck::{Action, Card, Data, DeckBundle, RenderedScoreBoard, ScoreBoard, Segment,
    Selector, StateEntry, StateModule, Table, Value};
use crate::id::UserId;
use crate::player::Players;
use crate::rng::{fresh_id, rand_below};
use crate::scoreboard::{rows_ok, scoreboard_err, score_pairs, sort_pairs};
use crate::state::{apply_rel, apply_update, entry_idx, find_state, lookup_entry, reconcile,
    reconciled_entry, remove_player_entries, removed_entry, roster_ids, sat_i32, state_idx,
    state_idx_ensures};
use crate::text::{dec_int, i32_to_string};

verus! {

/// A cached evaluation result: rendered text, or an action held back for a
/// later pass.
pub enum Intermediate {
    Value(String),
    Action(Action),
}

impl Intermediate {
    pub open spec fn spec_to_string(self) -> Option<String> {
        match self {
            Intermediate::Value(value) => Some(value),
            Intermediate::Action(_) => None,
        }
    }

    pub fn to_string(&self) -> (r: Option<String>)
        ensures
            r == self.spec_to_string(),
    {
        match self {
            Intermediate::Value(value) => Some(value.clone()),
            Intermediate::Action(_) => None,
        }
    }
}

/// One deferred state mutation, carried by a card option.
pub struct StateUpdate {
    pub ident: String,
    pub modifier: i32,
    pub selector: Selector,
}

impl Clone for StateUpdate {
    fn clone(&self) -> (r: Self)
        ensures
            r == *self,
    {
        StateUpdate { ident: self.ident.clone(), modifier: self.modifier, selector: self.selector }
    }
}

/// A presented choice: an opaque fresh id, display text, and the deferred
/// updates resolving it will apply.
pub struct CardOption {
    pub id: u128,
    pub display: String,
    pub updates: Vec<StateUpdate>,
}

impl Clone for CardOption {
    fn clone(&self) -> (r: Self)
        ensures
            r.id == self.id,
            r.display == self.display,
            r.updates@ == self.updates@,
    {
        let updates = self.updates.clone();
        proof {
            assert(updates@ =~= self.updates@);
        }
        CardOption { id: self.id, display: self.display.clone(), updates }
    }
}

/// What one draw hands back: the assembled text and the freshly built
/// option batch.
pub struct CardResult {
    pub state_options: Vec<CardOption>,
    pub text: String,
}

/// The externally visible summary of match state.
pub struct GameBundle {
    pub score_board: RenderedScoreBoard,
    pub current_idx: usize,
    pub states: Vec<StateModule>,
}

/// The sentinel text a failed table or state lookup renders as.
pub open spec fn error_text() -> Seq<char> {
    "Error"@
}

/// The index of the table a given identifier denotes (last match), or -1.
pub open spec fn table_idx(tables: Seq<Table>, ident: Seq<char>) -> int
    decreases tables.len(),
{
    if tables.len() == 0 {
        -1
    } else if tables.last().ident@ == ident {
        tables.len() - 1
    } else {
        table_idx(tables.drop_last(), ident)
    }
}

pub broadcast proof fn table_idx_ensures(tables: Seq<Table>, ident: Seq<char>)
    ensures
        -1 <= #[trigger] table_idx(tables, ident) < tables.len(),
        table_idx(tables, ident) >= 0 ==> tables[table_idx(tables, ident)].ident@ == ident,
    decreases tables.len(),
{
    if tables.len() > 0 && !(tables.last().ident@ == ident) {
        table_idx_ensures(tables.drop_last(), ident);
    }
}

/// Whether the table holds any value admitting the required tags.
pub open spec fn table_has_match(t: Table, tags: Seq<String>) -> bool {
    exists|k: int| 0 <= k < t.values@.len() && (#[trigger] t.values@[k]).admits(tags)
}

/// What a `GetFromTable` lookup may cache: the text of some value of the
/// named table whose tags cover the required ones, or the sentinel when the
/// table is missing or no value qualifies.
pub open spec fn table_get_ok(
    tables: Seq<Table>,
    tident: Seq<char>,
    tags: Seq<String>,
    out: Seq<char>,
) -> bool {
    let ti = table_idx(tables, tident);
    if ti < 0 || !table_has_match(tables[ti], tags) {
        out == error_text()
    } else {
        exists|k: int|
            0 <= k < tables[ti].values@.len() && (#[trigger] tables[ti].values@[k]).admits(tags)
                && out == tables[ti].values@[k].value@
    }
}

/// What a `GetFromState` lookup caches: the decimal of the shared scalar
/// whatever the selector, the decimal of the selected player's individual
/// entry, or the sentinel when the state is missing, an individual state is
/// read without a player, the roster is empty, or the player has no entry.
pub open spec fn state_get_ok(
    states: Seq<StateEntry>,
    sident: Seq<char>,
    sel: Selector,
    players: Players,
    out: Seq<char>,
) -> bool {
    let si = state_idx(states, sident);
    if si < 0 {
        out == error_text()
    } else {
        match states[si].module {
            StateModule::SharedState { ident, value } => out == dec_int(value as int),
            StateModule::IndividualState { constructor_value, map } => {
                if (sel is NoPlayer) || players.players@.len() == 0 {
                    out == error_text()
                } else {
                    exists|i: int|
                        #[trigger] players.picks(sel, i) && 0 <= i < players.players@.len() && ({
                            let e = entry_idx(map@, players.players@[i].id);
                            if e >= 0 {
                                out == dec_int(map@[e].1 as int)
                            } else {
                                out == error_text()
                            }
                        })
                }
            },
        }
    }
}

/// Checks a value's tags against the required ones.
fn value_admits(v: &Value, tags: &Vec<String>) -> (r: bool)
    ensures
        r == v.admits(tags@),
{
    let n = tags.len();
    let mut j: usize = 0;
    while j < n
        invariant
            n == tags@.len(),
            0 <= j <= n,
            forall|t: int| 0 <= t < j ==> v.has_tag(#[trigger] tags@[t]@),
        decreases n - j,
    {
        let m = v.tags.len();
        let mut k: usize = 0;
        let mut found = false;
        while k < m
            invariant
                m == v.tags@.len(),
                n == tags@.len(),
                0 <= j < n,
                0 <= k <= m,
                found <==> exists|t: int| 0 <= t < k && v.tags@[t]@ == tags@[j as int]@,
            decreases m - k,
        {
            if v.tags[k] == tags[j] {
                found = true;
            }
            k = k + 1;
        }
        if !found {
            proof {
                assert(!v.has_tag(tags@[j as int]@));
            }
            return false;
        }
        j = j + 1;
    }
    true
}

/// Finds the table a given identifier denotes, scanning for the last match.
fn find_table(tables: &Vec<Table>, ident: &String) -> (r: Option<usize>)
    ensures
        r is Some <==> table_idx(tables@, ident@) >= 0,
        r matches Some(i) ==> i as int == table_idx(tables@, ident@),
{
    let n = tables.len();
    let mut best: Option<usize> = None;
    let mut k: usize = 0;
    proof {
        assert(tables@.take(0int) =~= Seq::<Table>::empty());
    }
    while k < n
        invariant
            n == tables@.len(),
            0 <= k <= n,
            best is Some <==> table_idx(tables@.take(k as int), ident@) >= 0,
            best matches Some(i) ==> i as int == table_idx(tables@.take(k as int), ident@),
        decreases n - k,
    {
        proof {
            assert(tables@.take(k + 1int).drop_last() =~= tables@.take(k as int));
            assert(tables@.take(k + 1int).last() == tables@[k as int]);
        }
        if tables[k].ident == *ident {
            best = Some(k);
        }
        k = k + 1;
    }
    proof {
        assert(tables@.take(n as int) =~= tables@);
    }
    best
}

/// Evaluates one `GetFromTable` action: filters the named table down to the
/// values covering the required tags and picks one uniformly, or falls back
/// to the sentinel text.
fn pick_from_table(tables: &Vec<Table>, tident: &String, tags: &Vec<String>) -> (r: String)
    ensures
        table_get_ok(tables@, tident@, tags@, r@),
{
    proof {
        broadcast use table_idx_ensures;

    }
    let ti = match find_table(tables, tident) {
        Some(ti) => ti,
        None => {
            return "Error".to_owned();
        },
    };
    let values = &tables[ti].values;
    let mut matching: Vec<usize> = Vec::new();
    let n = values.len();
    let mut k: usize = 0;
    while k < n
        invariant
            n == values@.len(),
            0 <= k <= n,
            forall|t: int|
                0 <= t < matching@.len() ==> 0 <= #[trigger] matching@[t] < n && values@[matching@[t] as int].admits(tags@),
            matching@.len() == 0 ==> forall|t: int|
                0 <= t < k ==> !(#[trigger] values@[t]).admits(tags@),
        decreases n - k,
    {
        if value_admits(&values[k], tags) {
            matching.push(k);
        }
        k = k + 1;
    }
    if matching.len() == 0 {
        proof {
            assert(!table_has_match(tables@[ti as int], tags@));
        }
        return "Error".to_owned();
    }
    let pick = matching[rand_below(matching.len())];
    let out = values[pick].value.clone();
    proof {
        assert(values@[pick as int].admits(tags@) && out@ == values@[pick as int].value@);
    }
    out
}

/// Evaluates one `GetFromState` action against the store and roster.
fn read_state_string(
    states: &Vec<StateEntry>,
    sident: &String,
    selector: Selector,
    players: &Players,
) -> (r: String)
    requires
        players.wf(),
    ensures
        state_get_ok(states@, sident@, selector, *players, r@),
{
    proof {
        broadcast use state_idx_ensures;
        broadcast use crate::state::entry_idx_ensures;

    }
    let si = match find_state(states, sident) {
        Some(si) => si,
        None => {
            return "Error".to_owned();
        },
    };
    match &states[si].module {
        StateModule::SharedState { ident: _, value } => i32_to_string(*value),
        StateModule::IndividualState { constructor_value: _, map } => {
            match selector {
                Selector::NoPlayer => "Error".to_owned(),
                _ => {
                    match players.clone_player(selector) {
                        None => "Error".to_owned(),
                        Some(p) => {
                            let ghost iw = choose|i: int|
                                #[trigger] players.picks(selector, i) && 0 <= i
                                    < players.players@.len() && p == players.players@[i];
                            match lookup_entry(map, p.id) {
                                Some(v) => {
                                    let out = i32_to_string(v);
                                    proof {
                                        assert(players.picks(selector, iw));
                                    }
                                    out
                                },
                                None => {
                                    proof {
                                        assert(players.picks(selector, iw));
                                    }
                                    "Error".to_owned()
                                },
                            }
                        },
                    }
                },
            }
        },
    }
}

/// The shared-state modules of the store, in order; these are the only
/// per-state values a snapshot exposes directly.
pub open spec fn shared_modules(states: Seq<StateEntry>) -> Seq<StateModule>
    decreases states.len(),
{
    if states.len() == 0 {
        Seq::<StateModule>::empty()
    } else {
        shared_modules(states.drop_last()) + if states.last().module is SharedState {
            seq![states.last().module]
        } else {
            Seq::<StateModule>::empty()
        }
    }
}

/// The deck-derived match state the engine owns, plus the draw counter.
pub struct GameState {
    pub tables: Vec<Table>,
    pub states: Vec<StateEntry>,
    pub cards: Vec<Card>,
    pub card_count: u64,
    pub score_state: ScoreBoard,
}

/// What a snapshot must hold: the roster's turn index, the shared states,
/// and the scoreboard (empty on a scoreboard error rather than a crash).
pub open spec fn bundle_ok(gs: GameState, players: Players, r: GameBundle) -> bool {
    &&& r.current_idx == players.idx
    &&& r.states@ == shared_modules(gs.states@)
    &&& if scoreboard_err(gs.score_state, gs.states@) {
        r.score_board.ident@ == Seq::<char>::empty() && r.score_board.data@ == Seq::<
            crate::deck::ScoreElement,
        >::empty()
    } else {
        let si = state_idx(gs.states@, gs.score_state.state.spec_get_ident()->0@);
        let cv = gs.states@[si].module->IndividualState_constructor_value;
        let map = gs.states@[si].module->IndividualState_map@;
        Some(r.score_board.ident) == gs.score_state.state.spec_get_ident() && rows_ok(
            gs.score_state.cond,
            players.players@,
            sort_pairs(score_pairs(players.players@, cv, map)),
            r.score_board.data@,
        )
    }
}

impl GameState {
    pub fn new(bundle: DeckBundle) -> (r: Self)
        ensures
            r.tables == bundle.tables,
            r.states == bundle.states,
            r.cards == bundle.cards,
            r.score_state == bundle.score_state,
            r.card_count == 0,
    {
        GameState {
            tables: bundle.tables,
            states: bundle.states,
            cards: bundle.cards,
            card_count: 0,
            score_state: bundle.score_state,
        }
    }

    /// Zeroes the draw counter; the content is left alone.
    pub fn reset(&mut self)
        ensures
            final(self).card_count == 0,
            final(self).tables == old(self).tables,
            final(self).states == old(self).states,
            final(self).cards == old(self).cards,
            final(self).score_state == old(self).score_state,
    {
        self.card_count = 0;
    }

    /// Replaces the content with a freshly compiled bundle; the draw counter
    /// survives the swap.
    pub fn change_deck(&mut self, bundle: DeckBundle)
        ensures
            final(self).tables == bundle.tables,
            final(self).states == bundle.states,
            final(self).cards == bundle.cards,
            final(self).score_state == bundle.score_state,
            final(self).card_count == old(self).card_count,
    {
        self.tables = bundle.tables;
        self.states = bundle.states;
        self.score_state = bundle.score_state;
        self.cards = bundle.cards;
    }

    /// Packages the snapshot: turn index, shared states, and the scoreboard,
    /// which degrades to an empty board on a scoreboard error.
    pub fn bundle_state(&self, players: &Players) -> (r: GameBundle)
        requires
            players.players@.len() <= i32::MAX,
        ensures
            bundle_ok(*self, *players, r),
    {
        let score_board = match self.score_state.generate_scoreboard(&self.states, &players.players)
        {
            Ok(sb) => sb,
            Err(()) => RenderedScoreBoard { ident: String::new(), data: Vec::new() },
        };
        let mut shared: Vec<StateModule> = Vec::new();
        let n = self.states.len();
        let mut i: usize = 0;
        proof {
            assert(self.states@.take(0int) =~= Seq::<StateEntry>::empty());
        }
        while i < n
            invariant
                n == self.states@.len(),
                0 <= i <= n,
                shared@ == shared_modules(self.states@.take(i as int)),
            decreases n - i,
        {
            proof {
                assert(self.states@.take(i + 1int).drop_last() =~= self.states@.take(i as int));
                assert(self.states@.take(i + 1int).last() == self.states@[i as int]);
            }
            match &self.states[i].module {
                StateModule::SharedState { ident, value } => {
                    shared.push(StateModule::SharedState { ident: ident.clone(), value: *value });
                    proof {
                        assert(shared@ =~= shared_modules(self.states@.take(i + 1int)));
                    }
                },
                StateModule::IndividualState { .. } => {
                    proof {
                        assert(shared@ =~= shared_modules(self.states@.take(i + 1int)));
                    }
                },
            }
            i = i + 1;
        }
        proof {
            assert(self.states@.take(n as int) =~= self.states@);
        }
        GameBundle { score_board, current_idx: players.idx, states: shared }
    }
}

/// The card engine proper: the match state plus the one outstanding option
/// batch, replaced wholesale on every draw.
pub struct GameManager {
    pub game_state: GameState,
    pub awaited_states: Vec<CardOption>,
}

/// Uniformly permutes the card list in place.
fn shuffle_cards(v: &mut Vec<Card>)
    ensures
        final(v)@.len() == old(v)@.len(),
        final(v)@.to_multiset() == old(v)@.to_multiset(),
{
    let n = v.len();
    if n == 0 {
        return ;
    }
    let mut i: usize = n - 1;
    while i > 0
        invariant
            n == v@.len(),
            0 <= i < n,
            v@.to_multiset() == old(v)@.to_multiset(),
        decreases i,
    {
        let j = rand_below(i + 1);
        let ghost pre = v@;
        if i != j {
            let mut tmp = Card { segments: Vec::new(), actions: Vec::new() };
            v.set_and_swap(i, &mut tmp);
            v.set_and_swap(j, &mut tmp);
            v.set_and_swap(i, &mut tmp);
            proof {
                broadcast use vstd::seq_lib::group_to_multiset_ensures;
                broadcast use vstd::multiset::group_multiset_axioms;
                broadcast use vstd::multiset::group_multiset_properties;

                let s1 = pre.update(j as int, pre[i as int]);
                let s2 = s1.update(i as int, pre[j as int]);
                assert(v@ =~= s2);
                assert(s1[i as int] == pre[i as int]);
                assert(s2.to_multiset() == s1.to_multiset().insert(pre[j as int]).remove(
                    pre[i as int],
                ));
                assert(s1.to_multiset() == pre.to_multiset().insert(pre[i as int]).remove(
                    pre[j as int],
                ));
                assert(s2.to_multiset() =~= pre.to_multiset());
            }
        }
        i = i - 1;
    }
}

impl GameManager {
    pub fn init(bundle: DeckBundle) -> (r: Self)
        ensures
            r.game_state.tables == bundle.tables,
            r.game_state.states == bundle.states,
            r.game_state.cards == bundle.cards,
            r.game_state.score_state == bundle.score_state,
            r.game_state.card_count == 0,
            r.awaited_states@ == Seq::<CardOption>::empty(),
    {
        GameManager { game_state: GameState::new(bundle), awaited_states: Vec::new() }
    }

    /// Reconciles every individual state against the roster.
    pub fn regen_states(&mut self, players: &Players)
        ensures
            final(self).game_state.states@.len() == old(self).game_state.states@.len(),
            forall|j: int|
                0 <= j < old(self).game_state.states@.len() ==> reconciled_entry(
                    old(self).game_state.states@[j],
                    roster_ids(players.players@),
                    #[trigger] final(self).game_state.states@[j],
                ),
            final(self).game_state.tables == old(self).game_state.tables,
            final(self).game_state.cards == old(self).game_state.cards,
            final(self).game_state.score_state == old(self).game_state.score_state,
            final(self).game_state.card_count == old(self).game_state.card_count,
            final(self).awaited_states == old(self).awaited_states,
    {
        reconcile(&mut self.game_state.states, &players.players);
    }

    /// As `regen_states`; the roster is handed in by the owning session.
    pub fn regen(&mut self, players: &Players)
        ensures
            final(self).game_state.states@.len() == old(self).game_state.states@.len(),
            forall|j: int|
                0 <= j < old(self).game_state.states@.len() ==> reconciled_entry(
                    old(self).game_state.states@[j],
                    roster_ids(players.players@),
                    #[trigger] final(self).game_state.states@[j],
                ),
            final(self).game_state.tables == old(self).game_state.tables,
            final(self).game_state.cards == old(self).game_state.cards,
            final(self).game_state.score_state == old(self).game_state.score_state,
            final(self).game_state.card_count == old(self).game_state.card_count,
            final(self).awaited_states == old(self).awaited_states,
    {
        self.regen_states(players);
    }

    /// Drops the player's entries from every individual state.
    pub fn remove_player(&mut self, id: UserId)
        ensures
            final(self).game_state.states@.len() == old(self).game_state.states@.len(),
            forall|j: int|
                0 <= j < old(self).game_state.states@.len() ==> removed_entry(
                    old(self).game_state.states@[j],
                    id,
                    #[trigger] final(self).game_state.states@[j],
                ),
            final(self).game_state.tables == old(self).game_state.tables,
            final(self).game_state.cards == old(self).game_state.cards,
            final(self).game_state.score_state == old(self).game_state.score_state,
            final(self).game_state.card_count == old(self).game_state.card_count,
            final(self).awaited_states == old(self).awaited_states,
    {
        remove_player_entries(&mut self.game_state.states, id);
    }

    /// Shuffles the card list; player order is untouched.
    pub fn start_game(&mut self)
        ensures
            final(self).game_state.cards@.len() == old(self).game_state.cards@.len(),
            final(self).game_state.cards@.to_multiset() == old(
                self,
            ).game_state.cards@.to_multiset(),
            final(self).game_state.tables == old(self).game_state.tables,
            final(self).game_state.states == old(self).game_state.states,
            final(self).game_state.score_state == old(self).game_state.score_state,
            final(self).game_state.card_count == old(self).game_state.card_count,
            final(self).awaited_states == old(self).awaited_states,
    {
        shuffle_cards(&mut self.game_state.cards);
    }

    /// Swaps in a new deck; draw counter and option batch survive.
    pub fn change_deck(&mut self, bundle: DeckBundle)
        ensures
            final(self).game_state.tables == bundle.tables,
            final(self).game_state.states == bundle.states,
            final(self).game_state.cards == bundle.cards,
            final(self).game_state.score_state == bundle.score_state,
            final(self).game_state.card_count == old(self).game_state.card_count,
            final(self).awaited_states == old(self).awaited_states,
    {
        self.game_state.change_deck(bundle);
    }

    /// Zeroes the draw counter.
    pub fn reset_game_state(&mut self)
        ensures
            final(self).game_state.card_count == 0,
            final(self).game_state.tables == old(self).game_state.tables,
            final(self).game_state.states == old(self).game_state.states,
            final(self).game_state.cards == old(self).game_state.cards,
            final(self).game_state.score_state == old(self).game_state.score_state,
            final(self).awaited_states == old(self).awaited_states,
    {
        self.game_state.reset();
    }

    /// The current snapshot.
    pub fn bundle_state(&self, players: &Players) -> (r: GameBundle)
        requires
            players.players@.len() <= i32::MAX,
        ensures
            bundle_ok(self.game_state, *players, r),
    {
        self.game_state.bundle_state(players)
    }
}

/// Which actions the evaluation pass caches.
pub open spec fn is_get(a: Action) -> bool {
    a is GetFromTable || a is GetFromState
}

/// The cached actions, in declaration order.
pub open spec fn gets(actions: Seq<Action>) -> Seq<Action>
    decreases actions.len(),
{
    if actions.len() == 0 {
        Seq::<Action>::empty()
    } else {
        gets(actions.drop_last()) + if is_get(actions.last()) {
            seq![actions.last()]
        } else {
            Seq::<Action>::empty()
        }
    }
}

/// The index a cache lookup hits: the last entry under the identifier, as a
/// later evaluation overwrites an earlier one, or -1.
pub open spec fn cache_idx(cache: Seq<(String, String)>, ident: Seq<char>) -> int
    decreases cache.len(),
{
    if cache.len() == 0 {
        -1
    } else if cache.last().0@ == ident {
        cache.len() - 1
    } else {
        cache_idx(cache.drop_last(), ident)
    }
}

pub broadcast proof fn cache_idx_ensures(cache: Seq<(String, String)>, ident: Seq<char>)
    ensures
        -1 <= #[trigger] cache_idx(cache, ident) < cache.len(),
        cache_idx(cache, ident) >= 0 ==> cache[cache_idx(cache, ident)].0@ == ident,
    decreases cache.len(),
{
    if cache.len() > 0 && !(cache.last().0@ == ident) {
        cache_idx_ensures(cache.drop_last(), ident);
    }
}

/// Whether one cache entry is a correct evaluation of its action.
pub open spec fn cache_entry_ok(
    a: Action,
    out: Seq<char>,
    tables: Seq<Table>,
    states: Seq<StateEntry>,
    players: Players,
) -> bool {
    match a {
        Action::GetFromTable { ident, table, tags } => table_get_ok(tables, table@, tags@, out),
        Action::GetFromState { ident, state, selector } => state_get_ok(
            states,
            state@,
            selector,
            players,
            out,
        ),
        _ => false,
    }
}

/// Whether a cache is a correct evaluation of a card's lookup actions: one
/// entry per cached action, in order, keyed by the action's own identifier.
pub open spec fn cache_ok(
    cache: Seq<(String, String)>,
    actions: Seq<Action>,
    tables: Seq<Table>,
    states: Seq<StateEntry>,
    players: Players,
) -> bool {
    let g = gets(actions);
    &&& cache.len() == g.len()
    &&& forall|j: int|
        0 <= j < g.len() ==> (#[trigger] cache[j]).0@ == g[j].spec_get_ident()@ && cache_entry_ok(
            g[j],
            cache[j].1@,
            tables,
            states,
            players,
        )
}

/// The text a card's segments assemble to: raw text verbatim, action
/// references replaced by their cached text, unresolved references by
/// nothing at all.
pub open spec fn render(segments: Seq<Segment>, cache: Seq<(String, String)>) -> Seq<char>
    decreases segments.len(),
{
    if segments.len() == 0 {
        Seq::<char>::empty()
    } else {
        render(segments.drop_last(), cache) + (match segments.last() {
            Segment::Raw { string } => string@,
            Segment::Action { ident } => {
                let ci = cache_idx(cache, ident@);
                if ci >= 0 {
                    cache[ci].1@
                } else {
                    Seq::<char>::empty()
                }
            },
        })
    }
}

/// The signed contribution of an update's payload: the integer literal,
/// negated when the update subtracts, clamped into i32; anything but an
/// integer contributes nothing.
pub open spec fn upd_mod(value: Data, add: bool) -> int {
    sat_i32(
        if add {
            value.spec_int_value()
        } else {
            -value.spec_int_value()
        },
    )
}

/// The pending-update records the second pass accumulates, keyed by the
/// update action's own identifier: (key, state identifier, modifier,
/// selector). Actions already consumed by the cache pass are skipped.
pub open spec fn upds(actions: Seq<Action>, cache: Seq<(String, String)>) -> Seq<
    (Seq<char>, Seq<char>, int, Selector),
>
    decreases actions.len(),
{
    if actions.len() == 0 {
        Seq::<(Seq<char>, Seq<char>, int, Selector)>::empty()
    } else {
        let prev = upds(actions.drop_last(), cache);
        match actions.last() {
            Action::UpdateState { ident, state, value, add, selector } => {
                if cache_idx(cache, ident@) >= 0 {
                    prev
                } else {
                    prev + seq![(ident@, state@, upd_mod(value, add), selector)]
                }
            },
            _ => prev,
        }
    }
}

/// The last pending update under a key, or -1.
pub open spec fn upd_idx(u: Seq<(Seq<char>, Seq<char>, int, Selector)>, key: Seq<char>) -> int
    decreases u.len(),
{
    if u.len() == 0 {
        -1
    } else if u.last().0 == key {
        u.len() - 1
    } else {
        upd_idx(u.drop_last(), key)
    }
}

pub broadcast proof fn upd_idx_ensures(
    u: Seq<(Seq<char>, Seq<char>, int, Selector)>,
    key: Seq<char>,
)
    ensures
        -1 <= #[trigger] upd_idx(u, key) < u.len(),
        upd_idx(u, key) >= 0 ==> u[upd_idx(u, key)].0 == key,
    decreases u.len(),
{
    if u.len() > 0 && !(u.last().0 == key) {
        upd_idx_ensures(u.drop_last(), key);
    }
}

/// The updates an option's references resolve to: each known key pulls in
/// its pending update's (state identifier, modifier, selector), unknown
/// keys are skipped.
pub open spec fn resolve_refs(
    refs: Seq<String>,
    u: Seq<(Seq<char>, Seq<char>, int, Selector)>,
) -> Seq<(Seq<char>, int, Selector)>
    decreases refs.len(),
{
    if refs.len() == 0 {
        Seq::<(Seq<char>, int, Selector)>::empty()
    } else {
        resolve_refs(refs.drop_last(), u) + ({
            let k = upd_idx(u, refs.last()@);
            if k >= 0 {
                seq![(u[k].1, u[k].2, u[k].3)]
            } else {
                Seq::<(Seq<char>, int, Selector)>::empty()
            }
        })
    }
}

/// The options a card's second pass builds, in order: for each option
/// action not consumed by the cache pass, its display text and the updates
/// its references resolve to against the pending updates accumulated so far.
pub open spec fn opts(actions: Seq<Action>, cache: Seq<(String, String)>) -> Seq<
    (Seq<char>, Seq<(Seq<char>, int, Selector)>),
>
    decreases actions.len(),
{
    if actions.len() == 0 {
        Seq::<(Seq<char>, Seq<(Seq<char>, int, Selector)>)>::empty()
    } else {
        let prev = opts(actions.drop_last(), cache);
        match actions.last() {
            Action::Option { ident, display, actions: refs } => {
                if cache_idx(cache, ident@) >= 0 {
                    prev
                } else {
                    prev + seq![(display@, resolve_refs(refs@, upds(actions.drop_last(), cache)))]
                }
            },
            _ => prev,
        }
    }
}

/// Whether an executable update record matches a model record.
pub open spec fn update_matches(u: StateUpdate, m: (Seq<char>, int, Selector)) -> bool {
    u.ident@ == m.0 && u.modifier as int == m.1 && u.selector == m.2
}

/// Whether an executable option matches a model option; its id is opaque.
pub open spec fn option_matches(o: CardOption, m: (Seq<char>, Seq<(Seq<char>, int, Selector)>)) -> bool {
    &&& o.display@ == m.0
    &&& o.updates@.len() == m.1.len()
    &&& forall|k: int| 0 <= k < m.1.len() ==> update_matches(#[trigger] o.updates@[k], m.1[k])
}

pub open spec fn options_match(
    os: Seq<CardOption>,
    ms: Seq<(Seq<char>, Seq<(Seq<char>, int, Selector)>)>,
) -> bool {
    os.len() == ms.len() && forall|j: int|
        0 <= j < ms.len() ==> option_matches(#[trigger] os[j], ms[j])
}

/// What drawing one given card may produce: some correct evaluation cache
/// under which the text is the rendered segments and the options are the
/// second pass's builds.
pub open spec fn draw_ok(
    card: Card,
    tables: Seq<Table>,
    states: Seq<StateEntry>,
    players: Players,
    text: Seq<char>,
    options: Seq<CardOption>,
) -> bool {
    exists|cache: Seq<(String, String)>|
        #[trigger] cache_ok(cache, card.actions@, tables, states, players) && text == render(
            card.segments@,
            cache,
        ) && options_match(options, opts(card.actions@, cache))
}

/// Two option batches carrying the same choices (ids included).
pub open spec fn opts_eq(a: Seq<CardOption>, b: Seq<CardOption>) -> bool {
    &&& a.len() == b.len()
    &&& forall|i: int|
        0 <= i < a.len() ==> (#[trigger] a[i]).id == b[i].id && a[i].display == b[i].display
            && a[i].updates@ == b[i].updates@
}

/// Looks an identifier up in the evaluation cache (last match wins).
fn cache_lookup(cache: &Vec<(String, String)>, ident: &String) -> (r: Option<usize>)
    ensures
        r is Some <==> cache_idx(cache@, ident@) >= 0,
        r matches Some(i) ==> i as int == cache_idx(cache@, ident@),
{
    let n = cache.len();
    let mut best: Option<usize> = None;
    let mut k: usize = 0;
    proof {
        assert(cache@.take(0int) =~= Seq::<(String, String)>::empty());
    }
    while k < n
        invariant
            n == cache@.len(),
            0 <= k <= n,
            best is Some <==> cache_idx(cache@.take(k as int), ident@) >= 0,
            best matches Some(i) ==> i as int == cache_idx(cache@.take(k as int), ident@),
        decreases n - k,
    {
        proof {
            assert(cache@.take(k + 1int).drop_last() =~= cache@.take(k as int));
            assert(cache@.take(k + 1int).last() == cache@[k as int]);
        }
        if cache[k].0 == *ident {
            best = Some(k);
        }
        k = k + 1;
    }
    proof {
        assert(cache@.take(n as int) =~= cache@);
    }
    best
}

/// The raw text of a card's segments alone, with nothing for the action
/// references.
pub open spec fn raw_text(segments: Seq<Segment>) -> Seq<char>
    decreases segments.len(),
{
    if segments.len() == 0 {
        Seq::<char>::empty()
    } else {
        raw_text(segments.drop_last()) + (match segments.last() {
            Segment::Raw { string } => string@,
            Segment::Action { .. } => Seq::<char>::empty(),
        })
    }
}

/// A card whose action references are all unresolved renders as its raw
/// text alone: each unresolved reference contributes the empty string.
pub proof fn lemma_unresolved_refs_render_raw(segments: Seq<Segment>, cache: Seq<(String, String)>)
    requires
        forall|i: int|
            0 <= i < segments.len() && (#[trigger] segments[i]) is Action ==> cache_idx(
                cache,
                segments[i]->Action_ident@,
            ) < 0,
    ensures
        render(segments, cache) == raw_text(segments),
    decreases segments.len(),
{
    if segments.len() > 0 {
        assert(forall|i: int|
            0 <= i < segments.drop_last().len() ==> #[trigger] segments.drop_last()[i]
                == segments[i]);
        lemma_unresolved_refs_render_raw(segments.drop_last(), cache);
        assert(segments[segments.len() - 1] == segments.last());
    }
}

/// Swapping the deck and immediately taking a snapshot shows the new
/// shared states, while the turn index and the draw counter survive from
/// before the swap.
pub proof fn lemma_change_deck_then_snapshot(
    pre: GameManager,
    bundle: DeckBundle,
    swapped: GameManager,
    players: Players,
    snap: GameBundle,
)
    requires
        swapped.game_state.states == bundle.states,
        swapped.game_state.card_count == pre.game_state.card_count,
        bundle_ok(swapped.game_state, players, snap),
    ensures
        snap.states@ == shared_modules(bundle.states@),
        snap.current_idx == players.idx,
        swapped.game_state.card_count == pre.game_state.card_count,
{
}

/// Whether the executable pending-update accumulator mirrors the model.
pub open spec fn upds_match(
    acc: Seq<(String, StateUpdate)>,
    m: Seq<(Seq<char>, Seq<char>, int, Selector)>,
) -> bool {
    &&& acc.len() == m.len()
    &&& forall|t: int|
        0 <= t < m.len() ==> ((#[trigger] acc[t]).0@ == m[t].0 && acc[t].1.ident@ == m[t].1
            && acc[t].1.modifier as int == m[t].2 && acc[t].1.selector == m[t].3)
}

/// The last accumulator entry under a key, or -1.
pub open spec fn acc_idx(acc: Seq<(String, StateUpdate)>, key: Seq<char>) -> int
    decreases acc.len(),
{
    if acc.len() == 0 {
        -1
    } else if acc.last().0@ == key {
        acc.len() - 1
    } else {
        acc_idx(acc.drop_last(), key)
    }
}

pub broadcast proof fn acc_idx_ensures(acc: Seq<(String, StateUpdate)>, key: Seq<char>)
    ensures
        -1 <= #[trigger] acc_idx(acc, key) < acc.len(),
        acc_idx(acc, key) >= 0 ==> acc[acc_idx(acc, key)].0@ == key,
    decreases acc.len(),
{
    if acc.len() > 0 && !(acc.last().0@ == key) {
        acc_idx_ensures(acc.drop_last(), key);
    }
}

/// A mirrored accumulator looks its keys up at the same indices as the
/// model.
proof fn acc_idx_eq(
    acc: Seq<(String, StateUpdate)>,
    m: Seq<(Seq<char>, Seq<char>, int, Selector)>,
    key: Seq<char>,
)
    requires
        upds_match(acc, m),
    ensures
        acc_idx(acc, key) == upd_idx(m, key),
    decreases acc.len(),
{
    if acc.len() > 0 {
        assert(acc.last().0@ == m.last().0);
        assert(upds_match(acc.drop_last(), m.drop_last()));
        acc_idx_eq(acc.drop_last(), m.drop_last(), key);
    }
}

/// Looks a key up in the pending-update accumulator (last match wins).
fn upd_lookup(acc: &Vec<(String, StateUpdate)>, key: &String) -> (r: Option<usize>)
    ensures
        r is Some <==> acc_idx(acc@, key@) >= 0,
        r matches Some(i) ==> i as int == acc_idx(acc@, key@),
{
    let n = acc.len();
    let mut best: Option<usize> = None;
    let mut k: usize = 0;
    proof {
        assert(acc@.take(0int) =~= Seq::<(String, StateUpdate)>::empty());
    }
    while k < n
        invariant
            n == acc@.len(),
            0 <= k <= n,
            best is Some <==> acc_idx(acc@.take(k as int), key@) >= 0,
            best matches Some(i) ==> i as int == acc_idx(acc@.take(k as int), key@),
        decreases n - k,
    {
        proof {
            assert(acc@.take(k + 1int).drop_last() =~= acc@.take(k as int));
            assert(acc@.take(k + 1int).last() == acc@[k as int]);
        }
        if acc[k].0 == *key {
            best = Some(k);
        }
        k = k + 1;
    }
    proof {
        assert(acc@.take(n as int) =~= acc@);
    }
    best
}

/// Everything one draw does: the content and store survive untouched, the
/// draw counter bumps (saturating), the turn advances, and the result is a
/// correct evaluation of some card, its options doubling as the new batch.
pub open spec fn draw_rel(
    pre: GameManager,
    players_pre: Players,
    post: GameManager,
    players_post: Players,
    res: CardResult,
) -> bool {
    &&& post.game_state.tables == pre.game_state.tables
    &&& post.game_state.states == pre.game_state.states
    &&& post.game_state.cards == pre.game_state.cards
    &&& post.game_state.score_state == pre.game_state.score_state
    &&& post.game_state.card_count as int == if pre.game_state.card_count == u64::MAX {
        u64::MAX as int
    } else {
        pre.game_state.card_count + 1
    }
    &&& players_post.players == players_pre.players
    &&& players_post.wf()
    &&& players_post.idx == if players_pre.players@.len() == 0 {
        0int
    } else {
        (players_pre.idx + 1) % (players_pre.players@.len() as int)
    }
    &&& opts_eq(post.awaited_states@, res.state_options@)
    &&& if pre.game_state.cards@.len() == 0 {
        res.text@ == Seq::<char>::empty() && res.state_options@.len() == 0
    } else {
        exists|ci: int|
            0 <= ci < pre.game_state.cards@.len() && draw_ok(
                pre.game_state.cards@[ci],
                pre.game_state.tables@,
                pre.game_state.states@,
                players_pre,
                res.text@,
                res.state_options@,
            )
    }
}

impl GameManager {
    /// Draws one card uniformly at random and evaluates it: lookup actions
    /// fill the cache, the segments render against it, and the second pass
    /// builds the fresh option batch, which replaces the outstanding one.
    /// The turn advances and the draw counter is bumped; the store itself is
    /// untouched, as all updates are deferred behind the options.
    pub fn get_next_card(&mut self, players: &mut Players) -> (r: Option<CardResult>)
        requires
            old(players).wf(),
        ensures
            r is Some,
            r matches Some(res) ==> draw_rel(
                *old(self),
                *old(players),
                *final(self),
                *final(players),
                res,
            ),
    {
        let mut text = String::new();
        let mut decisions: Vec<CardOption> = Vec::new();
        if self.game_state.cards.len() > 0 {
            let ci = rand_below(self.game_state.cards.len());
            let card = &self.game_state.cards[ci];
            // First pass: evaluate the lookup actions into the cache.
            let mut cache: Vec<(String, String)> = Vec::new();
            let n = card.actions.len();
            let mut k: usize = 0;
            proof {
                assert(card.actions@.take(0int) =~= Seq::<Action>::empty());
                assert(cache_ok(
                    cache@,
                    card.actions@.take(0int),
                    self.game_state.tables@,
                    self.game_state.states@,
                    *players,
                ));
            }
            while k < n
                invariant
                    old(players).wf(),
                    *players == *old(players),
                    n == card.actions@.len(),
                    0 <= k <= n,
                    cache_ok(
                        cache@,
                        card.actions@.take(k as int),
                        self.game_state.tables@,
                        self.game_state.states@,
                        *players,
                    ),
                decreases n - k,
            {
                let ghost pre_cache = cache@;
                proof {
                    assert(card.actions@.take(k + 1int).drop_last() =~= card.actions@.take(
                        k as int,
                    ));
                    assert(card.actions@.take(k + 1int).last() == card.actions@[k as int]);
                }
                match &card.actions[k] {
                    Action::GetFromTable { ident, table, tags } => {
                        let out = pick_from_table(&self.game_state.tables, table, tags);
                        cache.push((ident.clone(), out));
                    },
                    Action::GetFromState { ident, state, selector } => {
                        let out = read_state_string(
                            &self.game_state.states,
                            state,
                            *selector,
                            players,
                        );
                        cache.push((ident.clone(), out));
                    },
                    _ => {},
                }
                proof {
                    assert(cache_ok(
                        cache@,
                        card.actions@.take(k + 1int),
                        self.game_state.tables@,
                        self.game_state.states@,
                        *players,
                    ));
                }
                k = k + 1;
            }
            proof {
                assert(card.actions@.take(n as int) =~= card.actions@);
            }
            // Assemble the display text against the cache.
            let m = card.segments.len();
            let mut s: usize = 0;
            proof {
                assert(card.segments@.take(0int) =~= Seq::<Segment>::empty());
            }
            while s < m
                invariant
                    m == card.segments@.len(),
                    0 <= s <= m,
                    text@ == render(card.segments@.take(s as int), cache@),
                decreases m - s,
            {
                proof {
                    broadcast use cache_idx_ensures;

                    assert(card.segments@.take(s + 1int).drop_last() =~= card.segments@.take(
                        s as int,
                    ));
                    assert(card.segments@.take(s + 1int).last() == card.segments@[s as int]);
                }
                match &card.segments[s] {
                    Segment::Raw { string } => {
                        text.append(string.as_str());
                    },
                    Segment::Action { ident } => {
                        match cache_lookup(&cache, ident) {
                            Some(ce) => {
                                text.append(cache[ce].1.as_str());
                            },
                            None => {},
                        }
                    },
                }
                proof {
                    assert(text@ =~= render(card.segments@.take(s + 1int), cache@));
                }
                s = s + 1;
            }
            proof {
                assert(card.segments@.take(m as int) =~= card.segments@);
            }
            // Second pass: pending updates, then the options referencing them.
            let mut updates_acc: Vec<(String, StateUpdate)> = Vec::new();
            let mut k: usize = 0;
            proof {
                assert(card.actions@.take(0int) =~= Seq::<Action>::empty());
            }
            while k < n
                invariant
                    n == card.actions@.len(),
                    0 <= k <= n,
                    upds_match(updates_acc@, upds(card.actions@.take(k as int), cache@)),
                    options_match(decisions@, opts(card.actions@.take(k as int), cache@)),
                decreases n - k,
            {
                proof {
                    broadcast use cache_idx_ensures;

                    assert(card.actions@.take(k + 1int).drop_last() =~= card.actions@.take(
                        k as int,
                    ));
                    assert(card.actions@.take(k + 1int).last() == card.actions@[k as int]);
                }
                let ghost gu = upds(card.actions@.take(k as int), cache@);
                match &card.actions[k] {
                    Action::UpdateState { ident, state, value, add, selector } => {
                        match cache_lookup(&cache, ident) {
                            Some(_) => {},
                            None => {
                                let modifier: i32 = match value {
                                    Data::Integer { integer } => {
                                        if *add {
                                            *integer
                                        } else if *integer == i32::MIN {
                                            i32::MAX
                                        } else {
                                            -*integer
                                        }
                                    },
                                    _ => 0,
                                };
                                updates_acc.push(
                                    (
                                        ident.clone(),
                                        StateUpdate {
                                            ident: state.clone(),
                                            modifier,
                                            selector: *selector,
                                        },
                                    ),
                                );
                            },
                        }
                    },
                    Action::Option { ident, display, actions: refs } => {
                        match cache_lookup(&cache, ident) {
                            Some(_) => {},
                            None => {
                                let mut us: Vec<StateUpdate> = Vec::new();
                                let rn = refs.len();
                                let mut t: usize = 0;
                                proof {
                                    assert(refs@.take(0int) =~= Seq::<String>::empty());
                                }
                                while t < rn
                                    invariant
                                        rn == refs@.len(),
                                        0 <= t <= rn,
                                        upds_match(updates_acc@, gu),
                                        us@.len() == resolve_refs(refs@.take(t as int), gu).len(),
                                        forall|x: int|
                                            0 <= x < us@.len() ==> update_matches(
                                                #[trigger] us@[x],
                                                resolve_refs(refs@.take(t as int), gu)[x],
                                            ),
                                    decreases rn - t,
                                {
                                    proof {
                                        broadcast use upd_idx_ensures;
                                        broadcast use acc_idx_ensures;

                                        assert(refs@.take(t + 1int).drop_last() =~= refs@.take(
                                            t as int,
                                        ));
                                        assert(refs@.take(t + 1int).last() == refs@[t as int]);
                                        acc_idx_eq(updates_acc@, gu, refs@[t as int]@);
                                    }
                                    match upd_lookup(&updates_acc, &refs[t]) {
                                        Some(fi) => {
                                            us.push(updates_acc[fi].1.clone());
                                        },
                                        None => {},
                                    }
                                    t = t + 1;
                                }
                                proof {
                                    assert(refs@.take(rn as int) =~= refs@);
                                }
                                decisions.push(
                                    CardOption {
                                        id: fresh_id(),
                                        display: display.clone(),
                                        updates: us,
                                    },
                                );
                            },
                        }
                    },
                    _ => {},
                }
                proof {
                    assert(upds_match(updates_acc@, upds(card.actions@.take(k + 1int), cache@)));
                    assert(options_match(decisions@, opts(card.actions@.take(k + 1int), cache@)));
                }
                k = k + 1;
            }
            proof {
                assert(card.actions@.take(n as int) =~= card.actions@);
                assert(cache_ok(
                    cache@,
                    card.actions@,
                    old(self).game_state.tables@,
                    old(self).game_state.states@,
                    *old(players),
                ));
                assert(draw_ok(
                    old(self).game_state.cards@[ci as int],
                    old(self).game_state.tables@,
                    old(self).game_state.states@,
                    *old(players),
                    text@,
                    decisions@,
                ));
            }
        }
        players.consume();
        if self.game_state.card_count < u64::MAX {
            self.game_state.card_count = self.game_state.card_count + 1;
        }
        let stored = decisions.clone();
        proof {
            assert(opts_eq(stored@, decisions@));
        }
        self.awaited_states = stored;
        Some(CardResult { state_options: decisions, text })
    }
}

/// The first batch position holding the given option id, or -1.
pub open spec fn batch_idx(batch: Seq<CardOption>, id: u128) -> int
    decreases batch.len(),
{
    if batch.len() == 0 {
        -1
    } else if batch[0].id == id {
        0
    } else {
        let rest = batch_idx(batch.drop_first(), id);
        if rest == -1 {
            -1
        } else {
            rest + 1
        }
    }
}

pub broadcast proof fn batch_idx_ensures(batch: Seq<CardOption>, id: u128)
    ensures
        -1 <= #[trigger] batch_idx(batch, id) < batch.len(),
        batch_idx(batch, id) >= 0 ==> batch[batch_idx(batch, id)].id == id,
        batch_idx(batch, id) == -1 ==> forall|k: int|
            0 <= k < batch.len() ==> (#[trigger] batch[k]).id != id,
    decreases batch.len(),
{
    if batch.len() > 0 && batch[0].id != id {
        batch_idx_ensures(batch.drop_first(), id);
        if batch_idx(batch, id) == -1 {
            assert(forall|k: int|
                1 <= k < batch.len() ==> #[trigger] batch[k] == batch.drop_first()[k - 1]);
        }
    }
}

proof fn batch_idx_skip(batch: Seq<CardOption>, id: u128, k: int)
    requires
        0 <= k < batch.len(),
        forall|t: int| 0 <= t < k ==> (#[trigger] batch[t]).id != id,
    ensures
        batch[k].id == id ==> batch_idx(batch, id) == k,
        batch[k].id != id && batch_idx(batch, id) >= 0 ==> batch_idx(batch, id) > k,
    decreases k,
{
    if k > 0 {
        assert(forall|t: int|
            0 <= t < k - 1 ==> (#[trigger] batch.drop_first()[t]).id == batch[t + 1].id);
        batch_idx_skip(batch.drop_first(), id, k - 1);
    }
}

/// An explicit chain of intermediate stores witnessing that the updates
/// were applied in order, each step as `apply_rel` describes.
pub open spec fn chain_ok(
    pre: Seq<StateEntry>,
    updates: Seq<StateUpdate>,
    players: Players,
    post: Seq<StateEntry>,
    chain: Seq<Seq<StateEntry>>,
) -> bool {
    &&& chain.len() == updates.len() + 1
    &&& chain[0] == pre
    &&& chain[chain.len() - 1] == post
    &&& forall|i: int|
        0 <= i < updates.len() ==> apply_rel(
            chain[i],
            updates[i].ident@,
            updates[i].modifier as int,
            updates[i].selector,
            players,
            #[trigger] chain[i + 1],
        )
}

/// A store that results from applying a list of deferred updates in order.
pub open spec fn updates_applied(
    pre: Seq<StateEntry>,
    updates: Seq<StateUpdate>,
    players: Players,
    post: Seq<StateEntry>,
) -> bool {
    exists|chain: Seq<Seq<StateEntry>>| #[trigger] chain_ok(pre, updates, players, post, chain)
}

/// Everything resolving one option id does: a miss is a strict no-op, a hit
/// removes the option from the batch and applies its updates in order.
pub open spec fn resolve_rel(pre: GameManager, id: u128, players: Players, post: GameManager) -> bool {
    if batch_idx(pre.awaited_states@, id) == -1 {
        post == pre
    } else {
        let b = batch_idx(pre.awaited_states@, id);
        &&& post.awaited_states@ == pre.awaited_states@.remove(b)
        &&& updates_applied(
            pre.game_state.states@,
            pre.awaited_states@[b].updates@,
            players,
            post.game_state.states@,
        )
        &&& post.game_state.tables == pre.game_state.tables
        &&& post.game_state.cards == pre.game_state.cards
        &&& post.game_state.score_state == pre.game_state.score_state
        &&& post.game_state.card_count == pre.game_state.card_count
    }
}

impl GameManager {
    /// Resolves a chosen option: the matching option leaves the outstanding
    /// batch and each of its deferred updates is applied to the store in
    /// order. An id that is not in the batch - stale, duplicate, or simply
    /// wrong - changes nothing and raises nothing.
    pub fn resolve_state(&mut self, id: u128, players: &Players)
        requires
            players.wf(),
        ensures
            resolve_rel(*old(self), id, *players, *final(self)),
    {
        proof {
            broadcast use batch_idx_ensures;

        }
        let n = self.awaited_states.len();
        let mut k: usize = 0;
        let mut found: Option<usize> = None;
        while k < n
            invariant
                n == self.awaited_states@.len(),
                0 <= k <= n,
                found is None ==> forall|t: int|
                    0 <= t < k ==> (#[trigger] self.awaited_states@[t]).id != id,
                found matches Some(f) ==> f as int == batch_idx(self.awaited_states@, id),
            decreases n - k,
        {
            proof {
                if found is None {
                    batch_idx_skip(self.awaited_states@, id, k as int);
                }
            }
            if found.is_none() && self.awaited_states[k].id == id {
                found = Some(k);
            }
            k = k + 1;
        }
        let b = match found {
            Some(b) => b,
            None => {
                proof {
                    broadcast use batch_idx_ensures;

                    assert(batch_idx(self.awaited_states@, id) == -1);
                }
                return ;
            },
        };
        proof {
            broadcast use batch_idx_ensures;

        }
        let option = self.awaited_states.remove(b);
        let un = option.updates.len();
        let mut u: usize = 0;
        let ghost pre_states = self.game_state.states@;
        let ghost mut chain: Seq<Seq<StateEntry>> = seq![pre_states];
        while u < un
            invariant
                players.wf(),
                un == option.updates@.len(),
                0 <= u <= un,
                chain_ok(
                    pre_states,
                    option.updates@.take(u as int),
                    *players,
                    self.game_state.states@,
                    chain,
                ),
                self.game_state.tables == old(self).game_state.tables,
                self.game_state.cards == old(self).game_state.cards,
                self.game_state.score_state == old(self).game_state.score_state,
                self.game_state.card_count == old(self).game_state.card_count,
                self.awaited_states@ == old(self).awaited_states@.remove(
                    batch_idx(old(self).awaited_states@, id),
                ),
                batch_idx(old(self).awaited_states@, id) >= 0,
            decreases un - u,
        {
            let upd = &option.updates[u];
            apply_update(&mut self.game_state.states, &upd.ident, upd.modifier, upd.selector, players);
            proof {
                chain = chain.push(self.game_state.states@);
                assert(chain_ok(
                    pre_states,
                    option.updates@.take(u + 1int),
                    *players,
                    self.game_state.states@,
                    chain,
                ));
            }
            u = u + 1;
        }
        proof {
            assert(option.updates@.take(un as int) =~= option.updates@);
            assert(chain_ok(pre_states, option.updates@, *players, self.game_state.states@, chain));
        }
    }
}

} // verus!
