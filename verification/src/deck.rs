//! The authored deck content: tables of tagged flavor text, state
//! declarations, cards, and the scoreboard specification, together with the
//! compilation of a deck document into the runtime bundle the engine consumes.
use vstd::prelude::*;

verus! {

/// A literal or a reference inside an action's payload. Only the integer
/// literal form takes part in state arithmetic.
pub enum Data {
    String { string: String },
    Integer { integer: i32 },
    StateRefrence { ident: String },
    TableRefrence { ident: String },
    ActionRefrence { ident: String },
    Combinator { buff: Vec<Data> },
}

impl Data {
    /// The identifier-like payload of the variant, where it has one.
    pub open spec fn spec_get_ident(self) -> Option<String> {
        match self {
            Data::String { string } => Some(string),
            Data::StateRefrence { ident } => Some(ident),
            Data::TableRefrence { ident } => Some(ident),
            Data::ActionRefrence { ident } => Some(ident),
            _ => None,
        }
    }

    pub fn get_ident(&self) -> (r: Option<String>)
        ensures
            r == self.spec_get_ident(),
    {
        match self {
            Data::String { string } => Some(string.clone()),
            Data::StateRefrence { ident } => Some(ident.clone()),
            Data::TableRefrence { ident } => Some(ident.clone()),
            Data::ActionRefrence { ident } => Some(ident.clone()),
            _ => None,
        }
    }

    /// The integer a `Data` contributes to state arithmetic: its literal
    /// value for the integer form, zero for every other form.
    pub open spec fn spec_int_value(self) -> int {
        match self {
            Data::Integer { integer } => integer as int,
            _ => 0,
        }
    }
}

/// One piece of a card's text: literal text, or the rendered value of the
/// action with the given identifier.
pub enum Segment {
    Raw { string: String },
    Action { ident: String },
}

/// How an action picks the acting player relative to the roster's turn index.
#[derive(Clone, Copy, PartialEq, Eq, Structural, Debug)]
pub enum Selector {
    Current,
    Previous,
    Next,
    Random,
    NoPlayer,
}

/// A named operation a card performs: a state mutation, a player-facing
/// option, or a randomized table or state lookup.
pub enum Action {
    UpdateState { ident: String, state: String, value: Data, add: bool, selector: Selector },
    Option { ident: String, display: String, actions: Vec<String> },
    GetFromTable { ident: String, table: String, tags: Vec<String> },
    GetFromState { ident: String, state: String, selector: Selector },
}

impl Action {
    /// The action's own identifier.
    pub open spec fn spec_get_ident(self) -> String {
        match self {
            Action::UpdateState { ident, .. } => ident,
            Action::Option { ident, .. } => ident,
            Action::GetFromTable { ident, .. } => ident,
            Action::GetFromState { ident, .. } => ident,
        }
    }

    pub fn get_ident(&self) -> (r: String)
        ensures
            r == self.spec_get_ident(),
    {
        match self {
            Action::UpdateState { ident, .. } => ident.clone(),
            Action::Option { ident, .. } => ident.clone(),
            Action::GetFromTable { ident, .. } => ident.clone(),
            Action::GetFromState { ident, .. } => ident.clone(),
        }
    }
}

/// One entry of a random table: display text plus the tags it is filtered by.
pub struct Value {
    pub value: String,
    pub tags: Vec<String>,
}

impl Value {
    /// Whether this value carries the given tag.
    pub open spec fn has_tag(self, tag: Seq<char>) -> bool {
        exists|k: int| 0 <= k < self.tags@.len() && self.tags@[k]@ == tag
    }

    /// Whether this value's tag set is a superset of every required tag.
    pub open spec fn admits(self, required: Seq<String>) -> bool {
        forall|j: int| 0 <= j < required.len() ==> self.has_tag(#[trigger] required[j]@)
    }
}

/// A named, ordered list of values queried by tag-superset match.
pub struct Table {
    pub ident: String,
    pub values: Vec<Value>,
}

/// One unit of play content: text segments plus the actions they draw on.
pub struct Card {
    pub segments: Vec<Segment>,
    pub actions: Vec<Action>,
}

/// A state declaration in the authored deck document.
pub struct State {
    pub ident: String,
    pub value: Data,
    pub individual: bool,
}

/// The ranking rule of a scoreboard. Only `Biggest` and `Lowest` are
/// implemented; the others are reported as a scoreboard error.
#[derive(Clone, Copy, PartialEq, Eq, Structural, Debug)]
pub enum ScoreBoardCondition {
    Biggest,
    Lowest,
    Closest,
    NoCondition,
    FirstToReach,
}

/// One rendered scoreboard row.
pub struct ScoreElement {
    pub username: String,
    pub value: i32,
    pub position: i32,
}

impl PartialEq for ScoreElement {
    /// Rows compare by their value alone, as the ranking only orders values.
    fn eq(&self, other: &Self) -> (r: bool) {
        self.value == other.value
    }
}

impl Eq for ScoreElement {

}

impl vstd::std_specs::cmp::PartialEqSpecImpl for ScoreElement {
    open spec fn obeys_eq_spec() -> bool {
        true
    }

    open spec fn eq_spec(&self, other: &Self) -> bool {
        self.value == other.value
    }
}

/// The scoreboard as pushed to clients.
pub struct RenderedScoreBoard {
    pub ident: String,
    pub data: Vec<ScoreElement>,
}

impl Default for RenderedScoreBoard {
    fn default() -> (r: Self)
        ensures
            r.ident@ == Seq::<char>::empty(),
            r.data@ == Seq::<ScoreElement>::empty(),
    {
        RenderedScoreBoard { ident: String::new(), data: Vec::new() }
    }
}

/// Which state a scoreboard ranks, an optional target value, and the rule.
pub struct ScoreBoard {
    pub state: Data,
    pub value: Data,
    pub cond: ScoreBoardCondition,
}

/// The two state kinds: one scalar for the whole match, or one value per
/// roster member with a default for members not yet seen.
pub enum StateModule {
    SharedState { ident: String, value: i32 },
    IndividualState { constructor_value: i32, map: Vec<(u128, i32)> },
}

/// One named state of the running match.
pub struct StateEntry {
    pub ident: String,
    pub module: StateModule,
}

/// The runtime bundle a deck document compiles to.
pub struct DeckBundle {
    pub score_state: ScoreBoard,
    pub tables: Vec<Table>,
    pub states: Vec<StateEntry>,
    pub cards: Vec<Card>,
}

/// Deck metadata; the scoreboard specification rides along here.
pub struct Meta {
    pub deck_name: String,
    pub id: u128,
    pub scoreboard: ScoreBoard,
    pub max_cards: i32,
    pub max_players: i32,
}

/// An authored deck document, as submitted by a client.
pub struct Deck {
    pub meta: Meta,
    pub tables: Vec<Table>,
    pub states: Vec<State>,
    pub cards: Vec<Card>,
}

/// What one compiled state entry must look like for its declaration.
pub open spec fn compiled_state_ok(decl: State, entry: StateEntry) -> bool {
    entry.ident@ == decl.ident@ && if decl.individual {
        entry.module matches StateModule::IndividualState { constructor_value, map }
            && constructor_value as int == decl.value.spec_int_value()
            && map@ == Seq::<(u128, i32)>::empty()
    } else {
        entry.module matches StateModule::SharedState { ident, value }
            && ident@ == decl.ident@
            && value as int == decl.value.spec_int_value()
    }
}

impl Deck {
    /// Compiles the document into the runtime bundle: tables and cards pass
    /// through, each state declaration becomes a runtime state entry with an
    /// empty per-player map for individual states, and the scoreboard
    /// specification is taken from the metadata verbatim.
    pub fn into_bundle(self) -> (r: DeckBundle)
        ensures
            r.tables == self.tables,
            r.cards == self.cards,
            r.score_state == self.meta.scoreboard,
            r.states@.len() == self.states@.len(),
            forall|i: int|
                0 <= i < self.states@.len() ==> compiled_state_ok(
                    self.states@[i],
                    #[trigger] r.states@[i],
                ),
    {
        let Deck { meta, tables, states, cards } = self;
        let mut compiled: Vec<StateEntry> = Vec::new();
        let ghost decls = states@;
        let mut rest = states;
        while rest.len() > 0
            invariant
                rest@ == decls.skip(compiled@.len() as int),
                compiled@.len() <= decls.len(),
                forall|j: int|
                    0 <= j < compiled@.len() ==> compiled_state_ok(decls[j], #[trigger] compiled@[j]),
            decreases rest@.len(),
        {
            let ghost gi = compiled@.len() as int;
            let decl = rest.remove(0);
            proof {
                assert(decl == decls[gi]);
                assert(rest@ == decls.skip(gi + 1));
            }
            let initial = match &decl.value {
                Data::Integer { integer } => *integer,
                _ => 0,
            };
            let State { ident, value: _, individual } = decl;
            if individual {
                compiled.push(
                    StateEntry {
                        ident,
                        module: StateModule::IndividualState {
                            constructor_value: initial,
                            map: Vec::new(),
                        },
                    },
                );
            } else {
                let shared_ident = ident.clone();
                compiled.push(
                    StateEntry {
                        ident,
                        module: StateModule::SharedState { ident: shared_ident, value: initial },
                    },
                );
            }
            proof {
                assert(compiled_state_ok(decls[gi], compiled@[gi]));
            }
        }
        DeckBundle { score_state: meta.scoreboard, tables, states: compiled, cards }
    }
}

} // verus!
