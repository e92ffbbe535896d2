use card_prompt::deck::{
    Action, Card, Data, Deck, Meta, ScoreBoard, ScoreBoardCondition, Segment, Selector, State,
    StateEntry, StateModule, Table, Value,
};
use card_prompt::game::{GameBundle, GameManager};
use card_prompt::player::{Player, Players};

fn plain_scoreboard(state_ident: &str, cond: ScoreBoardCondition) -> ScoreBoard {
    ScoreBoard {
        state: Data::StateRefrence { ident: state_ident.to_string() },
        value: Data::Integer { integer: 0 },
        cond,
    }
}

fn deck_of(tables: Vec<Table>, states: Vec<State>, cards: Vec<Card>, sb: ScoreBoard) -> Deck {
    Deck {
        meta: Meta {
            deck_name: "test deck".to_string(),
            id: 1,
            scoreboard: sb,
            max_cards: 100,
            max_players: 8,
        },
        tables,
        states,
        cards,
    }
}

fn shared_value(bundle: &GameBundle, ident: &str) -> Option<i32> {
    for m in &bundle.states {
        if let StateModule::SharedState { ident: i, value } = m {
            if i == ident {
                return Some(*value);
            }
        }
    }
    None
}

#[test]
fn compile_builds_shared_and_individual_states() {
    let deck = deck_of(
        vec![Table {
            ident: "colors".to_string(),
            values: vec![Value { value: "red".to_string(), tags: Vec::new() }],
        }],
        vec![
            State {
                ident: "score".to_string(),
                value: Data::Integer { integer: 4 },
                individual: false,
            },
            State {
                ident: "points".to_string(),
                value: Data::Integer { integer: 2 },
                individual: true,
            },
            State {
                ident: "weird".to_string(),
                value: Data::String { string: "nope".to_string() },
                individual: false,
            },
        ],
        Vec::new(),
        plain_scoreboard("points", ScoreBoardCondition::Biggest),
    );
    let bundle = deck.into_bundle();
    assert_eq!(bundle.tables.len(), 1);
    assert_eq!(bundle.states.len(), 3);
    match &bundle.states[0].module {
        StateModule::SharedState { ident, value } => {
            assert_eq!(ident, "score");
            assert_eq!(*value, 4);
        }
        _ => panic!("expected a shared state"),
    }
    match &bundle.states[1].module {
        StateModule::IndividualState { constructor_value, map } => {
            assert_eq!(*constructor_value, 2);
            assert!(map.is_empty());
        }
        _ => panic!("expected an individual state"),
    }
    // A non-integer initial value compiles to zero.
    match &bundle.states[2].module {
        StateModule::SharedState { value, .. } => assert_eq!(*value, 0),
        _ => panic!("expected a shared state"),
    }
}

// An option's deferred update lands on the shared state once the option is
// resolved, and the snapshot shows it.
#[test]
fn option_choice_updates_shared_state() {
    let card = Card {
        segments: vec![Segment::Raw { string: "Pick one".to_string() }],
        actions: vec![
            Action::UpdateState {
                ident: "upd1".to_string(),
                state: "score".to_string(),
                value: Data::Integer { integer: 5 },
                add: true,
                selector: Selector::NoPlayer,
            },
            Action::Option {
                ident: "opt1".to_string(),
                display: "Add 5".to_string(),
                actions: vec!["upd1".to_string()],
            },
        ],
    };
    let deck = deck_of(
        Vec::new(),
        vec![State {
            ident: "score".to_string(),
            value: Data::Integer { integer: 0 },
            individual: false,
        }],
        vec![card],
        plain_scoreboard("score", ScoreBoardCondition::Biggest),
    );
    let mut players = Players::new();
    let mut gm = GameManager::init(deck.into_bundle());
    let result = gm.get_next_card(&mut players).unwrap();
    assert_eq!(result.state_options.len(), 1);
    assert_eq!(result.state_options[0].display, "Add 5");
    assert_eq!(result.text, "Pick one");
    let chosen = result.state_options[0].id;
    gm.resolve_state(chosen, &players);
    let bundle = gm.bundle_state(&players);
    assert_eq!(shared_value(&bundle, "score"), Some(5));
}

// Resolving an id that is not in the batch is a strict no-op, and the real
// option can still be resolved afterwards.
#[test]
fn stale_choice_is_a_noop() {
    let card = Card {
        segments: Vec::new(),
        actions: vec![
            Action::UpdateState {
                ident: "upd1".to_string(),
                state: "score".to_string(),
                value: Data::Integer { integer: 3 },
                add: false,
                selector: Selector::NoPlayer,
            },
            Action::Option {
                ident: "opt1".to_string(),
                display: "Sub 3".to_string(),
                actions: vec!["upd1".to_string()],
            },
        ],
    };
    let deck = deck_of(
        Vec::new(),
        vec![State {
            ident: "score".to_string(),
            value: Data::Integer { integer: 10 },
            individual: false,
        }],
        vec![card],
        plain_scoreboard("score", ScoreBoardCondition::Biggest),
    );
    let mut players = Players::new();
    let mut gm = GameManager::init(deck.into_bundle());
    let result = gm.get_next_card(&mut players).unwrap();
    let real = result.state_options[0].id;
    let bogus = real.wrapping_add(1);
    gm.resolve_state(bogus, &players);
    assert_eq!(shared_value(&gm.bundle_state(&players), "score"), Some(10));
    gm.resolve_state(real, &players);
    assert_eq!(shared_value(&gm.bundle_state(&players), "score"), Some(7));
}

// A lookup whose filter matches nothing renders the sentinel text, never a
// crash (the table exists but holds no "rare" value).
#[test]
fn empty_filtered_table_renders_sentinel() {
    let card = Card {
        segments: vec![Segment::Action { ident: "x".to_string() }],
        actions: vec![Action::GetFromTable {
            ident: "x".to_string(),
            table: "colors".to_string(),
            tags: vec!["rare".to_string()],
        }],
    };
    let deck = deck_of(
        vec![Table {
            ident: "colors".to_string(),
            values: vec![
                Value { value: "red".to_string(), tags: vec!["warm".to_string()] },
                Value { value: "blue".to_string(), tags: Vec::new() },
            ],
        }],
        Vec::new(),
        vec![card],
        plain_scoreboard("none", ScoreBoardCondition::Biggest),
    );
    let mut players = Players::new();
    let mut gm = GameManager::init(deck.into_bundle());
    let result = gm.get_next_card(&mut players).unwrap();
    assert_eq!(result.text, "Error");
}

// A tag-filtered lookup picks only among the matching values.
#[test]
fn tag_filter_picks_matching_value() {
    let card = Card {
        segments: vec![Segment::Action { ident: "x".to_string() }],
        actions: vec![Action::GetFromTable {
            ident: "x".to_string(),
            table: "colors".to_string(),
            tags: vec!["warm".to_string()],
        }],
    };
    let deck = deck_of(
        vec![Table {
            ident: "colors".to_string(),
            values: vec![
                Value { value: "red".to_string(), tags: vec!["warm".to_string()] },
                Value { value: "blue".to_string(), tags: vec!["cold".to_string()] },
                Value {
                    value: "orange".to_string(),
                    tags: vec!["warm".to_string(), "bright".to_string()],
                },
            ],
        }],
        Vec::new(),
        vec![card],
        plain_scoreboard("none", ScoreBoardCondition::Biggest),
    );
    let mut players = Players::new();
    let mut gm = GameManager::init(deck.into_bundle());
    for _ in 0..20 {
        let result = gm.get_next_card(&mut players).unwrap();
        assert!(result.text == "red" || result.text == "orange");
    }
}

// Segments that reference unresolved identifiers render as nothing at all;
// raw text still comes through.
#[test]
fn unresolved_references_render_empty() {
    let card = Card {
        segments: vec![
            Segment::Raw { string: "Hello ".to_string() },
            Segment::Action { ident: "ghost".to_string() },
            Segment::Raw { string: "world".to_string() },
        ],
        actions: Vec::new(),
    };
    let deck = deck_of(
        Vec::new(),
        Vec::new(),
        vec![card],
        plain_scoreboard("none", ScoreBoardCondition::Biggest),
    );
    let mut players = Players::new();
    let mut gm = GameManager::init(deck.into_bundle());
    let result = gm.get_next_card(&mut players).unwrap();
    assert_eq!(result.text, "Hello world");
    assert!(result.state_options.is_empty());
}

// A state lookup interpolates the shared scalar into the card text.
#[test]
fn state_lookup_renders_decimal_value() {
    let card = Card {
        segments: vec![
            Segment::Raw { string: "score: ".to_string() },
            Segment::Action { ident: "s".to_string() },
        ],
        actions: vec![Action::GetFromState {
            ident: "s".to_string(),
            state: "score".to_string(),
            selector: Selector::NoPlayer,
        }],
    };
    let deck = deck_of(
        Vec::new(),
        vec![State {
            ident: "score".to_string(),
            value: Data::Integer { integer: -42 },
            individual: false,
        }],
        vec![card],
        plain_scoreboard("score", ScoreBoardCondition::Biggest),
    );
    let mut players = Players::new();
    let mut gm = GameManager::init(deck.into_bundle());
    let result = gm.get_next_card(&mut players).unwrap();
    assert_eq!(result.text, "score: -42");
}

// An individual lookup through the Current selector renders that player's
// own value; a player without an entry renders the sentinel.
#[test]
fn individual_lookup_reads_current_player() {
    let card = Card {
        segments: vec![Segment::Action { ident: "s".to_string() }],
        actions: vec![Action::GetFromState {
            ident: "s".to_string(),
            state: "points".to_string(),
            selector: Selector::Current,
        }],
    };
    let deck = deck_of(
        Vec::new(),
        vec![State {
            ident: "points".to_string(),
            value: Data::Integer { integer: 0 },
            individual: true,
        }],
        vec![card],
        plain_scoreboard("points", ScoreBoardCondition::Biggest),
    );
    let mut players = Players {
        players: vec![Player::new(5, "solo".to_string(), true)],
        idx: 0,
    };
    let mut gm = GameManager::init(deck.into_bundle());
    // Before reconciliation the player has no entry: sentinel text.
    let unresolved = gm.get_next_card(&mut players).unwrap();
    assert_eq!(unresolved.text, "Error");
    // After reconciliation the default value renders.
    gm.regen_states(&players);
    let resolved = gm.get_next_card(&mut players).unwrap();
    assert_eq!(resolved.text, "0");
}

// Swapping the deck keeps the turn index while the snapshot shows the new
// shared states.
#[test]
fn change_deck_preserves_turn_index() {
    let first = deck_of(
        Vec::new(),
        vec![State {
            ident: "old_state".to_string(),
            value: Data::Integer { integer: 1 },
            individual: false,
        }],
        vec![Card { segments: Vec::new(), actions: Vec::new() }],
        plain_scoreboard("old_state", ScoreBoardCondition::Biggest),
    );
    let mut players = Players::new();
    players.add_player(Player::new(1, "ann".to_string(), true));
    players.add_player(Player::new(2, "ben".to_string(), false));
    let mut gm = GameManager::init(first.into_bundle());
    gm.get_next_card(&mut players).unwrap();
    let idx_before = gm.bundle_state(&players).current_idx;
    assert_eq!(idx_before, 1);
    let second = deck_of(
        Vec::new(),
        vec![State {
            ident: "fresh".to_string(),
            value: Data::Integer { integer: 9 },
            individual: false,
        }],
        Vec::new(),
        plain_scoreboard("fresh", ScoreBoardCondition::Biggest),
    );
    gm.change_deck(second.into_bundle());
    let bundle = gm.bundle_state(&players);
    assert_eq!(bundle.current_idx, idx_before);
    assert_eq!(shared_value(&bundle, "fresh"), Some(9));
    assert_eq!(shared_value(&bundle, "old_state"), None);
}

// Reconciliation makes every individual state's key set exactly the roster.
#[test]
fn reconcile_matches_roster_ids() {
    let mut gm = GameManager::init(card_prompt::deck::DeckBundle {
        score_state: plain_scoreboard("points", ScoreBoardCondition::Biggest),
        tables: Vec::new(),
        states: vec![StateEntry {
            ident: "points".to_string(),
            module: StateModule::IndividualState {
                constructor_value: 6,
                map: vec![(99, 4), (1, 8)],
            },
        }],
        cards: Vec::new(),
    });
    let players = Players {
        players: vec![
            Player::new(1, "ann".to_string(), true),
            Player::new(2, "ben".to_string(), false),
        ],
        idx: 0,
    };
    gm.regen_states(&players);
    match &gm.game_state.states[0].module {
        StateModule::IndividualState { map, .. } => {
            let mut ids: Vec<u128> = map.iter().map(|e| e.0).collect();
            ids.sort();
            assert_eq!(ids, vec![1, 2]);
            // The surviving entry keeps its value, the new one takes the default.
            for (id, v) in map {
                if *id == 1 {
                    assert_eq!(*v, 8);
                } else {
                    assert_eq!(*v, 6);
                }
            }
        }
        _ => panic!("expected an individual state"),
    }
}

// An individual update through the Current selector lands on the player at
// the turn index.
#[test]
fn individual_update_hits_current_player() {
    let card = Card {
        segments: Vec::new(),
        actions: vec![
            Action::UpdateState {
                ident: "u".to_string(),
                state: "points".to_string(),
                value: Data::Integer { integer: 2 },
                add: true,
                selector: Selector::Current,
            },
            Action::Option {
                ident: "o".to_string(),
                display: "go".to_string(),
                actions: vec!["u".to_string()],
            },
        ],
    };
    let deck = deck_of(
        Vec::new(),
        vec![State {
            ident: "points".to_string(),
            value: Data::Integer { integer: 0 },
            individual: true,
        }],
        vec![card],
        plain_scoreboard("points", ScoreBoardCondition::Biggest),
    );
    let mut players = Players {
        players: vec![Player::new(7, "solo".to_string(), true)],
        idx: 0,
    };
    let mut gm = GameManager::init(deck.into_bundle());
    gm.regen_states(&players);
    let result = gm.get_next_card(&mut players).unwrap();
    gm.resolve_state(result.state_options[0].id, &players);
    match &gm.game_state.states[0].module {
        StateModule::IndividualState { map, .. } => {
            assert_eq!(map.len(), 1);
            assert_eq!(map[0], (7, 2));
        }
        _ => panic!("expected an individual state"),
    }
}

// Subtracting the most negative literal saturates instead of crashing.
#[test]
fn subtracting_min_saturates() {
    let card = Card {
        segments: Vec::new(),
        actions: vec![
            Action::UpdateState {
                ident: "u".to_string(),
                state: "score".to_string(),
                value: Data::Integer { integer: i32::MIN },
                add: false,
                selector: Selector::NoPlayer,
            },
            Action::Option {
                ident: "o".to_string(),
                display: "max out".to_string(),
                actions: vec!["u".to_string()],
            },
        ],
    };
    let deck = deck_of(
        Vec::new(),
        vec![State {
            ident: "score".to_string(),
            value: Data::Integer { integer: 5 },
            individual: false,
        }],
        vec![card],
        plain_scoreboard("score", ScoreBoardCondition::Biggest),
    );
    let mut players = Players::new();
    let mut gm = GameManager::init(deck.into_bundle());
    let result = gm.get_next_card(&mut players).unwrap();
    gm.resolve_state(result.state_options[0].id, &players);
    assert_eq!(
        shared_value(&gm.bundle_state(&players), "score"),
        Some(i32::MAX)
    );
}

// Drawing from an empty deck yields empty text and no options.
#[test]
fn empty_deck_draw_is_empty() {
    let deck = deck_of(
        Vec::new(),
        Vec::new(),
        Vec::new(),
        plain_scoreboard("none", ScoreBoardCondition::Biggest),
    );
    let mut players = Players::new();
    let mut gm = GameManager::init(deck.into_bundle());
    let result = gm.get_next_card(&mut players).unwrap();
    assert_eq!(result.text, "");
    assert!(result.state_options.is_empty());
}

// Each draw replaces the outstanding batch: an id from an older batch no
// longer resolves.
#[test]
fn new_draw_invalidates_old_batch() {
    let card = Card {
        segments: Vec::new(),
        actions: vec![
            Action::UpdateState {
                ident: "u".to_string(),
                state: "score".to_string(),
                value: Data::Integer { integer: 1 },
                add: true,
                selector: Selector::NoPlayer,
            },
            Action::Option {
                ident: "o".to_string(),
                display: "bump".to_string(),
                actions: vec!["u".to_string()],
            },
        ],
    };
    let deck = deck_of(
        Vec::new(),
        vec![State {
            ident: "score".to_string(),
            value: Data::Integer { integer: 0 },
            individual: false,
        }],
        vec![card],
        plain_scoreboard("score", ScoreBoardCondition::Biggest),
    );
    let mut players = Players::new();
    let mut gm = GameManager::init(deck.into_bundle());
    let first = gm.get_next_card(&mut players).unwrap();
    let old_id = first.state_options[0].id;
    gm.get_next_card(&mut players).unwrap();
    gm.resolve_state(old_id, &players);
    assert_eq!(shared_value(&gm.bundle_state(&players), "score"), Some(0));
}

// Shuffling keeps the same cards; random selection still draws each.
#[test]
fn start_game_keeps_cards() {
    let cards: Vec<Card> = (0..5)
        .map(|i| Card {
            segments: vec![Segment::Raw { string: format!("card{}", i) }],
            actions: Vec::new(),
        })
        .collect();
    let deck = deck_of(
        Vec::new(),
        Vec::new(),
        cards,
        plain_scoreboard("none", ScoreBoardCondition::Biggest),
    );
    let mut players = Players::new();
    let mut gm = GameManager::init(deck.into_bundle());
    gm.start_game();
    assert_eq!(gm.game_state.cards.len(), 5);
    for _ in 0..10 {
        let result = gm.get_next_card(&mut players).unwrap();
        assert!(result.text.starts_with("card"));
    }
}
