use card_prompt::deck::{Data, ScoreBoard, ScoreBoardCondition, StateEntry, StateModule};
use card_prompt::player::Player;

fn board(cond: ScoreBoardCondition) -> ScoreBoard {
    ScoreBoard {
        state: Data::StateRefrence { ident: "points".to_string() },
        value: Data::Integer { integer: 0 },
        cond,
    }
}

fn store() -> Vec<StateEntry> {
    vec![StateEntry {
        ident: "points".to_string(),
        module: StateModule::IndividualState {
            constructor_value: 0,
            map: vec![(1, 5), (2, 3), (3, 7)],
        },
    }]
}

fn roster() -> Vec<Player> {
    vec![
        Player::new(1, "ann".to_string(), true),
        Player::new(2, "ben".to_string(), false),
        Player::new(3, "cyd".to_string(), false),
    ]
}

// Biggest walks the ascending order directly: the smallest score sits at
// position zero.
#[test]
fn biggest_walks_ascending_order() {
    let rb = board(ScoreBoardCondition::Biggest)
        .generate_scoreboard(&store(), &roster())
        .unwrap();
    assert_eq!(rb.ident, "points");
    let rows: Vec<(String, i32, i32)> = rb
        .data
        .iter()
        .map(|e| (e.username.clone(), e.value, e.position))
        .collect();
    assert_eq!(
        rows,
        vec![
            ("ben".to_string(), 3, 0),
            ("ann".to_string(), 5, 1),
            ("cyd".to_string(), 7, 2),
        ]
    );
}

#[test]
fn lowest_walks_descending_order() {
    let rb = board(ScoreBoardCondition::Lowest)
        .generate_scoreboard(&store(), &roster())
        .unwrap();
    let rows: Vec<(String, i32, i32)> = rb
        .data
        .iter()
        .map(|e| (e.username.clone(), e.value, e.position))
        .collect();
    assert_eq!(
        rows,
        vec![
            ("cyd".to_string(), 7, 0),
            ("ann".to_string(), 5, 1),
            ("ben".to_string(), 3, 2),
        ]
    );
}

// The two conditions produce exact reverses of each other in player order.
#[test]
fn lowest_reverses_biggest() {
    let big = board(ScoreBoardCondition::Biggest)
        .generate_scoreboard(&store(), &roster())
        .unwrap();
    let low = board(ScoreBoardCondition::Lowest)
        .generate_scoreboard(&store(), &roster())
        .unwrap();
    let n = big.data.len();
    assert_eq!(low.data.len(), n);
    for i in 0..n {
        assert_eq!(low.data[i].username, big.data[n - 1 - i].username);
        assert_eq!(low.data[i].value, big.data[n - 1 - i].value);
        assert_eq!(low.data[i].position, i as i32);
    }
}

// A player missing from the map scores the state's declared default.
#[test]
fn missing_player_scores_default() {
    let states = vec![StateEntry {
        ident: "points".to_string(),
        module: StateModule::IndividualState { constructor_value: 4, map: vec![(1, 9)] },
    }];
    let players = vec![
        Player::new(1, "ann".to_string(), true),
        Player::new(2, "ben".to_string(), false),
    ];
    let rb = board(ScoreBoardCondition::Biggest)
        .generate_scoreboard(&states, &players)
        .unwrap();
    let rows: Vec<(String, i32)> = rb.data.iter().map(|e| (e.username.clone(), e.value)).collect();
    assert_eq!(rows, vec![("ben".to_string(), 4), ("ann".to_string(), 9)]);
}

// A scoreboard naming a shared state, an unknown state, or an unsupported
// condition is an error, not a crash.
#[test]
fn shared_or_unknown_state_is_error() {
    let shared = vec![StateEntry {
        ident: "points".to_string(),
        module: StateModule::SharedState { ident: "points".to_string(), value: 0 },
    }];
    assert!(board(ScoreBoardCondition::Biggest)
        .generate_scoreboard(&shared, &roster())
        .is_err());
    assert!(board(ScoreBoardCondition::Biggest)
        .generate_scoreboard(&Vec::new(), &roster())
        .is_err());
    assert!(board(ScoreBoardCondition::Closest)
        .generate_scoreboard(&store(), &roster())
        .is_err());
    assert!(board(ScoreBoardCondition::FirstToReach)
        .generate_scoreboard(&store(), &roster())
        .is_err());
    assert!(board(ScoreBoardCondition::NoCondition)
        .generate_scoreboard(&store(), &roster())
        .is_err());
}

// Equal scores keep their roster order through the stable sort.
#[test]
fn equal_scores_stay_in_roster_order() {
    let states = vec![StateEntry {
        ident: "points".to_string(),
        module: StateModule::IndividualState {
            constructor_value: 0,
            map: vec![(1, 5), (2, 5), (3, 5)],
        },
    }];
    let rb = board(ScoreBoardCondition::Biggest)
        .generate_scoreboard(&states, &roster())
        .unwrap();
    let names: Vec<String> = rb.data.iter().map(|e| e.username.clone()).collect();
    assert_eq!(
        names,
        vec!["ann".to_string(), "ben".to_string(), "cyd".to_string()]
    );
}
