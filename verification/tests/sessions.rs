use card_prompt::deck::{Action, Card, Data, Deck, Meta, ScoreBoard, ScoreBoardCondition, Segment,
    Selector, State, StateModule};
use card_prompt::packet::{Packet, PacketError, PacketResponse};
use card_prompt::player::{Player, Players};
use card_prompt::session::{Session, SessionCode, SessionState};

fn small_deck() -> Deck {
    Deck {
        meta: Meta {
            deck_name: "mini".to_string(),
            id: 2,
            scoreboard: ScoreBoard {
                state: Data::StateRefrence { ident: "score".to_string() },
                value: Data::Integer { integer: 0 },
                cond: ScoreBoardCondition::Biggest,
            },
            max_cards: 10,
            max_players: 4,
        },
        tables: Vec::new(),
        states: vec![State {
            ident: "score".to_string(),
            value: Data::Integer { integer: 1 },
            individual: false,
        }],
        cards: vec![Card {
            segments: vec![Segment::Raw { string: "draw!".to_string() }],
            actions: vec![
                Action::UpdateState {
                    ident: "u".to_string(),
                    state: "score".to_string(),
                    value: Data::Integer { integer: 1 },
                    add: true,
                    selector: Selector::NoPlayer,
                },
                Action::Option {
                    ident: "o".to_string(),
                    display: "bump".to_string(),
                    actions: vec!["u".to_string()],
                },
            ],
        }],
    }
}

fn fresh_session() -> Session {
    Session::init(11, "host".to_string(), SessionCode::from("abc123".to_string()))
}

#[test]
fn session_starts_in_lobby_without_engine() {
    let s = fresh_session();
    assert_eq!(s.host_id, 11);
    assert!(s.game_manager.is_none());
    assert!(matches!(s.session_state, SessionState::Lobby));
    assert!(!s.closed);
    assert!(s.verify_existence(s.get_session_id()));
    assert_eq!(s.get_host_id(), 11);
}

#[test]
fn set_deck_answers_with_snapshot() {
    let mut s = fresh_session();
    s.add_player(11, "host".to_string(), true);
    let (r, fx) = s.handle_packet(Packet::SetDeck { deck: small_deck() });
    match r {
        Ok(PacketResponse::SetDeckOk { bundle }) => {
            let mut found = false;
            for m in &bundle.states {
                if let StateModule::SharedState { ident, value } = m {
                    assert_eq!(ident, "score");
                    assert_eq!(*value, 1);
                    found = true;
                }
            }
            assert!(found);
        }
        other => panic!("unexpected response: {:?}", other.is_ok()),
    }
    assert!(fx.broadcast.is_some());
    assert!(!fx.close_connections && !fx.deregister);
}

#[test]
fn draw_without_deck_is_an_error() {
    let mut s = fresh_session();
    let (r, _fx) = s.handle_packet(Packet::PlayerDone {});
    assert!(matches!(r, Err(PacketError::GameManagerError)));
    let (r2, _fx2) = s.handle_packet(Packet::PlayerDoneChoise { chosen: 5 });
    assert!(matches!(r2, Err(PacketError::GameManagerError)));
}

#[test]
fn player_done_draws_and_broadcasts() {
    let mut s = fresh_session();
    s.add_player(11, "host".to_string(), true);
    s.handle_packet(Packet::SetDeck { deck: small_deck() }).0.unwrap();
    let (r, fx) = s.handle_packet(Packet::PlayerDone {});
    let card = match r {
        Ok(PacketResponse::CardResultOk { card, .. }) => card,
        _ => panic!("expected a card result"),
    };
    assert_eq!(card.text, "draw!");
    assert_eq!(card.state_options.len(), 1);
    match fx.broadcast {
        Some(Packet::CardResult { card: bc, .. }) => {
            assert_eq!(bc.text, "draw!");
            assert_eq!(bc.state_options.len(), 1);
            assert_eq!(bc.state_options[0].id, card.state_options[0].id);
        }
        _ => panic!("expected a card broadcast"),
    }
    // Resolving the broadcast option then drawing shows the bumped state.
    let (r2, _fx2) = s.handle_packet(Packet::PlayerDoneChoise { chosen: card.state_options[0].id });
    match r2 {
        Ok(PacketResponse::CardResultOk { bundle, .. }) => {
            let mut value = None;
            for m in &bundle.states {
                if let StateModule::SharedState { value: v, .. } = m {
                    value = Some(*v);
                }
            }
            assert_eq!(value, Some(2));
        }
        _ => panic!("expected a card result"),
    }
}

#[test]
fn get_players_lists_usernames() {
    let mut s = fresh_session();
    s.add_player(11, "host".to_string(), true);
    s.add_player(12, "guest".to_string(), false);
    let (r, _fx) = s.handle_packet(Packet::GetPlayers {});
    match r {
        Ok(PacketResponse::GetPlayersOk { players, .. }) => {
            let mut names = players;
            names.sort();
            assert_eq!(names, vec!["guest".to_string(), "host".to_string()]);
        }
        _ => panic!("expected a player list"),
    }
}

#[test]
fn player_left_reassigns_host() {
    let mut s = fresh_session();
    s.add_player(11, "host".to_string(), true);
    s.add_player(12, "guest".to_string(), false);
    let (r, fx) = s.handle_packet(Packet::PlayerLeft { id: s.host_id });
    assert!(matches!(r, Ok(PacketResponse::PlayerLeftOk { .. })));
    assert!(!fx.close_connections && !fx.deregister);
    assert_eq!(s.players.players.len(), 1);
    assert_eq!(s.host_id, s.players.players[0].id);
    assert!(!s.closed);
}

// Removing the last player closes the session; afterwards no further
// packet can observe anything but the closure.
#[test]
fn last_player_leaving_closes_session() {
    let mut s = fresh_session();
    s.add_player(11, "host".to_string(), true);
    let (r, fx) = s.handle_packet(Packet::PlayerLeft { id: 11 });
    assert!(matches!(r, Ok(PacketResponse::CloseSessionOk)));
    assert!(fx.close_connections && fx.deregister);
    assert!(s.closed);
    let (r2, fx2) = s.handle_packet(Packet::PlayerLeft { id: 99 });
    assert!(matches!(r2, Err(PacketError::CipaChuj)));
    assert!(fx2.broadcast.is_none() && !fx2.close_connections && !fx2.deregister);
    let (r3, _fx3) = s.handle_packet(Packet::GetPlayers {});
    assert!(matches!(r3, Err(PacketError::CipaChuj)));
}

#[test]
fn finish_game_returns_to_lobby_and_resets_progress() {
    let mut s = fresh_session();
    s.add_player(11, "host".to_string(), true);
    s.add_player(12, "guest".to_string(), false);
    s.handle_packet(Packet::SetDeck { deck: small_deck() }).0.unwrap();
    s.handle_packet(Packet::PlayerDone {}).0.unwrap();
    assert_eq!(s.players.idx, 1);
    let (r, fx) = s.handle_packet(Packet::FinishGame {});
    assert!(matches!(r, Ok(PacketResponse::FinishGameOk)));
    assert!(fx.broadcast.is_none());
    assert!(matches!(s.session_state, SessionState::Lobby));
    assert_eq!(s.players.idx, 0);
    assert_eq!(s.game_manager.as_ref().unwrap().game_state.card_count, 0);
}

#[test]
fn close_session_signals_transport() {
    let mut s = fresh_session();
    let (r, fx) = s.handle_packet(Packet::CloseSession {});
    assert!(matches!(r, Ok(PacketResponse::CloseSessionOk)));
    assert!(fx.close_connections && fx.deregister);
    assert!(s.closed);
}

#[test]
fn test_packets_echo_or_fail() {
    let mut s = fresh_session();
    let (r, _fx) = s.handle_packet(Packet::TestPacketWithString { string: "ping".to_string() });
    match r {
        Ok(PacketResponse::TestPacketWithStringOk { string }) => assert_eq!(string, "ping"),
        _ => panic!("expected the echo"),
    }
    let (r2, _fx2) = s.handle_packet(Packet::TestError {});
    assert!(matches!(r2, Err(PacketError::CipaChuj)));
}

#[test]
fn response_bundles_are_exposed() {
    let mut s = fresh_session();
    s.add_player(11, "host".to_string(), true);
    let (r, _fx) = s.handle_packet(Packet::SetDeck { deck: small_deck() });
    let resp = r.unwrap();
    assert!(resp.get_bundle().is_some());
    assert!(PacketResponse::CloseSessionOk.get_bundle().is_none());
    assert!(PacketResponse::FinishGameOk.get_bundle().is_none());
    assert!(PacketResponse::AdminTokenOk.get_bundle().is_none());
}

#[test]
fn random_selector_reads_some_roster_member() {
    let players = Players {
        players: vec![
            Player::new(1, "ann".to_string(), true),
            Player::new(2, "ben".to_string(), false),
            Player::new(3, "cyd".to_string(), false),
        ],
        idx: 0,
    };
    for _ in 0..20 {
        let p = players.clone_player(Selector::Random).unwrap();
        assert!(["ann", "ben", "cyd"].contains(&p.username.as_str()));
    }
    assert!(Players::new().clone_player(Selector::Random).is_none());
}
