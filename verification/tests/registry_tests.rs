use card_prompt::registry::{SessionManager, SessionManagerError};
use card_prompt::session::SessionCode;

#[test]
fn duplicate_host_is_rejected() {
    let mut reg = SessionManager::new();
    let (sid, _code) = reg.init_session(1).unwrap();
    let second = reg.init_session(1);
    assert!(matches!(
        second,
        Err(SessionManagerError::UserSessionInstanceAlreadyExists)
    ));
    // A different host is fine.
    let (sid2, _code2) = reg.init_session(2).unwrap();
    assert!(reg.has_session(sid));
    assert!(reg.has_session(sid2));
}

#[test]
fn join_codes_resolve_to_their_session() {
    let mut reg = SessionManager::new();
    let (sid, code) = reg.init_session(1).unwrap();
    assert_eq!(code.code.len(), 6);
    assert_eq!(reg.unwrap_code(&code), Some(sid));
    assert_eq!(
        reg.unwrap_code(&SessionCode::from("zzzzzz".to_string())),
        None
    );
}

#[test]
fn minted_codes_are_distinct() {
    let mut reg = SessionManager::new();
    let (_s1, c1) = reg.init_session(1).unwrap();
    let (_s2, c2) = reg.init_session(2).unwrap();
    let (_s3, c3) = reg.init_session(3).unwrap();
    assert_ne!(c1.code, c2.code);
    assert_ne!(c1.code, c3.code);
    assert_ne!(c2.code, c3.code);
}

#[test]
fn closing_deregisters_session_and_codes() {
    let mut reg = SessionManager::new();
    let (sid, code) = reg.init_session(1).unwrap();
    let (sid2, code2) = reg.init_session(2).unwrap();
    reg.close_session(sid);
    assert!(!reg.has_session(sid));
    assert_eq!(reg.unwrap_code(&code), None);
    assert!(reg.has_session(sid2));
    assert_eq!(reg.unwrap_code(&code2), Some(sid2));
    // The freed host may open a new session.
    assert!(reg.init_session(1).is_ok());
}

#[test]
fn get_games_lists_all_sessions() {
    let mut reg = SessionManager::new();
    assert!(reg.get_games().is_empty());
    let (s1, _) = reg.init_session(1).unwrap();
    let (s2, _) = reg.init_session(2).unwrap();
    let mut games = reg.get_games();
    games.sort();
    let mut expected = vec![s1, s2];
    expected.sort();
    assert_eq!(games, expected);
}
