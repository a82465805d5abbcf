use nertzpro::app::{App, AppMsg};
use nertzpro::error::{ErrorKind, GameError};
use nertzpro::player::Player;
use nertzpro::state::State;

fn names(state: &State) -> Vec<String> {
    state.players().iter().map(|p| p.name.clone()).collect()
}

#[test]
fn new_state_is_empty() {
    let state = State::new();
    assert!(state.players().is_empty());
    assert!(state.rounds().is_empty());
    assert!(!state.is_game_started());
    assert_eq!(state.first_to(), 100);
    assert_eq!(state.focused(), None);
    assert_eq!(state.get_focused(), (0, 0));
}

#[test]
fn players_are_stamped_with_the_roster_length() {
    let mut state = State::new();
    assert_eq!(state.player_add("Max".to_string()), Ok(()));
    assert_eq!(state.player_add("Bella".to_string()), Ok(()));
    assert_eq!(state.player_add("Max".to_string()), Ok(()));
    assert_eq!(
        state.players(),
        &vec![
            Player { id: 0, name: "Max".to_string() },
            Player { id: 1, name: "Bella".to_string() },
            Player { id: 2, name: "Max".to_string() },
        ]
    );
}

#[test]
fn empty_name_is_refused_and_changes_nothing() {
    let mut state = State::new();
    state.player_add("Max".to_string()).unwrap();
    assert_eq!(state.player_add(String::new()), Err(GameError::EmptyName));
    assert_eq!(names(&state), vec!["Max".to_string()]);
}

#[test]
fn remove_out_of_range_fails_and_keeps_roster() {
    let mut state = State::new();
    state.player_add("Max".to_string()).unwrap();
    state.player_add("Bella".to_string()).unwrap();
    assert_eq!(state.player_remove(5), Err(GameError::IndexOutOfRange));
    assert_eq!(state.player_remove(2), Err(GameError::IndexOutOfRange));
    assert_eq!(
        state.players(),
        &vec![
            Player { id: 0, name: "Max".to_string() },
            Player { id: 1, name: "Bella".to_string() },
        ]
    );
}

#[test]
fn remove_on_empty_roster_fails() {
    let mut state = State::new();
    assert_eq!(state.player_remove(0), Err(GameError::IndexOutOfRange));
    assert!(state.players().is_empty());
}

#[test]
fn remove_keeps_order_and_stamps() {
    let mut state = State::new();
    for name in ["Max", "Bella", "Cleo"] {
        state.player_add(name.to_string()).unwrap();
    }
    assert_eq!(state.player_remove(0), Ok(()));
    assert_eq!(
        state.players(),
        &vec![
            Player { id: 1, name: "Bella".to_string() },
            Player { id: 2, name: "Cleo".to_string() },
        ]
    );
    // The stamp is the roster length at the time of joining, so after a
    // removal it can repeat.
    state.player_add("Dan".to_string()).unwrap();
    assert_eq!(state.players()[2], Player { id: 2, name: "Dan".to_string() });
}

#[test]
fn roster_size_is_additions_minus_removals() {
    let mut app = App::create(None);
    let commands = vec![
        AppMsg::PlayerAdd("a".to_string()),
        AppMsg::PlayerAdd(String::new()),
        AppMsg::PlayerRemove(3),
        AppMsg::PlayerAdd("b".to_string()),
        AppMsg::PlayerAdd("c".to_string()),
        AppMsg::PlayerRemove(1),
        AppMsg::PlayerRemove(1),
        AppMsg::PlayerRemove(1),
        AppMsg::PlayerAdd("d".to_string()),
    ];
    let mut added = 0usize;
    let mut removed = 0usize;
    for command in commands {
        let is_add = matches!(command, AppMsg::PlayerAdd(_));
        if app.update(command).is_ok() {
            if is_add {
                added += 1;
            } else {
                removed += 1;
            }
        }
        assert_eq!(app.state().players().len(), added - removed);
        assert!(app.state().rounds().is_empty());
        assert!(!app.state().is_game_started());
    }
    assert_eq!(added, 4);
    assert_eq!(removed, 2);
    assert_eq!(names(app.state()), vec!["a".to_string(), "d".to_string()]);
}

#[test]
fn roster_is_frozen_while_a_game_runs() {
    let mut state = State::new();
    state.player_add("Max".to_string()).unwrap();
    state.player_add("Bella".to_string()).unwrap();
    state.game_start().unwrap();
    assert_eq!(state.player_add("Cleo".to_string()), Err(GameError::AlreadyStarted));
    assert_eq!(state.player_add(String::new()), Err(GameError::AlreadyStarted));
    assert_eq!(state.player_remove(0), Err(GameError::AlreadyStarted));
    assert_eq!(state.player_remove(9), Err(GameError::AlreadyStarted));
    assert_eq!(names(&state), vec!["Max".to_string(), "Bella".to_string()]);
}

#[test]
fn player_new_and_clone() {
    let player = Player::new(7, "Max".to_string());
    assert_eq!(player, Player { id: 7, name: "Max".to_string() });
    assert_eq!(player.clone(), player);
}

#[test]
fn errors_fall_into_two_families() {
    assert_eq!(GameError::EmptyName.kind(), ErrorKind::Validation);
    assert_eq!(GameError::IndexOutOfRange.kind(), ErrorKind::Validation);
    assert_eq!(GameError::TooFewPlayers.kind(), ErrorKind::Precondition);
    assert_eq!(GameError::NotStarted.kind(), ErrorKind::Precondition);
    assert_eq!(GameError::AlreadyStarted.kind(), ErrorKind::Precondition);
}
