use nertzpro::app::{App, AppMsg};
use nertzpro::player::Player;
use nertzpro::round::Round;
use nertzpro::saved::{names_given, SavedGame};
use nertzpro::score::Score;
use nertzpro::state::State;

fn cell(val: Option<i8>, is_editing: bool) -> Score {
    Score { val, is_editing }
}

fn two_players() -> Vec<Player> {
    vec![Player { id: 0, name: "Max".to_string() }, Player { id: 1, name: "Bella".to_string() }]
}

fn running() -> SavedGame {
    SavedGame {
        players: two_players(),
        rounds: vec![
            Round { scores: vec![cell(Some(10), false), cell(Some(-5), false)] },
            Round { scores: vec![cell(Some(3), false), cell(None, true)] },
        ],
        started: true,
        target: Some(150),
    }
}

fn assert_fresh(app: &App) {
    assert!(app.state().players().is_empty());
    assert!(app.state().rounds().is_empty());
    assert!(!app.state().is_game_started());
    assert_eq!(app.state().first_to(), 100);
}

#[test]
fn missing_record_gives_a_fresh_state() {
    assert_fresh(&App::create(None));
    let state = State::load(None);
    assert!(state.players().is_empty());
    assert!(!state.is_game_started());
    assert_eq!(state.first_to(), 100);
}

#[test]
fn sound_record_is_taken_up() {
    let app = App::create(Some(running()));
    assert_eq!(app.save(), running());
    assert_eq!(app.state().first_to(), 150);
    assert_eq!(app.get_focused(), (1, 1));
    assert!(running().is_sound());
}

#[test]
fn record_without_target_gets_the_default() {
    let mut record = running();
    record.target = None;
    let app = App::create(Some(record));
    assert_eq!(app.state().first_to(), 100);
    assert_eq!(app.state().players().len(), 2);
    assert_eq!(app.save().target, Some(100));
}

#[test]
fn record_without_cursor_is_sound() {
    let mut record = running();
    record.rounds[1].scores[1].is_editing = false;
    let mut app = App::create(Some(record));
    assert_eq!(app.focused(), None);
    assert_eq!(app.state().rounds().len(), 2);
    assert_eq!(app.update(AppMsg::ScoreEdit(1, 1)), Ok(()));
    assert_eq!(app.save(), running());
}

#[test]
fn record_with_two_cursors_is_malformed() {
    let mut record = running();
    record.rounds[0].scores[0].is_editing = true;
    assert!(!record.is_sound());
    assert_fresh(&App::create(Some(record)));
}

#[test]
fn record_with_a_round_of_wrong_width_is_malformed() {
    let mut record = running();
    record.rounds[0].scores.push(cell(None, false));
    assert!(!record.is_sound());
    assert_fresh(&App::create(Some(record)));

    let mut short = running();
    short.rounds[1].scores.pop();
    assert!(State::restore(short).is_none());
}

#[test]
fn record_with_rounds_before_the_start_is_malformed() {
    let mut record = running();
    record.started = false;
    assert!(!record.is_sound());
    assert_fresh(&App::create(Some(record)));
}

#[test]
fn record_of_a_running_game_needs_players_and_a_round() {
    let mut no_round = running();
    no_round.rounds.clear();
    assert!(!no_round.is_sound());
    assert_fresh(&App::create(Some(no_round)));

    let alone = SavedGame {
        players: vec![Player { id: 0, name: "Max".to_string() }],
        rounds: vec![Round { scores: vec![cell(None, true)] }],
        started: true,
        target: Some(100),
    };
    assert!(!alone.is_sound());
    assert_fresh(&App::create(Some(alone)));
}

#[test]
fn record_of_an_idle_roster_is_sound() {
    let record = SavedGame { players: two_players(), rounds: vec![], started: false, target: None };
    assert!(record.is_sound());
    let state = State::restore(record).unwrap();
    assert_eq!(state.players(), &two_players());
    assert!(!state.is_game_started());
}

#[test]
fn save_then_restore_gives_the_same_state() {
    let mut app = App::create(None);
    let mut seen = vec![app.save()];
    let commands = vec![
        AppMsg::PlayerAdd("Max".to_string()),
        AppMsg::PlayerAdd("Bella".to_string()),
        AppMsg::PlayerAdd("Cleo".to_string()),
        AppMsg::PlayerRemove(1),
        AppMsg::GameStart,
        AppMsg::ScoreEnter(0, 0, 10),
        AppMsg::ScoreEnter(0, 1, -5),
        AppMsg::ScoreEdit(0, 0),
        AppMsg::ScoreEnter(1, 1, 7),
        AppMsg::GameNew,
    ];
    for command in commands {
        app.update(command).unwrap();
        seen.push(app.save());
    }
    for record in seen {
        let copy = SavedGame {
            players: record.players.clone(),
            rounds: record.rounds.clone(),
            started: record.started,
            target: record.target,
        };
        assert!(record.is_sound());
        let restored = State::restore(record).unwrap();
        assert_eq!(restored.save(), copy);
        let reloaded = App::create(Some(restored.save()));
        assert_eq!(reloaded.save(), copy);
    }
}

#[test]
fn save_then_restore_without_flags_loses_only_the_cursor() {
    let state = State::restore(running()).unwrap();
    let mut record = state.save();
    for round in record.rounds.iter_mut() {
        round.set_cursor(None);
    }
    let restored = State::restore(record).unwrap();
    assert_eq!(restored.focused(), None);
    assert_eq!(restored.cell(1, 1), Some(cell(None, false)));
    assert_eq!(restored.cell(0, 1), Some(cell(Some(-5), false)));
    assert_eq!(restored.players(), state.players());
    assert_eq!(restored.first_to(), state.first_to());
    assert_eq!(restored.is_game_started(), state.is_game_started());
}

#[test]
fn record_with_a_nameless_player_is_malformed() {
    let mut record = running();
    record.players[1].name.clear();
    assert!(!record.is_sound());
    assert_fresh(&App::create(Some(record)));

    let idle = SavedGame {
        players: vec![Player { id: 0, name: String::new() }],
        rounds: vec![],
        started: false,
        target: None,
    };
    assert!(State::restore(idle).is_none());
}

#[test]
fn names_are_checked_one_by_one() {
    assert!(names_given(&Vec::new()));
    assert!(names_given(&two_players()));
    let mut roster = two_players();
    roster.push(Player { id: 2, name: String::new() });
    assert!(!names_given(&roster));
}
