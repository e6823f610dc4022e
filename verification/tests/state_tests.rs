use arena::engine::Engine;
use arena::game::{Game, GameResult, TimeControl};
use arena::state::{EngineOptionsWindow, EnginesServices, SharedState};
use arena::theme::{check_box, square_is_light, CHECK_BOX_BASE, CHECK_BOX_SET};
use arena::tournament::{Tournament, TournamentResult};

fn s(x: &str) -> String {
    x.to_string()
}

fn registry_of_two() -> EnginesServices {
    let mut registry = EnginesServices::new();
    registry.engines.push(Engine::new("engines/a.exe", "A"));
    registry.engines.push(Engine::new("engines/b.exe", "B"));
    registry
}

#[test]
fn new_registry_is_empty_and_idle() {
    let registry = EnginesServices::new();
    assert!(registry.engines.is_empty());
    assert!(!registry.is_analyzing);
}

#[test]
fn toggle_starts_every_engine_on_the_position() {
    let mut registry = registry_of_two();
    registry.toggle_analyze("8/8/8/8/8/8/8/K6k w - - 0 1");
    assert!(registry.is_analyzing);
    for engine in &registry.engines {
        assert_eq!(
            engine.outbox,
            vec![
                "stop\n",
                "position fen 8/8/8/8/8/8/8/K6k w - - 0 1 0 1\n",
                "go\n",
            ]
        );
        assert!(engine.analysis.is_empty());
    }
}

#[test]
fn toggle_twice_returns_flag_to_off_and_stops_every_engine() {
    let mut registry = registry_of_two();
    registry.toggle_analyze("8/8/8/8/8/8/8/K6k w - - 0 1");
    registry.toggle_analyze("8/8/8/8/8/8/8/K6k w - - 0 1");
    assert!(!registry.is_analyzing);
    for engine in &registry.engines {
        assert_eq!(
            engine.outbox,
            vec![
                "stop\n",
                "position fen 8/8/8/8/8/8/8/K6k w - - 0 1 0 1\n",
                "go\n",
                "stop\n",
            ]
        );
        assert!(engine.analysis.is_empty());
    }
}

#[test]
fn poll_all_on_empty_registry_is_a_no_op() {
    let mut registry = EnginesServices::new();
    let batches: Vec<Vec<String>> = Vec::new();
    registry.poll_engines(&batches);
    assert!(registry.engines.is_empty());
    assert!(!registry.is_analyzing);
}

#[test]
fn poll_all_feeds_each_engine_its_own_batch() {
    let mut registry = registry_of_two();
    let batches = vec![
        vec![s("bestmove e2e4")],
        vec![s("info depth 3"), s("bestmove d2d4")],
    ];
    registry.poll_engines(&batches);
    assert_eq!(registry.engines[0].analysis.len(), 1);
    assert_eq!(registry.engines[1].analysis.len(), 2);
}

#[test]
fn shared_state_starts_clean() {
    let state = SharedState::new();
    assert!(state.fen_string.is_none());
    assert!(state.engines.engines.is_empty());
    assert!(!state.engines.is_analyzing);
}

#[test]
fn options_window_addresses_a_session_by_index() {
    let window = EngineOptionsWindow { engine_index: 1 };
    assert_eq!(window.engine_index, 1);
}

#[test]
fn winner_follows_the_result_sign() {
    let base = GameResult {
        white: s("White"),
        black: s("Black"),
        moves_list: vec![s("e2e4"), s("e7e5")],
        result: 1,
    };
    assert_eq!(base.winner(), "White");
    let black_won = GameResult { result: -1, ..base.clone() };
    assert_eq!(black_won.winner(), "Black");
    let draw = GameResult { result: 0, ..base };
    assert_eq!(draw.winner(), "");
}

#[test]
fn new_game_has_no_moves() {
    let game = Game::new(
        Engine::new("engines/a.exe", "A"),
        Engine::new("engines/b.exe", "B"),
        TimeControl::TimePerMove(1000),
    );
    assert!(game.moves_list.is_empty());
    assert_eq!(game.white.name, "A");
    assert_eq!(game.black.name, "B");
    assert_eq!(game.time_control, TimeControl::TimePerMove(1000));
}

#[test]
fn tournament_result_default_is_all_zero() {
    let tally = TournamentResult::default();
    assert_eq!(tally.engine1, "");
    assert_eq!(tally.engine2, "");
    assert!(tally.games_list.is_empty());
    assert_eq!(tally.engine1_won, 0);
    assert_eq!(tally.engine2_won, 0);
    assert_eq!(tally.draws, 0);
    assert_eq!(tally.total_games, 0);
}

#[test]
fn tournament_result_new_keeps_its_parts() {
    let game = GameResult {
        white: s("A"),
        black: s("B"),
        moves_list: Vec::new(),
        result: 0,
    };
    let tally = TournamentResult::new(s("A"), s("B"), vec![game], 2, 1, 1, 4);
    assert_eq!(tally.engine1, "A");
    assert_eq!(tally.engine2, "B");
    assert_eq!(tally.games_list.len(), 1);
    assert_eq!(tally.engine1_won, 2);
    assert_eq!(tally.engine2_won, 1);
    assert_eq!(tally.draws, 1);
    assert_eq!(tally.total_games, 4);
}

#[test]
fn tournament_new_keeps_its_parts() {
    let tournament = Tournament::new(
        6,
        Engine::new("engines/a.exe", "A"),
        Engine::new("engines/b.exe", "B"),
        TimeControl::Infinite,
    );
    assert_eq!(tournament.rounds, 6);
    assert_eq!(tournament.engine1.name, "A");
    assert_eq!(tournament.engine2.name, "B");
    assert_eq!(tournament.time_control, TimeControl::Infinite);
}

#[test]
fn theme_decisions() {
    assert_eq!(check_box(true), CHECK_BOX_SET);
    assert_eq!(check_box(false), CHECK_BOX_BASE);
    assert!(square_is_light(0));
    assert!(!square_is_light(1));
    assert!(!square_is_light(8));
    assert!(square_is_light(9));
    assert!(square_is_light(63));
}
