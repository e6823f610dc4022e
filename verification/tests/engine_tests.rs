use arena::engine::{extension_of, validate_engine_path, Engine, SpawnError};
use arena::protocol::{detect_engine_options, AnalysisLine, EngineOption, Score};

fn s(x: &str) -> String {
    x.to_string()
}

/// A session whose option set came through the real discovery parser.
fn engine_with_options() -> Engine {
    let mut engine = Engine::new("engines/example.exe", "Example");
    let transcript = vec![
        s("id name Example"),
        s("option name Ponder type check default false"),
        s("option name Hash type spin default 16 min 1 max 2048"),
        s("uciok"),
    ];
    engine.engine_options = detect_engine_options(&transcript);
    engine
}

#[test]
fn new_session_is_idle() {
    let engine = Engine::new("engines/example.exe", "Example");
    assert_eq!(engine.path, "engines/example.exe");
    assert_eq!(engine.name, "Example");
    assert!(engine.engine_options.is_empty());
    assert!(engine.analysis.is_empty());
    assert!(engine.is_show);
    assert!(!engine.connected);
    assert!(engine.outbox.is_empty());
}

#[test]
fn send_command_queues_and_attaches() {
    let mut engine = Engine::new("engines/example.exe", "Example");
    engine.send_command("isready\n");
    assert!(engine.connected);
    assert_eq!(engine.outbox, vec!["isready\n"]);
    engine.send_command("ucinewgame\n");
    assert_eq!(engine.outbox, vec!["isready\n", "ucinewgame\n"]);
}

#[test]
fn take_outbox_drains_in_order() {
    let mut engine = Engine::new("engines/example.exe", "Example");
    engine.send_command("a\n");
    engine.send_command("b\n");
    let drained = engine.take_outbox();
    assert_eq!(drained, vec!["a\n", "b\n"]);
    assert!(engine.outbox.is_empty());
    assert!(engine.connected);
}

#[test]
fn poll_appends_events_in_arrival_order() {
    let mut engine = Engine::new("engines/example.exe", "Example");
    let lines = vec![
        s("info depth 1 score cp 10 pv e2e4"),
        s("id name noise"),
        s("info depth 2 score mate 4 pv d2d4"),
        s("bestmove d2d4 ponder d7d5"),
    ];
    engine.poll_engine(&lines);
    assert_eq!(engine.analysis.len(), 3);
    match &engine.analysis[0] {
        AnalysisLine::Depth { depth, score, .. } => {
            assert_eq!(depth.as_deref(), Some("1"));
            assert_eq!(*score, Some(Score::Cp(10)));
        }
        _ => panic!("expected a search-info event first"),
    }
    match &engine.analysis[1] {
        AnalysisLine::Depth { score, .. } => assert_eq!(*score, Some(Score::Mate(4))),
        _ => panic!("expected a search-info event second"),
    }
    match &engine.analysis[2] {
        AnalysisLine::Move(m) => assert_eq!(m, "d2d4"),
        _ => panic!("expected the best move last"),
    }
    // A later poll keeps what arrived before.
    engine.poll_engine(&vec![s("bestmove e2e4")]);
    assert_eq!(engine.analysis.len(), 4);
}

#[test]
fn toggling_check_option_issues_one_command_each_way() {
    let mut engine = engine_with_options();
    engine.set_option("Ponder", true);
    assert_eq!(engine.outbox, vec!["setoption name Ponder value true\n"]);
    match &engine.engine_options[0] {
        EngineOption::CHECK { name, value } => {
            assert_eq!(name, "Ponder");
            assert!(*value);
        }
        _ => panic!("expected the check option"),
    }
    engine.set_option("Ponder", false);
    assert_eq!(
        engine.outbox,
        vec![
            "setoption name Ponder value true\n",
            "setoption name Ponder value false\n",
        ]
    );
    match &engine.engine_options[0] {
        EngineOption::CHECK { value, .. } => assert!(!*value),
        _ => panic!("expected the check option"),
    }
}

#[test]
fn set_option_ignores_unknown_names_and_spin_options() {
    let mut engine = engine_with_options();
    engine.set_option("NoSuchOption", true);
    assert!(engine.outbox.is_empty());
    assert!(!engine.connected);
    engine.set_option("Hash", true);
    assert!(engine.outbox.is_empty());
    match &engine.engine_options[1] {
        EngineOption::SPIN { value, .. } => assert_eq!(*value, 16),
        _ => panic!("expected the spin option untouched"),
    }
}

#[test]
fn start_analysis_stops_clears_positions_goes() {
    let mut engine = Engine::new("engines/example.exe", "Example");
    engine.poll_engine(&vec![s("bestmove e2e4")]);
    assert_eq!(engine.analysis.len(), 1);
    engine.start_analysis("8/8/8/8/8/8/8/K6k w - - 0 1");
    assert!(engine.analysis.is_empty());
    assert_eq!(
        engine.outbox,
        vec![
            "stop\n",
            "position fen 8/8/8/8/8/8/8/K6k w - - 0 1 0 1\n",
            "go\n",
        ]
    );
}

#[test]
fn stop_analysis_keeps_the_analysis_sequence() {
    let mut engine = Engine::new("engines/example.exe", "Example");
    engine.poll_engine(&vec![s("info depth 5")]);
    engine.stop_analysis();
    assert_eq!(engine.outbox, vec!["stop\n"]);
    assert_eq!(engine.analysis.len(), 1);
}

#[test]
fn disconnect_twice_cleans_up_once() {
    let mut engine = Engine::new("engines/example.exe", "Example");
    engine.send_command("uci\n");
    engine.disconnect();
    assert!(!engine.connected);
    assert_eq!(engine.outbox, vec!["uci\n", "quit\n"]);
    engine.disconnect();
    assert!(!engine.connected);
    assert_eq!(engine.outbox, vec!["uci\n", "quit\n"]);
}

#[test]
fn disconnect_without_process_does_nothing() {
    let mut engine = Engine::new("engines/example.exe", "Example");
    engine.disconnect();
    assert!(!engine.connected);
    assert!(engine.outbox.is_empty());
}

#[test]
fn duplicate_option_names_keep_arrival_order_and_first_match_wins() {
    let mut engine = Engine::new("engines/example.exe", "Example");
    let transcript = vec![
        s("option name Ponder type check default false"),
        s("option name Ponder type check default true"),
        s("uciok"),
    ];
    engine.engine_options = detect_engine_options(&transcript);
    assert_eq!(engine.engine_options.len(), 2);
    engine.set_option("Ponder", true);
    assert_eq!(engine.outbox.len(), 1);
    match &engine.engine_options[0] {
        EngineOption::CHECK { value, .. } => assert!(*value),
        _ => panic!("expected a check option"),
    }
    match &engine.engine_options[1] {
        EngineOption::CHECK { value, .. } => assert!(*value),
        _ => panic!("expected the second option untouched"),
    }
}

#[test]
fn missing_path_fails_validation() {
    assert_eq!(
        validate_engine_path("engines/none.exe", false, false),
        Err(SpawnError::PathMissing)
    );
}

#[test]
fn non_file_path_fails_validation() {
    assert_eq!(
        validate_engine_path("engines", true, false),
        Err(SpawnError::PathNotFile)
    );
}

#[test]
fn extension_rules() {
    assert_eq!(validate_engine_path("engines/example.exe", true, true), Ok(()));
    assert_eq!(validate_engine_path("engines/example.", true, true), Ok(()));
    assert_eq!(
        validate_engine_path("engines/example.bin", true, true),
        Err(SpawnError::NotExecutable)
    );
    assert_eq!(
        validate_engine_path("engines/example", true, true),
        Err(SpawnError::NoExtension)
    );
    assert_eq!(
        validate_engine_path("engines/.hidden", true, true),
        Err(SpawnError::NoExtension)
    );
    assert_eq!(extension_of("a/b/c.tar.exe"), Some("exe"));
    assert_eq!(extension_of("a.dir/plain"), None);
}
