use arena::protocol::{
    check_handshake, detect_engine_options, is_ready_line, parse_option_line,
    position_fen_command, setoption_command, AnalysisLine, EngineOption, ProtocolError, Score,
};

fn s(x: &str) -> String {
    x.to_string()
}

#[test]
fn bestmove_with_ponder() {
    let parsed = AnalysisLine::new(s("bestmove e2e4 ponder e7e5"));
    match parsed {
        Some(AnalysisLine::Move(m)) => assert_eq!(m, "e2e4"),
        _ => panic!("expected a best-move event"),
    }
}

#[test]
fn bestmove_with_trailing_newline() {
    let parsed = AnalysisLine::new(s("bestmove g1f3\n"));
    match parsed {
        Some(AnalysisLine::Move(m)) => assert_eq!(m, "g1f3"),
        _ => panic!("expected a best-move event"),
    }
}

#[test]
fn bestmove_without_move_token_yields_nothing() {
    assert!(AnalysisLine::new(s("bestmove")).is_none());
}

#[test]
fn info_full_line() {
    let parsed = AnalysisLine::new(s(
        "info depth 12 seldepth 18 score cp 34 nodes 100000 pv e2e4 e7e5 time 200",
    ));
    match parsed {
        Some(AnalysisLine::Depth { depth, selective_depth, score, best_move, nodes, time }) => {
            assert_eq!(depth.as_deref(), Some("12"));
            assert!(selective_depth.is_none());
            assert_eq!(score, Some(Score::Cp(34)));
            assert_eq!(best_move.as_deref(), Some("e2e4"));
            assert_eq!(nodes.as_deref(), Some("100000"));
            assert_eq!(time.as_deref(), Some("200"));
        }
        _ => panic!("expected a search-info event"),
    }
}

#[test]
fn mate_score_distinct_from_centipawns() {
    let parsed = AnalysisLine::new(s("info depth 20 score mate -3"));
    match parsed {
        Some(AnalysisLine::Depth { score, .. }) => {
            assert_eq!(score, Some(Score::Mate(-3)));
            assert_ne!(score, Some(Score::Cp(-3)));
        }
        _ => panic!("expected a search-info event"),
    }
}

#[test]
fn info_with_missing_fields() {
    let parsed = AnalysisLine::new(s("info currmove e2e4 currmovenumber 1"));
    match parsed {
        Some(AnalysisLine::Depth { depth, score, best_move, nodes, time, .. }) => {
            assert!(depth.is_none());
            assert!(score.is_none());
            assert!(best_move.is_none());
            assert!(nodes.is_none());
            assert!(time.is_none());
        }
        _ => panic!("expected a search-info event"),
    }
}

#[test]
fn info_score_without_number_leaves_score_unset() {
    let parsed = AnalysisLine::new(s("info score cp lots depth 3"));
    match parsed {
        Some(AnalysisLine::Depth { score, depth, .. }) => {
            assert!(score.is_none());
            assert_eq!(depth.as_deref(), Some("3"));
        }
        _ => panic!("expected a search-info event"),
    }
}

#[test]
fn unrelated_line_yields_nothing() {
    assert!(AnalysisLine::new(s("id name Stockfish")).is_none());
    assert!(AnalysisLine::new(s("")).is_none());
    assert!(AnalysisLine::new(s("readyok")).is_none());
}

#[test]
fn leading_whitespace_is_ignored() {
    let parsed = AnalysisLine::new(s("   bestmove d2d4"));
    match parsed {
        Some(AnalysisLine::Move(m)) => assert_eq!(m, "d2d4"),
        _ => panic!("expected a best-move event"),
    }
}

#[test]
fn option_check_line() {
    let parsed = parse_option_line("option name Ponder type check default false");
    match parsed {
        Some(EngineOption::CHECK { name, value }) => {
            assert_eq!(name, "Ponder");
            assert!(!value);
        }
        _ => panic!("expected a check option"),
    }
}

#[test]
fn option_spin_line_with_range() {
    let parsed = parse_option_line("option name Hash type spin default 16 min 1 max 33554432");
    match parsed {
        Some(EngineOption::SPIN { name, value, min, max }) => {
            assert_eq!(name, "Hash");
            assert_eq!(value, 16);
            assert_eq!(min, Some(1));
            assert_eq!(max, Some(33554432));
        }
        _ => panic!("expected a spin option"),
    }
}

#[test]
fn option_spin_line_without_range() {
    let parsed = parse_option_line("option name MultiPV type spin default 1");
    match parsed {
        Some(EngineOption::SPIN { min, max, .. }) => {
            assert!(min.is_none());
            assert!(max.is_none());
        }
        _ => panic!("expected a spin option"),
    }
}

#[test]
fn option_line_missing_required_field_is_skipped() {
    assert!(parse_option_line("option name Ponder type check").is_none());
    assert!(parse_option_line("option type check default false").is_none());
    assert!(parse_option_line("option name Ponder default false").is_none());
}

#[test]
fn option_line_of_unknown_type_is_dropped() {
    assert!(parse_option_line("option name Style type combo default Normal").is_none());
    assert!(parse_option_line("option name Clear type button default x").is_none());
}

#[test]
fn option_line_with_malformed_default_is_skipped() {
    assert!(parse_option_line("option name Ponder type check default maybe").is_none());
    assert!(parse_option_line("option name Hash type spin default lots").is_none());
}

#[test]
fn detect_options_stops_at_ready_token() {
    let lines = vec![
        s("id name Example"),
        s("option name Ponder type check default false"),
        s("option name Hash type spin default 16 min 1 max 2048"),
        s("uciok"),
        s("option name Late type check default true"),
    ];
    let options = detect_engine_options(&lines);
    assert_eq!(options.len(), 2);
    match &options[0] {
        EngineOption::CHECK { name, value } => {
            assert_eq!(name, "Ponder");
            assert!(!value);
        }
        _ => panic!("expected a check option first"),
    }
    match &options[1] {
        EngineOption::SPIN { name, value, min, max } => {
            assert_eq!(name, "Hash");
            assert_eq!(*value, 16);
            assert_eq!(*min, Some(1));
            assert_eq!(*max, Some(2048));
        }
        _ => panic!("expected a spin option second"),
    }
}

#[test]
fn option_line_mentioning_ready_token_is_still_an_option() {
    let lines = vec![
        s("option name uciok_guard type check default true"),
        s("uciok"),
    ];
    let options = detect_engine_options(&lines);
    assert_eq!(options.len(), 1);
}

#[test]
fn handshake_requires_ready_token() {
    let good = vec![s("id name Example"), s("uciok"), s("noise")];
    assert!(check_handshake(&good).is_ok());
    let bad = vec![s("id name Example"), s("readyok")];
    assert_eq!(check_handshake(&bad), Err(ProtocolError::ReadyTokenMissing));
    let empty: Vec<String> = Vec::new();
    assert!(check_handshake(&empty).is_err());
}

#[test]
fn ready_line_is_a_prefix_test() {
    assert!(is_ready_line("uciok"));
    assert!(is_ready_line("uciok trailing"));
    assert!(!is_ready_line(" uciok"));
    assert!(!is_ready_line("ucio"));
}

#[test]
fn command_builders_produce_exact_strings() {
    assert_eq!(setoption_command("Ponder", true), "setoption name Ponder value true\n");
    assert_eq!(setoption_command("Ponder", false), "setoption name Ponder value false\n");
    assert_eq!(
        position_fen_command("rnbqkbnr/pppppppp/8/8/8/8/PPPPPPPP/RNBQKBNR w KQkq - 0 1"),
        "position fen rnbqkbnr/pppppppp/8/8/8/8/PPPPPPPP/RNBQKBNR w KQkq - 0 1 0 1\n"
    );
}
