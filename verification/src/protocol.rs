//! The protocol translator: turns raw engine output lines into typed
//! analysis events and discovered options, and builds the outgoing
//! command strings.
//!
//! Parsing is best effort, as the wire protocol demands: a line that fits
//! no known shape produces no event, and a malformed field is dropped
//! rather than failing the stream.

use vstd::prelude::*;

use crate::text::{
    contains_seq, spec_parse_bool, spec_parse_i32, spec_tokens, spec_trim_start, starts_with,
    str_contains, str_eq, str_starts_with, parse_bool, parse_i32, tokenize, trim_start,
};

verus! {

/// An engine's evaluation of a position, as the protocol tags it: either
/// centipawns or moves-to-mate. The two kinds must stay distinct; the sign
/// of a mate distance means something else than the sign of a centipawn
/// value.
#[derive(Clone, Copy, Debug, PartialEq, Eq, Structural)]
pub enum Score {
    Cp(i32),
    Mate(i32),
}

impl DeepView for Score {
    type V = Score;

    open spec fn deep_view(&self) -> Score {
        *self
    }
}

/// The mathematical shape of one analysis event.
pub enum SpecAnalysisLine {
    Move(Seq<char>),
    Depth {
        depth: Option<Seq<char>>,
        selective_depth: Option<Seq<char>>,
        score: Option<Score>,
        best_move: Option<Seq<char>>,
        nodes: Option<Seq<char>>,
        time: Option<Seq<char>>,
    },
}

/// One parsed unit of engine search output: a terminal best move, or an
/// incremental search-progress record whose fields are each optional.
#[derive(Clone, Debug)]
pub enum AnalysisLine {
    Move(String),
    Depth {
        depth: Option<String>,
        selective_depth: Option<String>,
        score: Option<Score>,
        best_move: Option<String>,
        nodes: Option<String>,
        time: Option<String>,
    },
}

impl DeepView for AnalysisLine {
    type V = SpecAnalysisLine;

    open spec fn deep_view(&self) -> SpecAnalysisLine {
        match self {
            AnalysisLine::Move(m) => SpecAnalysisLine::Move(m@),
            AnalysisLine::Depth { depth, selective_depth, score, best_move, nodes, time } => {
                SpecAnalysisLine::Depth {
                    depth: depth.deep_view(),
                    selective_depth: selective_depth.deep_view(),
                    score: score.deep_view(),
                    best_move: best_move.deep_view(),
                    nodes: nodes.deep_view(),
                    time: time.deep_view(),
                }
            },
        }
    }
}

/// The first index at or after `i` whose token equals `key`.
pub open spec fn spec_find_from(toks: Seq<Seq<char>>, key: Seq<char>, i: nat) -> Option<nat>
    decreases toks.len() - i,
{
    if i >= toks.len() {
        None
    } else if toks[i as int] == key {
        Some(i)
    } else {
        spec_find_from(toks, key, (i + 1) as nat)
    }
}

/// The token following the first occurrence of `key`, if both exist.
pub open spec fn spec_value_after(toks: Seq<Seq<char>>, key: Seq<char>) -> Option<Seq<char>> {
    match spec_find_from(toks, key, 0) {
        Some(i) => {
            if i + 1 < toks.len() {
                Some(toks[i as int + 1])
            } else {
                None
            }
        },
        None => None,
    }
}

/// The first index at or after `i` whose token is a score tag.
pub open spec fn spec_find_score_key(toks: Seq<Seq<char>>, i: nat) -> Option<nat>
    decreases toks.len() - i,
{
    if i >= toks.len() {
        None
    } else if toks[i as int] == "cp"@ || toks[i as int] == "mate"@ {
        Some(i)
    } else {
        spec_find_score_key(toks, (i + 1) as nat)
    }
}

/// The tagged score carried by an info line: the integer after the first
/// `cp` or `mate` tag, kept distinct by tag; absent when there is no tag,
/// no following token, or the token is not a number.
pub open spec fn spec_score_of(toks: Seq<Seq<char>>) -> Option<Score> {
    match spec_find_score_key(toks, 0) {
        Some(i) => {
            if i + 1 < toks.len() {
                match spec_parse_i32(toks[i as int + 1]) {
                    Some(v) => {
                        if toks[i as int] == "cp"@ {
                            Some(Score::Cp(v))
                        } else {
                            Some(Score::Mate(v))
                        }
                    },
                    None => None,
                }
            } else {
                None
            }
        },
        None => None,
    }
}

/// What parsing one protocol line yields. A best-move line carries its
/// second token (a trailing ponder move is ignored); an info line carries
/// the token after each recognized keyword, every field independently
/// optional; any other line yields nothing.
pub open spec fn spec_parse_analysis(line: Seq<char>) -> Option<SpecAnalysisLine> {
    let t = spec_trim_start(line);
    let toks = spec_tokens(t);
    if starts_with(t, "bestmove"@) {
        if toks.len() >= 2 {
            Some(SpecAnalysisLine::Move(toks[1]))
        } else {
            None
        }
    } else if starts_with(t, "info"@) {
        Some(
            SpecAnalysisLine::Depth {
                depth: spec_value_after(toks, "depth"@),
                selective_depth: None,
                score: spec_score_of(toks),
                best_move: spec_value_after(toks, "pv"@),
                nodes: spec_value_after(toks, "nodes"@),
                time: spec_value_after(toks, "time"@),
            },
        )
    } else {
        None
    }
}

/// The index of the first token equal to `key`, scanning left to right.
fn find_token(tokens: &Vec<String>, key: &str) -> (r: Option<usize>)
    ensures
        match r {
            Some(k) => k < tokens@.len() && spec_find_from(tokens.deep_view(), key@, 0) == Some(
                k as nat,
            ),
            None => spec_find_from(tokens.deep_view(), key@, 0) is None,
        },
{
    let n = tokens.len();
    let mut i: usize = 0;
    while i < n
        invariant
            n == tokens@.len(),
            i <= n,
            spec_find_from(tokens.deep_view(), key@, 0) == spec_find_from(
                tokens.deep_view(),
                key@,
                i as nat,
            ),
        decreases n - i,
    {
        if str_eq(tokens[i].as_str(), key) {
            return Some(i);
        }
        i += 1;
    }
    None
}

/// The token following the first occurrence of `key`, if both exist.
fn value_after(tokens: &Vec<String>, key: &str) -> (r: Option<String>)
    ensures
        r.deep_view() == spec_value_after(tokens.deep_view(), key@),
{
    let n = tokens.len();
    match find_token(tokens, key) {
        Some(k) => {
            if k + 1 < n {
                Some(tokens[k + 1].clone())
            } else {
                None
            }
        },
        None => None,
    }
}

/// The tagged score carried by the given tokens, per [`spec_score_of`].
fn score_of(tokens: &Vec<String>) -> (r: Option<Score>)
    ensures
        r == spec_score_of(tokens.deep_view()),
{
    let n = tokens.len();
    let mut i: usize = 0;
    while i < n
        invariant
            n == tokens@.len(),
            i <= n,
            spec_find_score_key(tokens.deep_view(), 0) == spec_find_score_key(
                tokens.deep_view(),
                i as nat,
            ),
        decreases n - i,
    {
        let is_cp = str_eq(tokens[i].as_str(), "cp");
        let is_mate = str_eq(tokens[i].as_str(), "mate");
        if is_cp || is_mate {
            if i + 1 < n {
                return match parse_i32(tokens[i + 1].as_str()) {
                    Some(v) => {
                        if is_cp {
                            Some(Score::Cp(v))
                        } else {
                            Some(Score::Mate(v))
                        }
                    },
                    None => None,
                };
            } else {
                return None;
            }
        }
        i += 1;
    }
    None
}

impl AnalysisLine {
    /// Parses one line of engine output into an analysis event, or nothing
    /// when the line is neither a best-move nor an info line.
    pub fn new(line: String) -> (r: Option<AnalysisLine>)
        ensures
            r.deep_view() == spec_parse_analysis(line@),
    {
        let t = trim_start(line.as_str());
        if str_starts_with(t, "bestmove") {
            let tokens = tokenize(t);
            if tokens.len() >= 2 {
                Some(AnalysisLine::Move(tokens[1].clone()))
            } else {
                None
            }
        } else if str_starts_with(t, "info") {
            let tokens = tokenize(t);
            let depth = value_after(&tokens, "depth");
            let score = score_of(&tokens);
            let best_move = value_after(&tokens, "pv");
            let nodes = value_after(&tokens, "nodes");
            let time = value_after(&tokens, "time");
            Some(
                AnalysisLine::Depth {
                    depth,
                    selective_depth: None,
                    score,
                    best_move,
                    nodes,
                    time,
                },
            )
        } else {
            None
        }
    }
}

/// The mathematical shape of one engine option.
pub enum SpecEngineOption {
    Check { name: Seq<char>, value: bool },
    Spin { name: Seq<char>, value: i32, min: Option<i32>, max: Option<i32> },
}

/// A configurable engine option discovered during the handshake: a boolean
/// check box or an integer spin control with an optional range. Other
/// option kinds of the wire protocol are not retained.
#[derive(Clone, Debug)]
pub enum EngineOption {
    CHECK { name: String, value: bool },
    SPIN { name: String, value: i32, min: Option<i32>, max: Option<i32> },
}

impl DeepView for EngineOption {
    type V = SpecEngineOption;

    open spec fn deep_view(&self) -> SpecEngineOption {
        match self {
            EngineOption::CHECK { name, value } => SpecEngineOption::Check {
                name: name@,
                value: *value,
            },
            EngineOption::SPIN { name, value, min, max } => SpecEngineOption::Spin {
                name: name@,
                value: *value,
                min: min.deep_view(),
                max: max.deep_view(),
            },
        }
    }
}

/// An optional numeric field, dropped when absent or malformed.
pub open spec fn spec_opt_i32(o: Option<Seq<char>>) -> Option<i32> {
    match o {
        Some(s) => spec_parse_i32(s),
        None => None,
    }
}

/// What parsing one option-description line yields: the tokens after the
/// first `name`, `default` and `type` keywords, all three required; only
/// the `check` and `spin` types are retained, with `min` and `max` read
/// for a spin. A line missing a required field, or whose default does not
/// parse, yields nothing.
pub open spec fn spec_parse_option(line: Seq<char>) -> Option<SpecEngineOption> {
    if !starts_with(line, "option"@) {
        None
    } else {
        let toks = spec_tokens(line);
        match (spec_value_after(toks, "name"@), spec_value_after(toks, "default"@),
        spec_value_after(toks, "type"@)) {
            (Some(name), Some(dflt), Some(ty)) => {
                if ty == "check"@ {
                    match spec_parse_bool(dflt) {
                        Some(b) => Some(SpecEngineOption::Check { name, value: b }),
                        None => None,
                    }
                } else if ty == "spin"@ {
                    match spec_parse_i32(dflt) {
                        Some(v) => Some(
                            SpecEngineOption::Spin {
                                name,
                                value: v,
                                min: spec_opt_i32(spec_value_after(toks, "min"@)),
                                max: spec_opt_i32(spec_value_after(toks, "max"@)),
                            },
                        ),
                        None => None,
                    }
                } else {
                    None
                }
            },
            _ => None,
        }
    }
}

fn opt_i32(o: Option<String>) -> (r: Option<i32>)
    ensures
        r == spec_opt_i32(o.deep_view()),
{
    match o {
        Some(s) => parse_i32(s.as_str()),
        None => None,
    }
}

/// Parses one option-description line, per [`spec_parse_option`].
pub fn parse_option_line(line: &str) -> (r: Option<EngineOption>)
    ensures
        r.deep_view() == spec_parse_option(line@),
{
    if !str_starts_with(line, "option") {
        return None;
    }
    let tokens = tokenize(line);
    let name = value_after(&tokens, "name");
    let dflt = value_after(&tokens, "default");
    let ty = value_after(&tokens, "type");
    match (name, dflt, ty) {
        (Some(name), Some(dflt), Some(ty)) => {
            if str_eq(ty.as_str(), "check") {
                match parse_bool(dflt.as_str()) {
                    Some(b) => Some(EngineOption::CHECK { name, value: b }),
                    None => None,
                }
            } else if str_eq(ty.as_str(), "spin") {
                match parse_i32(dflt.as_str()) {
                    Some(v) => {
                        let min = opt_i32(value_after(&tokens, "min"));
                        let max = opt_i32(value_after(&tokens, "max"));
                        Some(EngineOption::SPIN { name, value: v, min, max })
                    },
                    None => None,
                }
            } else {
                None
            }
        },
        _ => None,
    }
}

/// The options carried by a transcript of handshake lines: each parsed
/// option line contributes in order, and the ready token ends discovery.
/// A line that starts with the option keyword is read as an option even
/// when the ready token occurs later in it.
pub open spec fn spec_detect_options(lines: Seq<Seq<char>>) -> Seq<SpecEngineOption>
    decreases lines.len(),
{
    if lines.len() == 0 {
        seq![]
    } else {
        let l0 = lines[0];
        let rest = lines.drop_first();
        if starts_with(l0, "option"@) {
            match spec_parse_option(l0) {
                Some(o) => seq![o] + spec_detect_options(rest),
                None => spec_detect_options(rest),
            }
        } else if contains_seq(l0, "uciok"@) {
            seq![]
        } else {
            spec_detect_options(rest)
        }
    }
}

/// Extracts the engine options described by a transcript of lines, per
/// [`spec_detect_options`].
pub fn detect_engine_options(lines: &Vec<String>) -> (options: Vec<EngineOption>)
    ensures
        options.deep_view() == spec_detect_options(lines.deep_view()),
{
    let n = lines.len();
    let mut options: Vec<EngineOption> = Vec::new();
    proof {
        assert(lines.deep_view().subrange(0, n as int) =~= lines.deep_view());
        assert(options.deep_view() + spec_detect_options(lines.deep_view())
            =~= spec_detect_options(lines.deep_view()));
    }
    let mut i: usize = 0;
    while i < n
        invariant
            n == lines@.len(),
            i <= n,
            spec_detect_options(lines.deep_view()) == options.deep_view() + spec_detect_options(
                lines.deep_view().subrange(i as int, n as int),
            ),
        decreases n - i,
    {
        let ghost dv = lines.deep_view();
        let ghost rest = dv.subrange(i as int, n as int);
        proof {
            assert(rest[0] == dv[i as int]);
            assert(rest.drop_first() =~= dv.subrange(i as int + 1, n as int));
        }
        let line = &lines[i];
        if str_starts_with(line.as_str(), "option") {
            match parse_option_line(line.as_str()) {
                Some(o) => {
                    let ghost pre = options.deep_view();
                    let ghost ov = o.deep_view();
                    options.push(o);
                    proof {
                        assert(options.deep_view() =~= pre.push(ov));
                        assert(spec_detect_options(rest) == seq![ov] + spec_detect_options(
                            rest.drop_first(),
                        ));
                        assert(pre.push(ov) + spec_detect_options(rest.drop_first()) =~= pre
                            + spec_detect_options(rest));
                    }
                },
                None => {
                    proof {
                        assert(spec_detect_options(rest) == spec_detect_options(
                            rest.drop_first(),
                        ));
                    }
                },
            }
        } else if str_contains(line.as_str(), "uciok") {
            proof {
                assert(spec_detect_options(rest) =~= Seq::<SpecEngineOption>::empty());
                assert(options.deep_view() + spec_detect_options(rest) =~= options.deep_view());
            }
            return options;
        } else {
            proof {
                assert(spec_detect_options(rest) == spec_detect_options(rest.drop_first()));
            }
        }
        i += 1;
    }
    proof {
        assert(lines.deep_view().subrange(n as int, n as int)
            =~= Seq::<Seq<char>>::empty());
        assert(options.deep_view() + spec_detect_options(
            lines.deep_view().subrange(n as int, n as int),
        ) =~= options.deep_view());
    }
    options
}

/// The handshake failed: the stream ended without the ready token, so the
/// process is not protocol compatible.
#[derive(Clone, Copy, Debug, PartialEq, Eq, Structural)]
pub enum ProtocolError {
    ReadyTokenMissing,
}

/// A transcript establishes compatibility when some line begins with the
/// ready token.
pub open spec fn spec_handshake_ok(lines: Seq<Seq<char>>) -> bool {
    exists|i: int| 0 <= i < lines.len() && starts_with(#[trigger] lines[i], "uciok"@)
}

/// Whether one line is the ready token that ends the handshake.
pub fn is_ready_line(line: &str) -> (r: bool)
    ensures
        r == starts_with(line@, "uciok"@),
{
    str_starts_with(line, "uciok")
}

/// Judges a handshake transcript: compatible exactly when some line begins
/// with the ready token; fatal otherwise.
pub fn check_handshake(lines: &Vec<String>) -> (r: Result<(), ProtocolError>)
    ensures
        r is Ok <==> spec_handshake_ok(lines.deep_view()),
        r is Err ==> r == Result::<(), ProtocolError>::Err(ProtocolError::ReadyTokenMissing),
{
    let n = lines.len();
    let mut i: usize = 0;
    while i < n
        invariant
            n == lines@.len(),
            i <= n,
            forall|j: int| 0 <= j < i ==> !starts_with(#[trigger] lines.deep_view()[j], "uciok"@),
        decreases n - i,
    {
        if is_ready_line(lines[i].as_str()) {
            assert(starts_with(lines.deep_view()[i as int], "uciok"@));
            return Ok(());
        }
        i += 1;
    }
    Err(ProtocolError::ReadyTokenMissing)
}

/// The command that sets a named option to a boolean value.
pub open spec fn spec_setoption_command(name: Seq<char>, value: bool) -> Seq<char> {
    "setoption name "@ + name + " value "@ + (if value {
        "true"@
    } else {
        "false"@
    }) + "\n"@
}

/// Builds the set-option command for a boolean option.
pub fn setoption_command(name: &str, value: bool) -> (r: String)
    ensures
        r@ == spec_setoption_command(name@, value),
{
    let mut out = String::from_str("setoption name ");
    out.append(name);
    out.append(" value ");
    if value {
        out.append("true");
    } else {
        out.append("false");
    }
    out.append("\n");
    out
}

/// The command that sets the board to a position given in FEN.
pub open spec fn spec_position_fen_command(fen: Seq<char>) -> Seq<char> {
    "position fen "@ + fen + " 0 1\n"@
}

/// Builds the set-position command for a FEN payload.
pub fn position_fen_command(fen: &str) -> (r: String)
    ensures
        r@ == spec_position_fen_command(fen@),
{
    let mut out = String::from_str("position fen ");
    out.append(fen);
    out.append(" 0 1\n");
    out
}

} // verus!
