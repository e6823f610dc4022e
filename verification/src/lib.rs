//! Supervision of external chess engines that speak a line-based text
//! protocol over their standard streams.
//!
//! The crate holds the protocol layer itself: the line parser that turns
//! engine output into typed analysis events, option discovery and the
//! handshake, the per-engine session state (discovered options,
//! accumulated analysis, the queue of outgoing commands), and the
//! registry that toggles analysis across every attached engine for one
//! position. All of it is verified.
//!
//! Blocking process I/O (spawning, the stdin writer and stdout reader
//! pumps, teardown) lives with the embedding application, which feeds
//! received lines into [`Engine::poll_engine`] and drains the command
//! queue with [`Engine::take_outbox`].

pub mod engine;
pub mod game;
pub mod protocol;
pub mod state;
pub mod text;
pub mod theme;
pub mod tournament;

pub use engine::{Engine, SpawnError};
pub use game::{Game, GameResult, TimeControl};
pub use protocol::{AnalysisLine, EngineOption, ProtocolError, Score};
pub use state::{EngineOptionsWindow, EnginesServices, SharedState};
pub use tournament::{Tournament, TournamentResult};
