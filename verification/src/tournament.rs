//! Data for a series of games between two engines, with the running
//! tally of their results.

use vstd::prelude::*;

use crate::engine::Engine;
use crate::game::{GameResult, TimeControl};

verus! {

/// The tally of a tournament: the two contestants, every game's result,
/// and the win, draw and total counts.
#[derive(Debug)]
pub struct TournamentResult {
    pub engine1: String,
    pub engine2: String,
    pub games_list: Vec<GameResult>,
    pub engine1_won: u64,
    pub engine2_won: u64,
    pub draws: u64,
    pub total_games: u64,
}

impl TournamentResult {
    /// An empty tally: no names, no games, every count zero.
    pub fn default() -> (r: TournamentResult)
        ensures
            r.engine1@.len() == 0,
            r.engine2@.len() == 0,
            r.games_list@.len() == 0,
            r.engine1_won == 0,
            r.engine2_won == 0,
            r.draws == 0,
            r.total_games == 0,
    {
        TournamentResult {
            engine1: String::new(),
            engine2: String::new(),
            games_list: Vec::new(),
            engine1_won: 0,
            engine2_won: 0,
            draws: 0,
            total_games: 0,
        }
    }

    /// A tally assembled from its parts.
    pub fn new(
        engine1: String,
        engine2: String,
        games_list: Vec<GameResult>,
        engine1_won: u64,
        engine2_won: u64,
        draws: u64,
        total_games: u64,
    ) -> (r: TournamentResult)
        ensures
            r.engine1@ == engine1@,
            r.engine2@ == engine2@,
            r.games_list@ == games_list@,
            r.engine1_won == engine1_won,
            r.engine2_won == engine2_won,
            r.draws == draws,
            r.total_games == total_games,
    {
        TournamentResult {
            engine1,
            engine2,
            games_list,
            engine1_won,
            engine2_won,
            draws,
            total_games,
        }
    }
}

/// A series of `rounds` games between two engines, colours alternating
/// round by round.
pub struct Tournament {
    pub rounds: i32,
    pub engine1: Engine,
    pub engine2: Engine,
    pub time_control: TimeControl,
}

impl Tournament {
    /// A tournament over the given engines, not yet started.
    pub fn new(rounds: i32, engine1: Engine, engine2: Engine, time_control: TimeControl) -> (t:
        Tournament)
        ensures
            t.rounds == rounds,
            t.engine1@ == engine1@,
            t.engine2@ == engine2@,
            t.time_control == time_control,
    {
        Tournament { rounds, engine1, engine2, time_control }
    }
}

} // verus!
