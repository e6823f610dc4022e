//! Data for a match between two engines. The game runner itself drives
//! the engines over the wire protocol; the position lives with the rules
//! engine and is exchanged only as FEN, so a game holds its engines, its
//! move list and its time control.

use vstd::prelude::*;

use crate::engine::Engine;

verus! {

/// How much time each engine may spend per move.
#[derive(Clone, Copy, Debug, PartialEq, Eq, Structural)]
pub enum TimeControl {
    Infinite,
    TimePerMove(i32),
}

/// The outcome of one finished game: the two display names, the moves
/// played, and who won (`1` white, `-1` black, anything else a draw).
#[derive(Clone, Debug)]
pub struct GameResult {
    pub white: String,
    pub black: String,
    pub moves_list: Vec<String>,
    pub result: i32,
}

/// The display name of a game's winner.
pub open spec fn spec_winner(r: GameResult) -> Seq<char> {
    if r.result == 1 {
        r.white@
    } else if r.result == -1 {
        r.black@
    } else {
        Seq::<char>::empty()
    }
}

impl GameResult {
    /// The display name of the winner: white's on `1`, black's on `-1`,
    /// empty on a draw.
    pub fn winner(&self) -> (w: String)
        ensures
            w@ == spec_winner(*self),
    {
        if self.result == 1 {
            self.white.clone()
        } else if self.result == -1 {
            self.black.clone()
        } else {
            String::new()
        }
    }
}

/// One match between two engines under a time control.
pub struct Game {
    pub white: Engine,
    pub black: Engine,
    pub moves_list: Vec<String>,
    pub time_control: TimeControl,
}

impl Game {
    /// A fresh game between `white` and `black` with no moves played.
    pub fn new(white: Engine, black: Engine, time_control: TimeControl) -> (g: Game)
        ensures
            g.white@ == white@,
            g.black@ == black@,
            g.moves_list@.len() == 0,
            g.time_control == time_control,
    {
        Game { white, black, moves_list: Vec::new(), time_control }
    }
}

} // verus!
