use vstd::prelude::*;

verus! {

/// Counters of the moves made and their outcomes.
#[derive(Clone, Copy, PartialEq, Eq, Debug, Hash)]
pub struct GameStatistics {
    pub moves_count: u64,
    pub wins: u64,
    pub loses: u64,
    pub wins_in_a_row: u64,
    pub loses_in_a_row: u64,
}

impl GameStatistics {
    /// All counters at zero.
    pub fn new() -> (r: GameStatistics)
        ensures
            r == (GameStatistics { moves_count: 0, wins: 0, loses: 0, wins_in_a_row: 0, loses_in_a_row: 0 }),
    {
        GameStatistics { moves_count: 0, wins: 0, loses: 0, wins_in_a_row: 0, loses_in_a_row: 0 }
    }
}

} // verus!
