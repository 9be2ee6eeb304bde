//! The engine facade: the perft driver as an associated function.

use vstd::prelude::*;

use crate::board::Board;
use crate::perft::{spec_nodes, perft, perft_branch};

verus! {

/// The perft driver.
pub struct Perft {}

impl Perft {
    /// Counts the leaf positions `max_depth - depth` plies below `board`,
    /// splitting the root moves into `num_threads` batches; the result does
    /// not depend on the batch count.
    pub fn perft(board: &Board, depth: u8, max_depth: u8, num_threads: u8) -> (r: u64)
        requires
            board.ep_ok(),
            depth <= max_depth,
            num_threads >= 1,
            spec_nodes(*board, (max_depth - depth) as nat) <= u64::MAX,
        ensures
            r as nat == spec_nodes(*board, (max_depth - depth) as nat),
    {
        perft(board, depth, max_depth, num_threads)
    }

    /// Counts the leaf positions `max_depth - depth` plies below `board` by
    /// serial recursion.
    pub fn perft_branch(board: &Board, depth: u8, max_depth: u8) -> (r: u64)
        requires
            board.ep_ok(),
            depth <= max_depth,
            spec_nodes(*board, (max_depth - depth) as nat) <= u64::MAX,
        ensures
            r as nat == spec_nodes(*board, (max_depth - depth) as nat),
    {
        perft_branch(board, depth, max_depth)
    }
}

} // verus!
