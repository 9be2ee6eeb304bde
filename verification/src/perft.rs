//! Perft: counting the leaf positions reachable by legal move sequences of a
//! fixed depth.

use vstd::prelude::*;

use crate::board::Board;
use crate::move_service::{all_wf, black_moves_seq, white_moves_seq, MoveService};
use crate::moves::Move;

verus! {

/// The pseudo-legal moves of the side to move.
pub open spec fn side_moves(b: Board) -> Seq<Move> {
    if b.white_turn {
        white_moves_seq(b)
    } else {
        black_moves_seq(b)
    }
}

/// The number of leaf positions `d` plies below `b`: one for `d` equal to
/// zero, else the sum over the side to move's pseudo-legal moves of the count
/// below each legal successor.
pub open spec fn spec_nodes(b: Board, d: nat) -> nat
    decreases d, side_moves(b).len() + 1,
{
    if d == 0 {
        1
    } else {
        spec_nodes_list(b, side_moves(b), d)
    }
}

/// The sum over the moves of `ms` of the leaf count `d - 1` plies below the
/// position each legal move yields; an illegal move contributes nothing.
pub open spec fn spec_nodes_list(b: Board, ms: Seq<Move>, d: nat) -> nat
    decreases d, ms.len(),
{
    if d == 0 || ms.len() == 0 {
        0
    } else {
        (if b.king_safe_after(ms[0]) {
            spec_nodes(b.spec_apply(ms[0]), (d - 1) as nat)
        } else {
            0
        }) + spec_nodes_list(b, ms.drop_first(), d)
    }
}

/// Counts the leaf positions `max_depth - depth` plies below `board` by
/// serial recursion.
pub fn perft_branch(board: &Board, depth: u8, max_depth: u8) -> (r: u64)
    requires
        board.ep_ok(),
        depth <= max_depth,
        spec_nodes(*board, (max_depth - depth) as nat) <= u64::MAX,
    ensures
        r as nat == spec_nodes(*board, (max_depth - depth) as nat),
    decreases max_depth - depth,
{
    if depth == max_depth {
        return 1;
    }
    let ghost d = (max_depth - depth) as nat;

    let moves = if board.white_turn {
        MoveService::possible_white(board)
    } else {
        MoveService::possible_black(board)
    };

    proof {
        assert(moves@.skip(0) =~= moves@);
    }
    let mut nodes: u64 = 0;
    let mut k: usize = 0;
    while k < moves.len()
        invariant
            k <= moves@.len(),
            moves@ == side_moves(*board),
            all_wf(moves@),
            depth < max_depth,
            d == (max_depth - depth) as nat,
            nodes as nat + spec_nodes_list(*board, moves@.skip(k as int), d) == spec_nodes(
                *board,
                d,
            ),
            spec_nodes(*board, d) <= u64::MAX,
        decreases moves@.len() - k,
    {
        let m = moves[k];
        proof {
            assert(moves@.skip(k as int)[0] == moves@[k as int]);
            assert(moves@.skip(k as int).drop_first() =~= moves@.skip(k as int + 1));
            assert(moves@[k as int].wf());
        }
        match board.make_move(&m) {
            Ok(new_board) => {
                let num_nodes = perft_branch(&new_board, depth + 1, max_depth);
                nodes = nodes + num_nodes;
            },
            Err(_) => {},
        }
        k = k + 1;
    }
    proof {
        assert(moves@.skip(moves@.len() as int) =~= Seq::<Move>::empty());
    }
    nodes
}

/// Counts the leaf positions `max_depth - depth` plies below `board`. The
/// root move list is split into `num_threads` batches of nearly equal size;
/// each batch yields a partial total by serial recursion and the partial
/// totals are summed, so the result does not depend on `num_threads`. With no
/// root move the count is zero at once.
pub fn perft(board: &Board, depth: u8, max_depth: u8, num_threads: u8) -> (r: u64)
    requires
        board.ep_ok(),
        depth <= max_depth,
        num_threads >= 1,
        spec_nodes(*board, (max_depth - depth) as nat) <= u64::MAX,
    ensures
        r as nat == spec_nodes(*board, (max_depth - depth) as nat),
{
    if depth == max_depth {
        return 1;
    }
    let ghost d = (max_depth - depth) as nat;

    let moves = if board.white_turn {
        MoveService::possible_white(board)
    } else {
        MoveService::possible_black(board)
    };
    if moves.len() == 0 {
        return 0;
    }

    let chunk_size = if moves.len() / (num_threads as usize) >= 1 {
        moves.len() / (num_threads as usize)
    } else {
        1
    };

    proof {
        assert(moves@.skip(0) =~= moves@);
    }
    let mut nodes: u64 = 0;
    let mut k: usize = 0;
    while k < moves.len()
        invariant
            k <= moves@.len(),
            moves@ == side_moves(*board),
            all_wf(moves@),
            depth < max_depth,
            chunk_size >= 1,
            d == (max_depth - depth) as nat,
            nodes as nat + spec_nodes_list(*board, moves@.skip(k as int), d) == spec_nodes(
                *board,
                d,
            ),
            spec_nodes(*board, d) <= u64::MAX,
        decreases moves@.len() - k,
    {
        let chunk_end = if chunk_size < moves.len() - k {
            k + chunk_size
        } else {
            moves.len()
        };
        let mut chunk_nodes: u64 = 0;
        while k < chunk_end
            invariant
                k <= chunk_end,
                chunk_end <= moves@.len(),
                moves@ == side_moves(*board),
                all_wf(moves@),
                depth < max_depth,
                d == (max_depth - depth) as nat,
                nodes as nat + chunk_nodes as nat + spec_nodes_list(
                    *board,
                    moves@.skip(k as int),
                    d,
                ) == spec_nodes(*board, d),
                spec_nodes(*board, d) <= u64::MAX,
            decreases chunk_end - k,
        {
            let m = moves[k];
            proof {
                assert(moves@.skip(k as int)[0] == moves@[k as int]);
                assert(moves@.skip(k as int).drop_first() =~= moves@.skip(k as int + 1));
                assert(moves@[k as int].wf());
            }
            match board.make_move(&m) {
                Ok(new_board) => {
                    let num_nodes = perft_branch(&new_board, depth + 1, max_depth);
                    chunk_nodes = chunk_nodes + num_nodes;
                },
                Err(_) => {},
            }
            k = k + 1;
        }
        nodes = nodes + chunk_nodes;
    }
    proof {
        assert(moves@.skip(moves@.len() as int) =~= Seq::<Move>::empty());
    }
    nodes
}

} // verus!
