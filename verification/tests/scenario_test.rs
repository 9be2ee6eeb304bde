use osprey::perft::perft;
use osprey::piece_move;
use osprey::{Board, Move, MoveService, Perft, Piece};

const START: &str = "rnbqkbnr/pppppppp/8/8/8/8/PPPPPPPP/RNBQKBNR w KQkq - 0 1";

#[test]
fn start_position_twenty_moves_all_legal() {
    let board = Board::new(START);
    let moves = board.possible_white();
    assert_eq!(moves.len(), 20);
    for m in moves {
        assert!(board.make_move(&m).is_ok());
    }
}

#[test]
fn attack_mask_scenario() {
    let board = Board::new("8/4r3/3n2b1/3p2n1/4K3/8/6q1/8 w - - 0 1");
    assert_eq!(MoveService::unsafe_w(&board), 1_508_443_033_184_550_880);
}

#[test]
fn en_passant_move_scenario() {
    let board = Board::new("8/8/8/2pPp3/8/8/8/8 w - e6 0 1");
    let moves = MoveService::possible_wp(&board);
    assert!(moves.contains(&Move::EnPassant { from: 35, to: 44, captured: 36 }));
    assert!(moves.contains(&Move::Normal { from: 35, to: 43 }));
}

#[test]
fn perft_worker_counts_agree() {
    let board = Board::new("8/2p5/3p4/KP5r/1R3p1k/8/4P1P1/8 w - - 0 1");
    let one = perft(&board, 0, 3, 1);
    let three = perft(&board, 0, 3, 3);
    let many = perft(&board, 0, 3, 200);
    assert_eq!(one, three);
    assert_eq!(one, many);
}

#[test]
fn perft_depth_zero_is_one() {
    let board = Board::new(START);
    assert_eq!(perft(&board, 0, 0, 1), 1);
    assert_eq!(perft(&board, 2, 2, 4), 1);
}

#[test]
fn perft_engine_facade_agrees() {
    let board = Board::new(START);
    assert_eq!(Perft::perft(&board, 0, 2, 2), 400);
    assert_eq!(Perft::perft_branch(&board, 0, 2), 400);
}

#[test]
fn make_move_quiet_knight() {
    let board = Board::new(START);
    let after = board.make_move(&Move::Normal { from: 6, to: 21 }).unwrap();
    assert_eq!(after.export_fen(), "rnbqkbnr/pppppppp/8/8/8/5N2/PPPPPPPP/RNBQKB1R b KQkq - 1 2");
}

#[test]
fn make_move_double_push_sets_en_passant() {
    let board = Board::new(START);
    let after = board.make_move(&Move::Normal { from: 12, to: 28 }).unwrap();
    assert_eq!(after.en_passant, Some(20));
    assert!(!after.white_turn);
    // a pawn move resets the halfmove clock
    assert_eq!(after.halfmove, 0);
}

#[test]
fn make_move_capture_resets_halfmove() {
    let board = Board::new("rnbqkbnr/ppp1pppp/8/3p4/4P3/8/PPPP1PPP/RNBQKBNR w KQkq d6 0 2");
    let after = board.make_move(&Move::Normal { from: 28, to: 35 }).unwrap();
    assert_eq!(after.halfmove, 0);
    assert_eq!(after.en_passant, None);
    assert_eq!(after.black_pawns & (1u64 << 35), 0);
}

#[test]
fn make_move_illegal_returns_old_board() {
    // the white king may not step into the rook's file
    let board = Board::new("8/8/8/3r4/8/8/4K3/8 w - - 0 1");
    let result = board.make_move(&Move::Normal { from: 12, to: 11 });
    assert!(result.is_err());
    let old = result.unwrap_err();
    assert_eq!(old.export_fen(), board.export_fen());
}

#[test]
fn make_move_castle_kingside() {
    let board = Board::new("4k3/8/8/8/8/8/8/4K2R w K - 0 1");
    let after = board.make_move(&Move::Castle { from: 4, to: 6, rook: 7 }).unwrap();
    assert_eq!(after.white_king, 1u64 << 6);
    assert_eq!(after.white_rooks, 1u64 << 5);
    assert!(!after.white_castle_kingside);
    assert!(!after.white_castle_queenside);
}

#[test]
fn make_move_promotion_capture() {
    let board = Board::new("4r3/3P4/8/8/8/8/8/K6k w - - 0 1");
    let after = board
        .make_move(&Move::Promotion { from: 51, to: 60, promotion: Piece::WhiteQueen })
        .unwrap();
    assert_eq!(after.white_queens, 1u64 << 60);
    assert_eq!(after.white_pawns, 0);
    assert_eq!(after.black_rooks, 0);
}

#[test]
fn move_constructors_carry_their_fields() {
    let q = piece_move::Move::make_quiet(8, 16);
    assert_eq!(q, piece_move::Move::make(8, 16, piece_move::MoveFlag::Quiet));
    let d = piece_move::Move::make_double_pawn(8, 24);
    assert_eq!(d, piece_move::Move::make(8, 24, piece_move::MoveFlag::DoublePawn));
    let c = piece_move::Move::make_capture(8, 17);
    assert_eq!(c, piece_move::Move::make(8, 17, piece_move::MoveFlag::Capture));
    let e = piece_move::Move::make_en_passant(35, 44, 36);
    assert_eq!(e, piece_move::Move::make(35, 44, piece_move::MoveFlag::EnPassant { capture: 36 }));
    let p = piece_move::Move::make_promotion(51, 59, piece_move::PieceType::Queen, false);
    assert_eq!(
        p,
        piece_move::Move::make(
            51,
            59,
            piece_move::MoveFlag::Promotion { piece: piece_move::PieceType::Queen, capture: false }
        )
    );
    let s = piece_move::Move::make_castle(4, 6);
    assert_eq!(s, piece_move::Move::make(4, 6, piece_move::MoveFlag::Castle));
    assert_ne!(piece_move::PieceColor::White, piece_move::PieceColor::Black);
}

#[test]
fn board_and_service_generators_agree() {
    let board = Board::new("r3k2r/p1ppqpb1/bn2pnp1/3PN3/1p2P3/2N2Q1p/PPPBBPPP/R3K2R w KQkq - 0 1");
    assert_eq!(board.possible_white(), MoveService::possible_white(&board));
    assert_eq!(board.possible_wc(), MoveService::possible_wc(&board));
    assert_eq!(board.unsafe_b(), MoveService::unsafe_b(&board));
}

#[test]
fn castling_w_q_needs_rook_on_a1() {
    // queenside right set, b1-d1 empty, nothing attacking, but no rook on a1:
    // no queenside castle may be offered
    let board = Board::new("4k3/8/8/8/8/8/8/4K3 w Q - 0 1");
    assert_eq!(MoveService::possible_wc(&board), vec![]);
    assert_eq!(board.possible_wc(), vec![]);
    // with the rook in place the move appears
    let board = Board::new("4k3/8/8/8/8/8/8/R3K3 w Q - 0 1");
    assert_eq!(board.possible_wc(), vec![Move::Castle { from: 4, to: 2, rook: 0 }]);
}
