use osprey::{Board, Move, Piece};

#[test]
fn make_pawn_move_n() {
    let board = Board::new("8/8/8/8/8/4P3/8/8 w - - 0 1");

    let m = Move::Normal { from: 20, to: 28 };
    let new_white_pawns = board.move_board(&m, 'P');

    assert_eq!(new_white_pawns, 1u64 << 28);
}

#[test]
fn make_rook_capture() {
    let board = Board::new("8/4r3/8/8/8/8/4R3/8 w - - 0 1");

    let m = Move::Normal { from: 12, to: 52 };

    let new_white_rooks = board.move_board(&m, 'R');
    let new_black_rooks = board.move_board(&m, 'r');

    assert_eq!(new_white_rooks, 1u64 << 52);
    assert_eq!(new_black_rooks, 0u64);
}

#[test]
fn make_pawn_promotion() {
    let board = Board::new("4p3/3P4/8/8/8/8/8/8 w - - 0 1");

    let m = Move::Promotion {
        from: 51,
        to: 60,
        promotion: Piece::WhiteQueen,
    };

    let new_white_queens = board.move_board(&m, 'Q');
    let new_white_pawns = board.move_board(&m, 'P');
    let new_black_pawns = board.move_board(&m, 'p');

    assert_eq!(new_white_queens, 1u64 << 60);
    assert_eq!(new_white_pawns, 0u64);
    assert_eq!(new_black_pawns, 0u64);
}

#[test]
fn make_en_passant() {
    let board = Board::new("8/8/8/2pPp3/8/8/8/8 w - e6 0 1");

    let m = Move::EnPassant {
        from: 35,
        to: 44,
        captured: 36,
    };

    let new_white_pawns = board.move_board(&m, 'P');
    let new_black_pawns = board.move_board(&m, 'p');

    assert_eq!(new_white_pawns, 1u64 << 44);
    assert_eq!(new_black_pawns, 1u64 << 34);
}

#[test]
fn make_castle_w_k() {
    let board = Board::new("8/8/8/8/8/8/8/4K2R w KQ - 0 1");

    let m = Move::Castle {
        from: 4,
        to: 6,
        rook: 7,
    };

    let new_white_kings = board.move_board(&m, 'K');
    let new_white_rooks = board.move_board(&m, 'R');

    assert_eq!(new_white_kings, 1u64 << 6);
    assert_eq!(new_white_rooks, 1u64 << 5);
}

#[test]
fn make_castle_w_q() {
    let board = Board::new("8/8/8/8/8/8/8/R3K3 w KQ - 0 1");

    let m = Move::Castle {
        from: 4,
        to: 2,
        rook: 0,
    };

    let new_white_kings = board.move_board(&m, 'K');
    let new_white_rooks = board.move_board(&m, 'R');

    assert_eq!(new_white_kings, 1u64 << 2);
    assert_eq!(new_white_rooks, 1u64 << 3);
}

#[test]
fn board_pawn_capture_nw() {
    let board = Board::new("8/8/8/p5pp/P6P/8/8/8 w - - 0 1");
    let moves = board.possible_wp();
    let correct_moves: Vec<Move> = vec![Move::Normal { from: 31, to: 38 }];
    assert_eq!(moves.len(), correct_moves.len());
    for m in moves {
        assert!(correct_moves.contains(&m));
    }
}

#[test]
fn board_pawn_capture_ne() {
    let board = Board::new("8/8/8/pp5p/P6P/8/8/8 w - - 0 1");
    let moves = board.possible_wp();
    let correct_moves: Vec<Move> = vec![Move::Normal { from: 24, to: 33 }];
    assert_eq!(moves.len(), correct_moves.len());
    for m in moves {
        assert!(correct_moves.contains(&m));
    }
}

#[test]
fn board_pawn_move_n() {
    let board = Board::new("8/8/2p5/4p3/2P1P3/8/8/8 w - - 0 1");
    let moves = board.possible_wp();
    let correct_moves: Vec<Move> = vec![Move::Normal { from: 26, to: 34 }];
    assert_eq!(moves.len(), correct_moves.len());
    for m in moves {
        assert!(correct_moves.contains(&m));
    }
}

#[test]
fn board_pawn_move_nn() {
    let board = Board::new("8/8/6p1/2p1p3/p7/4P1P1/P1P5/8 w - - 0 1");
    let moves = board.possible_wp();
    let correct_moves: Vec<Move> = vec![
        Move::Normal { from: 8, to: 16 },
        Move::Normal { from: 10, to: 18 },
        Move::Normal { from: 10, to: 26 },
        Move::Normal { from: 20, to: 28 },
        Move::Normal { from: 22, to: 30 },
    ];
    assert_eq!(moves.len(), correct_moves.len());
    for m in moves {
        assert!(correct_moves.contains(&m));
    }
}

#[test]
fn board_pawn_promotion_n() {
    let board = Board::new("8/3P4/8/8/8/8/8/8 w - - 0 1");
    let moves = board.possible_wp();
    let correct_moves: Vec<Move> = vec![
        Move::Promotion {
            from: 51,
            to: 59,
            promotion: Piece::WhiteRook,
        },
        Move::Promotion {
            from: 51,
            to: 59,
            promotion: Piece::WhiteBishop,
        },
        Move::Promotion {
            from: 51,
            to: 59,
            promotion: Piece::WhiteKnight,
        },
        Move::Promotion {
            from: 51,
            to: 59,
            promotion: Piece::WhiteQueen,
        },
    ];
    assert_eq!(moves.len(), correct_moves.len());
    for m in moves {
        assert!(correct_moves.contains(&m));
    }
}

#[test]
fn board_pawn_promotion_captures_n() {
    let board = Board::new("3pp3/3P4/8/8/8/8/8/8 w - - 0 1");
    let moves = board.possible_wp();
    let correct_moves: Vec<Move> = vec![
        Move::Promotion {
            from: 51,
            to: 60,
            promotion: Piece::WhiteRook,
        },
        Move::Promotion {
            from: 51,
            to: 60,
            promotion: Piece::WhiteBishop,
        },
        Move::Promotion {
            from: 51,
            to: 60,
            promotion: Piece::WhiteKnight,
        },
        Move::Promotion {
            from: 51,
            to: 60,
            promotion: Piece::WhiteQueen,
        },
    ];
    println!("{:?}", moves);
    assert_eq!(moves.len(), correct_moves.len());
    for m in moves {
        assert!(correct_moves.contains(&m));
    }
}

#[test]
fn board_en_passant_ne() {
    let board = Board::new("8/8/8/2pPp3/8/8/8/8 w - e6 0 1");
    let moves = board.possible_wp();
    let correct_moves: Vec<Move> = vec![
        Move::Normal { from: 35, to: 43 },
        Move::EnPassant {
            from: 35,
            to: 44,
            captured: 36,
        },
    ];
    assert_eq!(moves.len(), correct_moves.len());
    for m in moves {
        assert!(correct_moves.contains(&m));
    }
}

#[test]
fn board_en_passant_nw() {
    let board = Board::new("8/8/8/2pPp3/8/8/8/8 w - c6 0 1");
    let moves = board.possible_wp();
    let correct_moves: Vec<Move> = vec![
        Move::Normal { from: 35, to: 43 },
        Move::EnPassant {
            from: 35,
            to: 42,
            captured: 34,
        },
    ];
    assert_eq!(moves.len(), correct_moves.len());
    for m in moves {
        assert!(correct_moves.contains(&m));
    }
}

#[test]
fn board_en_passant_border_ne() {
    let board = Board::new("8/8/8/p6P/8/8/8/8 w - a6 0 1");
    let moves = board.possible_wp();
    let correct_moves: Vec<Move> = vec![Move::Normal { from: 39, to: 47 }];
    assert_eq!(moves.len(), correct_moves.len());
    for m in moves {
        assert!(correct_moves.contains(&m));
    }
}

#[test]
fn board_en_passant_border_nw() {
    let board = Board::new("8/8/8/P6p/8/8/8/8 w - h6 0 1");
    let moves = board.possible_wp();
    let correct_moves: Vec<Move> = vec![Move::Normal { from: 32, to: 40 }];
    assert_eq!(moves.len(), correct_moves.len());
    for m in moves {
        assert!(correct_moves.contains(&m));
    }
}

#[test]
fn board_pawn_capture_sw() {
    let board = Board::new("8/8/8/p6p/P5PP/8/8/8 w - - 0 1");
    let moves = board.possible_bp();
    let correct_moves: Vec<Move> = vec![Move::Normal { from: 39, to: 30 }];
    assert_eq!(moves.len(), correct_moves.len());
    for m in moves {
        assert!(correct_moves.contains(&m));
    }
}

#[test]
fn board_pawn_capture_se() {
    let board = Board::new("8/8/8/p6p/PP5P/8/8/8 w - - 0 1");
    let moves = board.possible_bp();
    let correct_moves: Vec<Move> = vec![Move::Normal { from: 32, to: 25 }];
    assert_eq!(moves.len(), correct_moves.len());
    for m in moves {
        assert!(correct_moves.contains(&m));
    }
}

#[test]
fn board_pawn_move_s() {
    let board = Board::new("8/8/8/2p1p3/4P3/2P5/8/8 w - - 0 1");
    let moves = board.possible_bp();
    let correct_moves: Vec<Move> = vec![Move::Normal { from: 34, to: 26 }];
    assert_eq!(moves.len(), correct_moves.len());
    for m in moves {
        assert!(correct_moves.contains(&m));
    }
}

#[test]
fn board_pawn_move_ss() {
    let board = Board::new("8/p1p5/4p1p1/P7/2P1P3/6P1/8/8 w - - 0 1");
    let moves = board.possible_bp();
    let correct_moves: Vec<Move> = vec![
        Move::Normal { from: 48, to: 40 },
        Move::Normal { from: 50, to: 42 },
        Move::Normal { from: 50, to: 34 },
        Move::Normal { from: 44, to: 36 },
        Move::Normal { from: 46, to: 38 },
    ];
    assert_eq!(moves.len(), correct_moves.len());
    for m in moves {
        assert!(correct_moves.contains(&m));
    }
}

#[test]
fn board_pawn_promotion_s() {
    let board = Board::new("8/8/8/8/8/8/3p4/8 w - - 0 1");
    let moves = board.possible_bp();
    let correct_moves: Vec<Move> = vec![
        Move::Promotion {
            from: 11,
            to: 3,
            promotion: Piece::BlackRook,
        },
        Move::Promotion {
            from: 11,
            to: 3,
            promotion: Piece::BlackBishop,
        },
        Move::Promotion {
            from: 11,
            to: 3,
            promotion: Piece::BlackKnight,
        },
        Move::Promotion {
            from: 11,
            to: 3,
            promotion: Piece::BlackQueen,
        },
    ];
    assert_eq!(moves.len(), correct_moves.len());
    for m in moves {
        assert!(correct_moves.contains(&m));
    }
}

#[test]
fn board_pawn_promotion_captures_s() {
    let board = Board::new("8/8/8/8/8/8/3p4/3PP3 w - - 0 1");
    let moves = board.possible_bp();
    let correct_moves: Vec<Move> = vec![
        Move::Promotion {
            from: 11,
            to: 4,
            promotion: Piece::BlackRook,
        },
        Move::Promotion {
            from: 11,
            to: 4,
            promotion: Piece::BlackBishop,
        },
        Move::Promotion {
            from: 11,
            to: 4,
            promotion: Piece::BlackKnight,
        },
        Move::Promotion {
            from: 11,
            to: 4,
            promotion: Piece::BlackQueen,
        },
    ];
    assert_eq!(moves.len(), correct_moves.len());
    for m in moves {
        assert!(correct_moves.contains(&m));
    }
}

#[test]
fn board_en_passant_se() {
    let board = Board::new("8/8/8/8/2PpP3/8/8/8 b - e3 0 1");
    let moves = board.possible_bp();
    let correct_moves: Vec<Move> = vec![
        Move::Normal { from: 27, to: 19 },
        Move::EnPassant {
            from: 27,
            to: 20,
            captured: 28,
        },
    ];
    assert_eq!(moves.len(), correct_moves.len());
    for m in moves {
        assert!(correct_moves.contains(&m));
    }
}

#[test]
fn board_en_passant_sw() {
    let board = Board::new("8/8/8/8/2PpP3/8/8/8 b - c3 0 1");
    let moves = board.possible_bp();
    let correct_moves: Vec<Move> = vec![
        Move::Normal { from: 27, to: 19 },
        Move::EnPassant {
            from: 27,
            to: 18,
            captured: 26,
        },
    ];
    for m in moves {
        assert!(correct_moves.contains(&m));
    }
}

#[test]
fn board_en_passant_border_se() {
    let board = Board::new("8/8/8/8/P6p/8/8/8 b - h6 0 1");
    let moves = board.possible_bp();
    let correct_moves: Vec<Move> = vec![Move::Normal { from: 31, to: 23 }];
    assert_eq!(moves.len(), correct_moves.len());
    for m in moves {
        assert!(correct_moves.contains(&m));
    }
}

#[test]
fn board_en_passant_border_sw() {
    let board = Board::new("8/8/8/8/p6P/8/8/8 b - a6 0 1");
    let moves = board.possible_bp();
    let correct_moves: Vec<Move> = vec![Move::Normal { from: 24, to: 16 }];
    assert_eq!(moves.len(), correct_moves.len());
    for m in moves {
        assert!(correct_moves.contains(&m));
    }
}

#[test]
fn board_w_rook_move_border() {
    let board = Board::new("8/8/8/8/3R4/8/8/8 w - - 0 1");
    let moves = board.possible_wr();
    let correct_moves: Vec<Move> = vec![
        Move::Normal { from: 27, to: 24 },
        Move::Normal { from: 27, to: 25 },
        Move::Normal { from: 27, to: 26 },
        Move::Normal { from: 27, to: 28 },
        Move::Normal { from: 27, to: 29 },
        Move::Normal { from: 27, to: 30 },
        Move::Normal { from: 27, to: 31 },
        Move::Normal { from: 27, to: 3 },
        Move::Normal { from: 27, to: 11 },
        Move::Normal { from: 27, to: 19 },
        Move::Normal { from: 27, to: 35 },
        Move::Normal { from: 27, to: 43 },
        Move::Normal { from: 27, to: 51 },
        Move::Normal { from: 27, to: 59 },
    ];
    assert_eq!(moves.len(), correct_moves.len());
    for m in moves {
        assert!(correct_moves.contains(&m));
    }
}

#[test]
fn board_w_rook_move_block() {
    let board = Board::new("8/3P4/8/8/P2R1P2/3P4/8/8 w - - 0 1");
    let moves = board.possible_wr();
    let correct_moves: Vec<Move> = vec![
        Move::Normal { from: 27, to: 25 },
        Move::Normal { from: 27, to: 26 },
        Move::Normal { from: 27, to: 28 },
        Move::Normal { from: 27, to: 35 },
        Move::Normal { from: 27, to: 43 },
    ];
    assert_eq!(moves.len(), correct_moves.len());
    for m in moves {
        assert!(correct_moves.contains(&m));
    }
}

#[test]
fn board_w_rook_move_capture() {
    let board = Board::new("8/3p4/8/8/p2R1p2/3p4/8/8 w - - 0 1");
    let moves = board.possible_wr();
    let correct_moves: Vec<Move> = vec![
        Move::Normal { from: 27, to: 24 },
        Move::Normal { from: 27, to: 25 },
        Move::Normal { from: 27, to: 26 },
        Move::Normal { from: 27, to: 28 },
        Move::Normal { from: 27, to: 29 },
        Move::Normal { from: 27, to: 19 },
        Move::Normal { from: 27, to: 35 },
        Move::Normal { from: 27, to: 43 },
        Move::Normal { from: 27, to: 51 },
    ];
    assert_eq!(moves.len(), correct_moves.len());
    for m in moves {
        assert!(correct_moves.contains(&m));
    }
}

#[test]
fn board_b_rook_move_border() {
    let board = Board::new("8/8/8/8/3r4/8/8/8 w - - 0 1");
    let moves = board.possible_br();
    let correct_moves: Vec<Move> = vec![
        Move::Normal { from: 27, to: 24 },
        Move::Normal { from: 27, to: 25 },
        Move::Normal { from: 27, to: 26 },
        Move::Normal { from: 27, to: 28 },
        Move::Normal { from: 27, to: 29 },
        Move::Normal { from: 27, to: 30 },
        Move::Normal { from: 27, to: 31 },
        Move::Normal { from: 27, to: 3 },
        Move::Normal { from: 27, to: 11 },
        Move::Normal { from: 27, to: 19 },
        Move::Normal { from: 27, to: 35 },
        Move::Normal { from: 27, to: 43 },
        Move::Normal { from: 27, to: 51 },
        Move::Normal { from: 27, to: 59 },
    ];
    assert_eq!(moves.len(), correct_moves.len());
    for m in moves {
        assert!(correct_moves.contains(&m));
    }
}

#[test]
fn board_b_rook_move_block() {
    let board = Board::new("8/3p4/8/8/p2r1p2/3p4/8/8 w - - 0 1");
    let moves = board.possible_br();
    let correct_moves: Vec<Move> = vec![
        Move::Normal { from: 27, to: 25 },
        Move::Normal { from: 27, to: 26 },
        Move::Normal { from: 27, to: 28 },
        Move::Normal { from: 27, to: 35 },
        Move::Normal { from: 27, to: 43 },
    ];
    assert_eq!(moves.len(), correct_moves.len());
    for m in moves {
        assert!(correct_moves.contains(&m));
    }
}

#[test]
fn board_b_rook_move_capture() {
    let board = Board::new("8/3P4/8/8/P2r1P2/3P4/8/8 w - - 0 1");
    let moves = board.possible_br();
    let correct_moves: Vec<Move> = vec![
        Move::Normal { from: 27, to: 24 },
        Move::Normal { from: 27, to: 25 },
        Move::Normal { from: 27, to: 26 },
        Move::Normal { from: 27, to: 28 },
        Move::Normal { from: 27, to: 29 },
        Move::Normal { from: 27, to: 19 },
        Move::Normal { from: 27, to: 35 },
        Move::Normal { from: 27, to: 43 },
        Move::Normal { from: 27, to: 51 },
    ];
    assert_eq!(moves.len(), correct_moves.len());
    for m in moves {
        assert!(correct_moves.contains(&m));
    }
}

#[test]
fn board_overflow() {
    let board = Board::new("8/8/8/8/8/8/8/B7 w - - 0 1");
    let moves = board.possible_wb();

    assert_eq!(moves.len(), 7);
}

#[test]
fn board_w_bishop_move_border() {
    let board = Board::new("8/8/8/8/3B4/8/8/8 w - - 0 1");
    let moves = board.possible_wb();
    let correct_moves: Vec<Move> = vec![
        Move::Normal { from: 27, to: 0 },
        Move::Normal { from: 27, to: 9 },
        Move::Normal { from: 27, to: 18 },
        Move::Normal { from: 27, to: 36 },
        Move::Normal { from: 27, to: 45 },
        Move::Normal { from: 27, to: 54 },
        Move::Normal { from: 27, to: 63 },
        Move::Normal { from: 27, to: 48 },
        Move::Normal { from: 27, to: 41 },
        Move::Normal { from: 27, to: 34 },
        Move::Normal { from: 27, to: 20 },
        Move::Normal { from: 27, to: 13 },
        Move::Normal { from: 27, to: 6 },
    ];
    assert_eq!(moves.len(), correct_moves.len());
    for m in moves {
        assert!(correct_moves.contains(&m));
    }
}

#[test]
fn board_w_bishop_move_block() {
    let board = Board::new("8/8/1P3P2/8/3B4/4P3/8/P7 w - - 0 1");
    let moves = board.possible_wb();
    let correct_moves: Vec<Move> = vec![
        Move::Normal { from: 27, to: 9 },
        Move::Normal { from: 27, to: 18 },
        Move::Normal { from: 27, to: 36 },
        Move::Normal { from: 27, to: 34 },
    ];
    assert_eq!(moves.len(), correct_moves.len());
    for m in moves {
        assert!(correct_moves.contains(&m));
    }
}

#[test]
fn board_w_bishop_move_capture() {
    let board = Board::new("8/8/1p3p2/8/3B4/4p3/8/p7 w - - 0 1");
    let moves = board.possible_wb();
    let correct_moves: Vec<Move> = vec![
        Move::Normal { from: 27, to: 0 },
        Move::Normal { from: 27, to: 9 },
        Move::Normal { from: 27, to: 18 },
        Move::Normal { from: 27, to: 36 },
        Move::Normal { from: 27, to: 45 },
        Move::Normal { from: 27, to: 41 },
        Move::Normal { from: 27, to: 34 },
        Move::Normal { from: 27, to: 20 },
    ];
    assert_eq!(moves.len(), correct_moves.len());
    for m in moves {
        assert!(correct_moves.contains(&m));
    }
}

#[test]
fn board_b_bishop_move_border() {
    let board = Board::new("8/8/8/8/3b4/8/8/8 w - - 0 1");
    let moves = board.possible_bb();
    let correct_moves: Vec<Move> = vec![
        Move::Normal { from: 27, to: 0 },
        Move::Normal { from: 27, to: 9 },
        Move::Normal { from: 27, to: 18 },
        Move::Normal { from: 27, to: 36 },
        Move::Normal { from: 27, to: 45 },
        Move::Normal { from: 27, to: 54 },
        Move::Normal { from: 27, to: 63 },
        Move::Normal { from: 27, to: 48 },
        Move::Normal { from: 27, to: 41 },
        Move::Normal { from: 27, to: 34 },
        Move::Normal { from: 27, to: 20 },
        Move::Normal { from: 27, to: 13 },
        Move::Normal { from: 27, to: 6 },
    ];
    assert_eq!(moves.len(), correct_moves.len());
    for m in moves {
        assert!(correct_moves.contains(&m));
    }
}

#[test]
fn board_b_bishop_move_block() {
    let board = Board::new("8/8/1p3p2/8/3b4/4p3/8/p7 w - - 0 1");
    let moves = board.possible_bb();
    let correct_moves: Vec<Move> = vec![
        Move::Normal { from: 27, to: 9 },
        Move::Normal { from: 27, to: 18 },
        Move::Normal { from: 27, to: 36 },
        Move::Normal { from: 27, to: 34 },
    ];
    assert_eq!(moves.len(), correct_moves.len());
    for m in moves {
        assert!(correct_moves.contains(&m));
    }
}

#[test]
fn board_b_bishop_move_capture() {
    let board = Board::new("8/8/1P3P2/8/3b4/4P3/8/P7 w - - 0 1");
    let moves = board.possible_bb();
    let correct_moves: Vec<Move> = vec![
        Move::Normal { from: 27, to: 0 },
        Move::Normal { from: 27, to: 9 },
        Move::Normal { from: 27, to: 18 },
        Move::Normal { from: 27, to: 36 },
        Move::Normal { from: 27, to: 45 },
        Move::Normal { from: 27, to: 41 },
        Move::Normal { from: 27, to: 34 },
        Move::Normal { from: 27, to: 20 },
    ];
    assert_eq!(moves.len(), correct_moves.len());
    for m in moves {
        assert!(correct_moves.contains(&m));
    }
}

#[test]
fn board_w_queen_move_border() {
    let board = Board::new("8/8/8/8/3Q4/8/8/8 w - - 0 1");
    let moves = board.possible_wq();
    let correct_moves: Vec<Move> = vec![
        Move::Normal { from: 27, to: 0 },
        Move::Normal { from: 27, to: 9 },
        Move::Normal { from: 27, to: 18 },
        Move::Normal { from: 27, to: 36 },
        Move::Normal { from: 27, to: 45 },
        Move::Normal { from: 27, to: 54 },
        Move::Normal { from: 27, to: 63 },
        Move::Normal { from: 27, to: 48 },
        Move::Normal { from: 27, to: 41 },
        Move::Normal { from: 27, to: 34 },
        Move::Normal { from: 27, to: 20 },
        Move::Normal { from: 27, to: 13 },
        Move::Normal { from: 27, to: 6 },
        Move::Normal { from: 27, to: 24 },
        Move::Normal { from: 27, to: 25 },
        Move::Normal { from: 27, to: 26 },
        Move::Normal { from: 27, to: 28 },
        Move::Normal { from: 27, to: 29 },
        Move::Normal { from: 27, to: 30 },
        Move::Normal { from: 27, to: 31 },
        Move::Normal { from: 27, to: 3 },
        Move::Normal { from: 27, to: 11 },
        Move::Normal { from: 27, to: 19 },
        Move::Normal { from: 27, to: 35 },
        Move::Normal { from: 27, to: 43 },
        Move::Normal { from: 27, to: 51 },
        Move::Normal { from: 27, to: 59 },
    ];
    assert_eq!(moves.len(), correct_moves.len());
    for m in moves {
        assert!(correct_moves.contains(&m));
    }
}

#[test]
fn board_w_queen_move_block() {
    let board = Board::new("8/3P4/1P3P2/8/P2Q1P2/3PP3/8/P7 w - - 0 1");
    let moves = board.possible_wq();
    let correct_moves: Vec<Move> = vec![
        Move::Normal { from: 27, to: 25 },
        Move::Normal { from: 27, to: 26 },
        Move::Normal { from: 27, to: 28 },
        Move::Normal { from: 27, to: 35 },
        Move::Normal { from: 27, to: 43 },
        Move::Normal { from: 27, to: 9 },
        Move::Normal { from: 27, to: 18 },
        Move::Normal { from: 27, to: 36 },
        Move::Normal { from: 27, to: 34 },
    ];
    assert_eq!(moves.len(), correct_moves.len());
    for m in moves {
        assert!(correct_moves.contains(&m));
    }
}

#[test]
fn board_w_queen_move_capture() {
    let board = Board::new("8/3p4/1p3p2/8/p2Q1p2/3pp3/8/p7 w - - 0 1");
    let moves = board.possible_wq();
    let correct_moves: Vec<Move> = vec![
        Move::Normal { from: 27, to: 24 },
        Move::Normal { from: 27, to: 25 },
        Move::Normal { from: 27, to: 26 },
        Move::Normal { from: 27, to: 28 },
        Move::Normal { from: 27, to: 29 },
        Move::Normal { from: 27, to: 19 },
        Move::Normal { from: 27, to: 35 },
        Move::Normal { from: 27, to: 43 },
        Move::Normal { from: 27, to: 51 },
        Move::Normal { from: 27, to: 0 },
        Move::Normal { from: 27, to: 9 },
        Move::Normal { from: 27, to: 18 },
        Move::Normal { from: 27, to: 36 },
        Move::Normal { from: 27, to: 45 },
        Move::Normal { from: 27, to: 41 },
        Move::Normal { from: 27, to: 34 },
        Move::Normal { from: 27, to: 20 },
    ];
    assert_eq!(moves.len(), correct_moves.len());
    for m in moves {
        assert!(correct_moves.contains(&m));
    }
}

#[test]
fn board_b_queen_move_border() {
    let board = Board::new("8/8/8/8/3q4/8/8/8 w - - 0 1");
    let moves = board.possible_bq();
    let correct_moves: Vec<Move> = vec![
        Move::Normal { from: 27, to: 0 },
        Move::Normal { from: 27, to: 9 },
        Move::Normal { from: 27, to: 18 },
        Move::Normal { from: 27, to: 36 },
        Move::Normal { from: 27, to: 45 },
        Move::Normal { from: 27, to: 54 },
        Move::Normal { from: 27, to: 63 },
        Move::Normal { from: 27, to: 48 },
        Move::Normal { from: 27, to: 41 },
        Move::Normal { from: 27, to: 34 },
        Move::Normal { from: 27, to: 20 },
        Move::Normal { from: 27, to: 13 },
        Move::Normal { from: 27, to: 6 },
        Move::Normal { from: 27, to: 24 },
        Move::Normal { from: 27, to: 25 },
        Move::Normal { from: 27, to: 26 },
        Move::Normal { from: 27, to: 28 },
        Move::Normal { from: 27, to: 29 },
        Move::Normal { from: 27, to: 30 },
        Move::Normal { from: 27, to: 31 },
        Move::Normal { from: 27, to: 3 },
        Move::Normal { from: 27, to: 11 },
        Move::Normal { from: 27, to: 19 },
        Move::Normal { from: 27, to: 35 },
        Move::Normal { from: 27, to: 43 },
        Move::Normal { from: 27, to: 51 },
        Move::Normal { from: 27, to: 59 },
    ];
    assert_eq!(moves.len(), correct_moves.len());
    for m in moves {
        assert!(correct_moves.contains(&m));
    }
}

#[test]
fn board_b_queen_move_block() {
    let board = Board::new("8/3p4/1p3p2/8/p2q1p2/3pp3/8/p7 w - - 0 1");
    let moves = board.possible_bq();
    let correct_moves: Vec<Move> = vec![
        Move::Normal { from: 27, to: 25 },
        Move::Normal { from: 27, to: 26 },
        Move::Normal { from: 27, to: 28 },
        Move::Normal { from: 27, to: 35 },
        Move::Normal { from: 27, to: 43 },
        Move::Normal { from: 27, to: 9 },
        Move::Normal { from: 27, to: 18 },
        Move::Normal { from: 27, to: 36 },
        Move::Normal { from: 27, to: 34 },
    ];
    assert_eq!(moves.len(), correct_moves.len());
    for m in moves {
        assert!(correct_moves.contains(&m));
    }
}

#[test]
fn board_b_queen_move_capture() {
    let board = Board::new("8/3P4/1P3P2/8/P2q1P2/3PP3/8/P7 w - - 0 1");
    let moves = board.possible_bq();
    let correct_moves: Vec<Move> = vec![
        Move::Normal { from: 27, to: 24 },
        Move::Normal { from: 27, to: 25 },
        Move::Normal { from: 27, to: 26 },
        Move::Normal { from: 27, to: 28 },
        Move::Normal { from: 27, to: 29 },
        Move::Normal { from: 27, to: 19 },
        Move::Normal { from: 27, to: 35 },
        Move::Normal { from: 27, to: 43 },
        Move::Normal { from: 27, to: 51 },
        Move::Normal { from: 27, to: 0 },
        Move::Normal { from: 27, to: 9 },
        Move::Normal { from: 27, to: 18 },
        Move::Normal { from: 27, to: 36 },
        Move::Normal { from: 27, to: 45 },
        Move::Normal { from: 27, to: 41 },
        Move::Normal { from: 27, to: 34 },
        Move::Normal { from: 27, to: 20 },
    ];
    assert_eq!(moves.len(), correct_moves.len());
    for m in moves {
        assert!(correct_moves.contains(&m));
    }
}

#[test]
fn board_w_knight_move() {
    let board = Board::new("8/8/8/8/3N4/8/8/8 w - - 0 1");
    let moves = board.possible_wn();
    let correct_moves: Vec<Move> = vec![
        Move::Normal { from: 27, to: 10 },
        Move::Normal { from: 27, to: 12 },
        Move::Normal { from: 27, to: 17 },
        Move::Normal { from: 27, to: 21 },
        Move::Normal { from: 27, to: 33 },
        Move::Normal { from: 27, to: 37 },
        Move::Normal { from: 27, to: 42 },
        Move::Normal { from: 27, to: 44 },
    ];
    assert_eq!(moves.len(), correct_moves.len());
    for m in moves {
        println!("{:?}", m);
        assert!(correct_moves.contains(&m));
    }
}

#[test]
fn board_w_knight_capture() {
    let board = Board::new("8/8/2p1p3/1p3p2/3N4/1p3p2/2p1p3/8 w - - 0 1");
    let moves = board.possible_wn();
    let correct_moves: Vec<Move> = vec![
        Move::Normal { from: 27, to: 10 },
        Move::Normal { from: 27, to: 12 },
        Move::Normal { from: 27, to: 17 },
        Move::Normal { from: 27, to: 21 },
        Move::Normal { from: 27, to: 33 },
        Move::Normal { from: 27, to: 37 },
        Move::Normal { from: 27, to: 42 },
        Move::Normal { from: 27, to: 44 },
    ];
    assert_eq!(moves.len(), correct_moves.len());
    for m in moves {
        assert!(correct_moves.contains(&m));
    }
}

#[test]
fn board_w_knight_block() {
    let board = Board::new("8/8/2P1P3/1P3P2/3N4/1P3P2/2P1P3/8 w - - 0 1");
    let moves = board.possible_wn();
    let correct_moves: Vec<Move> = vec![];
    assert_eq!(moves.len(), correct_moves.len());
    for m in moves {
        assert!(correct_moves.contains(&m));
    }
}

#[test]
fn board_w_knight_border() {
    let board = Board::new("N6N/8/8/8/8/8/8/N6N w - - 0 1");
    let moves = board.possible_wn();
    let correct_moves: Vec<Move> = vec![
        Move::Normal { from: 0, to: 10 },
        Move::Normal { from: 0, to: 17 },
        Move::Normal { from: 7, to: 13 },
        Move::Normal { from: 7, to: 22 },
        Move::Normal { from: 56, to: 41 },
        Move::Normal { from: 56, to: 50 },
        Move::Normal { from: 63, to: 46 },
        Move::Normal { from: 63, to: 53 },
    ];
    assert_eq!(moves.len(), correct_moves.len());
    for m in moves {
        assert!(correct_moves.contains(&m));
    }
}

#[test]
fn board_b_knight_move() {
    let board = Board::new("8/8/8/8/3n4/8/8/8 w - - 0 1");
    let moves = board.possible_bn();
    let correct_moves: Vec<Move> = vec![
        Move::Normal { from: 27, to: 10 },
        Move::Normal { from: 27, to: 12 },
        Move::Normal { from: 27, to: 17 },
        Move::Normal { from: 27, to: 21 },
        Move::Normal { from: 27, to: 33 },
        Move::Normal { from: 27, to: 37 },
        Move::Normal { from: 27, to: 42 },
        Move::Normal { from: 27, to: 44 },
    ];
    assert_eq!(moves.len(), correct_moves.len());
    for m in moves {
        assert!(correct_moves.contains(&m));
    }
}

#[test]
fn board_b_knight_capture() {
    let board = Board::new("8/8/2P1P3/1P3P2/3n4/1P3P2/2P1P3/8 w - - 0 1");
    let moves = board.possible_bn();
    let correct_moves: Vec<Move> = vec![
        Move::Normal { from: 27, to: 10 },
        Move::Normal { from: 27, to: 12 },
        Move::Normal { from: 27, to: 17 },
        Move::Normal { from: 27, to: 21 },
        Move::Normal { from: 27, to: 33 },
        Move::Normal { from: 27, to: 37 },
        Move::Normal { from: 27, to: 42 },
        Move::Normal { from: 27, to: 44 },
    ];
    assert_eq!(moves.len(), correct_moves.len());
    for m in moves {
        assert!(correct_moves.contains(&m));
    }
}

#[test]
fn board_b_knight_block() {
    let board = Board::new("8/8/2p1p3/1p3p2/3n4/1p3p2/2p1p3/8 w - - 0 1");
    let moves = board.possible_bn();
    let correct_moves: Vec<Move> = vec![];
    assert_eq!(moves.len(), correct_moves.len());
    for m in moves {
        assert!(correct_moves.contains(&m));
    }
}

#[test]
fn board_b_knight_border() {
    let board = Board::new("n6n/8/8/8/8/8/8/n6n w - - 0 1");
    let moves = board.possible_bn();
    let correct_moves: Vec<Move> = vec![
        Move::Normal { from: 0, to: 10 },
        Move::Normal { from: 0, to: 17 },
        Move::Normal { from: 7, to: 13 },
        Move::Normal { from: 7, to: 22 },
        Move::Normal { from: 56, to: 41 },
        Move::Normal { from: 56, to: 50 },
        Move::Normal { from: 63, to: 46 },
        Move::Normal { from: 63, to: 53 },
    ];
    assert_eq!(moves.len(), correct_moves.len());
    for m in moves {
        assert!(correct_moves.contains(&m));
    }
}

#[test]
fn board_w_king_move_capture() {
    let board = Board::new("8/8/8/2p1p3/3K4/2p1p3/8/8 w - - 0 1");
    let moves = board.possible_wk();
    let correct_moves: Vec<Move> = vec![
        Move::Normal { from: 27, to: 18 },
        Move::Normal { from: 27, to: 19 },
        Move::Normal { from: 27, to: 20 },
        Move::Normal { from: 27, to: 26 },
        Move::Normal { from: 27, to: 28 },
        Move::Normal { from: 27, to: 34 },
        Move::Normal { from: 27, to: 35 },
        Move::Normal { from: 27, to: 36 },
    ];
    assert_eq!(moves.len(), correct_moves.len());
    for m in moves {
        assert!(correct_moves.contains(&m));
    }
}

#[test]
fn board_w_king_block() {
    let board = Board::new("8/8/8/2PPP3/2PKP3/2PPP3/8/8 w - - 0 1");
    let moves = board.possible_wk();
    let correct_moves: Vec<Move> = vec![];
    assert_eq!(moves.len(), correct_moves.len());
    for m in moves {
        assert!(correct_moves.contains(&m));
    }
}

#[test]
fn board_b_king_move_capture() {
    let board = Board::new("8/8/8/2P1P3/3k4/2P1P3/8/8 w - - 0 1");
    let moves = board.possible_bk();
    let correct_moves: Vec<Move> = vec![
        Move::Normal { from: 27, to: 18 },
        Move::Normal { from: 27, to: 19 },
        Move::Normal { from: 27, to: 20 },
        Move::Normal { from: 27, to: 26 },
        Move::Normal { from: 27, to: 28 },
        Move::Normal { from: 27, to: 34 },
        Move::Normal { from: 27, to: 35 },
        Move::Normal { from: 27, to: 36 },
    ];
    assert_eq!(moves.len(), correct_moves.len());
    for m in moves {
        assert!(correct_moves.contains(&m));
    }
}

#[test]
fn board_b_king_block() {
    let board = Board::new("8/8/8/2ppp3/2pkp3/2ppp3/8/8 w - - 0 1");
    let moves = board.possible_bk();
    let correct_moves: Vec<Move> = vec![];
    assert_eq!(moves.len(), correct_moves.len());
    for m in moves {
        assert!(correct_moves.contains(&m));
    }
}

#[test]
fn board_castling_w_kq() {
    let board = Board::new("8/8/8/8/8/8/8/R3K2R w KQ - 0 1");
    let moves = board.possible_wc();
    let correct_moves: Vec<Move> = vec![
        Move::Castle {
            from: 4,
            to: 6,
            rook: 7,
        },
        Move::Castle {
            from: 4,
            to: 2,
            rook: 0,
        },
    ];
    assert_eq!(moves.len(), correct_moves.len());
    for m in moves {
        assert!(correct_moves.contains(&m));
    }
}

#[test]
fn board_castling_w_k() {
    let board = Board::new("8/8/8/8/8/8/8/R3K2R w K - 0 1");
    let moves = board.possible_wc();
    let correct_moves: Vec<Move> = vec![Move::Castle {
        from: 4,
        to: 6,
        rook: 7,
    }];
    assert_eq!(moves.len(), correct_moves.len());
    for m in moves {
        assert!(correct_moves.contains(&m));
    }
}

#[test]
fn board_castling_w_q() {
    let board = Board::new("8/8/8/8/8/8/8/R3K2R w Q - 0 1");
    let moves = board.possible_wc();
    let correct_moves: Vec<Move> = vec![Move::Castle {
        from: 4,
        to: 2,
        rook: 0,
    }];
    assert_eq!(moves.len(), correct_moves.len());
    for m in moves {
        assert!(correct_moves.contains(&m));
    }
}

#[test]
fn board_castling_w_unsafe() {
    let board = Board::new("2r3r1/8/8/8/8/8/8/R3K2R w KQ - 0 1");

    let moves = board.possible_wc();
    let correct_moves: Vec<Move> = vec![];
    assert_eq!(moves.len(), correct_moves.len());
}

#[test]
fn board_castling_w_checked() {
    let board = Board::new("4r3/8/8/8/8/8/8/R3K2R w KQ - 0 1");
    let moves = board.possible_wc();
    let correct_moves: Vec<Move> = vec![];
    assert_eq!(moves.len(), correct_moves.len());
}

#[test]
fn board_castling_w_blocked() {
    let board = Board::new("8/8/8/8/8/8/8/R2PKP1R w KQ - 0 1");
    let moves = board.possible_wc();
    let correct_moves: Vec<Move> = vec![];
    assert_eq!(moves.len(), correct_moves.len());
}

#[test]
fn board_castling_b_kq() {
    let board = Board::new("r3k2r/8/8/8/8/8/8/8 w kq - 0 1");
    let moves = board.possible_bc();
    let correct_moves: Vec<Move> = vec![
        Move::Castle {
            from: 60,
            to: 62,
            rook: 63,
        },
        Move::Castle {
            from: 60,
            to: 58,
            rook: 56,
        },
    ];
    assert_eq!(moves.len(), correct_moves.len());
    for m in moves {
        assert!(correct_moves.contains(&m));
    }
}

#[test]
fn board_castling_b_k() {
    let board = Board::new("r3k2r/8/8/8/8/8/8/8 w k - 0 1");
    let moves = board.possible_bc();
    let correct_moves: Vec<Move> = vec![Move::Castle {
        from: 60,
        to: 62,
        rook: 63,
    }];
    assert_eq!(moves.len(), correct_moves.len());
    for m in moves {
        assert!(correct_moves.contains(&m));
    }
}

#[test]
fn board_castling_b_q() {
    let board = Board::new("r3k2r/8/8/8/8/8/8/8 w q - 0 1");
    let moves = board.possible_bc();
    let correct_moves: Vec<Move> = vec![Move::Castle {
        from: 60,
        to: 58,
        rook: 56,
    }];
    assert_eq!(moves.len(), correct_moves.len());
    for m in moves {
        assert!(correct_moves.contains(&m));
    }
}

#[test]
fn board_castling_b_unsafe() {
    let board = Board::new("r3k2r/8/8/8/8/8/8/2R2R2 w q - 0 1");
    let moves = board.possible_bc();
    let correct_moves: Vec<Move> = vec![];
    assert_eq!(moves.len(), correct_moves.len());
}

#[test]
fn board_castling_b_checked() {
    let board = Board::new("r3k2r/8/8/8/8/8/8/4R3 w q - 0 1");
    let moves = board.possible_bc();
    let correct_moves: Vec<Move> = vec![];
    assert_eq!(moves.len(), correct_moves.len());
}

#[test]
fn board_castling_b_blocked() {
    let board = Board::new("r2pkp1r/8/8/8/8/8/8/8 w q - 0 1");
    let moves = board.possible_bc();
    let correct_moves: Vec<Move> = vec![];
    assert_eq!(moves.len(), correct_moves.len());
}

#[test]
fn board_w_unsafe_squares() {
    let board = Board::new("8/4r3/3n2b1/3p2n1/4K3/8/6q1/8 w - - 0 1");
    let unsafe_squares: u64 = board.unsafe_w();
    let correct_unsafe_squares: u64 = 1508443033184550880;
    assert_eq!(unsafe_squares, correct_unsafe_squares);
}

#[test]
fn board_b_unsafe_squares() {
    let board = Board::new("8/4R3/3N2B1/6N1/4k3/3P4/6Q1/8 w - - 0 1");
    let unsafe_squares: u64 = board.unsafe_b();
    let correct_unsafe_squares: u64 = 1508443033184550880;
    assert_eq!(unsafe_squares, correct_unsafe_squares);
}
