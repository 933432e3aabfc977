use chess_lib::board::Board;
use chess_lib::game::{Game, GameState};
use chess_lib::errors::EngineError;
use chess_lib::movegen::legal_moves;
use chess_lib::moves::{Move, SpecialMove};
use chess_lib::piece::{Color, Piece, PieceKind};

const START_FEN: &str = "rnbqkbnr/pppppppp/8/8/8/8/PPPPPPPP/RNBQKBNR w KQkq - 0 1";

fn find_move(b: &Board, s: &str) -> Move {
    let moves = legal_moves(b);
    for m in moves.iter() {
        if m.string() == s {
            return *m;
        }
    }
    panic!("move {} not found", s);
}

#[test]
fn start_pos_matches_fen() {
    let b = Board::from_fen(START_FEN).unwrap();
    assert_eq!(b, Board::start_pos());
    assert_eq!(b.side_to_move, Color::White);
    assert_eq!(b.can_castle, 0b1111);
    assert_eq!(b.en_passant, None);
    assert!(!b.in_check);
}

#[test]
fn start_pos_has_twenty_moves() {
    let b = Board::start_pos();
    assert_eq!(legal_moves(&b).len(), 20);
}

#[test]
fn fen_round_trip_start() {
    let b = Board::from_fen(START_FEN).unwrap();
    assert_eq!(b.to_fen(), START_FEN);
}

#[test]
fn fen_round_trip_castling_and_ep() {
    let fens = [
        "r3k2r/8/8/8/8/8/8/R3K2R w KQkq - 0 1",
        "4k3/8/8/3pP3/8/8/8/4K3 w - d6 0 1",
        "8/P7/8/8/8/8/8/4k2K w - - 0 1",
        "r1bqkb1r/pppp1ppp/2n2n2/4p3/2B1P3/5N2/PPPP1PPP/RNBQK2R w KQkq - 0 1",
    ];
    for fen in fens.iter() {
        let b = Board::from_fen(fen).unwrap();
        assert_eq!(&b.to_fen(), fen);
    }
}

#[test]
fn malformed_fen_rejected() {
    let bad = [
        "",
        "rnbqkbnr/pppppppp/8/8/8/8/PPPPPPPP/RNBQKBNR",
        "rnbqkbnr/ppppppp/8/8/8/8/PPPPPPPP/RNBQKBNR w KQkq - 0 1",
        "rnbqkbnr/pppppppp/8/8/8/8/PPPPPPPP/RNBQKBNX w KQkq - 0 1",
        "rnbqkbnr/pppppppp/8/8/8/8/PPPPPPPP/RNBQKBNR x KQkq - 0 1",
        "rnbqkbnr/pppppppp/8/8/8/8/PPPPPPPP/RNBQKBNR w XQkq - 0 1",
        "rnbqkbnr/pppppppp/8/8/8/8/PPPPPPPP/RNBQKBNR w KQkq z9 0 1",
        "9/8/8/8/8/8/8/8 w - - 0 1",
        "8/8/8/8/8/8/8/8 w - - 0 1",
        "rnbqkbnr/pppppppp/8/8/8/8/PPPPPPPP/RNBQKBNR w KQkq e3 0 1",
    ];
    for fen in bad.iter() {
        match Board::from_fen(fen) {
            Err(EngineError::MalformedFen(_)) => {}
            other => panic!("expected MalformedFen for {:?}, got {:?}", fen, other.is_ok()),
        }
    }
}

#[test]
fn en_passant_move_generated() {
    let b = Board::from_fen("4k3/8/8/3pP3/8/8/8/4K3 w - d6 0 1").unwrap();
    let moves = legal_moves(&b);
    let ep: Vec<&Move> = moves
        .iter()
        .filter(|m| m.string() == "e5d6" && m.special == Some(SpecialMove::EnPassant))
        .collect();
    assert_eq!(ep.len(), 1);
    assert!(ep[0].capture);
    let b2 = chess_lib::api::apply_move(&b, "e5d6").unwrap();
    assert_eq!(b2.piece(43), Some(Piece { kind: PieceKind::Pawn, color: Color::White }));
    assert_eq!(b2.piece(35), None);
}

#[test]
fn both_castles_generated() {
    let b = Board::from_fen("r3k2r/8/8/8/8/8/8/R3K2R w KQkq - 0 1").unwrap();
    let moves = legal_moves(&b);
    let kingside = moves
        .iter()
        .any(|m| m.string() == "e1g1" && m.special == Some(SpecialMove::Castle));
    let queenside = moves
        .iter()
        .any(|m| m.string() == "e1c1" && m.special == Some(SpecialMove::Castle));
    assert!(kingside && queenside);
}

#[test]
fn castle_moves_rook_and_clears_rights() {
    let b = Board::from_fen("r3k2r/8/8/8/8/8/8/R3K2R w KQkq - 0 1").unwrap();
    let b2 = chess_lib::api::apply_move(&b, "e1g1").unwrap();
    assert_eq!(b2.piece(6), Some(Piece { kind: PieceKind::King, color: Color::White }));
    assert_eq!(b2.piece(5), Some(Piece { kind: PieceKind::Rook, color: Color::White }));
    assert_eq!(b2.piece(7), None);
    assert_eq!(b2.can_castle, 0b1100);
    assert_eq!(b2.side_to_move, Color::Black);
}

#[test]
fn four_promotions_generated() {
    let b = Board::from_fen("8/P7/8/8/8/8/8/4k2K w - - 0 1").unwrap();
    let moves = legal_moves(&b);
    let promos: Vec<&Move> = moves.iter().filter(|m| m.from == 48 && m.to == 56).collect();
    assert_eq!(promos.len(), 4);
    let mut kinds = Vec::new();
    for m in promos.iter() {
        match m.special {
            Some(SpecialMove::Promotion(k)) => kinds.push(k),
            other => panic!("expected a promotion, got {:?}", other),
        }
    }
    kinds.sort_by_key(|k| k.index());
    assert_eq!(
        kinds,
        vec![PieceKind::Knight, PieceKind::Bishop, PieceKind::Rook, PieceKind::Queen]
    );
    let b2 = chess_lib::api::apply_move(&b, "a7a8=q").unwrap();
    assert_eq!(b2.piece(56), Some(Piece { kind: PieceKind::Queen, color: Color::White }));
}

#[test]
fn double_push_sets_en_passant_target() {
    let b = Board::start_pos();
    let m = find_move(&b, "e2e4");
    assert_eq!(m.special, Some(SpecialMove::DoublePush));
    let b2 = chess_lib::api::apply_move(&b, "e2e4").unwrap();
    assert_eq!(b2.en_passant, Some(20));
    let b3 = chess_lib::api::apply_move(&b2, "g8f6").unwrap();
    assert_eq!(b3.en_passant, None);
}

#[test]
fn checkmate_detected() {
    let mut g = Game::from_fen("8/8/8/8/8/5k2/6q1/7K w - - 0 1").unwrap();
    g.update_state();
    assert!(legal_moves(&g.board).is_empty());
    assert!(g.board.in_check);
    assert_eq!(g.game_state, GameState::Checkmate);
}

#[test]
fn stalemate_detected() {
    let mut g = Game::from_fen("8/8/8/8/8/1k6/p7/K7 w - - 0 1").unwrap();
    g.update_state();
    assert!(legal_moves(&g.board).is_empty());
    assert!(!g.board.in_check);
    assert_eq!(g.game_state, GameState::Stalemate);
}

#[test]
fn insufficient_material_detected() {
    let mut g = Game::from_fen("8/8/8/8/8/4k3/8/4K3 w - - 0 1").unwrap();
    g.update_state();
    assert_eq!(g.game_state, GameState::DrawByInsufficientMaterial);
}

#[test]
fn fifty_move_rule_detected() {
    let mut g = Game::default();
    g.fifty_move_rule = 100;
    g.update_state();
    assert_eq!(g.game_state, GameState::DrawByFiftyMoveRule);
}

#[test]
fn threefold_repetition_detected() {
    let mut g = Game::default();
    let shuffle = ["g1f3", "g8f6", "f3g1", "f6g8"];
    for _round in 0..3 {
        for s in shuffle.iter() {
            let m = find_move(&g.board, s);
            g.make_move(m);
        }
    }
    assert_eq!(g.game_state, GameState::DrawByRepetition);
}

#[test]
fn fifty_counter_resets_on_pawn_move_and_capture() {
    let mut g = Game::default();
    g.make_move(find_move(&g.board, "g1f3"));
    assert_eq!(g.fifty_move_rule, 1);
    g.make_move(find_move(&g.board, "e7e5"));
    assert_eq!(g.fifty_move_rule, 0);
    g.make_move(find_move(&g.board, "f3e5"));
    assert_eq!(g.fifty_move_rule, 0);
}

#[test]
fn malformed_move_rejected() {
    let b = Board::start_pos();
    for s in ["", "e2", "e2e5", "e9e4", "e2e4=q", "xyzw"].iter() {
        match chess_lib::api::apply_move(&b, s) {
            Err(EngineError::MalformedMove) => {}
            other => panic!("expected MalformedMove for {:?}, got ok={:?}", s, other.is_ok()),
        }
    }
}

#[test]
fn in_check_flag_tracks_checks() {
    let b = Board::from_fen("rnbqkbnr/ppp1pppp/8/3p4/4P3/8/PPPP1PPP/RNBQKBNR w KQkq - 0 1")
        .unwrap();
    let b2 = chess_lib::api::apply_move(&b, "f1b5").unwrap();
    assert!(b2.in_check);
    assert_eq!(b2.side_to_move, Color::Black);
}

#[test]
fn piece_encoding_round_trip() {
    for kind in [
        PieceKind::Pawn,
        PieceKind::Knight,
        PieceKind::Bishop,
        PieceKind::Rook,
        PieceKind::Queen,
        PieceKind::King,
    ] {
        for color in [Color::White, Color::Black] {
            let p = Piece::new(kind, color);
            let q = Piece::from_bits(p.to_bits());
            assert_eq!(p, q);
        }
    }
    assert_eq!(Piece::new(PieceKind::Pawn, Color::White).to_bits(), 0b1000);
    assert_eq!(Piece::new(PieceKind::King, Color::Black).to_bits(), 0b0101);
}

#[test]
fn opposite_color_flips() {
    assert_eq!(chess_lib::piece::opposite_color(Color::White), Color::Black);
    assert_eq!(chess_lib::piece::opposite_color(Color::Black), Color::White);
    assert_eq!(Color::White.opposite(), Color::Black);
}

#[test]
fn square_strings() {
    let m = find_move(&Board::start_pos(), "a2a3");
    assert_eq!(m.from, 8);
    assert_eq!(m.to, 16);
    let b = Board::from_fen("8/P7/8/8/8/8/8/4k2K w - - 0 1").unwrap();
    let moves = legal_moves(&b);
    assert!(moves.iter().any(|m| m.string() == "a7a8=n"));
}

#[test]
fn pinned_piece_cannot_move() {
    // the bishop on e2 shields its king from the rook on e7
    let b = Board::from_fen("4k3/4r3/8/8/8/8/4B3/4K3 w - - 0 1").unwrap();
    let moves = legal_moves(&b);
    assert!(moves.iter().all(|m| m.piece.kind != PieceKind::Bishop));
    assert!(!moves.is_empty());
}

#[test]
fn king_cannot_walk_into_check() {
    let b = Board::from_fen("4k3/8/8/8/8/8/r7/4K3 w - - 0 1").unwrap();
    let moves = legal_moves(&b);
    // every king destination on the second rank is covered by the rook
    assert!(moves.iter().all(|m| m.to / 8 != 1));
    assert!(!moves.is_empty());
}
