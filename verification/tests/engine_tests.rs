use chess_lib::api::{apply_move, best_move, legal_moves_from_fen};
use chess_lib::board::Board;
use chess_lib::bot::{bot_move, BotTrait};
use chess_lib::errors::EngineError;
use chess_lib::eval::evaluate;
use chess_lib::movegen::legal_moves;
use chess_lib::search::Bot;
use chess_lib::transposition::{TranspositionKind, TranspositionTable};
use chess_lib::zobrist::Zobrist;

const START_FEN: &str = "rnbqkbnr/pppppppp/8/8/8/8/PPPPPPPP/RNBQKBNR w KQkq - 0 1";

#[test]
fn legal_moves_from_fen_start() {
    let moves = legal_moves_from_fen(START_FEN).unwrap();
    assert_eq!(moves.len(), 20);
    assert!(moves.iter().any(|s| s == "e2e4"));
    assert!(moves.iter().any(|s| s == "g1f3"));
}

#[test]
fn legal_moves_from_fen_rejects_garbage() {
    match legal_moves_from_fen("not a fen") {
        Err(EngineError::MalformedFen(_)) => {}
        other => panic!("expected MalformedFen, got ok={:?}", other.is_ok()),
    }
}

#[test]
fn hash_equal_for_equal_boards() {
    let z = Zobrist::new(12345);
    let b1 = Board::from_fen(START_FEN).unwrap();
    let b2 = Board::start_pos();
    assert_eq!(b1, b2);
    assert_eq!(z.hash(&b1), z.hash(&b2));
    let z2 = Zobrist::new(12345);
    assert_eq!(z.hash(&b1), z2.hash(&b1));
}

#[test]
fn hash_differs_across_positions_and_seeds() {
    let z = Zobrist::new(12345);
    let b1 = Board::start_pos();
    let b2 = apply_move(&b1, "e2e4").unwrap();
    assert_ne!(z.hash(&b1), z.hash(&b2));
    let z2 = Zobrist::new(54321);
    assert_ne!(z.hash(&b1), z2.hash(&b1));
}

#[test]
fn transposition_table_probe_and_store() {
    let mut tt = TranspositionTable::new(64);
    assert_eq!(tt.size(), 64);
    assert_eq!(tt.probe(77, 3, -100, 100), None);
    let m = chess_lib::moves::Move::empty();
    tt.store(77, 3, 42, TranspositionKind::Exact, m);
    assert_eq!(tt.stored_cnt, 1);
    assert_eq!(tt.probe(77, 3, -100, 100), Some(42));
    assert_eq!(tt.probe(77, 2, -100, 100), Some(42));
    assert_eq!(tt.probe(77, 4, -100, 100), None);
    assert_eq!(tt.probe(77 + 64, 3, -100, 100), None);
    tt.store(78, 3, 10, TranspositionKind::Alpha, m);
    assert_eq!(tt.probe(78, 3, 20, 100), Some(10));
    assert_eq!(tt.probe(78, 3, 5, 100), None);
    tt.store(79, 3, 90, TranspositionKind::Beta, m);
    assert_eq!(tt.probe(79, 3, 0, 80), Some(90));
    assert_eq!(tt.probe(79, 3, 0, 95), None);
}

#[test]
fn bot_construction_rejects_zero_parameters() {
    assert!(matches!(Bot::new(3, 0, 1000), Err(EngineError::OutOfRange)));
    assert!(matches!(Bot::new(3, 1024, 0), Err(EngineError::OutOfRange)));
    assert!(Bot::new(3, 1024, 1000).is_ok());
}

#[test]
fn search_determinism_with_fixed_seed() {
    let b = Board::from_fen("r1bqkb1r/pppp1ppp/2n2n2/4p3/2B1P3/5N2/PPPP1PPP/RNBQK2R w KQkq - 4 4")
        .unwrap();
    let mut bot1 = Bot::new(3, 1 << 16, 60_000).unwrap();
    let mut bot2 = Bot::new(3, 1 << 16, 60_000).unwrap();
    let m1 = bot1.make_move(b);
    let m2 = bot2.make_move(b);
    assert_eq!(m1, m2);
}

#[test]
fn search_finds_mate_in_one() {
    // the scholar's mate position: White mates with h5f7
    let b = Board::from_fen("r1bqkb1r/pppp1ppp/2n2n2/4p2Q/2B1P3/8/PPPP1PPP/RNB1K1NR w KQkq - 4 4")
        .unwrap();
    let mut bot = Bot::new(3, 1 << 16, 60_000).unwrap();
    let m = bot.make_move(b);
    assert_eq!(m.string(), "h5f7");
}

#[test]
fn best_move_on_open_position() {
    let fen = "r1bqkb1r/pppp1ppp/2n2n2/4p3/2B1P3/5N2/PPPP1PPP/RNBQK2R w KQkq - 4 4";
    let bm = best_move(fen, 4, 1 << 18, 12_000).unwrap().unwrap();
    assert!(bm.score.abs() < 400_000);
    assert!(bm.depth_reached >= 1);
    assert!(bm.nodes_searched > 0);
    let b = Board::from_fen(fen).unwrap();
    let legal = legal_moves(&b);
    assert!(legal.iter().any(|m| *m == bm.best_move));
    // the principal variation starts with a playable move
    assert!(!bm.pv.is_empty());
    assert!(apply_move(&b, &bm.pv[0]).is_ok());
}

#[test]
fn best_move_on_finished_game() {
    let bm = best_move("8/8/8/8/8/5k2/6q1/7K w - - 0 1", 3, 1024, 1000).unwrap();
    assert!(bm.is_none());
}

#[test]
fn best_move_rejects_bad_input() {
    assert!(matches!(best_move("junk", 3, 1024, 1000), Err(EngineError::MalformedFen(_))));
    assert!(matches!(best_move(START_FEN, 3, 0, 1000), Err(EngineError::OutOfRange)));
}

#[test]
fn random_bot_plays_legal_moves() {
    let b = Board::start_pos();
    let legal = legal_moves(&b);
    for _ in 0..20 {
        let m = bot_move(&b);
        assert!(legal.iter().any(|x| *x == m));
    }
}

#[test]
fn eval_start_position_is_balanced() {
    assert_eq!(evaluate(&Board::start_pos()), 0);
}

#[test]
fn eval_counts_material() {
    // White is a queen up; White to move sees +900 plus placement
    let b = Board::from_fen("4k3/8/8/8/8/8/8/3QK3 w - - 0 1").unwrap();
    let e = evaluate(&b);
    assert!(e >= 900, "evaluation {} should count the extra queen", e);
    // the same position from Black's point of view is the negation
    let b2 = Board::from_fen("4k3/8/8/8/8/8/8/3QK3 b - - 0 1").unwrap();
    assert_eq!(evaluate(&b2), -e);
}

#[test]
fn eval_mirror_antisymmetry() {
    // the mirror swaps colors, reverses the ranks, and flips the turn
    let fen = "r1bqkb1r/pppp1ppp/2n2n2/4p3/2B1P3/5N2/PPPP1PPP/RNBQK2R w KQkq - 0 1";
    let mirror = "rnbqk2r/pppp1ppp/5n2/2b1p3/4P3/2N2N2/PPPP1PPP/R1BQKB1R b KQkq - 0 1";
    let b = Board::from_fen(fen).unwrap();
    let bm = Board::from_fen(mirror).unwrap();
    assert_eq!(evaluate(&b), evaluate(&bm));
    // exchanging only the side to move negates the score
    let fen_black = "r1bqkb1r/pppp1ppp/2n2n2/4p3/2B1P3/5N2/PPPP1PPP/RNBQK2R b KQkq - 0 1";
    let bb = Board::from_fen(fen_black).unwrap();
    assert_eq!(evaluate(&bb), -evaluate(&b));
}

#[test]
fn tt_stores_counts_writes() {
    let mut bot = Bot::new(2, 1 << 14, 60_000).unwrap();
    let before = bot.tt_stores();
    bot.make_move(Board::start_pos());
    assert!(bot.tt_stores() > before);
}

#[test]
fn search_scores_mate_and_stalemate() {
    // the side to move is checkmated: the mate score at ply 0
    let mated = Board::from_fen("8/8/8/8/8/5k2/6q1/7K w - - 0 1").unwrap();
    let mut bot = Bot::new(1, 1024, 60_000).unwrap();
    let s = bot.search(mated, -500_000, 500_000, 1, 0, false);
    assert_eq!(s, -490_000);
    // stalemate scores zero
    let stale = Board::from_fen("8/8/8/8/8/1k6/p7/K7 w - - 0 1").unwrap();
    let mut bot2 = Bot::new(1, 1024, 60_000).unwrap();
    let s2 = bot2.search(stale, -500_000, 500_000, 1, 0, false);
    assert_eq!(s2, 0);
}

#[test]
fn quiescence_stands_pat_without_captures() {
    // a quiet position: quiescence returns the stand-pat evaluation
    let b = Board::start_pos();
    let mut bot = Bot::new(1, 1024, 60_000).unwrap();
    let q = bot.quiescence(b, -500_000, 500_000, 0);
    assert_eq!(q, evaluate(&b));
}

#[test]
fn fresh_engine_reports_zero_counters() {
    let bot = Bot::new(5, 2048, 1000).unwrap();
    assert_eq!(bot.transposition_table.table.len(), 2048);
    assert_eq!(bot.transposition_table.stored_cnt, 0);
    assert_eq!(bot.nodes_searched, 0);
    assert_eq!(bot.tt_hits, 0);
    assert_eq!(bot.score, 0);
    assert_eq!(bot.reached_depth, 0);
    assert!(!bot.should_stop);
    assert_eq!(bot.depth, 5);
    assert_eq!(bot.time, 1000);
}

#[test]
fn best_move_reports_search_fields() {
    let bm = best_move(START_FEN, 2, 1 << 14, 30_000).unwrap().unwrap();
    assert!(1 <= bm.depth_reached && bm.depth_reached <= 2);
    assert!(bm.nodes_searched >= 1);
    assert!(bm.score.abs() <= 1_000_000);
    assert!(bm.pv.len() <= 128);
    let b = Board::start_pos();
    assert!(apply_move(&b, &bm.pv[0]).is_ok());
    assert_eq!(bm.pv[0], bm.best_move.string());
}
