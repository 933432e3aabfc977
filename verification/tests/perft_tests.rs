use chess_lib::board::Board;
use chess_lib::game::perft;

#[test]
fn perft_depth_one() {
    assert_eq!(perft(&Board::start_pos(), 1), 20);
}

#[test]
fn perft_depth_two() {
    assert_eq!(perft(&Board::start_pos(), 2), 400);
}

#[test]
fn perft_depth_three() {
    assert_eq!(perft(&Board::start_pos(), 3), 8_902);
}

#[test]
fn perft_depth_four() {
    assert_eq!(perft(&Board::start_pos(), 4), 197_281);
}

#[test]
fn perft_kiwipete_shallow() {
    // a tactical position rich in castles, promotions and pins
    let b = Board::from_fen("r3k2r/p1ppqpb1/bn2pnp1/3PN3/1p2P3/2N2Q1p/PPPBBPPP/R3K2R w KQkq - 0 1")
        .unwrap();
    assert_eq!(perft(&b, 1), 48);
    assert_eq!(perft(&b, 2), 2_039);
}

#[test]
fn perft_en_passant_pins() {
    // position three of the usual perft suite: en-passant legality
    let b = Board::from_fen("8/2p5/3p4/KP5r/1R3p1k/8/4P1P1/8 w - - 0 1").unwrap();
    assert_eq!(perft(&b, 1), 14);
    assert_eq!(perft(&b, 2), 191);
    assert_eq!(perft(&b, 3), 2_812);
}

#[test]
fn perft_depth_five() {
    assert_eq!(perft(&Board::start_pos(), 5), 4_865_609);
}
