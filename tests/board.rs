use action_chess::board::Board;
use action_chess::cooldowns::{COOLDOWN_KING, COOLDOWN_PAWN, COOLDOWN_QUEEN, COOLDOWN_ROOK};
use action_chess::coordinate::Coord;
use action_chess::movegen::MoveGen;
use action_chess::piece::Color::{self, Black, White};
use action_chess::piece::{Move, Piece};

#[allow(dead_code)]
const A1: Coord = Coord(0, 0);
#[allow(dead_code)]
const B1: Coord = Coord(1, 0);
#[allow(dead_code)]
const C1: Coord = Coord(2, 0);
#[allow(dead_code)]
const D1: Coord = Coord(3, 0);
#[allow(dead_code)]
const E1: Coord = Coord(4, 0);
#[allow(dead_code)]
const F1: Coord = Coord(5, 0);
#[allow(dead_code)]
const G1: Coord = Coord(6, 0);
#[allow(dead_code)]
const H1: Coord = Coord(7, 0);
#[allow(dead_code)]
const A2: Coord = Coord(0, 1);
#[allow(dead_code)]
const B2: Coord = Coord(1, 1);
#[allow(dead_code)]
const C2: Coord = Coord(2, 1);
#[allow(dead_code)]
const D2: Coord = Coord(3, 1);
#[allow(dead_code)]
const E2: Coord = Coord(4, 1);
#[allow(dead_code)]
const F2: Coord = Coord(5, 1);
#[allow(dead_code)]
const G2: Coord = Coord(6, 1);
#[allow(dead_code)]
const H2: Coord = Coord(7, 1);
#[allow(dead_code)]
const A3: Coord = Coord(0, 2);
#[allow(dead_code)]
const B3: Coord = Coord(1, 2);
#[allow(dead_code)]
const C3: Coord = Coord(2, 2);
#[allow(dead_code)]
const D3: Coord = Coord(3, 2);
#[allow(dead_code)]
const E3: Coord = Coord(4, 2);
#[allow(dead_code)]
const F3: Coord = Coord(5, 2);
#[allow(dead_code)]
const G3: Coord = Coord(6, 2);
#[allow(dead_code)]
const H3: Coord = Coord(7, 2);
#[allow(dead_code)]
const A4: Coord = Coord(0, 3);
#[allow(dead_code)]
const B4: Coord = Coord(1, 3);
#[allow(dead_code)]
const C4: Coord = Coord(2, 3);
#[allow(dead_code)]
const D4: Coord = Coord(3, 3);
#[allow(dead_code)]
const E4: Coord = Coord(4, 3);
#[allow(dead_code)]
const F4: Coord = Coord(5, 3);
#[allow(dead_code)]
const G4: Coord = Coord(6, 3);
#[allow(dead_code)]
const H4: Coord = Coord(7, 3);
#[allow(dead_code)]
const A5: Coord = Coord(0, 4);
#[allow(dead_code)]
const B5: Coord = Coord(1, 4);
#[allow(dead_code)]
const C5: Coord = Coord(2, 4);
#[allow(dead_code)]
const D5: Coord = Coord(3, 4);
#[allow(dead_code)]
const E5: Coord = Coord(4, 4);
#[allow(dead_code)]
const F5: Coord = Coord(5, 4);
#[allow(dead_code)]
const G5: Coord = Coord(6, 4);
#[allow(dead_code)]
const H5: Coord = Coord(7, 4);
#[allow(dead_code)]
const A6: Coord = Coord(0, 5);
#[allow(dead_code)]
const B6: Coord = Coord(1, 5);
#[allow(dead_code)]
const C6: Coord = Coord(2, 5);
#[allow(dead_code)]
const D6: Coord = Coord(3, 5);
#[allow(dead_code)]
const E6: Coord = Coord(4, 5);
#[allow(dead_code)]
const F6: Coord = Coord(5, 5);
#[allow(dead_code)]
const G6: Coord = Coord(6, 5);
#[allow(dead_code)]
const H6: Coord = Coord(7, 5);
#[allow(dead_code)]
const A7: Coord = Coord(0, 6);
#[allow(dead_code)]
const B7: Coord = Coord(1, 6);
#[allow(dead_code)]
const C7: Coord = Coord(2, 6);
#[allow(dead_code)]
const D7: Coord = Coord(3, 6);
#[allow(dead_code)]
const E7: Coord = Coord(4, 6);
#[allow(dead_code)]
const F7: Coord = Coord(5, 6);
#[allow(dead_code)]
const G7: Coord = Coord(6, 6);
#[allow(dead_code)]
const H7: Coord = Coord(7, 6);
#[allow(dead_code)]
const A8: Coord = Coord(0, 7);
#[allow(dead_code)]
const B8: Coord = Coord(1, 7);
#[allow(dead_code)]
const C8: Coord = Coord(2, 7);
#[allow(dead_code)]
const D8: Coord = Coord(3, 7);
#[allow(dead_code)]
const E8: Coord = Coord(4, 7);
#[allow(dead_code)]
const F8: Coord = Coord(5, 7);
#[allow(dead_code)]
const G8: Coord = Coord(6, 7);
#[allow(dead_code)]
const H8: Coord = Coord(7, 7);

fn count_pieces(board: &Board) -> usize {
    let mut count = 0;
    for y in 0..8 {
        for x in 0..8 {
            if board.pieces[y][x].is_some() {
                count += 1;
            }
        }
    }
    count
}

#[test]
fn board_get_by_color() {
    let board = Board::standard();
    let black_pieces = board.filter_by_color(Black);
    assert_eq!(count_pieces(&black_pieces), 16);
}

#[test]
fn board_get_all_black_pawns() {
    let board = Board::new();
    let black_pawns = board.filter_by_piece(Piece::Pawn(Black, COOLDOWN_PAWN));
    assert_eq!(black_pawns.pieces.len(), 8);
    assert_eq!(count_pieces(&black_pawns), 8);
    assert_eq!(black_pawns.get_piece_count(), 8);
}

#[test]
fn get_number_of_checks_on_white_king() {
    let mut board = Board::empty();
    board.set_piece_at(Some(Piece::Rook(Color::Black, 0)), A8);
    board.set_piece_at(Some(Piece::Bishop(Color::Black, 0)), H8);
    board.set_piece_at(Some(Piece::King(Color::White, 0)), A1);
    let count = board.king_check_count(Color::White);
    assert_eq!(count, 2);
}

#[test]
fn board_standard_fen() {
    let board = Board::from("rnbqkbnr/pppppppp/8/8/8/8/PPPPPPPP/RNBQKBNR w qkQK - 0 1");
    let standard = Board::standard();
    assert_eq!(board.pieces, standard.pieces);
    assert!(
        board.white_can_castle_kingside
            && board.white_can_castle_queenside
            && board.black_can_castle_kingside
            && board.black_can_castle_queenside
    );
    let parsed =
        Board::from_fen("rnbqkbnr/pppppppp/8/8/8/8/PPPPPPPP/RNBQKBNR w qkQK - 0 1").unwrap();
    assert_eq!(parsed.pieces, Board::new().pieces);
}

#[test]
fn board_custom_fen() {
    let board = Board::from("r1bk3r/p2pBpNp/n4n2/1p1NP2P/6P1/3P4/P1P1K3/q5b1 w qQ - 0 0");
    assert_eq!(board.get_piece_at(&A8), Some(Piece::Rook(Black, COOLDOWN_ROOK)));
    assert_eq!(board.get_piece_at(&H8), Some(Piece::Rook(Black, COOLDOWN_ROOK)));
    assert_eq!(board.get_piece_at(&A1), Some(Piece::Queen(Black, COOLDOWN_QUEEN)));
    assert_eq!(board.get_piece_at(&E2), Some(Piece::King(White, COOLDOWN_KING)));
    assert!(!board.white_can_castle_kingside);
    assert!(board.white_can_castle_queenside);
    assert!(!board.black_can_castle_kingside);
    assert!(board.black_can_castle_queenside);
}

#[test]
fn fen_keeps_standard_cooldowns() {
    let board = Board::from("r1bk3r/p2pBpNp/n4n2/1p1NP2P/6P1/3P4/P1P1K3/q5b1 w qQ - 0 0");
    assert_eq!(board.get_piece_at(&A1).unwrap().get_cooldown(), COOLDOWN_QUEEN);
    assert_eq!(board.get_piece_at(&E2).unwrap().get_cooldown(), COOLDOWN_KING);
}

#[test]
fn fen_with_too_few_fields_is_refused() {
    assert!(Board::from_fen("8/8/8/8/8/8/8/8 w").is_none());
    assert!(Board::from_fen("").is_none());
    let board = Board::from("8/8/8/8/8/8/8/K7 w");
    assert_eq!(board.get_piece_count(), 0);
    assert!(!board.white_can_castle_kingside);
}

#[test]
fn fen_with_malformed_placement_is_refused() {
    assert!(Board::from_fen("8/8/8/8/8/8/8/8/8 w KQkq - 0 1").is_none());
    assert!(Board::from_fen("k8/8/8/8/8/8/8/8 w KQkq - 0 1").is_none());
    let board = Board::from("8/8/8/8/8/8/8/8/8 w KQkq - 0 1");
    assert_eq!(board.get_piece_count(), 0);
    assert!(!board.black_can_castle_queenside);
}

#[test]
fn fen_skips_unknown_characters() {
    let board = Board::from_fen("4k3/8/8/8/8/8/8/4x?K3 w - - 0 1").unwrap();
    assert_eq!(board.get_piece_at(&E1), Some(Piece::King(White, 0)));
    assert_eq!(board.get_piece_at(&E8), Some(Piece::King(Black, 0)));
    assert_eq!(board.get_piece_count(), 2);
}

#[test]
fn standard_board_layout() {
    let board = Board::standard();
    assert_eq!(board.get_piece_count(), 32);
    assert_eq!(board.get_piece_at(&D1), Some(Piece::Queen(White, 0)));
    assert_eq!(board.get_piece_at(&E8), Some(Piece::King(Black, 0)));
    assert_eq!(board.get_piece_at(&E4), None);
    for y in 0..8 {
        for x in 0..8 {
            if let Some(p) = board.pieces[y][x] {
                assert_eq!(p.get_cooldown(), 0);
            }
        }
    }
}

#[test]
fn empty_and_default_boards() {
    let board = Board::default();
    assert_eq!(board.get_piece_count(), 0);
    assert!(!board.white_can_castle_kingside && !board.black_can_castle_queenside);
    assert_eq!(Board::empty().pieces, board.pieces);
}

#[test]
fn off_board_square_reads_empty() {
    let board = Board::standard();
    assert_eq!(board.get_piece_at(&Coord(-1, 0)), None);
    assert_eq!(board.get_piece_at(&Coord(0, 8)), None);
    assert!(!Coord(8, 0).is_valid());
    assert_eq!(&E4.algebraic(), b"e4");
    assert_eq!(&H8.algebraic(), b"h8");
    assert_eq!(&A1.algebraic(), b"a1");
    assert!(Coord(7, 7).is_valid());
}

#[test]
fn remove_by_piece_ignores_cooldown() {
    let mut board = Board::standard();
    board.remove_by_piece(&Piece::Pawn(White, 700));
    assert_eq!(board.get_piece_count(), 24);
    assert_eq!(board.get_piece_at(&A2), None);
    assert_eq!(board.get_piece_at(&A7), Some(Piece::Pawn(Black, 0)));
}

#[test]
fn coord_for_piece_finds_first_match() {
    let board = Board::standard();
    assert_eq!(board.get_coord_for_piece(&Piece::King(Black, 5)), Some(E8));
    assert_eq!(board.get_coord_for_piece(&Piece::Rook(White, 0)), Some(A1));
    assert_eq!(board.get_coord_for_piece(&Piece::Knight(Black, 0)), Some(B8));
    assert_eq!(Board::empty().get_coord_for_piece(&Piece::King(White, 0)), None);
}

#[test]
fn tick_lowers_cooldowns_and_stops_at_zero() {
    let mut board = Board::empty();
    board.set_piece_at(Some(Piece::Rook(White, 40)), A1);
    board.set_piece_at(Some(Piece::Pawn(Black, 5)), B7);
    board.tick();
    assert_eq!(board.get_piece_at(&A1).unwrap().get_cooldown(), 24);
    assert_eq!(board.get_piece_at(&B7).unwrap().get_cooldown(), 0);
    board.tick();
    board.tick();
    assert_eq!(board.get_piece_at(&A1).unwrap().get_cooldown(), 0);
    assert!(board.get_piece_at(&A1).unwrap().is_rook());
}

#[test]
fn cooldown_then_ticks_restore_moves() {
    let mut board = Board::empty();
    board.set_piece_at(Some(Piece::Rook(White, 50)), A3);
    assert!(MoveGen::new(&board).get_possible_moves().is_empty());
    for _ in 0..3 {
        board.tick();
    }
    assert_eq!(board.get_piece_at(&A3).unwrap().get_cooldown(), 2);
    assert!(MoveGen::new(&board).get_possible_moves().is_empty());
    board.tick();
    assert_eq!(MoveGen::new(&board).get_possible_moves().len(), 14);
}

#[test]
fn plain_move_relocates_and_resets_cooldown() {
    let mut board = Board::standard();
    board.process_move(Move::Piece(E2, E4));
    assert_eq!(board.get_piece_at(&E2), None);
    let pawn = board.get_piece_at(&E4).unwrap();
    assert!(pawn.is_pawn());
    assert_eq!(pawn.get_cooldown(), COOLDOWN_PAWN);
    assert!(board.white_can_castle_kingside && board.white_can_castle_queenside);
}

#[test]
fn king_side_castle_places_king_and_rook() {
    let mut board = Board::empty();
    board.set_piece_at(Some(Piece::King(White, 0)), E1);
    board.set_piece_at(Some(Piece::Rook(White, 0)), H1);
    board.white_can_castle_kingside = true;
    board.white_can_castle_queenside = true;
    board.process_move(Move::KingSideCastle(White));
    assert_eq!(board.get_piece_at(&G1), Some(Piece::King(White, COOLDOWN_KING)));
    assert_eq!(board.get_piece_at(&F1), Some(Piece::Rook(White, COOLDOWN_ROOK)));
    assert_eq!(board.get_piece_at(&E1), None);
    assert_eq!(board.get_piece_at(&H1), None);
    assert!(!board.white_can_castle_kingside && !board.white_can_castle_queenside);
}

#[test]
fn queen_side_castle_places_king_and_rook() {
    let mut board = Board::empty();
    board.set_piece_at(Some(Piece::King(Black, 0)), E8);
    board.set_piece_at(Some(Piece::Rook(Black, 0)), A8);
    board.black_can_castle_kingside = true;
    board.black_can_castle_queenside = true;
    board.process_move(Move::QueenSideCastle(Black));
    assert_eq!(board.get_piece_at(&C8), Some(Piece::King(Black, COOLDOWN_KING)));
    assert_eq!(board.get_piece_at(&D8), Some(Piece::Rook(Black, COOLDOWN_ROOK)));
    assert_eq!(board.get_piece_at(&A8), None);
    assert!(!board.black_can_castle_kingside && !board.black_can_castle_queenside);
}

#[test]
fn moving_king_or_rook_removes_rights_for_good() {
    let mut board = Board::empty();
    board.set_piece_at(Some(Piece::King(White, 0)), E1);
    board.set_piece_at(Some(Piece::Rook(White, 0)), H1);
    board.set_piece_at(Some(Piece::Rook(White, 0)), A1);
    board.white_can_castle_kingside = true;
    board.white_can_castle_queenside = true;
    board.process_move(Move::Piece(H1, H2));
    assert!(!board.white_can_castle_kingside);
    assert!(board.white_can_castle_queenside);
    board.process_move(Move::Piece(H2, H1));
    board.tick();
    assert!(!board.white_can_castle_kingside);
    board.process_move(Move::Piece(E1, E2));
    assert!(!board.white_can_castle_queenside);
    board.process_move(Move::Piece(E2, E1));
    for _ in 0..400 {
        board.tick();
    }
    let moves = MoveGen::new(&board).for_king(&Piece::King(White, 0), E1);
    assert!(!moves.contains(&Move::KingSideCastle(White)));
    assert!(!moves.contains(&Move::QueenSideCastle(White)));
}

#[test]
fn promotion_places_new_piece() {
    let mut board = Board::empty();
    board.set_piece_at(Some(Piece::Pawn(White, 0)), B7);
    board.process_move(Move::Promotion(B7, B8, Piece::Queen(White, 123)));
    assert_eq!(board.get_piece_at(&B7), None);
    assert_eq!(board.get_piece_at(&B8).unwrap().get_cooldown(), 123);
    assert!(board.get_piece_at(&B8).unwrap().is_queen());
}

#[test]
fn valid_move_check() {
    let board = Board::standard();
    assert!(board.is_valid_move(Move::Piece(E2, E4)));
    assert!(board.is_valid_move(Move::Piece(G8, F6)));
    assert!(!board.is_valid_move(Move::Piece(E2, E5)));
    assert!(!board.is_valid_move(Move::KingSideCastle(White)));
}

#[test]
fn no_king_means_no_checks() {
    let mut board = Board::empty();
    board.set_piece_at(Some(Piece::Rook(Black, 0)), A8);
    assert_eq!(board.king_check_count(White), 0);
}

#[test]
fn piece_identity_ignores_cooldown() {
    assert_eq!(Piece::Rook(White, 0), Piece::Rook(White, 9000));
    assert_ne!(Piece::Rook(White, 0), Piece::Rook(Black, 0));
    assert_ne!(Piece::Rook(White, 0), Piece::Queen(White, 0));
    let mut p = Piece::Knight(Black, 10);
    p.set_cooldown(0);
    assert_eq!(p.get_cooldown(), 0);
    assert!(p.is_knight());
    assert_eq!(p.get_color(), Black);
    assert_eq!(p.opposing_color(), White);
    assert_eq!(Piece::std_piece_cooldown(&Piece::Queen(White, 0)), COOLDOWN_QUEEN);
    assert_eq!(Color::White.opposite(), Black);
}
