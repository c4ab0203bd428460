use action_chess::board::Board;
use action_chess::cooldowns::{COOLDOWN_BISHOP, COOLDOWN_KNIGHT, COOLDOWN_QUEEN, COOLDOWN_ROOK};
use action_chess::coordinate::Coord;
use action_chess::gamestate::GameState;
use action_chess::movegen::MoveGen;
use action_chess::piece::Color::{Black, White};
use action_chess::piece::{Move, Piece};

#[allow(dead_code)]
const A1: Coord = Coord(0, 0);
#[allow(dead_code)]
const B1: Coord = Coord(1, 0);
#[allow(dead_code)]
const C1: Coord = Coord(2, 0);
#[allow(dead_code)]
const D1: Coord = Coord(3, 0);
#[allow(dead_code)]
const E1: Coord = Coord(4, 0);
#[allow(dead_code)]
const F1: Coord = Coord(5, 0);
#[allow(dead_code)]
const G1: Coord = Coord(6, 0);
#[allow(dead_code)]
const H1: Coord = Coord(7, 0);
#[allow(dead_code)]
const A2: Coord = Coord(0, 1);
#[allow(dead_code)]
const B2: Coord = Coord(1, 1);
#[allow(dead_code)]
const C2: Coord = Coord(2, 1);
#[allow(dead_code)]
const D2: Coord = Coord(3, 1);
#[allow(dead_code)]
const E2: Coord = Coord(4, 1);
#[allow(dead_code)]
const F2: Coord = Coord(5, 1);
#[allow(dead_code)]
const G2: Coord = Coord(6, 1);
#[allow(dead_code)]
const H2: Coord = Coord(7, 1);
#[allow(dead_code)]
const A3: Coord = Coord(0, 2);
#[allow(dead_code)]
const B3: Coord = Coord(1, 2);
#[allow(dead_code)]
const C3: Coord = Coord(2, 2);
#[allow(dead_code)]
const D3: Coord = Coord(3, 2);
#[allow(dead_code)]
const E3: Coord = Coord(4, 2);
#[allow(dead_code)]
const F3: Coord = Coord(5, 2);
#[allow(dead_code)]
const G3: Coord = Coord(6, 2);
#[allow(dead_code)]
const H3: Coord = Coord(7, 2);
#[allow(dead_code)]
const A4: Coord = Coord(0, 3);
#[allow(dead_code)]
const B4: Coord = Coord(1, 3);
#[allow(dead_code)]
const C4: Coord = Coord(2, 3);
#[allow(dead_code)]
const D4: Coord = Coord(3, 3);
#[allow(dead_code)]
const E4: Coord = Coord(4, 3);
#[allow(dead_code)]
const F4: Coord = Coord(5, 3);
#[allow(dead_code)]
const G4: Coord = Coord(6, 3);
#[allow(dead_code)]
const H4: Coord = Coord(7, 3);
#[allow(dead_code)]
const A5: Coord = Coord(0, 4);
#[allow(dead_code)]
const B5: Coord = Coord(1, 4);
#[allow(dead_code)]
const C5: Coord = Coord(2, 4);
#[allow(dead_code)]
const D5: Coord = Coord(3, 4);
#[allow(dead_code)]
const E5: Coord = Coord(4, 4);
#[allow(dead_code)]
const F5: Coord = Coord(5, 4);
#[allow(dead_code)]
const G5: Coord = Coord(6, 4);
#[allow(dead_code)]
const H5: Coord = Coord(7, 4);
#[allow(dead_code)]
const A6: Coord = Coord(0, 5);
#[allow(dead_code)]
const B6: Coord = Coord(1, 5);
#[allow(dead_code)]
const C6: Coord = Coord(2, 5);
#[allow(dead_code)]
const D6: Coord = Coord(3, 5);
#[allow(dead_code)]
const E6: Coord = Coord(4, 5);
#[allow(dead_code)]
const F6: Coord = Coord(5, 5);
#[allow(dead_code)]
const G6: Coord = Coord(6, 5);
#[allow(dead_code)]
const H6: Coord = Coord(7, 5);
#[allow(dead_code)]
const A7: Coord = Coord(0, 6);
#[allow(dead_code)]
const B7: Coord = Coord(1, 6);
#[allow(dead_code)]
const C7: Coord = Coord(2, 6);
#[allow(dead_code)]
const D7: Coord = Coord(3, 6);
#[allow(dead_code)]
const E7: Coord = Coord(4, 6);
#[allow(dead_code)]
const F7: Coord = Coord(5, 6);
#[allow(dead_code)]
const G7: Coord = Coord(6, 6);
#[allow(dead_code)]
const H7: Coord = Coord(7, 6);
#[allow(dead_code)]
const A8: Coord = Coord(0, 7);
#[allow(dead_code)]
const B8: Coord = Coord(1, 7);
#[allow(dead_code)]
const C8: Coord = Coord(2, 7);
#[allow(dead_code)]
const D8: Coord = Coord(3, 7);
#[allow(dead_code)]
const E8: Coord = Coord(4, 7);
#[allow(dead_code)]
const F8: Coord = Coord(5, 7);
#[allow(dead_code)]
const G8: Coord = Coord(6, 7);
#[allow(dead_code)]
const H8: Coord = Coord(7, 7);

fn move_lists_has_all_targets(start_pos: Coord, expected_targets: &[Coord], moves: &[Move]) -> bool {
    expected_targets
        .iter()
        .map(|target| Move::Piece(start_pos, *target))
        .all(|m| moves.contains(&m))
}

fn clear_cooldowns(board: &mut Board) {
    for y in 0..8 {
        for x in 0..8 {
            if let Some(mut piece) = board.pieces[x][y] {
                piece.set_cooldown(0);
                board.pieces[x][y] = Some(piece);
            }
        }
    }
}

#[test]
fn movegen_all_possible_moves() {
    let mut board = Board::new();
    clear_cooldowns(&mut board);
    let moves = MoveGen::new(&board).get_possible_moves();
    assert_eq!(moves.len(), 40);
}

#[test]
fn standard_start_has_twenty_moves_per_side() {
    let board = Board::standard();
    let gen = MoveGen::new(&board);
    assert_eq!(gen.get_possible_moves().len(), 40);
    assert_eq!(gen.get_possible_moves_for_color(Black).len(), 20);
    assert_eq!(gen.get_possible_moves_for_color(White).len(), 20);
    assert!(gen.get_possible_moves_for_color(White).contains(&Move::Piece(B1, C3)));
}

#[test]
fn movegen_king_on_empty_board() {
    let board = Board::default();
    let moves = MoveGen::new(&board).for_king(&Piece::King(White, 0), E5);
    assert_eq!(moves.len(), 8);
    assert!(move_lists_has_all_targets(E5, &[D4, D5, D6, E4, E6, F4, F5, F6], &moves));
}

#[test]
fn lone_king_standing_on_board_has_eight_moves() {
    let mut board = Board::empty();
    board.set_piece_at(Some(Piece::King(Black, 0)), C6);
    let moves = MoveGen::new(&board).get_possible_moves();
    assert_eq!(moves.len(), 8);
    assert!(move_lists_has_all_targets(C6, &[B5, B6, B7, C5, C7, D5, D6, D7], &moves));
}

#[test]
fn movegen_king_cant_move_into_check() {
    let mut board = Board::default();
    board.set_piece_at(Some(Piece::Rook(Black, 0)), A1);
    let moves = MoveGen::new(&board).for_king(&Piece::King(White, 0), B2);
    assert!(move_lists_has_all_targets(B2, &[A1, B3, C2, C3], &moves));
    assert_eq!(moves.len(), 4);
}

#[test]
fn movegen_king_cant_move_into_pawn_check() {
    let mut board = Board::new();
    board.set_piece_at(Some(Piece::King(White, 0)), E5);
    clear_cooldowns(&mut board);
    let moves = MoveGen::new(&board).for_king(&Piece::King(White, 0), E5);
    let expected_moves = vec![D5, F5, D4, E4, F4];
    assert!(move_lists_has_all_targets(E5, &expected_moves, &moves));
    assert_eq!(expected_moves.len(), moves.len());
}

#[test]
fn movegen_king_cant_move_into_opposing_king() {
    let mut board = Board::default();
    board.set_piece_at(Some(Piece::King(Black, 0)), D5);
    let moves = MoveGen::new(&board).for_king(&Piece::King(White, 0), D3);
    let expected_moves = vec![C3, E3, C2, D2, E2];
    assert_eq!(moves.len(), expected_moves.len());
    assert!(move_lists_has_all_targets(D3, &expected_moves, &moves));
}

#[test]
fn movegen_king_castle_kingside() {
    let mut board = Board::default();
    board.set_piece_at(Some(Piece::Rook(White, 0)), H1);
    board.white_can_castle_kingside = true;
    let moves = MoveGen::new(&board).for_king(&Piece::King(White, 0), E1);
    assert!(moves.contains(&Move::KingSideCastle(White)));
}

#[test]
fn movegen_blocked_queenside_castle() {
    let mut board = Board::default();
    board.set_piece_at(Some(Piece::Queen(White, 0)), D1);
    board.set_piece_at(Some(Piece::Rook(White, 0)), A1);
    board.set_piece_at(Some(Piece::Rook(White, 0)), H1);
    board.white_can_castle_kingside = true;
    board.white_can_castle_queenside = true;
    let moves = MoveGen::new(&board).for_king(&Piece::King(White, 0), E1);
    assert!(moves.contains(&Move::KingSideCastle(White)));
    assert!(!moves.contains(&Move::QueenSideCastle(White)));
}

#[test]
fn movegen_moved_king_castle_kingside() {
    let mut board = Board::default();
    board.set_piece_at(Some(Piece::Rook(White, 0)), H1);
    board.white_can_castle_kingside = true;
    let moves = MoveGen::new(&board).for_king(&Piece::King(White, 0), E2);
    assert!(!moves.contains(&Move::KingSideCastle(White)));
}

#[test]
fn movegen_king_castle_queenside() {
    let mut board = Board::default();
    board.set_piece_at(Some(Piece::Rook(White, 0)), A1);
    board.white_can_castle_queenside = true;
    let moves = MoveGen::new(&board).for_king(&Piece::King(White, 0), E1);
    assert!(moves.contains(&Move::QueenSideCastle(White)));
}

#[test]
fn castle_needs_right_and_rook() {
    let mut board = Board::default();
    board.set_piece_at(Some(Piece::Rook(White, 0)), H1);
    let moves = MoveGen::new(&board).for_king(&Piece::King(White, 0), E1);
    assert!(!moves.contains(&Move::KingSideCastle(White)));
    let mut board = Board::default();
    board.set_piece_at(Some(Piece::Rook(Black, 0)), H1);
    board.white_can_castle_kingside = true;
    let moves = MoveGen::new(&board).for_king(&Piece::King(White, 0), E1);
    assert!(!moves.contains(&Move::KingSideCastle(White)));
}

#[test]
fn pinned_pawn() {
    let mut board = Board::from_fen("8/8/KP5r/8/8/8/8/8 b - - 0 0").unwrap();
    clear_cooldowns(&mut board);
    let moves = MoveGen::new(&board).for_pawn(&Piece::Pawn(White, 0), B6);
    assert_eq!(moves.len(), 0);
}

#[test]
fn pinned_rook() {
    let mut board = Board::from_fen("8/8/KR5r/8/8/8/8/8 b - - 0 0").unwrap();
    clear_cooldowns(&mut board);
    let moves = MoveGen::new(&board).for_rook(&Piece::Rook(White, 0), B6);
    assert_eq!(moves.len(), 6);
}

#[test]
fn movegen_knight_on_standard_board() {
    let board = Board::new();
    let moves = MoveGen::new(&board).for_knight(&Piece::Knight(White, 0), E4);
    assert_eq!(moves.len(), 6);
}

#[test]
fn movegen_knight_in_starting_position() {
    let board = Board::new();
    let moves = MoveGen::new(&board).for_knight(&Piece::Knight(White, 0), G1);
    let expected_moves = vec![H3, F3];
    assert!(move_lists_has_all_targets(G1, &expected_moves, &moves));
}

#[test]
fn movegen_rook_on_empty_board() {
    let board = Board::default();
    let moves = MoveGen::new(&board).for_rook(&Piece::Rook(White, 0), E4);
    assert_eq!(moves.len(), 14);
}

#[test]
fn movegen_rook_on_standard_board() {
    let board = Board::new();
    let moves = MoveGen::new(&board).for_rook(&Piece::Rook(White, 0), A5);
    let expected_moves = vec![A6, A7, B5, C5, D5, E5, F5, G5, H5, A4, A3];
    assert!(move_lists_has_all_targets(A5, &expected_moves, &moves));
}

#[test]
fn movegen_starting_rook() {
    let board = Board::new();
    let moves = MoveGen::new(&board).for_rook(&Piece::Rook(White, 0), A1);
    assert_eq!(moves.len(), 0);
}

#[test]
fn movegen_infiltrated_starting_rook() {
    let board = Board::new();
    let moves = MoveGen::new(&board).for_rook(&Piece::Rook(Black, 0), A1);
    assert_eq!(vec![Move::Piece(A1, A2), Move::Piece(A1, B1)], moves);
}

#[test]
fn movegen_bishop_on_empty() {
    let board = Board::default();
    let moves = MoveGen::new(&board).for_bishop(&Piece::Bishop(White, 0), E5);
    let expected_moves = vec![D4, C3, B2, A1, F6, G7, H8, F4, G3, H2, D6, C7, B8];
    assert!(move_lists_has_all_targets(E5, &expected_moves, &moves));
    assert_eq!(moves.len(), 13);
}

#[test]
fn movegen_bishop_on_standard() {
    let board = Board::new();
    let moves = MoveGen::new(&board).for_bishop(&Piece::Bishop(White, 0), E5);
    let expected_moves = vec![D4, C3, F6, G7, F4, G3, D6, C7];
    assert!(move_lists_has_all_targets(E5, &expected_moves, &moves));
}

#[test]
fn queen_on_empty_board() {
    let board = Board::default();
    let moves = MoveGen::new(&board).for_queen(&Piece::Queen(White, 0), D4);
    assert_eq!(moves.len(), 27);
    assert!(move_lists_has_all_targets(D4, &[A1, H8, A7, G1, D8, D1, A4, H4], &moves));
}

#[test]
fn movegen_all_black_starting_moves() {
    let mut board = Board::new().filter_by_color(Black);
    clear_cooldowns(&mut board);
    let moves = MoveGen::new(&board).get_possible_moves();
    assert_eq!(moves.len(), 20);
}

#[test]
fn movegen_all_black_starting_moves_with_capture() {
    let mut board = Board::new().filter_by_color(Black);
    clear_cooldowns(&mut board);
    board.set_piece_at(Some(Piece::Pawn(White, 0)), D6);
    let moves = MoveGen::new(&board).get_possible_moves();
    assert_eq!(moves.len(), 22);
}

#[test]
fn movegen_white_pawn_at_start() {
    let board = Board::new();
    let moves = MoveGen::new(&board).for_pawn(&Piece::Pawn(White, 0), A2);
    let expected_moves = vec![A3, A4];
    assert!(move_lists_has_all_targets(A2, &expected_moves, &moves));
}

#[test]
fn movegen_black_pawn_at_start() {
    let mut board = Board::default();
    board.set_piece_at(Some(Piece::Bishop(White, 0)), D5);
    let moves = MoveGen::new(&board).for_pawn(&Piece::Pawn(Black, 0), D7);
    let expected_moves = vec![D6];
    assert!(move_lists_has_all_targets(D7, &expected_moves, &moves));
    assert_eq!(moves.len(), 1);
}

#[test]
fn movegen_pawn_capture() {
    let mut board = Board::default();
    board.set_piece_at(Some(Piece::Pawn(Black, 0)), D3);
    board.set_piece_at(Some(Piece::Bishop(White, 0)), C3);
    board.set_piece_at(Some(Piece::Rook(White, 0)), E3);
    let moves = MoveGen::new(&board).for_pawn(&Piece::Pawn(Black, 0), D4);
    let expected_moves = vec![C3, E3];
    assert!(move_lists_has_all_targets(D4, &expected_moves, &moves));
}

#[test]
fn movegen_black_pawn_at_start_with_capture() {
    let mut board = Board::default();
    board.set_piece_at(Some(Piece::Bishop(White, 0)), A6);
    let moves = MoveGen::new(&board).for_pawn(&Piece::Pawn(Black, 0), B7);
    let expected_moves = vec![A6, B6, B5];
    assert!(move_lists_has_all_targets(B7, &expected_moves, &moves));
}

#[test]
fn movegen_promote_white_pawn() {
    let board = Board::default();
    let moves = MoveGen::new(&board).for_pawn(&Piece::Pawn(Black, 0), B2);
    assert_eq!(moves.len(), 4);
}

#[test]
fn promotions_are_four_pieces_on_last_rank() {
    let mut board = Board::default();
    board.set_piece_at(Some(Piece::Rook(Black, 0)), C8);
    let moves = MoveGen::new(&board).for_pawn(&Piece::Pawn(White, 0), B7);
    assert_eq!(moves.len(), 8);
    for target in [B8, C8] {
        for piece in [
            Piece::Queen(White, COOLDOWN_QUEEN),
            Piece::Rook(White, COOLDOWN_ROOK),
            Piece::Bishop(White, COOLDOWN_BISHOP),
            Piece::Knight(White, COOLDOWN_KNIGHT),
        ] {
            assert!(moves.contains(&Move::Promotion(B7, target, piece)));
        }
    }
    let board = Board::default();
    let moves = MoveGen::new(&board).for_pawn(&Piece::Pawn(White, 0), B6);
    assert_eq!(moves, vec![Move::Piece(B6, B7)]);
}

#[test]
fn movegen_cooldown_on_piece() {
    let mut board = Board::default();
    board.set_piece_at(Some(Piece::Rook(Black, 0)), F3);
    let moves = MoveGen::new(&board).for_rook(&Piece::Rook(White, 50), A3);
    assert!(moves.is_empty());
}

#[test]
fn cooldown_blocks_every_kind() {
    let board = Board::default();
    let gen = MoveGen::new(&board);
    assert!(gen.for_pawn(&Piece::Pawn(White, 1), E2).is_empty());
    assert!(gen.for_knight(&Piece::Knight(White, 1), E4).is_empty());
    assert!(gen.for_bishop(&Piece::Bishop(White, 1), E4).is_empty());
    assert!(gen.for_queen(&Piece::Queen(White, 1), E4).is_empty());
    assert!(gen.for_king(&Piece::King(White, 1), E4).is_empty());
}

#[test]
fn check_in_standard() {
    let mut board = Board::standard();
    board.set_piece_at(Some(Piece::Pawn(White, 0)), D7);
    let attacks_on_black = board.king_check_count(Black);
    assert_eq!(attacks_on_black, 1);
}

#[test]
fn game_state_starts_at_standard_position() {
    let game = GameState::new();
    assert_eq!(game.board.pieces, Board::standard().pieces);
    assert_eq!(GameState::default().board.get_piece_count(), 32);
}
