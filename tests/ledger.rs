use engine::{Bitboard, BitboardError, PieceError, PieceType, Player, PlayerColor};

fn squares(b: &Bitboard) -> Vec<u64> {
    (0..64).filter(|&s| b.get_square(s)).collect()
}

fn partition_holds(p: &Player) -> bool {
    let boards = [p.pawns, p.knights, p.bishops, p.rooks, p.queen, p.king];
    let union = boards.iter().fold(0u64, |acc, b| acc | b.get_board());
    let mut seen = 0u64;
    for b in boards.iter() {
        if seen & b.get_board() != 0 {
            return false;
        }
        seen |= b.get_board();
    }
    union == p.pieces.get_board()
}

#[test]
fn bitboard_set_clear_get() {
    let mut b = Bitboard::new();
    assert_eq!(b.get_board(), 0);
    b.set_square(0);
    b.set_square(63);
    b.set_square(63);
    assert!(b.get_square(0) && b.get_square(63) && !b.get_square(1));
    assert_eq!(b.get_board(), 0x8000_0000_0000_0001);
    assert_eq!(b.get_num_squares(), 2);
    b.clear_square(0);
    b.clear_square(5);
    assert_eq!(b.get_board(), 0x8000_0000_0000_0000);
    b.set_board(0xF0);
    assert_eq!(squares(&b), vec![4, 5, 6, 7]);
    assert_eq!(Bitboard::from_board(u64::MAX).get_num_squares(), 64);
}

#[test]
fn white_initial_layout() {
    let p = Player::new(PlayerColor::White);
    assert_eq!(p.color, PlayerColor::White);
    assert_eq!(squares(&p.pawns), (8..16).collect::<Vec<u64>>());
    assert_eq!(squares(&p.knights), vec![1, 6]);
    assert_eq!(squares(&p.bishops), vec![2, 5]);
    assert_eq!(squares(&p.rooks), vec![0, 7]);
    assert_eq!(squares(&p.queen), vec![3]);
    assert_eq!(squares(&p.king), vec![4]);
    assert_eq!(p.get_board(), 0xFFFF);
    assert_eq!(p.pieces.get_num_squares(), 16);
    assert!(partition_holds(&p));
}

#[test]
fn black_initial_layout_is_mirrored() {
    let p = Player::new(PlayerColor::Black);
    assert_eq!(squares(&p.pawns), (48..56).collect::<Vec<u64>>());
    assert_eq!(squares(&p.knights), vec![57, 62]);
    assert_eq!(squares(&p.bishops), vec![58, 61]);
    assert_eq!(squares(&p.rooks), vec![56, 63]);
    assert_eq!(squares(&p.queen), vec![59]);
    assert_eq!(squares(&p.king), vec![60]);
    assert_eq!(p.get_board(), 0xFFFF_0000_0000_0000);
    assert!(partition_holds(&p));
}

#[test]
fn piece_types_at_start() {
    let p = Player::new(PlayerColor::White);
    assert_eq!(p.get_piece_type(8), Ok(PieceType::Pawn));
    assert_eq!(p.get_piece_type(6), Ok(PieceType::Knight));
    assert_eq!(p.get_piece_type(2), Ok(PieceType::Bishop));
    assert_eq!(p.get_piece_type(7), Ok(PieceType::Rook));
    assert_eq!(p.get_piece_type(3), Ok(PieceType::Queen));
    assert_eq!(p.get_piece_type(4), Ok(PieceType::King));
    assert_eq!(p.get_piece_type(16), Err(PieceError::NoPiece));
    assert_eq!(p.get_piece_type(60), Err(PieceError::NoPiece));
}

#[test]
fn move_round_trip() {
    let mut p = Player::new(PlayerColor::White);
    assert_eq!(p.make_move(6, 21), Ok(()));
    assert!(!p.has_piece_on(6));
    assert!(p.has_piece_on(21));
    assert_eq!(squares(&p.knights), vec![1, 21]);
    assert_eq!(p.get_piece_type(21), Ok(PieceType::Knight));
    assert_eq!(squares(&p.pawns), (8..16).collect::<Vec<u64>>());
    assert!(partition_holds(&p));
    assert_eq!(p.make_move(12, 28), Ok(()));
    assert_eq!(p.get_piece_type(28), Ok(PieceType::Pawn));
    assert!(partition_holds(&p));
}

#[test]
fn failed_move_leaves_ledger_untouched() {
    let mut p = Player::new(PlayerColor::White);
    let before = p.get_board();
    assert_eq!(p.make_move(30, 31), Err(BitboardError::PieceNotFound));
    assert_eq!(p.get_board(), before);
    assert!(!p.has_piece_on(31));
    assert!(partition_holds(&p));
}

#[test]
fn capture_removes_piece() {
    let mut p = Player::new(PlayerColor::Black);
    assert_eq!(p.update_table_after_opponent_move(59), Ok(()));
    assert!(!p.has_piece_on(59));
    assert_eq!(p.queen.get_board(), 0);
    assert_eq!(p.get_piece_type(59), Err(PieceError::NoPiece));
    assert!(partition_holds(&p));
}

#[test]
fn capture_on_empty_square_is_noop() {
    let mut p = Player::new(PlayerColor::White);
    assert_eq!(p.update_table_after_opponent_move(40), Ok(()));
    assert_eq!(p.get_board(), 0xFFFF);
    assert!(partition_holds(&p));
}

#[test]
fn capture_twice_equals_once() {
    let mut once = Player::new(PlayerColor::White);
    once.update_table_after_opponent_move(9).unwrap();
    let mut twice = Player::new(PlayerColor::White);
    twice.update_table_after_opponent_move(9).unwrap();
    twice.update_table_after_opponent_move(9).unwrap();
    assert_eq!(once.get_board(), twice.get_board());
    assert_eq!(once.pawns.get_board(), twice.pawns.get_board());
    assert_eq!(twice.pawns.get_num_squares(), 7);
    assert!(partition_holds(&twice));
}

#[test]
fn king_around_literal_contract() {
    let p = Player::new(PlayerColor::White);
    assert!(!p.has_king_around(4));
    assert!(p.has_king_around(5));
    assert!(p.has_king_around(40));
    let b = Player::new(PlayerColor::Black);
    assert!(!b.has_king_around(60));
    assert!(b.has_king_around(4));
}

#[test]
fn king_steps_forward() {
    let mut p = Player::new(PlayerColor::White);
    assert!(p.king.get_square(4));
    assert_eq!(p.make_move(4, 12), Ok(()));
    assert!(!p.has_piece_on(4));
    assert!(p.has_piece_on(12));
    assert_eq!(p.king.get_board(), 1u64 << 12);
}
