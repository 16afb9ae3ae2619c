use vstd::prelude::*;
use vstd::set_lib::set_int_range;

use crate::bitboard::{lemma_squares_union, Bitboard, BOARD_SIZE, NUM_SQUARES};
use crate::ledger::{back_rank_start, pawn_rank_start, LedgerView, PlayerColor};
use crate::laws::{lemma_capture_keeps_partition, lemma_initial_partition, lemma_move_keeps_partition};
use crate::piece::{BitboardError, PieceError, PieceType};

verus! {

/// One side's piece ledger: an aggregate occupancy board and one board per
/// piece type.
#[derive(Clone, Copy, Debug)]
pub struct Player {
    pub color: PlayerColor,
    pub pieces: Bitboard,
    pub pawns: Bitboard,
    pub knights: Bitboard,
    pub bishops: Bitboard,
    pub rooks: Bitboard,
    pub queen: Bitboard,
    pub king: Bitboard,
}

impl View for Player {
    type V = LedgerView;

    open spec fn view(&self) -> LedgerView {
        LedgerView {
            color: self.color,
            pieces: self.pieces@,
            pawns: self.pawns@,
            knights: self.knights@,
            bishops: self.bishops@,
            rooks: self.rooks@,
            queen: self.queen@,
            king: self.king@,
        }
    }
}

/// First square of the rank that holds `color`'s pawns at the start.
fn pawn_rank(color: PlayerColor) -> (r: u64)
    ensures
        r as int == pawn_rank_start(color),
{
    match color {
        PlayerColor::White => 8,
        PlayerColor::Black => 48,
    }
}

/// First square of `color`'s back rank.
fn back_rank(color: PlayerColor) -> (r: u64)
    ensures
        r as int == back_rank_start(color),
{
    match color {
        PlayerColor::White => 0,
        PlayerColor::Black => 56,
    }
}

impl Player {
    /// The ledger of side `color` at the start of a game.
    pub fn new(color: PlayerColor) -> (r: Player)
        ensures
            r@ == LedgerView::initial(color),
            r@.wf(),
    {
        let p = pawn_rank(color);
        let b = back_rank(color);

        let mut pawns = Bitboard::new();
        let mut i: u64 = 0;
        while i < BOARD_SIZE
            invariant
                i <= 8,
                p == pawn_rank_start(color),
                p <= 48,
                pawns@ == set_int_range(p as int, p + i),
            decreases 8 - i,
        {
            pawns.set_square(p + i);
            assert(pawns@ =~= set_int_range(p as int, p + i + 1));
            i = i + 1;
        }

        let mut knights = Bitboard::new();
        knights.set_square(b + 1);
        knights.set_square(b + 6);

        let mut bishops = Bitboard::new();
        bishops.set_square(b + 2);
        bishops.set_square(b + 5);

        let mut rooks = Bitboard::new();
        rooks.set_square(b);
        rooks.set_square(b + 7);

        let mut queen = Bitboard::new();
        queen.set_square(b + 3);

        let mut king = Bitboard::new();
        king.set_square(b + 4);

        let w1 = pawns.get_board();
        let w2 = knights.get_board();
        let w3 = bishops.get_board();
        let w4 = rooks.get_board();
        let w5 = queen.get_board();
        let w6 = king.get_board();
        let mut pieces = Bitboard::new();
        pieces.set_board(w1 | w2 | w3 | w4 | w5 | w6);
        proof {
            lemma_squares_union(w1, w2);
            lemma_squares_union(w1 | w2, w3);
            lemma_squares_union(w1 | w2 | w3, w4);
            lemma_squares_union(w1 | w2 | w3 | w4, w5);
            lemma_squares_union(w1 | w2 | w3 | w4 | w5, w6);
        }

        let r = Player { color, pieces, pawns, knights, bishops, rooks, queen, king };
        proof {
            assert(r@.knights =~= LedgerView::initial(color).knights);
            assert(r@.bishops =~= LedgerView::initial(color).bishops);
            assert(r@.rooks =~= LedgerView::initial(color).rooks);
            assert(r@.queen =~= LedgerView::initial(color).queen);
            assert(r@.king =~= LedgerView::initial(color).king);
            assert(r@ == LedgerView::initial(color));
            lemma_initial_partition(color);
        }
        r
    }

    /// The raw word of the aggregate board.
    pub fn get_board(&self) -> (r: u64)
        ensures
            crate::bitboard::squares_of(r) == self@.pieces,
    {
        self.pieces.get_board()
    }

    /// Records this side's move of the piece on `from` to `to`. The move's
    /// legality is the caller's concern. Fails with `PieceNotFound`, leaving
    /// the ledger untouched, when no per-type board holds `from`.
    pub fn make_move(&mut self, from: u64, to: u64) -> (r: Result<(), BitboardError>)
        requires
            from < NUM_SQUARES,
            to < NUM_SQUARES,
        ensures
            match old(self)@.piece_at(from as int) {
                Some(k) => r == Ok::<(), BitboardError>(()) && final(self)@ == old(self)@.moved(
                    k,
                    from as int,
                    to as int,
                ),
                None => r == Err::<(), BitboardError>(BitboardError::PieceNotFound) && *final(self)
                    == *old(self),
            },
            old(self)@.wf() && (to == from || !old(self)@.pieces.contains(to as int))
                ==> final(self)@.wf(),
    {
        let kind = match self.get_piece_type(from) {
            Ok(k) => k,
            Err(_) => return Err(BitboardError::PieceNotFound),
        };
        match kind {
            PieceType::Pawn => {
                self.pawns.clear_square(from);
                self.pawns.set_square(to);
            },
            PieceType::Knight => {
                self.knights.clear_square(from);
                self.knights.set_square(to);
            },
            PieceType::Bishop => {
                self.bishops.clear_square(from);
                self.bishops.set_square(to);
            },
            PieceType::Rook => {
                self.rooks.clear_square(from);
                self.rooks.set_square(to);
            },
            PieceType::Queen => {
                self.queen.clear_square(from);
                self.queen.set_square(to);
            },
            PieceType::King => {
                self.king.clear_square(from);
                self.king.set_square(to);
            },
        }
        self.pieces.clear_square(from);
        self.pieces.set_square(to);
        proof {
            assert(self@ == old(self)@.moved(kind, from as int, to as int));
            if old(self)@.wf() && (to == from || !old(self)@.pieces.contains(to as int)) {
                lemma_move_keeps_partition(old(self)@, from as int, to as int);
            }
        }
        Ok(())
    }

    /// Records that the opponent moved onto `to`, taking this side's piece
    /// there if it has one; when it has none, only the (already clear)
    /// aggregate square is cleared. Always succeeds.
    pub fn update_table_after_opponent_move(&mut self, to: u64) -> (r: Result<(), BitboardError>)
        requires
            to < NUM_SQUARES,
        ensures
            r == Ok::<(), BitboardError>(()),
            final(self)@ == old(self)@.captured(to as int),
            old(self)@.wf() ==> final(self)@.wf(),
    {
        match self.get_piece_type(to) {
            Ok(PieceType::Pawn) => self.pawns.clear_square(to),
            Ok(PieceType::Knight) => self.knights.clear_square(to),
            Ok(PieceType::Bishop) => self.bishops.clear_square(to),
            Ok(PieceType::Rook) => self.rooks.clear_square(to),
            Ok(PieceType::Queen) => self.queen.clear_square(to),
            Ok(PieceType::King) => self.king.clear_square(to),
            _ => {},
        }
        self.pieces.clear_square(to);
        proof {
            assert(self@ == old(self)@.captured(to as int));
            if old(self)@.wf() {
                lemma_capture_keeps_partition(old(self)@, to as int);
            }
        }
        Ok(())
    }

    /// The kind of this side's piece on `position`, probing the per-type
    /// boards in the order pawn, knight, bishop, rook, queen, king. Fails with
    /// `NoPiece` when none of them holds `position`.
    pub fn get_piece_type(&self, position: u64) -> (r: Result<PieceType, PieceError>)
        requires
            position < NUM_SQUARES,
        ensures
            match self@.piece_at(position as int) {
                Some(k) => r == Ok::<PieceType, PieceError>(k),
                None => r == Err::<PieceType, PieceError>(PieceError::NoPiece),
            },
    {
        if self.pawns.get_square(position) {
            return Ok(PieceType::Pawn);
        }
        if self.knights.get_square(position) {
            return Ok(PieceType::Knight);
        }
        if self.bishops.get_square(position) {
            return Ok(PieceType::Bishop);
        }
        if self.rooks.get_square(position) {
            return Ok(PieceType::Rook);
        }
        if self.queen.get_square(position) {
            return Ok(PieceType::Queen);
        }
        if self.king.get_square(position) {
            return Ok(PieceType::King);
        }
        Err(PieceError::NoPiece)
    }

    /// Whether this side has any piece on `position`.
    pub fn has_piece_on(&self, position: u64) -> (r: bool)
        requires
            position < NUM_SQUARES,
        ensures
            r == self@.pieces.contains(position as int),
    {
        self.pieces.get_square(position)
    }

    /// Whether the king board, with `position` cleared, still holds a square:
    /// with a single king, whether the king stands anywhere but `position`.
    pub fn has_king_around(&self, position: u64) -> (r: bool)
        requires
            position < NUM_SQUARES,
        ensures
            r == self@.has_king_elsewhere(position as int),
    {
        let mut king = self.king;
        king.clear_square(position);
        let n = king.get_num_squares();
        proof {
            crate::bitboard::lemma_view_finite(king);
            let rest = self@.king.remove(position as int);
            if n > 0 {
                vstd::set_lib::lemma_set_empty_equivalency_len(rest);
                let s = choose|s: int| rest.contains(s);
                assert(self@.king.contains(s) && s != position);
            } else {
                vstd::set_lib::lemma_set_empty_equivalency_len(rest);
                assert forall|s: int| self@.king.contains(s) && s != position implies false by {
                    assert(rest.contains(s));
                }
            }
        }
        n > 0
    }
}

} // verus!
