use vstd::prelude::*;
use vstd::set_lib::set_int_range;

use crate::piece::PieceType;

verus! {

/// The side a ledger belongs to.
#[derive(Clone, Copy, Debug, PartialEq, Eq, Structural)]
pub enum PlayerColor {
    White,
    Black,
}

/// First square of the rank that holds the side's pawns at the start.
pub open spec fn pawn_rank_start(color: PlayerColor) -> int {
    match color {
        PlayerColor::White => 8,
        PlayerColor::Black => 48,
    }
}

/// First square of the side's back rank.
pub open spec fn back_rank_start(color: PlayerColor) -> int {
    match color {
        PlayerColor::White => 0,
        PlayerColor::Black => 56,
    }
}

/// The square that `s` faces across the board's horizontal midline: same file,
/// rank `7 - r` in place of rank `r`.
pub open spec fn mirror(s: int) -> int {
    (7 - s / 8) * 8 + s % 8
}

/// The abstract state of a ledger: the side's colour and, as sets of square
/// indices, the aggregate board and the six per-type boards.
pub struct LedgerView {
    pub color: PlayerColor,
    pub pieces: Set<int>,
    pub pawns: Set<int>,
    pub knights: Set<int>,
    pub bishops: Set<int>,
    pub rooks: Set<int>,
    pub queen: Set<int>,
    pub king: Set<int>,
}

impl LedgerView {
    /// The per-type board of kind `k`.
    pub open spec fn board(self, k: PieceType) -> Set<int> {
        match k {
            PieceType::Pawn => self.pawns,
            PieceType::Knight => self.knights,
            PieceType::Bishop => self.bishops,
            PieceType::Rook => self.rooks,
            PieceType::Queen => self.queen,
            PieceType::King => self.king,
        }
    }

    /// This state with the per-type board of kind `k` replaced by `s`.
    pub open spec fn with_board(self, k: PieceType, s: Set<int>) -> LedgerView {
        match k {
            PieceType::Pawn => LedgerView { pawns: s, ..self },
            PieceType::Knight => LedgerView { knights: s, ..self },
            PieceType::Bishop => LedgerView { bishops: s, ..self },
            PieceType::Rook => LedgerView { rooks: s, ..self },
            PieceType::Queen => LedgerView { queen: s, ..self },
            PieceType::King => LedgerView { king: s, ..self },
        }
    }

    /// The union of the six per-type boards.
    pub open spec fn union_of_types(self) -> Set<int> {
        self.pawns + self.knights + self.bishops + self.rooks + self.queen + self.king
    }

    /// The partition invariant: the aggregate board is the union of the
    /// per-type boards, and no square is claimed by two per-type boards.
    pub open spec fn wf(self) -> bool {
        &&& self.pieces == self.union_of_types()
        &&& forall|k1: PieceType, k2: PieceType|
            k1 != k2 ==> #[trigger] self.board(k1).disjoint(#[trigger] self.board(k2))
    }

    /// The piece kind at `pos`: the first per-type board, in the order pawn,
    /// knight, bishop, rook, queen, king, that holds `pos`.
    pub open spec fn piece_at(self, pos: int) -> Option<PieceType> {
        if self.pawns.contains(pos) {
            Some(PieceType::Pawn)
        } else if self.knights.contains(pos) {
            Some(PieceType::Knight)
        } else if self.bishops.contains(pos) {
            Some(PieceType::Bishop)
        } else if self.rooks.contains(pos) {
            Some(PieceType::Rook)
        } else if self.queen.contains(pos) {
            Some(PieceType::Queen)
        } else if self.king.contains(pos) {
            Some(PieceType::King)
        } else {
            None
        }
    }

    /// The state after a piece of kind `k` goes from `from` to `to`: both the
    /// aggregate board and the board of kind `k` lose `from` and gain `to`.
    pub open spec fn moved(self, k: PieceType, from: int, to: int) -> LedgerView {
        LedgerView {
            pieces: self.pieces.remove(from).insert(to),
            ..self.with_board(k, self.board(k).remove(from).insert(to))
        }
    }

    /// The state after the opponent takes whatever stands on `to`: the
    /// aggregate board loses `to`, and so does the board of the piece found there.
    pub open spec fn captured(self, to: int) -> LedgerView {
        let rest = match self.piece_at(to) {
            Some(k) => self.with_board(k, self.board(k).remove(to)),
            None => self,
        };
        LedgerView { pieces: self.pieces.remove(to), ..rest }
    }

    /// Whether the king board holds a square other than `pos`.
    pub open spec fn has_king_elsewhere(self, pos: int) -> bool {
        exists|s: int| self.king.contains(s) && s != pos
    }

    /// The layout at the start of a game for the side `color`.
    pub open spec fn initial(color: PlayerColor) -> LedgerView {
        let p = pawn_rank_start(color);
        let b = back_rank_start(color);
        let pawns = set_int_range(p, p + 8);
        let knights = set![b + 1, b + 6];
        let bishops = set![b + 2, b + 5];
        let rooks = set![b, b + 7];
        let queen = set![b + 3];
        let king = set![b + 4];
        LedgerView {
            color,
            pieces: pawns + knights + bishops + rooks + queen + king,
            pawns,
            knights,
            bishops,
            rooks,
            queen,
            king,
        }
    }
}

} // verus!
