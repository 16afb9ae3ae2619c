use vstd::prelude::*;
use vstd::set_lib::{lemma_int_range, set_int_range};

use crate::ledger::{back_rank_start, mirror, pawn_rank_start, LedgerView, PlayerColor};
use crate::piece::PieceType;

verus! {

/// Replacing the board of kind `k` changes that board and no other.
proof fn lemma_with_board(v: LedgerView, k: PieceType, s: Set<int>)
    ensures
        forall|j: PieceType| #[trigger]
            v.with_board(k, s).board(j) == if j == k {
                s
            } else {
                v.board(j)
            },
        v.with_board(k, s).color == v.color,
        v.with_board(k, s).pieces == v.pieces,
{
}

/// In a well-formed state a square is occupied exactly when some per-type
/// board holds it, and that board is the one `piece_at` names.
pub proof fn lemma_piece_at(v: LedgerView, s: int)
    requires
        v.wf(),
    ensures
        v.pieces.contains(s) <==> v.piece_at(s) is Some,
        forall|k: PieceType| v.piece_at(s) == Some(k) <==> #[trigger] v.board(k).contains(s),
{
    assert forall|k: PieceType| v.piece_at(s) == Some(k) <==> #[trigger] v.board(k).contains(s) by {
        assert(v.board(PieceType::Pawn).disjoint(v.board(k)) || k == PieceType::Pawn);
        assert(v.board(PieceType::Knight).disjoint(v.board(k)) || k == PieceType::Knight);
        assert(v.board(PieceType::Bishop).disjoint(v.board(k)) || k == PieceType::Bishop);
        assert(v.board(PieceType::Rook).disjoint(v.board(k)) || k == PieceType::Rook);
        assert(v.board(PieceType::Queen).disjoint(v.board(k)) || k == PieceType::Queen);
        assert(v.board(PieceType::King).disjoint(v.board(k)) || k == PieceType::King);
    }
}

/// The start layout of either side satisfies the partition invariant.
pub proof fn lemma_initial_partition(color: PlayerColor)
    ensures
        LedgerView::initial(color).wf(),
{
    let v = LedgerView::initial(color);
    assert forall|k1: PieceType, k2: PieceType| k1 != k2 implies #[trigger] v.board(k1).disjoint(
        #[trigger] v.board(k2),
    ) by {
        match color {
            PlayerColor::White => {},
            PlayerColor::Black => {},
        }
    }
}

/// Moving a piece that stands on `from` to a square that this side does not
/// occupy (or back onto `from`) keeps the partition invariant.
pub proof fn lemma_move_keeps_partition(v: LedgerView, from: int, to: int)
    requires
        v.wf(),
        v.piece_at(from) is Some,
        to == from || !v.pieces.contains(to),
    ensures
        v.moved(v.piece_at(from)->0, from, to).wf(),
{
    let k = v.piece_at(from)->0;
    lemma_piece_at(v, from);
    lemma_piece_at(v, to);
    let b = v.board(k).remove(from).insert(to);
    let m = v.moved(k, from, to);
    lemma_with_board(v, k, b);
    assert forall|j: PieceType| j != k implies !(#[trigger] v.board(j)).contains(from) by {
        assert(v.board(k).disjoint(v.board(j)));
    }
    assert forall|j: PieceType| j != k implies !(#[trigger] v.board(j)).contains(to) by {
        if to == from {
            assert(v.board(k).disjoint(v.board(j)));
        } else {
            assert(v.pieces =~= v.union_of_types());
        }
    }
    assert forall|k1: PieceType, k2: PieceType| k1 != k2 implies #[trigger] m.board(k1).disjoint(
        #[trigger] m.board(k2),
    ) by {
        assert(v.board(k1).disjoint(v.board(k2)));
    }
    assert(m.pieces =~= m.union_of_types()) by {
        assert(m.board(PieceType::Pawn) == m.pawns);
        assert(m.board(PieceType::Knight) == m.knights);
        assert(m.board(PieceType::Bishop) == m.bishops);
        assert(m.board(PieceType::Rook) == m.rooks);
        assert(m.board(PieceType::Queen) == m.queen);
        assert(m.board(PieceType::King) == m.king);
        assert(v.board(PieceType::Pawn) == v.pawns);
        assert(v.board(PieceType::Knight) == v.knights);
        assert(v.board(PieceType::Bishop) == v.bishops);
        assert(v.board(PieceType::Rook) == v.rooks);
        assert(v.board(PieceType::Queen) == v.queen);
        assert(v.board(PieceType::King) == v.king);
    }
}

/// Taking whatever stands on `to` keeps the partition invariant.
pub proof fn lemma_capture_keeps_partition(v: LedgerView, to: int)
    requires
        v.wf(),
    ensures
        v.captured(to).wf(),
{
    let c = v.captured(to);
    lemma_piece_at(v, to);
    match v.piece_at(to) {
        Some(k) => {
            lemma_with_board(v, k, v.board(k).remove(to));
            assert forall|k1: PieceType, k2: PieceType| k1 != k2 implies #[trigger] c.board(
                k1,
            ).disjoint(#[trigger] c.board(k2)) by {
                assert(v.board(k1).disjoint(v.board(k2)));
            }
            assert forall|j: PieceType| j != k implies !(#[trigger] v.board(j)).contains(to) by {
                assert(v.board(k).disjoint(v.board(j)));
            }
            assert(c.board(PieceType::Pawn) == c.pawns);
            assert(c.board(PieceType::Knight) == c.knights);
            assert(c.board(PieceType::Bishop) == c.bishops);
            assert(c.board(PieceType::Rook) == c.rooks);
            assert(c.board(PieceType::Queen) == c.queen);
            assert(c.board(PieceType::King) == c.king);
            assert(v.board(PieceType::Pawn) == v.pawns);
            assert(v.board(PieceType::Knight) == v.knights);
            assert(v.board(PieceType::Bishop) == v.bishops);
            assert(v.board(PieceType::Rook) == v.rooks);
            assert(v.board(PieceType::Queen) == v.queen);
            assert(v.board(PieceType::King) == v.king);
            assert(c.pieces =~= c.union_of_types());
        },
        None => {
            assert(c.pieces =~= c.union_of_types());
        },
    }
}

/// The start layout: eight pawns filling the side's pawn rank, two knights,
/// two bishops and two rooks, one queen and one king on the back rank, sixteen
/// pieces in all.
pub proof fn lemma_initial_layout(color: PlayerColor)
    ensures
        LedgerView::initial(color).pawns == set_int_range(
            pawn_rank_start(color),
            pawn_rank_start(color) + 8,
        ),
        LedgerView::initial(color).pawns.len() == 8,
        LedgerView::initial(color).knights.len() == 2,
        LedgerView::initial(color).bishops.len() == 2,
        LedgerView::initial(color).rooks.len() == 2,
        LedgerView::initial(color).queen.len() == 1,
        LedgerView::initial(color).king.len() == 1,
        LedgerView::initial(color).king == set![back_rank_start(color) + 4],
        LedgerView::initial(color).pieces.finite(),
        LedgerView::initial(color).pieces.len() == 16,
{
    let v = LedgerView::initial(color);
    let p = pawn_rank_start(color);
    lemma_int_range(p, p + 8);
    lemma_initial_partition(color);
    let s1 = v.pawns + v.knights;
    let s2 = s1 + v.bishops;
    let s3 = s2 + v.rooks;
    let s4 = s3 + v.queen;
    assert(v.knights.len() == 2);
    assert(v.bishops.len() == 2);
    assert(v.rooks.len() == 2);
    assert(v.pawns.disjoint(v.knights));
    vstd::set_lib::lemma_set_disjoint_lens(v.pawns, v.knights);
    assert(s1.disjoint(v.bishops));
    vstd::set_lib::lemma_set_disjoint_lens(s1, v.bishops);
    assert(s2.disjoint(v.rooks));
    vstd::set_lib::lemma_set_disjoint_lens(s2, v.rooks);
    assert(s3.disjoint(v.queen));
    vstd::set_lib::lemma_set_disjoint_lens(s3, v.queen);
    assert(s4.disjoint(v.king));
    vstd::set_lib::lemma_set_disjoint_lens(s4, v.king);
}

/// Black's start layout is White's reflected across the board's horizontal
/// midline: for every piece kind, White has a piece of that kind on `s`
/// exactly when Black has one on the mirrored square.
pub proof fn lemma_black_mirrors_white(k: PieceType, s: int)
    requires
        0 <= s < 64,
    ensures
        LedgerView::initial(PlayerColor::White).board(k).contains(s) <==> LedgerView::initial(
            PlayerColor::Black,
        ).board(k).contains(mirror(s)),
{
    if s < 8 {
        assert(mirror(s) == s + 56);
    } else if s < 16 {
        assert(mirror(s) == s + 40);
    } else {
        assert(mirror(s) < 48);
    }
}

/// Moving a piece from an occupied square `a` to an empty square `b` empties
/// `a`, fills `b`, moves the piece within its own per-type board only, and
/// keeps the partition invariant.
pub proof fn lemma_move_round_trip(v: LedgerView, a: int, b: int)
    requires
        v.wf(),
        v.pieces.contains(a),
        !v.pieces.contains(b),
    ensures
        v.piece_at(a) is Some,
        ({
            let k = v.piece_at(a)->0;
            let m = v.moved(k, a, b);
            &&& !m.pieces.contains(a)
            &&& m.pieces.contains(b)
            &&& m.board(k) == v.board(k).remove(a).insert(b)
            &&& forall|j: PieceType| j != k ==> #[trigger] m.board(j) == v.board(j)
            &&& m.piece_at(a) is None
            &&& m.piece_at(b) == Some(k)
            &&& m.wf()
        }),
{
    lemma_piece_at(v, a);
    let k = v.piece_at(a)->0;
    let m = v.moved(k, a, b);
    lemma_with_board(v, k, v.board(k).remove(a).insert(b));
    lemma_move_keeps_partition(v, a, b);
    lemma_piece_at(m, a);
    lemma_piece_at(m, b);
}

/// Taking the piece on `to` a second time changes nothing: both the aggregate
/// board and every per-type board end as after the first time.
pub proof fn lemma_capture_idempotent(v: LedgerView, to: int)
    requires
        v.wf(),
    ensures
        v.captured(to).captured(to) == v.captured(to),
{
    let c = v.captured(to);
    lemma_capture_keeps_partition(v, to);
    lemma_piece_at(v, to);
    match v.piece_at(to) {
        Some(k) => {
            lemma_with_board(v, k, v.board(k).remove(to));
        },
        None => {},
    }
    lemma_piece_at(c, to);
    assert(c.piece_at(to) is None);
    assert(c.pieces.remove(to) =~= c.pieces);
}

/// With exactly one king on the board, the king-adjacency query is false
/// exactly when the king stands on `pos`, and true otherwise (also when `pos`
/// is empty).
pub proof fn lemma_single_king(v: LedgerView, pos: int)
    requires
        v.king.finite(),
        v.king.len() == 1,
    ensures
        v.has_king_elsewhere(pos) <==> !v.king.contains(pos),
{
    vstd::set_lib::lemma_set_empty_equivalency_len(v.king);
    let k0 = choose|s: int| v.king.contains(s);
    assert(v.king.remove(k0).len() == 0);
    vstd::set_lib::lemma_set_empty_equivalency_len(v.king.remove(k0));
    assert forall|s: int| v.king.contains(s) implies s == k0 by {
        if s != k0 {
            assert(v.king.remove(k0).contains(s));
        }
    }
    if !v.king.contains(pos) {
        assert(v.king.contains(k0) && k0 != pos);
    }
}

} // verus!
