use vstd::prelude::*;
use vstd::set_lib::{lemma_int_range, set_int_range};

verus! {

/// Number of squares along one side of the board.
pub const BOARD_SIZE: u64 = 8;

/// Number of squares on the board, and of bits in a board word.
pub const NUM_SQUARES: u64 = 64;

/// Whether bit `i` of the word `w` is one.
pub open spec fn bit(w: u64, i: u64) -> bool {
    (w >> i) & 1 == 1
}

/// The squares whose bits are set in the word `w`.
pub open spec fn squares_of(w: u64) -> Set<int> {
    Set::new(|s: int| 0 <= s < 64 && bit(w, s as u64))
}

/// A set of occupied squares over the 8x8 grid, one bit per square index 0..63.
#[derive(Clone, Copy, Debug)]
pub struct Bitboard {
    board: u64,
}

impl View for Bitboard {
    type V = Set<int>;

    closed spec fn view(&self) -> Set<int> {
        squares_of(self.board)
    }
}

proof fn lemma_bit_zero(j: u64)
    ensures
        !bit(0, j),
{
    assert((0u64 >> j) & 1 != 1) by (bit_vector);
}

proof fn lemma_bit_set(w: u64, i: u64, j: u64)
    requires
        i < 64,
        j < 64,
    ensures
        bit(w | (1u64 << i), j) == (j == i || bit(w, j)),
{
    assert(((w | (1u64 << i)) >> j) & 1 == 1 <==> (j == i || (w >> j) & 1 == 1)) by (bit_vector)
        requires
            i < 64,
            j < 64,
    ;
}

proof fn lemma_bit_clear(w: u64, i: u64, j: u64)
    requires
        i < 64,
        j < 64,
    ensures
        bit(w & !(1u64 << i), j) == (j != i && bit(w, j)),
{
    assert(((w & !(1u64 << i)) >> j) & 1 == 1 <==> (j != i && (w >> j) & 1 == 1)) by (bit_vector)
        requires
            i < 64,
            j < 64,
    ;
}

proof fn lemma_bit_test(w: u64, i: u64)
    requires
        i < 64,
    ensures
        bit(w, i) == (w & (1u64 << i) != 0),
{
    assert(((w >> i) & 1 == 1) == (w & (1u64 << i) != 0)) by (bit_vector)
        requires
            i < 64,
    ;
}

/// Every set square of a board lies in 0..64, so the set of them is finite.
proof fn lemma_squares_finite(w: u64)
    ensures
        squares_of(w).finite(),
        squares_of(w).len() <= 64,
{
    lemma_int_range(0, 64);
    assert(squares_of(w).subset_of(set_int_range(0, 64)));
    vstd::set_lib::lemma_len_subset(squares_of(w), set_int_range(0, 64));
}

/// The squares of a bitwise OR of two words are the union of their squares.
pub proof fn lemma_squares_union(a: u64, b: u64)
    ensures
        squares_of(a | b) == squares_of(a) + squares_of(b),
{
    assert forall|s: int| 0 <= s < 64 implies #[trigger] bit(a | b, s as u64) == (bit(a, s as u64)
        || bit(b, s as u64)) by {
        let j = s as u64;
        assert((((a | b) >> j) & 1 == 1) == ((a >> j) & 1 == 1 || (b >> j) & 1 == 1))
            by (bit_vector);
    }
    assert(squares_of(a | b) =~= squares_of(a) + squares_of(b));
}

proof fn lemma_empty_word(w: u64)
    requires
        w == 0,
    ensures
        squares_of(w) == Set::<int>::empty(),
{
    assert forall|s: int| !squares_of(w).contains(s) by {
        if 0 <= s < 64 {
            lemma_bit_zero(s as u64);
        }
    }
    assert(squares_of(w) =~= Set::<int>::empty());
}

/// A board holds at most 64 squares.
pub proof fn lemma_view_finite(b: Bitboard)
    ensures
        b@.finite(),
        b@.len() <= 64,
{
    lemma_squares_finite(b.board);
}

impl Bitboard {
    /// An empty board: no square is set.
    pub fn new() -> (r: Bitboard)
        ensures
            r@ == Set::<int>::empty(),
    {
        proof {
            lemma_empty_word(0);
        }
        Bitboard { board: 0 }
    }

    /// A board whose squares are the set bits of `board`.
    pub fn from_board(board: u64) -> (r: Bitboard)
        ensures
            r@ == squares_of(board),
    {
        Bitboard { board }
    }

    /// The raw 64-bit word of the board.
    pub fn get_board(&self) -> (r: u64)
        ensures
            squares_of(r) == self@,
    {
        self.board
    }

    /// Replaces the whole board by the set bits of `board`.
    pub fn set_board(&mut self, board: u64)
        ensures
            final(self)@ == squares_of(board),
    {
        self.board = board;
    }

    /// Whether `square` is set.
    pub fn get_square(&self, square: u64) -> (r: bool)
        requires
            square < NUM_SQUARES,
        ensures
            r == self@.contains(square as int),
    {
        proof {
            lemma_bit_test(self.board, square);
        }
        self.board & (1u64 << square) != 0
    }

    /// Sets `square`; setting a square that is already set changes nothing.
    pub fn set_square(&mut self, square: u64)
        requires
            square < NUM_SQUARES,
        ensures
            final(self)@ == old(self)@.insert(square as int),
    {
        let w = self.board;
        self.board = w | (1u64 << square);
        proof {
            assert forall|s: int| 0 <= s < 64 implies #[trigger] bit(self.board, s as u64) == (s
                == square || bit(w, s as u64)) by {
                lemma_bit_set(w, square, s as u64);
            }
            assert(self@ =~= old(self)@.insert(square as int));
        }
    }

    /// Clears `square`; clearing a square that is not set changes nothing.
    pub fn clear_square(&mut self, square: u64)
        requires
            square < NUM_SQUARES,
        ensures
            final(self)@ == old(self)@.remove(square as int),
    {
        let w = self.board;
        self.board = w & !(1u64 << square);
        proof {
            assert forall|s: int| 0 <= s < 64 implies #[trigger] bit(self.board, s as u64) == (s
                != square && bit(w, s as u64)) by {
                lemma_bit_clear(w, square, s as u64);
            }
            assert(self@ =~= old(self)@.remove(square as int));
        }
    }

    /// The number of set squares.
    pub fn get_num_squares(&self) -> (r: u64)
        ensures
            r as int == self@.len(),
    {
        let w = self.board;
        let mut count: u64 = 0;
        let mut i: u64 = 0;
        proof {
            lemma_int_range(0, 0);
            assert(self@.filter(|s: int| s < 0) =~= Set::<int>::empty());
        }
        while i < NUM_SQUARES
            invariant
                i <= 64,
                count <= i,
                w == self.board,
                self@.filter(|s: int| s < i).finite(),
                count as int == self@.filter(|s: int| s < i).len(),
            decreases 64 - i,
        {
            let below = Ghost(self@.filter(|s: int| s < i));
            let next = Ghost(self@.filter(|s: int| s < i + 1));
            proof {
                lemma_bit_test(w, i);
            }
            if w & (1u64 << i) != 0 {
                proof {
                    assert(next@ =~= below@.insert(i as int));
                }
                count = count + 1;
            } else {
                proof {
                    assert(next@ =~= below@);
                }
            }
            i = i + 1;
        }
        proof {
            assert(self@.filter(|s: int| s < 64) =~= self@);
        }
        count
    }
}

} // verus!
