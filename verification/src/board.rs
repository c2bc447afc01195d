//! The plain values that agents and the simulator exchange: colours, pieces,
//! squares, moves and the snapshot of a position that an agent is shown.

use vstd::prelude::*;

verus! {

/// One of the two sides.
#[derive(Clone, Copy, Debug, PartialEq, Eq, Structural)]
pub enum Color {
    White,
    Black,
}

impl Color {
    /// The two sides, White first.
    pub const ALL: [Color; 2] = [Color::White, Color::Black];

    /// The other side.
    pub open spec fn opponent(self) -> Color {
        match self {
            Color::White => Color::Black,
            Color::Black => Color::White,
        }
    }

}

/// The kind of a piece, in ascending order of value.
#[derive(Clone, Copy, Debug, PartialEq, Eq, Structural)]
pub enum Piece {
    Pawn,
    Knight,
    Bishop,
    Rook,
    Queen,
    King,
}

impl Piece {
    /// The six kinds, in ascending order of value.
    pub const ALL: [Piece; 6] = [
        Piece::Pawn,
        Piece::Knight,
        Piece::Bishop,
        Piece::Rook,
        Piece::Queen,
        Piece::King,
    ];
}

/// The number of squares on the board. Squares are numbered rank by rank
/// from White's side: `a1` is 0, `h1` is 7, `a8` is 56 and `h8` is 63.
pub const SQUARES: u8 = 64;

/// The rank (row) of a square, 0 for White's back rank.
pub open spec fn rank_of(square: u8) -> int {
    square as int / 8
}

/// The file (column) of a square, 0 for the a-file.
pub open spec fn file_of(square: u8) -> int {
    square as int % 8
}

/// The square on the same file whose rank is counted from the other side.
#[verifier::opaque]
pub open spec fn mirror_square(square: u8) -> u8
    recommends
        square < SQUARES,
{
    (8 * (7 - rank_of(square)) + file_of(square)) as u8
}

/// The mirror image of a square of the board is a square of the board, on
/// the same file and as far from one end as the square is from the other;
/// its own mirror image is the square.
pub proof fn lemma_mirror_square(square: u8)
    requires
        square < SQUARES,
    ensures
        mirror_square(square) < SQUARES,
        rank_of(mirror_square(square)) == 7 - rank_of(square),
        file_of(mirror_square(square)) == file_of(square),
        mirror_square(mirror_square(square)) == square,
{
    reveal(mirror_square);
    let rank = square as int / 8;
    let file = square as int % 8;
    let image = 8 * (7 - rank) + file;
    assert(0 <= rank < 8 && 0 <= file < 8);
    assert(image / 8 == 7 - rank && image % 8 == file);
}

/// A move as the rules engine names it: where the piece stands, where it
/// goes, and what a pawn that reaches the last rank turns into.
#[derive(Clone, Copy, Debug, PartialEq, Eq, Structural)]
pub struct Move {
    pub source: u8,
    pub dest: u8,
    pub promotion: Option<Piece>,
}

impl Move {
    /// Both squares are on the board.
    pub open spec fn on_board(self) -> bool {
        self.source < SQUARES && self.dest < SQUARES
    }

    /// The number of ranks the piece climbs, counted from White's side;
    /// negative when it descends.
    pub open spec fn rank_shift(self) -> int {
        rank_of(self.dest) - rank_of(self.source)
    }

    /// The same move seen from the other side of the board.
    pub open spec fn mirrored(self) -> Move
        recommends
            self.on_board(),
    {
        Move {
            source: mirror_square(self.source),
            dest: mirror_square(self.dest),
            promotion: self.promotion,
        }
    }

    /// The move from `source` to `dest`.
    pub fn new(source: u8, dest: u8, promotion: Option<Piece>) -> (mv: Move)
        ensures
            mv == (Move { source, dest, promotion }),
    {
        Move { source, dest, promotion }
    }

    /// Whether both squares are on the board.
    pub fn is_on_board(&self) -> (b: bool)
        ensures
            b == self.on_board(),
    {
        self.source < SQUARES && self.dest < SQUARES
    }

    /// The rank of the square the piece leaves.
    pub fn source_rank(&self) -> (r: u8)
        ensures
            r == rank_of(self.source),
    {
        self.source / 8
    }

    /// The rank of the square the piece reaches.
    pub fn dest_rank(&self) -> (r: u8)
        ensures
            r == rank_of(self.dest),
    {
        self.dest / 8
    }

    /// The move with both squares mirrored; `None` when a square is off the
    /// board.
    pub fn mirror(&self) -> (m: Option<Move>)
        ensures
            m == if self.on_board() {
                Some(self.mirrored())
            } else {
                None::<Move>
            },
    {
        if self.source < SQUARES && self.dest < SQUARES {
            proof {
                reveal(mirror_square);
            }
            let source: u8 = 8 * (7 - self.source / 8) + self.source % 8;
            let dest: u8 = 8 * (7 - self.dest / 8) + self.dest % 8;
            Some(Move { source, dest, promotion: self.promotion })
        } else {
            None
        }
    }
}

/// What an agent is shown of the position it has to move in.
#[derive(Clone, Debug)]
pub struct Board {
    /// The side that has to move.
    pub side_to_move: Color,
    /// The position in Forsyth-Edwards notation.
    pub fen: String,
}

/// Mirroring a move twice gives the move back.
pub proof fn law_mirror_is_an_involution(mv: Move)
    requires
        mv.on_board(),
    ensures
        mv.mirrored().on_board(),
        mv.mirrored().mirrored() == mv,
{
    lemma_mirror_square(mv.source);
    lemma_mirror_square(mv.dest);
}

/// Mirroring a move negates the number of ranks it climbs.
pub proof fn law_mirror_negates_rank_shift(mv: Move)
    requires
        mv.on_board(),
    ensures
        mv.mirrored().rank_shift() == -mv.rank_shift(),
{
    lemma_mirror_square(mv.source);
    lemma_mirror_square(mv.dest);
}

} // verus!
