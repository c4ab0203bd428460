use vstd::prelude::*;
use crate::cooldowns::{
    COOLDOWN_BISHOP, COOLDOWN_KING, COOLDOWN_KNIGHT, COOLDOWN_PAWN, COOLDOWN_QUEEN, COOLDOWN_ROOK,
};
use crate::coordinate::Coord;

verus! {

#[derive(Debug, Clone, Copy, PartialEq, Eq, Structural, Hash)]
pub enum Color {
    White,
    Black,
}

impl Color {
    pub open spec fn other(self) -> Color {
        match self {
            Color::White => Color::Black,
            Color::Black => Color::White,
        }
    }

    pub fn opposite(self) -> (r: Color)
        ensures
            r == self.other(),
    {
        match self {
            Color::White => Color::Black,
            Color::Black => Color::White,
        }
    }
}

/// A piece: its kind, its color and its remaining cooldown in milliseconds.
#[derive(Clone, Copy, Debug)]
pub enum Piece {
    Pawn(Color, u64),
    Knight(Color, u64),
    Bishop(Color, u64),
    Rook(Color, u64),
    Queen(Color, u64),
    King(Color, u64),
}

/// Kind numbers: pawn 0, knight 1, bishop 2, rook 3, queen 4, king 5.
pub const KIND_PAWN: u8 = 0;
pub const KIND_KNIGHT: u8 = 1;
pub const KIND_BISHOP: u8 = 2;
pub const KIND_ROOK: u8 = 3;
pub const KIND_QUEEN: u8 = 4;
pub const KIND_KING: u8 = 5;

/// The standard cooldown of the kind numbered `k`.
pub open spec fn std_cooldown_of(k: int) -> u64 {
    if k == 0 {
        COOLDOWN_PAWN
    } else if k == 1 {
        COOLDOWN_KNIGHT
    } else if k == 2 {
        COOLDOWN_BISHOP
    } else if k == 3 {
        COOLDOWN_ROOK
    } else if k == 4 {
        COOLDOWN_QUEEN
    } else {
        COOLDOWN_KING
    }
}

/// The piece of kind number `k` (0..=5) and the given color and cooldown.
pub open spec fn make_piece(k: int, c: Color, cd: u64) -> Piece {
    if k == 0 {
        Piece::Pawn(c, cd)
    } else if k == 1 {
        Piece::Knight(c, cd)
    } else if k == 2 {
        Piece::Bishop(c, cd)
    } else if k == 3 {
        Piece::Rook(c, cd)
    } else if k == 4 {
        Piece::Queen(c, cd)
    } else {
        Piece::King(c, cd)
    }
}

impl Piece {
    pub open spec fn kind(self) -> int {
        match self {
            Piece::Pawn(..) => 0,
            Piece::Knight(..) => 1,
            Piece::Bishop(..) => 2,
            Piece::Rook(..) => 3,
            Piece::Queen(..) => 4,
            Piece::King(..) => 5,
        }
    }

    pub open spec fn color(self) -> Color {
        match self {
            Piece::Pawn(c, _) | Piece::Knight(c, _) | Piece::Bishop(c, _) | Piece::Rook(c, _)
            | Piece::Queen(c, _) | Piece::King(c, _) => c,
        }
    }

    pub open spec fn cooldown(self) -> u64 {
        match self {
            Piece::Pawn(_, d) | Piece::Knight(_, d) | Piece::Bishop(_, d) | Piece::Rook(_, d)
            | Piece::Queen(_, d) | Piece::King(_, d) => d,
        }
    }

    /// Same kind and color; the cooldown is not part of a piece's identity.
    pub open spec fn same(self, other: Piece) -> bool {
        self.kind() == other.kind() && self.color() == other.color()
    }

    #[inline]
    pub fn is_king(&self) -> (r: bool)
        ensures
            r == (self.kind() == 5),
    {
        matches!(self, Piece::King(..))
    }

    #[inline]
    pub fn is_queen(&self) -> (r: bool)
        ensures
            r == (self.kind() == 4),
    {
        matches!(self, Piece::Queen(..))
    }

    #[inline]
    pub fn is_rook(&self) -> (r: bool)
        ensures
            r == (self.kind() == 3),
    {
        matches!(self, Piece::Rook(..))
    }

    #[inline]
    pub fn is_bishop(&self) -> (r: bool)
        ensures
            r == (self.kind() == 2),
    {
        matches!(self, Piece::Bishop(..))
    }

    #[inline]
    pub fn is_knight(&self) -> (r: bool)
        ensures
            r == (self.kind() == 1),
    {
        matches!(self, Piece::Knight(..))
    }

    #[inline]
    pub fn is_pawn(&self) -> (r: bool)
        ensures
            r == (self.kind() == 0),
    {
        matches!(self, Piece::Pawn(..))
    }

    /// The kind number of this piece (pawn 0 up to king 5).
    pub fn kind_number(&self) -> (r: u8)
        ensures
            r as int == self.kind(),
    {
        match self {
            Piece::Pawn(..) => KIND_PAWN,
            Piece::Knight(..) => KIND_KNIGHT,
            Piece::Bishop(..) => KIND_BISHOP,
            Piece::Rook(..) => KIND_ROOK,
            Piece::Queen(..) => KIND_QUEEN,
            Piece::King(..) => KIND_KING,
        }
    }

    #[inline]
    pub fn get_color(&self) -> (r: Color)
        ensures
            r == self.color(),
    {
        match self {
            Piece::Pawn(c, _) | Piece::Knight(c, _) | Piece::Bishop(c, _) | Piece::Rook(c, _)
            | Piece::Queen(c, _) | Piece::King(c, _) => *c,
        }
    }

    #[inline]
    pub fn opposing_color(&self) -> (r: Color)
        ensures
            r == self.color().other(),
    {
        self.get_color().opposite()
    }

    #[inline]
    pub fn get_cooldown(&self) -> (r: u64)
        ensures
            r == self.cooldown(),
    {
        match self {
            Piece::Pawn(_, d) | Piece::Knight(_, d) | Piece::Bishop(_, d) | Piece::Rook(_, d)
            | Piece::Queen(_, d) | Piece::King(_, d) => *d,
        }
    }

    /// Replaces the cooldown and keeps kind and color.
    #[inline]
    pub fn set_cooldown(&mut self, cooldown: u64)
        ensures
            *final(self) == make_piece(old(self).kind(), old(self).color(), cooldown),
    {
        *self = match *self {
            Piece::Pawn(c, _) => Piece::Pawn(c, cooldown),
            Piece::Knight(c, _) => Piece::Knight(c, cooldown),
            Piece::Bishop(c, _) => Piece::Bishop(c, cooldown),
            Piece::Rook(c, _) => Piece::Rook(c, cooldown),
            Piece::Queen(c, _) => Piece::Queen(c, cooldown),
            Piece::King(c, _) => Piece::King(c, cooldown),
        };
    }

    /// The standard cooldown of the piece's kind.
    #[inline]
    pub fn std_piece_cooldown(piece: &Piece) -> (r: u64)
        ensures
            r == std_cooldown_of(piece.kind()),
    {
        match piece {
            Piece::Pawn(..) => COOLDOWN_PAWN,
            Piece::Knight(..) => COOLDOWN_KNIGHT,
            Piece::Bishop(..) => COOLDOWN_BISHOP,
            Piece::Rook(..) => COOLDOWN_ROOK,
            Piece::Queen(..) => COOLDOWN_QUEEN,
            Piece::King(..) => COOLDOWN_KING,
        }
    }

    /// The piece of kind number `k` with the given color and cooldown.
    pub fn of_kind(k: u8, color: Color, cooldown: u64) -> (r: Piece)
        requires
            k <= 5,
        ensures
            r == make_piece(k as int, color, cooldown),
    {
        if k == KIND_PAWN {
            Piece::Pawn(color, cooldown)
        } else if k == KIND_KNIGHT {
            Piece::Knight(color, cooldown)
        } else if k == KIND_BISHOP {
            Piece::Bishop(color, cooldown)
        } else if k == KIND_ROOK {
            Piece::Rook(color, cooldown)
        } else if k == KIND_QUEEN {
            Piece::Queen(color, cooldown)
        } else {
            Piece::King(color, cooldown)
        }
    }
}

impl PartialEq for Piece {
    fn eq(&self, other: &Piece) -> (r: bool)
        ensures
            r == self.same(*other),
    {
        self.kind_number() == other.kind_number() && self.get_color() == other.get_color()
    }
}

impl vstd::std_specs::cmp::PartialEqSpecImpl for Piece {
    open spec fn obeys_eq_spec() -> bool {
        true
    }

    open spec fn eq_spec(&self, other: &Piece) -> bool {
        self.same(*other)
    }
}

/// A move. Castling moves name only the color; the squares are implied.
#[derive(Debug, Clone, Copy)]
pub enum Move {
    KingSideCastle(Color),
    QueenSideCastle(Color),
    Piece(Coord, Coord),
    Promotion(Coord, Coord, Piece),
}

impl Move {
    /// Equal moves: same variant and fields, pieces compared by kind and color.
    pub open spec fn same(self, other: Move) -> bool {
        match (self, other) {
            (Move::KingSideCastle(a), Move::KingSideCastle(b)) => a == b,
            (Move::QueenSideCastle(a), Move::QueenSideCastle(b)) => a == b,
            (Move::Piece(f1, t1), Move::Piece(f2, t2)) => f1 == f2 && t1 == t2,
            (Move::Promotion(f1, t1, p1), Move::Promotion(f2, t2, p2)) => f1 == f2 && t1 == t2
                && p1.same(p2),
            _ => false,
        }
    }

    /// The square a move lands on, for the moves that name one.
    pub open spec fn target(self) -> Option<Coord> {
        match self {
            Move::Piece(_, to) | Move::Promotion(_, to, _) => Some(to),
            _ => None,
        }
    }
}

impl PartialEq for Move {
    fn eq(&self, other: &Move) -> (r: bool)
        ensures
            r == self.same(*other),
    {
        match (self, other) {
            (Move::KingSideCastle(a), Move::KingSideCastle(b)) => *a == *b,
            (Move::QueenSideCastle(a), Move::QueenSideCastle(b)) => *a == *b,
            (Move::Piece(f1, t1), Move::Piece(f2, t2)) => *f1 == *f2 && *t1 == *t2,
            (Move::Promotion(f1, t1, p1), Move::Promotion(f2, t2, p2)) => *f1 == *f2 && *t1
                == *t2 && p1.eq(p2),
            _ => false,
        }
    }
}

impl vstd::std_specs::cmp::PartialEqSpecImpl for Move {
    open spec fn obeys_eq_spec() -> bool {
        true
    }

    open spec fn eq_spec(&self, other: &Move) -> bool {
        self.same(*other)
    }
}

} // verus!
