use vstd::prelude::*;
use crate::cooldowns::{
    BOARD_TICK_RATE, COOLDOWN_BISHOP, COOLDOWN_KING, COOLDOWN_KNIGHT, COOLDOWN_PAWN,
    COOLDOWN_QUEEN, COOLDOWN_ROOK,
};
use crate::coordinate::Coord;
use crate::piece::{make_piece, std_cooldown_of, Color, Move, Piece};

verus! {

broadcast use vstd::array::group_array_axioms;

/// The mathematical view of a board: what stands on each square (nothing
/// off the board) and the four castling rights.
pub struct BoardModel {
    pub grid: spec_fn(int, int) -> Option<Piece>,
    pub white_kingside: bool,
    pub white_queenside: bool,
    pub black_kingside: bool,
    pub black_queenside: bool,
}

pub open spec fn is_king_of(o: Option<Piece>, c: Color) -> bool {
    match o {
        Some(p) => p.kind() == 5 && p.color() == c,
        None => false,
    }
}

/// The rank on which the pieces of a color start.
pub open spec fn home_rank(c: Color) -> int {
    if c == Color::White {
        0
    } else {
        7
    }
}

/// Kind number of the piece that starts on file `f` of a back rank.
pub open spec fn back_rank_kind(f: int) -> int {
    if f == 0 || f == 7 {
        3
    } else if f == 1 || f == 6 {
        1
    } else if f == 2 || f == 5 {
        2
    } else if f == 3 {
        4
    } else {
        5
    }
}

/// What stands on a square of the starting position; every cooldown is zero.
pub open spec fn standard_at(f: int, r: int) -> Option<Piece> {
    if !(0 <= f < 8 && 0 <= r < 8) {
        None
    } else if r == 0 {
        Some(make_piece(back_rank_kind(f), Color::White, 0))
    } else if r == 1 {
        Some(Piece::Pawn(Color::White, 0))
    } else if r == 6 {
        Some(Piece::Pawn(Color::Black, 0))
    } else if r == 7 {
        Some(make_piece(back_rank_kind(f), Color::Black, 0))
    } else {
        None
    }
}

pub open spec fn standard_model() -> BoardModel {
    BoardModel {
        grid: |f: int, r: int| standard_at(f, r),
        white_kingside: true,
        white_queenside: true,
        black_kingside: true,
        black_queenside: true,
    }
}

pub open spec fn empty_model() -> BoardModel {
    BoardModel {
        grid: |f: int, r: int| None::<Piece>,
        white_kingside: false,
        white_queenside: false,
        black_kingside: false,
        black_queenside: false,
    }
}

/// A piece after one tick: its cooldown lowered by the tick rate, not below zero.
pub open spec fn ticked_piece(p: Piece) -> Piece {
    make_piece(
        p.kind(),
        p.color(),
        if p.cooldown() >= BOARD_TICK_RATE {
            (p.cooldown() - BOARD_TICK_RATE) as u64
        } else {
            0
        },
    )
}

impl BoardModel {
    #[verifier::inline]
    pub open spec fn at(self, f: int, r: int) -> Option<Piece> {
        (self.grid)(f, r)
    }

    pub open spec fn at_coord(self, c: Coord) -> Option<Piece> {
        self.at(c.0 as int, c.1 as int)
    }

    pub open spec fn has_king(self, c: Color) -> bool {
        exists|f: int, r: int| 0 <= f < 8 && 0 <= r < 8 && is_king_of(#[trigger] self.at(f, r), c)
    }

    /// Color `c` may still castle on the king's side.
    pub open spec fn kingside_right(self, c: Color) -> bool {
        if c == Color::White {
            self.white_kingside
        } else {
            self.black_kingside
        }
    }

    /// Color `c` may still castle on the queen's side.
    pub open spec fn queenside_right(self, c: Color) -> bool {
        if c == Color::White {
            self.white_queenside
        } else {
            self.black_queenside
        }
    }

    pub open spec fn same_rights(self, other: BoardModel) -> bool {
        &&& self.white_kingside == other.white_kingside
        &&& self.white_queenside == other.white_queenside
        &&& self.black_kingside == other.black_kingside
        &&& self.black_queenside == other.black_queenside
    }

    /// The board with square (f, r) holding `p` and nothing else changed.
    pub open spec fn put(self, f: int, r: int, p: Option<Piece>) -> BoardModel {
        BoardModel {
            grid: |x: int, y: int|
                if x == f && y == r {
                    p
                } else {
                    (self.grid)(x, y)
                },
            ..self
        }
    }

    pub open spec fn put_at(self, c: Coord, p: Option<Piece>) -> BoardModel {
        self.put(c.0 as int, c.1 as int, p)
    }

    /// Only the pieces of color `c` stay.
    pub open spec fn keep_color(self, c: Color) -> BoardModel {
        BoardModel {
            grid: |x: int, y: int|
                match (self.grid)(x, y) {
                    Some(t) => if t.color() == c {
                        Some(t)
                    } else {
                        None
                    },
                    None => None,
                },
            ..self
        }
    }

    /// Only the pieces of the same kind and color as `p` stay.
    pub open spec fn keep_piece(self, p: Piece) -> BoardModel {
        BoardModel {
            grid: |x: int, y: int|
                match (self.grid)(x, y) {
                    Some(t) => if t.same(p) {
                        Some(t)
                    } else {
                        None
                    },
                    None => None,
                },
            ..self
        }
    }

    /// Every piece of the same kind and color as `p` is taken off.
    pub open spec fn without_piece(self, p: Piece) -> BoardModel {
        BoardModel {
            grid: |x: int, y: int|
                match (self.grid)(x, y) {
                    Some(t) => if t.same(p) {
                        None
                    } else {
                        Some(t)
                    },
                    None => None,
                },
            ..self
        }
    }

    /// Every cooldown lowered by one tick.
    pub open spec fn ticked(self) -> BoardModel {
        BoardModel {
            grid: |x: int, y: int|
                match (self.grid)(x, y) {
                    Some(t) => Some(ticked_piece(t)),
                    None => None,
                },
            ..self
        }
    }

    /// Both castling rights of color `c` taken away.
    pub open spec fn revoke_all(self, c: Color) -> BoardModel {
        if c == Color::White {
            BoardModel { white_kingside: false, white_queenside: false, ..self }
        } else {
            BoardModel { black_kingside: false, black_queenside: false, ..self }
        }
    }

    /// The rights lost when piece `p` leaves square `from`: all of its color's
    /// for a king, one side's for a rook leaving its corner.
    pub open spec fn revoke_for(self, p: Piece, from: Coord) -> BoardModel {
        let rank = home_rank(p.color());
        if p.kind() == 5 {
            self.revoke_all(p.color())
        } else if p.kind() == 3 && from.1 == rank && from.0 == 7 {
            if p.color() == Color::White {
                BoardModel { white_kingside: false, ..self }
            } else {
                BoardModel { black_kingside: false, ..self }
            }
        } else if p.kind() == 3 && from.1 == rank && from.0 == 0 {
            if p.color() == Color::White {
                BoardModel { white_queenside: false, ..self }
            } else {
                BoardModel { black_queenside: false, ..self }
            }
        } else {
            self
        }
    }

    /// The board after move `m` is applied, legal or not.
    pub open spec fn apply(self, m: Move) -> BoardModel {
        match m {
            Move::Piece(from, to) => match self.at_coord(from) {
                Some(p) => self.put_at(
                    to,
                    Some(make_piece(p.kind(), p.color(), std_cooldown_of(p.kind()))),
                ).put_at(from, None).revoke_for(p, from),
                None => self.put_at(from, None),
            },
            Move::KingSideCastle(c) => {
                let r = home_rank(c);
                self.put(4, r, None).put(7, r, None).put(
                    6,
                    r,
                    Some(Piece::King(c, COOLDOWN_KING)),
                ).put(5, r, Some(Piece::Rook(c, COOLDOWN_ROOK))).revoke_all(c)
            },
            Move::QueenSideCastle(c) => {
                let r = home_rank(c);
                self.put(4, r, None).put(0, r, None).put(
                    2,
                    r,
                    Some(Piece::King(c, COOLDOWN_KING)),
                ).put(3, r, Some(Piece::Rook(c, COOLDOWN_ROOK))).revoke_all(c)
            },
            Move::Promotion(from, to, p) => self.put_at(from, None).put_at(to, Some(p)),
        }
    }

    /// Number of occupied squares in row `r` from file `f` on.
    pub open spec fn count_row(self, r: int, f: int) -> nat
        decreases 8 - f,
    {
        if f >= 8 {
            0
        } else {
            (if self.at(f, r).is_some() {
                1nat
            } else {
                0nat
            }) + self.count_row(r, f + 1)
        }
    }

    /// Number of occupied squares in the rows from `r` on.
    pub open spec fn count_rows(self, r: int) -> nat
        decreases 8 - r,
    {
        if r >= 8 {
            0
        } else {
            self.count_row(r, 0) + self.count_rows(r + 1)
        }
    }

    pub open spec fn matches_at(self, f: int, r: int, p: Piece) -> bool {
        match self.at(f, r) {
            Some(t) => t.same(p),
            None => false,
        }
    }

    /// The first square of row `r`, from file `f` on, holding a piece like `p`.
    pub open spec fn find_row(self, p: Piece, r: int, f: int) -> Option<Coord>
        decreases 8 - f,
    {
        if f >= 8 {
            None
        } else if self.matches_at(f, r, p) {
            Some(Coord(f as i8, r as i8))
        } else {
            self.find_row(p, r, f + 1)
        }
    }

    /// The first square, row by row from rank `r` on, holding a piece like `p`.
    pub open spec fn find_rows(self, p: Piece, r: int) -> Option<Coord>
        decreases 8 - r,
    {
        if r >= 8 {
            None
        } else {
            match self.find_row(p, r, 0) {
                Some(c) => Some(c),
                None => self.find_rows(p, r + 1),
            }
        }
    }

    pub open spec fn find(self, p: Piece) -> Option<Coord> {
        self.find_rows(p, 0)
    }
}

/// A position: an 8x8 grid indexed `[rank][file]` and the castling rights.
#[derive(Debug, Clone, Copy)]
pub struct Board {
    pub pieces: [[Option<Piece>; 8]; 8],
    pub white_can_castle_kingside: bool,
    pub white_can_castle_queenside: bool,
    pub black_can_castle_kingside: bool,
    pub black_can_castle_queenside: bool,
}

impl View for Board {
    type V = BoardModel;

    open spec fn view(&self) -> BoardModel {
        let p = self.pieces;
        BoardModel {
            grid: |f: int, r: int|
                if 0 <= f < 8 && 0 <= r < 8 {
                    p@[r]@[f]
                } else {
                    None
                },
            white_kingside: self.white_can_castle_kingside,
            white_queenside: self.white_can_castle_queenside,
            black_kingside: self.black_can_castle_kingside,
            black_queenside: self.black_can_castle_queenside,
        }
    }
}

/// A grid with every square empty.
fn empty_grid() -> (g: [[Option<Piece>; 8]; 8])
    ensures
        forall|f: int, r: int| 0 <= f < 8 && 0 <= r < 8 ==> (#[trigger] g@[r]@[f]).is_none(),
{
    let row: [Option<Piece>; 8] = [None, None, None, None, None, None, None, None];
    [row, row, row, row, row, row, row, row]
}

impl Board {
    /// The starting position, every cooldown zero and all castling rights set.
    pub fn standard() -> (r: Board)
        ensures
            r@ == standard_model(),
    {
        let w = Color::White;
        let b = Color::Black;
        let e: [Option<Piece>; 8] = [None, None, None, None, None, None, None, None];
        let wp = Some(Piece::Pawn(w, 0));
        let bp = Some(Piece::Pawn(b, 0));
        let white_pawns: [Option<Piece>; 8] = [wp, wp, wp, wp, wp, wp, wp, wp];
        let black_pawns: [Option<Piece>; 8] = [bp, bp, bp, bp, bp, bp, bp, bp];
        let white_back: [Option<Piece>; 8] = [
            Some(Piece::Rook(w, 0)),
            Some(Piece::Knight(w, 0)),
            Some(Piece::Bishop(w, 0)),
            Some(Piece::Queen(w, 0)),
            Some(Piece::King(w, 0)),
            Some(Piece::Bishop(w, 0)),
            Some(Piece::Knight(w, 0)),
            Some(Piece::Rook(w, 0)),
        ];
        let black_back: [Option<Piece>; 8] = [
            Some(Piece::Rook(b, 0)),
            Some(Piece::Knight(b, 0)),
            Some(Piece::Bishop(b, 0)),
            Some(Piece::Queen(b, 0)),
            Some(Piece::King(b, 0)),
            Some(Piece::Bishop(b, 0)),
            Some(Piece::Knight(b, 0)),
            Some(Piece::Rook(b, 0)),
        ];
        assert(forall|f: int| 0 <= f < 8 ==> white_back@[f] == standard_at(f, 0));
        assert(forall|f: int| 0 <= f < 8 ==> white_pawns@[f] == standard_at(f, 1));
        assert(forall|f: int| 0 <= f < 8 ==> e@[f] == standard_at(f, 2));
        assert(forall|f: int| 0 <= f < 8 ==> black_pawns@[f] == standard_at(f, 6));
        assert(forall|f: int| 0 <= f < 8 ==> black_back@[f] == standard_at(f, 7));
        let pieces: [[Option<Piece>; 8]; 8] = [
            white_back,
            white_pawns,
            e,
            e,
            e,
            e,
            black_pawns,
            black_back,
        ];
        let r = Board {
            pieces,
            white_can_castle_kingside: true,
            white_can_castle_queenside: true,
            black_can_castle_kingside: true,
            black_can_castle_queenside: true,
        };
        assert forall|f: int, rk: int| 0 <= f < 8 && 0 <= rk < 8 implies #[trigger] r.pieces@[rk]@[f]
            == standard_at(f, rk) by {
            if rk == 0 {
            } else if rk == 1 {
            } else if rk < 6 {
                assert(standard_at(f, rk) == standard_at(f, 2));
            } else if rk == 6 {
            } else {
            }
        }
        assert(r@.grid =~= standard_model().grid);
        r
    }

    /// The starting position; the same as `standard`.
    pub fn new() -> (r: Board)
        ensures
            r@ == standard_model(),
    {
        Board::standard()
    }

    /// A board with no pieces and no castling rights.
    pub fn empty() -> (r: Board)
        ensures
            r@ == empty_model(),
    {
        let pieces = empty_grid();
        let r = Board {
            pieces,
            white_can_castle_kingside: false,
            white_can_castle_queenside: false,
            black_can_castle_kingside: false,
            black_can_castle_queenside: false,
        };
        assert(r@.grid =~= empty_model().grid);
        r
    }
}

impl Default for Board {
    fn default() -> (r: Board)
        ensures
            r@ == empty_model(),
    {
        Board::empty()
    }
}

impl Board {
    fn sq(&self, f: usize, r: usize) -> (o: Option<Piece>)
        requires
            f < 8,
            r < 8,
        ensures
            o == self@.at(f as int, r as int),
    {
        self.pieces[r][f]
    }

    fn put_sq(&mut self, f: usize, r: usize, p: Option<Piece>)
        requires
            f < 8,
            r < 8,
        ensures
            final(self)@ == old(self)@.put(f as int, r as int, p),
    {
        let mut row = self.pieces[r];
        row[f] = p;
        self.pieces[r] = row;
        assert(self@.grid =~= old(self)@.put(f as int, r as int, p).grid);
    }

    /// Number of occupied squares.
    pub fn get_piece_count(&self) -> (n: usize)
        ensures
            n == self@.count_rows(0),
    {
        let mut n: usize = 0;
        let mut r: usize = 0;
        while r < 8
            invariant
                r <= 8,
                n + self@.count_rows(r as int) == self@.count_rows(0),
                n <= 8 * r,
            decreases 8 - r,
        {
            let mut f: usize = 0;
            while f < 8
                invariant
                    r < 8,
                    f <= 8,
                    n + self@.count_row(r as int, f as int) + self@.count_rows(r as int + 1)
                        == self@.count_rows(0),
                    n <= 8 * r + f,
                decreases 8 - f,
            {
                if self.sq(f, r).is_some() {
                    n = n + 1;
                }
                f = f + 1;
            }
            r = r + 1;
        }
        n
    }

    /// What stands on `position`; nothing for an off-board square.
    pub fn get_piece_at(&self, position: &Coord) -> (o: Option<Piece>)
        ensures
            o == self@.at_coord(*position),
    {
        if !position.is_valid() {
            return None;
        }
        self.sq(position.0 as usize, position.1 as usize)
    }

    /// Puts `piece` (or nothing) on an on-board square.
    pub fn set_piece_at(&mut self, piece: Option<Piece>, position: Coord)
        requires
            position.valid(),
        ensures
            final(self)@ == old(self)@.put_at(position, piece),
    {
        self.put_sq(position.0 as usize, position.1 as usize, piece);
    }

    /// Takes off every piece of the same kind and color as `piece`.
    pub fn remove_by_piece(&mut self, piece: &Piece)
        ensures
            final(self)@ == old(self)@.without_piece(*piece),
    {
        let ghost start = self@;
        let mut r: usize = 0;
        while r < 8
            invariant
                r <= 8,
                self@.same_rights(start),
                forall|x: int, y: int|
                    #![trigger self@.at(x, y)]
                    (0 <= x < 8 && 0 <= y < r) ==> self@.at(x, y) == start.without_piece(
                        *piece,
                    ).at(x, y),
                forall|x: int, y: int|
                    #![trigger self@.at(x, y)]
                    !(0 <= x < 8 && 0 <= y < r) ==> self@.at(x, y) == start.at(x, y),
            decreases 8 - r,
        {
            let mut f: usize = 0;
            while f < 8
                invariant
                    r < 8,
                    f <= 8,
                    self@.same_rights(start),
                    forall|x: int, y: int|
                        #![trigger self@.at(x, y)]
                        (0 <= x < 8 && 0 <= y < r) || (0 <= x < f && y == r) ==> self@.at(x, y)
                            == start.without_piece(*piece).at(x, y),
                    forall|x: int, y: int|
                        #![trigger self@.at(x, y)]
                        !((0 <= x < 8 && 0 <= y < r) || (0 <= x < f && y == r)) ==> self@.at(
                            x,
                            y,
                        ) == start.at(x, y),
                decreases 8 - f,
            {
                if let Some(target) = self.sq(f, r) {
                    if *piece == target {
                        self.put_sq(f, r, None);
                    }
                }
                f = f + 1;
            }
            r = r + 1;
        }
        assert(self@.grid =~= start.without_piece(*piece).grid);
    }

    /// A new board holding only the pieces of the same kind and color as `piece`.
    pub fn filter_by_piece(&self, piece: Piece) -> (b: Board)
        ensures
            b@ == self@.keep_piece(piece),
    {
        let mut b = *self;
        let mut r: usize = 0;
        while r < 8
            invariant
                r <= 8,
                b@.same_rights(self@),
                forall|x: int, y: int|
                    #![trigger b@.at(x, y)]
                    (0 <= x < 8 && 0 <= y < r) ==> b@.at(x, y) == self@.keep_piece(piece).at(x, y),
                forall|x: int, y: int|
                    #![trigger b@.at(x, y)]
                    !(0 <= x < 8 && 0 <= y < r) ==> b@.at(x, y) == self@.at(x, y),
            decreases 8 - r,
        {
            let mut f: usize = 0;
            while f < 8
                invariant
                    r < 8,
                    f <= 8,
                    b@.same_rights(self@),
                    forall|x: int, y: int|
                        #![trigger b@.at(x, y)]
                        (0 <= x < 8 && 0 <= y < r) || (0 <= x < f && y == r) ==> b@.at(x, y)
                            == self@.keep_piece(piece).at(x, y),
                    forall|x: int, y: int|
                        #![trigger b@.at(x, y)]
                        !((0 <= x < 8 && 0 <= y < r) || (0 <= x < f && y == r)) ==> b@.at(x, y)
                            == self@.at(x, y),
                decreases 8 - f,
            {
                if let Some(target) = self.sq(f, r) {
                    if !(piece == target) {
                        b.put_sq(f, r, None);
                    }
                }
                f = f + 1;
            }
            r = r + 1;
        }
        assert(b@.grid =~= self@.keep_piece(piece).grid);
        b
    }

    /// A new board holding only the pieces of color `color`.
    pub fn filter_by_color(&self, color: Color) -> (b: Board)
        ensures
            b@ == self@.keep_color(color),
    {
        let mut b = *self;
        let mut r: usize = 0;
        while r < 8
            invariant
                r <= 8,
                b@.same_rights(self@),
                forall|x: int, y: int|
                    #![trigger b@.at(x, y)]
                    (0 <= x < 8 && 0 <= y < r) ==> b@.at(x, y) == self@.keep_color(color).at(x, y),
                forall|x: int, y: int|
                    #![trigger b@.at(x, y)]
                    !(0 <= x < 8 && 0 <= y < r) ==> b@.at(x, y) == self@.at(x, y),
            decreases 8 - r,
        {
            let mut f: usize = 0;
            while f < 8
                invariant
                    r < 8,
                    f <= 8,
                    b@.same_rights(self@),
                    forall|x: int, y: int|
                        #![trigger b@.at(x, y)]
                        (0 <= x < 8 && 0 <= y < r) || (0 <= x < f && y == r) ==> b@.at(x, y)
                            == self@.keep_color(color).at(x, y),
                    forall|x: int, y: int|
                        #![trigger b@.at(x, y)]
                        !((0 <= x < 8 && 0 <= y < r) || (0 <= x < f && y == r)) ==> b@.at(x, y)
                            == self@.at(x, y),
                decreases 8 - f,
            {
                if let Some(target) = self.sq(f, r) {
                    if target.get_color() != color {
                        b.put_sq(f, r, None);
                    }
                }
                f = f + 1;
            }
            r = r + 1;
        }
        assert(b@.grid =~= self@.keep_color(color).grid);
        b
    }

    /// The first square, rank by rank and file by file, holding a piece of the
    /// same kind and color as `piece`.
    pub fn get_coord_for_piece(&self, piece: &Piece) -> (c: Option<Coord>)
        ensures
            c == self@.find(*piece),
    {
        let mut r: usize = 0;
        while r < 8
            invariant
                r <= 8,
                self@.find(*piece) == self@.find_rows(*piece, r as int),
            decreases 8 - r,
        {
            let mut f: usize = 0;
            while f < 8
                invariant
                    r < 8,
                    f <= 8,
                    self@.find(*piece) == match self@.find_row(*piece, r as int, f as int) {
                        Some(c) => Some(c),
                        None => self@.find_rows(*piece, r as int + 1),
                    },
                decreases 8 - f,
            {
                if let Some(target) = self.sq(f, r) {
                    if target == *piece {
                        return Some(Coord(f as i8, r as i8));
                    }
                }
                f = f + 1;
            }
            r = r + 1;
        }
        None
    }

    /// Lowers every cooldown by one tick, never below zero.
    pub fn tick(&mut self)
        ensures
            final(self)@ == old(self)@.ticked(),
    {
        let ghost start = self@;
        let mut r: usize = 0;
        while r < 8
            invariant
                r <= 8,
                self@.same_rights(start),
                forall|x: int, y: int|
                    #![trigger self@.at(x, y)]
                    (0 <= x < 8 && 0 <= y < r) ==> self@.at(x, y) == start.ticked().at(x, y),
                forall|x: int, y: int|
                    #![trigger self@.at(x, y)]
                    !(0 <= x < 8 && 0 <= y < r) ==> self@.at(x, y) == start.at(x, y),
            decreases 8 - r,
        {
            let mut f: usize = 0;
            while f < 8
                invariant
                    r < 8,
                    f <= 8,
                    self@.same_rights(start),
                    forall|x: int, y: int|
                        #![trigger self@.at(x, y)]
                        (0 <= x < 8 && 0 <= y < r) || (0 <= x < f && y == r) ==> self@.at(x, y)
                            == start.ticked().at(x, y),
                    forall|x: int, y: int|
                        #![trigger self@.at(x, y)]
                        !((0 <= x < 8 && 0 <= y < r) || (0 <= x < f && y == r)) ==> self@.at(
                            x,
                            y,
                        ) == start.at(x, y),
                decreases 8 - f,
            {
                if let Some(mut piece) = self.sq(f, r) {
                    let cd = piece.get_cooldown();
                    let new_cd = if cd >= BOARD_TICK_RATE {
                        cd - BOARD_TICK_RATE
                    } else {
                        0
                    };
                    piece.set_cooldown(new_cd);
                    self.put_sq(f, r, Some(piece));
                }
                f = f + 1;
            }
            r = r + 1;
        }
        assert(self@.grid =~= start.ticked().grid);
    }
}

/// The squares a move names are on the board.
pub open spec fn move_on_board(m: Move) -> bool {
    match m {
        Move::Piece(from, to) => from.valid() && to.valid(),
        Move::Promotion(from, to, _) => from.valid() && to.valid(),
        _ => true,
    }
}

/// The squares a move names are on the board, as `process_move` and the
/// wire encoding require.
pub fn move_is_on_board(m: &Move) -> (r: bool)
    ensures
        r == move_on_board(*m),
{
    match m {
        Move::Piece(from, to) => from.is_valid() && to.is_valid(),
        Move::Promotion(from, to, _) => from.is_valid() && to.is_valid(),
        _ => true,
    }
}

impl Board {
    fn revoke_all(&mut self, c: Color)
        ensures
            final(self)@ == old(self)@.revoke_all(c),
    {
        match c {
            Color::White => {
                self.white_can_castle_kingside = false;
                self.white_can_castle_queenside = false;
            },
            Color::Black => {
                self.black_can_castle_kingside = false;
                self.black_can_castle_queenside = false;
            },
        }
    }

    fn revoke_for(&mut self, p: &Piece, from: Coord)
        ensures
            final(self)@ == old(self)@.revoke_for(*p, from),
    {
        let rank: i8 = if p.get_color() == Color::White {
            0
        } else {
            7
        };
        if p.is_king() {
            self.revoke_all(p.get_color());
        } else if p.is_rook() && from.1 == rank && from.0 == 7 {
            match p.get_color() {
                Color::White => self.white_can_castle_kingside = false,
                Color::Black => self.black_can_castle_kingside = false,
            }
        } else if p.is_rook() && from.1 == rank && from.0 == 0 {
            match p.get_color() {
                Color::White => self.white_can_castle_queenside = false,
                Color::Black => self.black_can_castle_queenside = false,
            }
        }
    }

    /// Applies `m` without checking that it is legal. A piece that moves gets
    /// its kind's standard cooldown; a king's move or a castle takes away its
    /// color's castling rights, and a rook leaving its corner takes away
    /// that side's.
    pub fn process_move(&mut self, m: Move)
        requires
            move_on_board(m),
        ensures
            final(self)@ == old(self)@.apply(m),
    {
        match m {
            Move::Piece(from, to) => {
                match self.get_piece_at(&from) {
                    Some(piece) => {
                        let mut moved = piece;
                        moved.set_cooldown(Piece::std_piece_cooldown(&piece));
                        self.set_piece_at(Some(moved), to);
                        self.set_piece_at(None, from);
                        self.revoke_for(&piece, from);
                    },
                    None => {
                        self.set_piece_at(None, from);
                    },
                }
            },
            Move::KingSideCastle(color) => {
                let r: usize = if color == Color::White {
                    0
                } else {
                    7
                };
                self.put_sq(4, r, None);
                self.put_sq(7, r, None);
                self.put_sq(6, r, Some(Piece::King(color, COOLDOWN_KING)));
                self.put_sq(5, r, Some(Piece::Rook(color, COOLDOWN_ROOK)));
                self.revoke_all(color);
            },
            Move::QueenSideCastle(color) => {
                let r: usize = if color == Color::White {
                    0
                } else {
                    7
                };
                self.put_sq(4, r, None);
                self.put_sq(0, r, None);
                self.put_sq(2, r, Some(Piece::King(color, COOLDOWN_KING)));
                self.put_sq(3, r, Some(Piece::Rook(color, COOLDOWN_ROOK)));
                self.revoke_all(color);
            },
            Move::Promotion(src, dest, piece) => {
                self.set_piece_at(None, src);
                self.set_piece_at(Some(piece), dest);
            },
        }
    }
}

} // verus!
