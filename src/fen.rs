use vstd::prelude::*;
use vstd::string::StringSliceAdditionalSpecFns;
use crate::board::{empty_model, Board, BoardModel};
use crate::cooldowns::{
    COOLDOWN_BISHOP, COOLDOWN_KING, COOLDOWN_KNIGHT, COOLDOWN_PAWN, COOLDOWN_QUEEN, COOLDOWN_ROOK,
};
use crate::coordinate::Coord;
use crate::piece::{Color, Piece};

verus! {

/// ASCII whitespace, which separates the fields of a position string.
pub open spec fn is_space(c: u8) -> bool {
    c == 32 || c == 9 || c == 10 || c == 11 || c == 12 || c == 13
}

/// The fields of `s[..i]` as `(start, end)` byte ranges, and whether
/// `s[i - 1]` belongs to a field.
pub open spec fn fields(s: Seq<u8>, i: int) -> (Seq<(int, int)>, bool)
    decreases i,
{
    if i <= 0 {
        (seq![], false)
    } else {
        let (sp, inside) = fields(s, i - 1);
        if is_space(s[i - 1]) {
            (sp, false)
        } else if inside && sp.len() > 0 {
            (sp.update(sp.len() - 1, (sp[sp.len() - 1].0, i)), true)
        } else {
            (sp.push((i - 1, i)), true)
        }
    }
}

/// The piece a letter of the placement field names: upper case white,
/// lower case black, each with its kind's standard cooldown.
pub open spec fn fen_piece(c: u8) -> Option<Piece> {
    if c == 112 {
        Some(Piece::Pawn(Color::Black, COOLDOWN_PAWN))
    } else if c == 98 {
        Some(Piece::Bishop(Color::Black, COOLDOWN_BISHOP))
    } else if c == 110 {
        Some(Piece::Knight(Color::Black, COOLDOWN_KNIGHT))
    } else if c == 114 {
        Some(Piece::Rook(Color::Black, COOLDOWN_ROOK))
    } else if c == 113 {
        Some(Piece::Queen(Color::Black, COOLDOWN_QUEEN))
    } else if c == 107 {
        Some(Piece::King(Color::Black, COOLDOWN_KING))
    } else if c == 80 {
        Some(Piece::Pawn(Color::White, COOLDOWN_PAWN))
    } else if c == 66 {
        Some(Piece::Bishop(Color::White, COOLDOWN_BISHOP))
    } else if c == 78 {
        Some(Piece::Knight(Color::White, COOLDOWN_KNIGHT))
    } else if c == 82 {
        Some(Piece::Rook(Color::White, COOLDOWN_ROOK))
    } else if c == 81 {
        Some(Piece::Queen(Color::White, COOLDOWN_QUEEN))
    } else if c == 75 {
        Some(Piece::King(Color::White, COOLDOWN_KING))
    } else {
        None
    }
}

/// One character of the placement field, read with the cursor at
/// (`file`, `rank`). A `/` starts the next rank down, a digit skips that many
/// squares, a piece letter fills the square (and is dropped past the last
/// file), anything else is skipped. A `/` below the first rank or a digit
/// that runs past the last file makes the field malformed.
pub open spec fn place_step(st: (BoardModel, int, int), c: u8) -> Option<(BoardModel, int, int)> {
    let (b, file, rank) = st;
    if c == 47 {
        if rank == 0 {
            None
        } else {
            Some((b, 0, rank - 1))
        }
    } else if 48 <= c <= 56 {
        if file + (c - 48) > 8 {
            None
        } else {
            Some((b, file + (c - 48), rank))
        }
    } else {
        match fen_piece(c) {
            Some(p) => if file < 8 {
                Some((b.put(file, rank, Some(p)), file + 1, rank))
            } else {
                Some(st)
            },
            None => Some(st),
        }
    }
}

/// The placement field `t[..i]` read onto an empty board from the top-left
/// square.
pub open spec fn place(t: Seq<u8>, i: int) -> Option<(BoardModel, int, int)>
    decreases i,
{
    if i <= 0 {
        Some((empty_model(), 0, 7))
    } else {
        match place(t, i - 1) {
            None => None,
            Some(st) => place_step(st, t[i - 1]),
        }
    }
}

/// The board a position string describes: the placement from its first
/// field, the castling rights from the letters `KQkq` in its third. `None`
/// when it has fewer than three fields or its placement is malformed.
pub open spec fn parse_fen(s: Seq<u8>) -> Option<BoardModel> {
    let sp = fields(s, s.len() as int).0;
    if sp.len() < 3 {
        None
    } else {
        let placement = s.subrange(sp[0].0, sp[0].1);
        let rights = s.subrange(sp[2].0, sp[2].1);
        match place(placement, placement.len() as int) {
            None => None,
            Some(st) => Some(
                BoardModel {
                    grid: st.0.grid,
                    white_kingside: rights.contains(75),
                    white_queenside: rights.contains(81),
                    black_kingside: rights.contains(107),
                    black_queenside: rights.contains(113),
                },
            ),
        }
    }
}

fn is_space_exec(c: u8) -> (r: bool)
    ensures
        r == is_space(c),
{
    c == 32 || c == 9 || c == 10 || c == 11 || c == 12 || c == 13
}

fn fen_piece_exec(c: u8) -> (r: Option<Piece>)
    ensures
        r == fen_piece(c),
{
    match c {
        112 => Some(Piece::Pawn(Color::Black, COOLDOWN_PAWN)),
        98 => Some(Piece::Bishop(Color::Black, COOLDOWN_BISHOP)),
        110 => Some(Piece::Knight(Color::Black, COOLDOWN_KNIGHT)),
        114 => Some(Piece::Rook(Color::Black, COOLDOWN_ROOK)),
        113 => Some(Piece::Queen(Color::Black, COOLDOWN_QUEEN)),
        107 => Some(Piece::King(Color::Black, COOLDOWN_KING)),
        80 => Some(Piece::Pawn(Color::White, COOLDOWN_PAWN)),
        66 => Some(Piece::Bishop(Color::White, COOLDOWN_BISHOP)),
        78 => Some(Piece::Knight(Color::White, COOLDOWN_KNIGHT)),
        82 => Some(Piece::Rook(Color::White, COOLDOWN_ROOK)),
        81 => Some(Piece::Queen(Color::White, COOLDOWN_QUEEN)),
        75 => Some(Piece::King(Color::White, COOLDOWN_KING)),
        _ => None,
    }
}

/// The byte ranges of the whitespace-separated fields of `s`.
fn split_fields(s: &[u8]) -> (sp: Vec<(usize, usize)>)
    ensures
        sp@.len() == fields(s@, s@.len() as int).0.len(),
        forall|k: int|
            0 <= k < sp@.len() ==> (#[trigger] sp@[k]).0 as int == fields(s@, s@.len() as int).0[k].0
                && sp@[k].1 as int == fields(s@, s@.len() as int).0[k].1,
        forall|k: int| 0 <= k < sp@.len() ==> (#[trigger] sp@[k]).0 <= sp@[k].1 <= s@.len(),
{
    let mut sp: Vec<(usize, usize)> = Vec::new();
    let mut inside = false;
    let mut i: usize = 0;
    while i < s.len()
        invariant
            i <= s@.len(),
            sp@.len() == fields(s@, i as int).0.len(),
            inside == fields(s@, i as int).1,
            forall|k: int|
                0 <= k < sp@.len() ==> (#[trigger] sp@[k]).0 as int == fields(s@, i as int).0[k].0
                    && sp@[k].1 as int == fields(s@, i as int).0[k].1,
            forall|k: int| 0 <= k < sp@.len() ==> (#[trigger] sp@[k]).0 < sp@[k].1 <= i,
            inside ==> sp@.len() > 0 && sp@[sp@.len() - 1].1 == i,
        decreases s@.len() - i,
    {
        let c = s[i];
        if is_space_exec(c) {
            inside = false;
        } else if inside && sp.len() > 0 {
            let last = sp.len() - 1;
            let (a, _) = sp[last];
            sp.set(last, (a, i + 1));
        } else {
            sp.push((i, i + 1));
            inside = true;
        }
        i = i + 1;
    }
    sp
}

/// Reads the placement field `s[a..e]` onto an empty board.
fn place_exec(s: &[u8], a: usize, e: usize) -> (r: Option<Board>)
    requires
        a <= e <= s@.len(),
    ensures
        r.is_some() == place(s@.subrange(a as int, e as int), (e - a) as int).is_some(),
        r matches Some(b) ==> b@ == place(s@.subrange(a as int, e as int), (e - a) as int).unwrap().0,
{
    let ghost t = s@.subrange(a as int, e as int);
    let mut b = Board::empty();
    let mut file: usize = 0;
    let mut rank: usize = 7;
    let mut j: usize = a;
    while j < e
        invariant
            a <= j <= e <= s@.len(),
            t == s@.subrange(a as int, e as int),
            place(t, (j - a) as int) == Some((b@, file as int, rank as int)),
            file <= 8,
            rank <= 7,
        decreases e - j,
    {
        let c = s[j];
        assert(t[(j - a) as int] == c);
        if c == 47 {
            if rank == 0 {
                assert(place(t, (j + 1 - a) as int).is_none());
                assert forall|k: int| (j + 1 - a) <= k <= (e - a) implies place(t, k).is_none() by {
                    lemma_place_stays_failed(t, (j + 1 - a) as int, k);
                }
                return None;
            }
            file = 0;
            rank = rank - 1;
        } else if 48 <= c && c <= 56 {
            let d = (c - 48) as usize;
            if file + d > 8 {
                assert(place(t, (j + 1 - a) as int).is_none());
                assert forall|k: int| (j + 1 - a) <= k <= (e - a) implies place(t, k).is_none() by {
                    lemma_place_stays_failed(t, (j + 1 - a) as int, k);
                }
                return None;
            }
            file = file + d;
        } else {
            match fen_piece_exec(c) {
                Some(p) => {
                    if file < 8 {
                        b.set_piece_at(Some(p), Coord(file as i8, rank as i8));
                        file = file + 1;
                    }
                },
                None => {},
            }
        }
        j = j + 1;
    }
    Some(b)
}

proof fn lemma_place_stays_failed(t: Seq<u8>, i: int, k: int)
    requires
        0 <= i <= k,
        place(t, i).is_none(),
    ensures
        place(t, k).is_none(),
    decreases k - i,
{
    if i < k {
        lemma_place_stays_failed(t, i, k - 1);
    }
}

fn contains_byte(s: &[u8], a: usize, e: usize, c: u8) -> (r: bool)
    requires
        a <= e <= s@.len(),
    ensures
        r == s@.subrange(a as int, e as int).contains(c),
{
    let ghost t = s@.subrange(a as int, e as int);
    let mut j: usize = a;
    while j < e
        invariant
            a <= j <= e <= s@.len(),
            t == s@.subrange(a as int, e as int),
            forall|k: int| 0 <= k < j - a ==> t[k] != c,
        decreases e - j,
    {
        if s[j] == c {
            assert(t[(j - a) as int] == c);
            return true;
        }
        j = j + 1;
    }
    false
}

impl Board {
    /// Reads a position string: the placement field (ranks from the eighth
    /// down, separated by `/`; digits for runs of empty squares; letters for
    /// pieces, upper case white), then the side to move, then the castling
    /// rights as letters of `KQkq`. Pieces get their kind's standard cooldown.
    /// `None` when the string has fewer than three fields or a malformed
    /// placement.
    pub fn from_fen(fen: &str) -> (r: Option<Board>)
        ensures
            r.is_some() == parse_fen(fen.spec_bytes()).is_some(),
            r matches Some(b) ==> b@ == parse_fen(fen.spec_bytes()).unwrap(),
    {
        let s = fen.as_bytes();
        let sp = split_fields(s);
        if sp.len() < 3 {
            return None;
        }
        let (a0, e0) = sp[0];
        let (a2, e2) = sp[2];
        match place_exec(s, a0, e0) {
            None => None,
            Some(placed) => {
                let b = Board {
                    pieces: placed.pieces,
                    white_can_castle_kingside: contains_byte(s, a2, e2, 75),
                    white_can_castle_queenside: contains_byte(s, a2, e2, 81),
                    black_can_castle_kingside: contains_byte(s, a2, e2, 107),
                    black_can_castle_queenside: contains_byte(s, a2, e2, 113),
                };
                assert(b@.grid =~= placed@.grid);
                Some(b)
            },
        }
    }

    /// Reads a position string as `from_fen` does; an unreadable string gives
    /// the empty board.
    pub fn from(fen: &str) -> (r: Board)
        ensures
            parse_fen(fen.spec_bytes()) matches Some(m) ==> r@ == m,
            parse_fen(fen.spec_bytes()) is None ==> r@ == empty_model(),
    {
        match Board::from_fen(fen) {
            Some(b) => b,
            None => Board::empty(),
        }
    }
}

} // verus!
