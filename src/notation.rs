use vstd::prelude::*;
use vstd::string::StringSliceAdditionalSpecFns;
use crate::cooldowns::{
    COOLDOWN_BISHOP, COOLDOWN_KING, COOLDOWN_KNIGHT, COOLDOWN_PAWN, COOLDOWN_QUEEN, COOLDOWN_ROOK,
};
use crate::coordinate::Coord;
use crate::piece::{make_piece, std_cooldown_of, Color, Move, Piece};

verus! {

/// The square named by the first two characters of `s`: a file letter `a`
/// to `h`, then a rank digit `1` to `8`. Anything after them is ignored.
pub open spec fn coord_of(s: Seq<u8>) -> Option<Coord> {
    if s.len() >= 2 && 97 <= s[0] <= 104 && 49 <= s[1] <= 56 {
        Some(Coord((s[0] - 97) as i8, (s[1] - 49) as i8))
    } else {
        None
    }
}

pub open spec fn is_blank(c: u8) -> bool {
    c == 32 || c == 9 || c == 10 || c == 11 || c == 12 || c == 13
}

pub open spec fn is_upper(c: u8) -> bool {
    65 <= c <= 90
}

/// Kind number named by a lower-case letter of `pnbrqk`.
pub open spec fn kind_of_letter(c: u8) -> Option<int> {
    if c == 112 {
        Some(0)
    } else if c == 110 {
        Some(1)
    } else if c == 98 {
        Some(2)
    } else if c == 114 {
        Some(3)
    } else if c == 113 {
        Some(4)
    } else if c == 107 {
        Some(5)
    } else {
        None
    }
}

/// Number of non-blank bytes in `s[..i]`.
pub open spec fn nonblank_count(s: Seq<u8>, i: int) -> nat
    decreases i,
{
    if i <= 0 {
        0
    } else {
        nonblank_count(s, i - 1) + if is_blank(s[i - 1]) {
            0nat
        } else {
            1nat
        }
    }
}

/// The last non-blank byte of `s[..i]` (zero when there is none).
pub open spec fn last_nonblank(s: Seq<u8>, i: int) -> u8
    decreases i,
{
    if i <= 0 {
        0
    } else if !is_blank(s[i - 1]) {
        s[i - 1]
    } else {
        last_nonblank(s, i - 1)
    }
}

/// Some byte of `s[..i]` is a capital letter.
pub open spec fn has_upper(s: Seq<u8>, i: int) -> bool
    decreases i,
{
    i > 0 && (is_upper(s[i - 1]) || has_upper(s, i - 1))
}

pub open spec fn to_lower(c: u8) -> u8 {
    if is_upper(c) {
        (c + 32) as u8
    } else {
        c
    }
}

/// The piece a word names: one letter of `pnbrqk`, in either case, with
/// blanks around it. A word written with no capital letter names a white
/// piece, one with a capital a black piece. Pieces get their kind's
/// standard cooldown.
pub open spec fn piece_of(s: Seq<u8>) -> Option<Piece> {
    if nonblank_count(s, s.len() as int) == 1 {
        match kind_of_letter(to_lower(last_nonblank(s, s.len() as int))) {
            Some(k) => Some(
                make_piece(
                    k,
                    if has_upper(s, s.len() as int) {
                        Color::Black
                    } else {
                        Color::White
                    },
                    std_cooldown_of(k),
                ),
            ),
            None => None,
        }
    } else {
        None
    }
}

/// The words of `s[..i]` as `(start, end)` byte ranges: the pieces between
/// single spaces, empty ones included. The last range is still open.
pub open spec fn words(s: Seq<u8>, i: int) -> Seq<(int, int)>
    decreases i,
{
    if i <= 0 {
        seq![(0, 0)]
    } else {
        let w = words(s, i - 1);
        if s[i - 1] == 32 {
            w.push((i, i))
        } else {
            w.update(w.len() - 1, (w[w.len() - 1].0, i))
        }
    }
}

/// What has been read of a move after the words `ws[..n]`: the from square,
/// the to square and the promotion piece. The from square is taken from the
/// first word naming a square, the to square from the next one, and every
/// later word names the promotion piece (the last one counts).
pub open spec fn read_words(s: Seq<u8>, ws: Seq<(int, int)>, n: int) -> (
    Option<Coord>,
    Option<Coord>,
    Option<Piece>,
)
    decreases n,
{
    if n <= 0 {
        (None, None, None)
    } else {
        let (from, to, piece) = read_words(s, ws, n - 1);
        let w = s.subrange(ws[n - 1].0, ws[n - 1].1);
        if from is None {
            (coord_of(w), None, None)
        } else if to is None {
            (from, coord_of(w), None)
        } else {
            (from, to, piece_of(w))
        }
    }
}

pub open spec fn castle_word(s: Seq<u8>) -> Option<Move> {
    if s == seq![111u8, 45, 111] {
        Some(Move::KingSideCastle(Color::White))
    } else if s == seq![111u8, 45, 111, 45, 111] {
        Some(Move::QueenSideCastle(Color::White))
    } else if s == seq![79u8, 45, 79] {
        Some(Move::KingSideCastle(Color::Black))
    } else if s == seq![79u8, 45, 79, 45, 79] {
        Some(Move::QueenSideCastle(Color::Black))
    } else {
        None
    }
}

/// The move a line of input names: `o-o`, `o-o-o` (white) and `O-O`,
/// `O-O-O` (black) for castling; else a from square and a to square, and
/// for a promotion a piece letter, separated by single spaces.
pub open spec fn move_of(s: Seq<u8>) -> Option<Move> {
    match castle_word(s) {
        Some(m) => Some(m),
        None => {
            let ws = words(s, s.len() as int);
            match read_words(s, ws, ws.len() as int) {
                (Some(from), Some(to), None) => Some(Move::Piece(from, to)),
                (Some(from), Some(to), Some(p)) => Some(Move::Promotion(from, to, p)),
                _ => None,
            }
        },
    }
}

fn coord_in(s: &[u8], a: usize, e: usize) -> (r: Option<Coord>)
    requires
        a <= e <= s@.len(),
    ensures
        r == coord_of(s@.subrange(a as int, e as int)),
{
    if e - a >= 2 && 97 <= s[a] && s[a] <= 104 && 49 <= s[a + 1] && s[a + 1] <= 56 {
        Some(Coord((s[a] - 97) as i8, (s[a + 1] - 49) as i8))
    } else {
        None
    }
}

fn is_blank_exec(c: u8) -> (r: bool)
    ensures
        r == is_blank(c),
{
    c == 32 || c == 9 || c == 10 || c == 11 || c == 12 || c == 13
}

fn piece_in(s: &[u8], a: usize, e: usize) -> (r: Option<Piece>)
    requires
        a <= e <= s@.len(),
    ensures
        r == piece_of(s@.subrange(a as int, e as int)),
{
    let ghost t = s@.subrange(a as int, e as int);
    let mut count: usize = 0;
    let mut letter: u8 = 0;
    let mut black = false;
    let mut j: usize = a;
    while j < e
        invariant
            a <= j <= e <= s@.len(),
            t == s@.subrange(a as int, e as int),
            count == nonblank_count(t, (j - a) as int),
            count <= j - a,
            letter == last_nonblank(t, (j - a) as int),
            black == has_upper(t, (j - a) as int),
        decreases e - j,
    {
        let c = s[j];
        assert(t[(j - a) as int] == c);
        if !is_blank_exec(c) {
            letter = c;
            count = count + 1;
        }
        if 65 <= c && c <= 90 {
            black = true;
        }
        j = j + 1;
    }
    if count != 1 {
        return None;
    }
    let lower = if 65 <= letter && letter <= 90 {
        letter + 32
    } else {
        letter
    };
    let color = if black {
        Color::Black
    } else {
        Color::White
    };
    match lower {
        112 => Some(Piece::Pawn(color, COOLDOWN_PAWN)),
        110 => Some(Piece::Knight(color, COOLDOWN_KNIGHT)),
        98 => Some(Piece::Bishop(color, COOLDOWN_BISHOP)),
        114 => Some(Piece::Rook(color, COOLDOWN_ROOK)),
        113 => Some(Piece::Queen(color, COOLDOWN_QUEEN)),
        107 => Some(Piece::King(color, COOLDOWN_KING)),
        _ => None,
    }
}

proof fn lemma_read_words_prefix(s: Seq<u8>, w1: Seq<(int, int)>, w2: Seq<(int, int)>, n: int)
    requires
        0 <= n <= w1.len(),
        n <= w2.len(),
        forall|k: int| 0 <= k < n ==> w1[k] == w2[k],
    ensures
        read_words(s, w1, n) == read_words(s, w2, n),
    decreases n,
{
    if n > 0 {
        lemma_read_words_prefix(s, w1, w2, n - 1);
    }
}

proof fn lemma_words_shape(s: Seq<u8>, i: int)
    requires
        0 <= i <= s.len(),
    ensures
        words(s, i).len() >= 1,
        words(s, i)[words(s, i).len() - 1].1 == i,
        words(s, i)[words(s, i).len() - 1].0 <= i,
        forall|k: int|
            0 <= k < words(s, i).len() ==> 0 <= (#[trigger] words(s, i)[k]).0 <= words(s, i)[k].1
                <= i,
    decreases i,
{
    if i > 0 {
        lemma_words_shape(s, i - 1);
    }
}

/// The square named by the first two characters of `word`.
pub fn str_to_coord(word: &str) -> (r: Option<Coord>)
    ensures
        r == coord_of(word.spec_bytes()),
{
    let s = word.as_bytes();
    let r = coord_in(s, 0, s.len());
    assert(s@.subrange(0, s@.len() as int) =~= s@);
    r
}

/// The piece a word names (see `piece_of`).
pub fn str_to_piece(word: &str) -> (r: Option<Piece>)
    ensures
        r == piece_of(word.spec_bytes()),
{
    let s = word.as_bytes();
    let r = piece_in(s, 0, s.len());
    assert(s@.subrange(0, s@.len() as int) =~= s@);
    r
}

fn castle_in(s: &[u8]) -> (r: Option<Move>)
    ensures
        r == castle_word(s@),
{
    let n = s.len();
    if n == 3 && s[0] == 111 && s[1] == 45 && s[2] == 111 {
        assert(s@ =~= seq![111u8, 45, 111]);
        Some(Move::KingSideCastle(Color::White))
    } else if n == 5 && s[0] == 111 && s[1] == 45 && s[2] == 111 && s[3] == 45 && s[4] == 111 {
        assert(s@ =~= seq![111u8, 45, 111, 45, 111]);
        Some(Move::QueenSideCastle(Color::White))
    } else if n == 3 && s[0] == 79 && s[1] == 45 && s[2] == 79 {
        assert(s@ =~= seq![79u8, 45, 79]);
        Some(Move::KingSideCastle(Color::Black))
    } else if n == 5 && s[0] == 79 && s[1] == 45 && s[2] == 79 && s[3] == 45 && s[4] == 79 {
        assert(s@ =~= seq![79u8, 45, 79, 45, 79]);
        Some(Move::QueenSideCastle(Color::Black))
    } else {
        assert(s@.len() == 3 ==> s@ != seq![111u8, 45, 111] && s@ != seq![79u8, 45, 79]) by {
            if s@.len() == 3 {
                assert(seq![111u8, 45, 111][1] == 45u8);
                assert(seq![79u8, 45, 79][1] == 45u8);
            }
        }
        assert(s@.len() == 5 ==> s@ != seq![111u8, 45, 111, 45, 111] && s@ != seq![
            79u8,
            45,
            79,
            45,
            79,
        ]) by {
            if s@.len() == 5 {
                assert(seq![111u8, 45, 111, 45, 111][3] == 45u8);
                assert(seq![79u8, 45, 79, 45, 79][3] == 45u8);
            }
        }
        None
    }
}

/// Reads a move from a line of input (see `move_of`).
pub fn parse_move(line: &str) -> (r: Option<Move>)
    ensures
        r == move_of(line.spec_bytes()),
{
    let s = line.as_bytes();
    let castle = castle_in(s);
    if castle.is_some() {
        return castle;
    }
    let mut from: Option<Coord> = None;
    let mut to: Option<Coord> = None;
    let mut piece: Option<Piece> = None;
    let mut start: usize = 0;
    let mut i: usize = 0;
    while i < s.len()
        invariant
            i <= s@.len(),
            start <= i,
            words(s@, i as int).len() >= 1,
            words(s@, i as int)[words(s@, i as int).len() - 1] == (start as int, i as int),
            (from, to, piece) == read_words(
                s@,
                words(s@, i as int),
                words(s@, i as int).len() - 1,
            ),
        decreases s@.len() - i,
    {
        let ghost w0 = words(s@, i as int);
        proof {
            lemma_words_shape(s@, i as int);
        }
        if s[i] == 32 {
            if from.is_none() {
                from = coord_in(s, start, i);
            } else if to.is_none() {
                to = coord_in(s, start, i);
            } else {
                piece = piece_in(s, start, i);
            }
            let ghost w1 = words(s@, i as int + 1);
            assert(w1 == w0.push((i as int + 1, i as int + 1)));
            proof {
                lemma_read_words_prefix(s@, w0, w1, w0.len() - 1);
            }
            start = i + 1;
        } else {
            let ghost w1 = words(s@, i as int + 1);
            proof {
                lemma_read_words_prefix(s@, w0, w1, w0.len() - 1);
            }
        }
        i = i + 1;
    }
    let ghost ws = words(s@, i as int);
    if from.is_none() {
        from = coord_in(s, start, i);
    } else if to.is_none() {
        to = coord_in(s, start, i);
    } else {
        piece = piece_in(s, start, i);
    }
    assert((from, to, piece) == read_words(s@, ws, ws.len() as int));
    match (from, to, piece) {
        (Some(f), Some(t), None) => Some(Move::Piece(f, t)),
        (Some(f), Some(t), Some(p)) => Some(Move::Promotion(f, t, p)),
        _ => None,
    }
}

} // verus!
