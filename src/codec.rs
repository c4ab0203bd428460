use vstd::prelude::*;
use vstd::utf8::{decode_utf8, encode_utf8, valid_utf8};
use crate::board::move_on_board;
use crate::coordinate::Coord;
use crate::piece::{make_piece, std_cooldown_of, Color, Move, Piece};

verus! {

/// A move on the wire: exactly four bytes. Byte 0 is the tag (0 plain move,
/// 1 promotion, 2 king-side castle, 3 queen-side castle). A plain move or a
/// promotion carries its from and to squares in bytes 1 and 2 as
/// `rank * 8 + file`, a promotion its new piece in byte 3 (kind in the high
/// nibble, color in the lowest bit); a castle carries its color in the lowest
/// bit of byte 1. Unused bytes are zero.
pub type Command = [u8; 4];

pub const BUFFER_BYTE: u8 = 0;

pub const COLOR_WHITE: u8 = 0;
pub const COLOR_BLACK: u8 = 1;

pub const MOVE_PIECE: u8 = 0;
pub const MOVE_PROMOTION: u8 = 1;
pub const MOVE_KING_SIDE_CASTLE: u8 = 2;
pub const MOVE_QUEEN_SIDE_CASTLE: u8 = 3;

pub const GAME_JOIN: u8 = 16;
pub const GAME_LEAVE: u8 = 32;
pub const GAME_RESIGN: u8 = 48;

/// A command about the game rather than the board.
#[derive(Debug, Clone, PartialEq)]
pub enum GameCmd {
    Join(String),
    Leave,
    Resign,
}

/// Why four bytes do not decode to a move.
#[derive(Debug, Clone, Copy, PartialEq, Eq, Structural)]
pub enum DecodeError {
    /// The tag byte names no kind of move.
    InvalidLeadByte(u8),
    /// The piece byte names no kind of piece.
    InvalidPiece(u8),
    /// The game id of a join is not UTF-8.
    InvalidGameId,
}

pub open spec fn color_byte(c: Color) -> u8 {
    if c == Color::White {
        0
    } else {
        1
    }
}

pub open spec fn piece_byte(p: Piece) -> u8 {
    (p.kind() * 16 + color_byte(p.color())) as u8
}

pub open spec fn square_byte(c: Coord) -> u8 {
    (c.1 * 8 + c.0) as u8
}

/// The four bytes of a move whose squares are on the board.
pub open spec fn encode(m: Move) -> Seq<u8> {
    match m {
        Move::Piece(from, to) => seq![0u8, square_byte(from), square_byte(to), 0u8],
        Move::Promotion(from, to, p) => seq![1u8, square_byte(from), square_byte(to), piece_byte(p)],
        Move::KingSideCastle(c) => seq![2u8, color_byte(c), 0u8, 0u8],
        Move::QueenSideCastle(c) => seq![3u8, color_byte(c), 0u8, 0u8],
    }
}

pub open spec fn decode_color(b: u8) -> Color {
    if b % 2 == 1 {
        Color::Black
    } else {
        Color::White
    }
}

pub open spec fn decode_square(b: u8) -> Coord {
    Coord((b % 8) as i8, (b / 8) as i8)
}

/// The piece a byte names, with its kind's standard cooldown.
pub open spec fn decode_piece(b: u8) -> Result<Piece, DecodeError> {
    if b / 16 <= 5 {
        Ok(make_piece((b / 16) as int, decode_color(b), std_cooldown_of((b / 16) as int)))
    } else {
        Err(DecodeError::InvalidPiece(b))
    }
}

/// The move four bytes stand for.
pub open spec fn decode(v: Seq<u8>) -> Result<Move, DecodeError> {
    if v[0] == 0 {
        Ok(Move::Piece(decode_square(v[1]), decode_square(v[2])))
    } else if v[0] == 1 {
        match decode_piece(v[3]) {
            Ok(p) => Ok(Move::Promotion(decode_square(v[1]), decode_square(v[2]), p)),
            Err(e) => Err(e),
        }
    } else if v[0] == 2 {
        Ok(Move::KingSideCastle(decode_color(v[1])))
    } else if v[0] == 3 {
        Ok(Move::QueenSideCastle(decode_color(v[1])))
    } else {
        Err(DecodeError::InvalidLeadByte(v[0]))
    }
}

/// Encoding of moves, pieces, colors, squares and game commands into bytes.
pub struct Marshal;

impl Marshal {
    pub fn color(value: Color) -> (r: u8)
        ensures
            r == color_byte(value),
    {
        match value {
            Color::White => COLOR_WHITE,
            Color::Black => COLOR_BLACK,
        }
    }

    pub fn piece(value: Piece) -> (r: u8)
        ensures
            r == piece_byte(value),
    {
        value.kind_number() * 16 + Marshal::color(value.get_color())
    }

    pub fn coord(value: Coord) -> (r: u8)
        requires
            value.valid(),
        ensures
            r == square_byte(value),
    {
        (value.1 as u8) * 8 + value.0 as u8
    }

    pub fn command(value: Move) -> (r: Command)
        requires
            move_on_board(value),
        ensures
            r@ == encode(value),
    {
        let r = match value {
            Move::Piece(from, to) => [MOVE_PIECE, Marshal::coord(from), Marshal::coord(to), BUFFER_BYTE],
            Move::Promotion(from, to, piece) => [
                MOVE_PROMOTION,
                Marshal::coord(from),
                Marshal::coord(to),
                Marshal::piece(piece),
            ],
            Move::KingSideCastle(color) => [
                MOVE_KING_SIDE_CASTLE,
                Marshal::color(color),
                BUFFER_BYTE,
                BUFFER_BYTE,
            ],
            Move::QueenSideCastle(color) => [
                MOVE_QUEEN_SIDE_CASTLE,
                Marshal::color(color),
                BUFFER_BYTE,
                BUFFER_BYTE,
            ],
        };
        assert(r@ =~= encode(value));
        r
    }

    /// A join carries the first three bytes of the game id.
    pub fn game_command(value: GameCmd) -> (r: Command)
        requires
            value matches GameCmd::Join(id) ==> encode_utf8(id@).len() >= 3,
        ensures
            r@ == match value {
                GameCmd::Join(id) => seq![
                    GAME_JOIN,
                    encode_utf8(id@)[0],
                    encode_utf8(id@)[1],
                    encode_utf8(id@)[2],
                ],
                GameCmd::Leave => seq![GAME_LEAVE, 0u8, 0u8, 0u8],
                GameCmd::Resign => seq![GAME_RESIGN, 0u8, 0u8, 0u8],
            },
    {
        let r = match &value {
            GameCmd::Join(game_id) => {
                let bytes = game_id.as_str().as_bytes();
                [GAME_JOIN, bytes[0], bytes[1], bytes[2]]
            },
            GameCmd::Leave => [GAME_LEAVE, 0, 0, 0],
            GameCmd::Resign => [GAME_RESIGN, 0, 0, 0],
        };
        assert(r@ =~= match value {
            GameCmd::Join(id) => seq![
                GAME_JOIN,
                encode_utf8(id@)[0],
                encode_utf8(id@)[1],
                encode_utf8(id@)[2],
            ],
            GameCmd::Leave => seq![GAME_LEAVE, 0u8, 0u8, 0u8],
            GameCmd::Resign => seq![GAME_RESIGN, 0u8, 0u8, 0u8],
        });
        r
    }
}

/// Decoding of bytes into moves, pieces, colors and squares.
pub struct Unmarshal;

impl Unmarshal {
    /// The lowest bit decides: set for black.
    pub fn color(value: u8) -> (r: Color)
        ensures
            r == decode_color(value),
    {
        assert(value & 1 == value % 2) by (bit_vector);
        if value & COLOR_BLACK == COLOR_BLACK {
            Color::Black
        } else {
            Color::White
        }
    }

    pub fn coord(value: u8) -> (r: Coord)
        ensures
            r == decode_square(value),
    {
        Coord((value % 8) as i8, (value / 8) as i8)
    }

    /// The piece a byte names; a kind number above five is an error.
    pub fn piece(value: u8) -> (r: Result<Piece, DecodeError>)
        ensures
            r == decode_piece(value),
    {
        assert(value >> 4 == value / 16) by (bit_vector);
        let kind = value >> 4;
        if kind <= 5 {
            let color = Unmarshal::color(value & 1);
            assert(value & 1 == value % 2) by (bit_vector);
            assert((value & 1) % 2 == value % 2) by (bit_vector);
            let cooldown = Piece::std_piece_cooldown(&Piece::of_kind(kind, color, 0));
            Ok(Piece::of_kind(kind, color, cooldown))
        } else {
            Err(DecodeError::InvalidPiece(value))
        }
    }

    /// The move four bytes stand for; an unknown tag or piece is an error.
    pub fn command(value: Command) -> (r: Result<Move, DecodeError>)
        ensures
            r == decode(value@),
    {
        if value[0] == MOVE_PIECE {
            Ok(Move::Piece(Unmarshal::coord(value[1]), Unmarshal::coord(value[2])))
        } else if value[0] == MOVE_PROMOTION {
            match Unmarshal::piece(value[3]) {
                Ok(p) => Ok(Move::Promotion(Unmarshal::coord(value[1]), Unmarshal::coord(value[2]), p)),
                Err(e) => Err(e),
            }
        } else if value[0] == MOVE_KING_SIDE_CASTLE {
            Ok(Move::KingSideCastle(Unmarshal::color(value[1])))
        } else if value[0] == MOVE_QUEEN_SIDE_CASTLE {
            Ok(Move::QueenSideCastle(Unmarshal::color(value[1])))
        } else {
            Err(DecodeError::InvalidLeadByte(value[0]))
        }
    }
}

/// Relies on `String::from_utf8`: it accepts exactly the byte sequences that
/// are valid UTF-8, and the string then holds the characters they encode.
#[verifier::external_body]
fn string_from_utf8(bytes: Vec<u8>) -> (r: Option<String>)
    ensures
        r is Some <==> valid_utf8(bytes@),
        r matches Some(s) ==> s@ == decode_utf8(bytes@),
{
    String::from_utf8(bytes).ok()
}

impl Unmarshal {
    /// The game command four bytes stand for: a join carries a game id of
    /// three bytes, which must be UTF-8; leave and resign ignore the rest.
    pub fn game_command(value: Command) -> (r: Result<GameCmd, DecodeError>)
        ensures
            value@[0] == GAME_JOIN && valid_utf8(value@.subrange(1, 4)) ==> (r matches Ok(
                GameCmd::Join(id),
            ) && id@ == decode_utf8(value@.subrange(1, 4))),
            value@[0] == GAME_JOIN && !valid_utf8(value@.subrange(1, 4)) ==> r == Err::<
                GameCmd,
                DecodeError,
            >(DecodeError::InvalidGameId),
            value@[0] == GAME_LEAVE ==> r == Ok::<GameCmd, DecodeError>(GameCmd::Leave),
            value@[0] == GAME_RESIGN ==> r == Ok::<GameCmd, DecodeError>(GameCmd::Resign),
            value@[0] != GAME_JOIN && value@[0] != GAME_LEAVE && value@[0] != GAME_RESIGN ==> r
                == Err::<GameCmd, DecodeError>(DecodeError::InvalidLeadByte(value@[0])),
    {
        if value[0] == GAME_JOIN {
            let bytes = vec![value[1], value[2], value[3]];
            assert(bytes@ =~= value@.subrange(1, 4));
            match string_from_utf8(bytes) {
                Some(id) => Ok(GameCmd::Join(id)),
                None => Err(DecodeError::InvalidGameId),
            }
        } else if value[0] == GAME_LEAVE {
            Ok(GameCmd::Leave)
        } else if value[0] == GAME_RESIGN {
            Ok(GameCmd::Resign)
        } else {
            Err(DecodeError::InvalidLeadByte(value[0]))
        }
    }
}

/// Decoding gives back every move that was encoded: the same squares and
/// color, and a promotion piece of the same kind and color.
pub proof fn lemma_round_trip(m: Move)
    requires
        move_on_board(m),
    ensures
        decode(encode(m)) matches Ok(d) && d.same(m),
{
    match m {
        Move::Piece(from, to) => {
            lemma_square_round_trip(from);
            lemma_square_round_trip(to);
        },
        Move::Promotion(from, to, p) => {
            lemma_square_round_trip(from);
            lemma_square_round_trip(to);
            lemma_piece_round_trip(p);
        },
        _ => {},
    }
}

pub proof fn lemma_square_round_trip(c: Coord)
    requires
        c.valid(),
    ensures
        decode_square(square_byte(c)) == c,
{
    let f = c.0 as int;
    let r = c.1 as int;
    assert((r * 8 + f) % 8 == f && (r * 8 + f) / 8 == r) by (nonlinear_arith)
        requires
            0 <= f < 8,
            0 <= r < 8,
    ;
}

pub proof fn lemma_piece_round_trip(p: Piece)
    ensures
        decode_piece(piece_byte(p)) matches Ok(q) && q.same(p),
{
    let k = p.kind();
    let cb = color_byte(p.color()) as int;
    assert((k * 16 + cb) / 16 == k && (k * 16 + cb) % 2 == cb) by (nonlinear_arith)
        requires
            0 <= k <= 5,
            0 <= cb <= 1,
    ;
}

} // verus!
