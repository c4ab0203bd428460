use vstd::prelude::*;
use crate::board::{is_king_of, home_rank, Board, BoardModel};
use crate::cooldowns::{COOLDOWN_BISHOP, COOLDOWN_KING, COOLDOWN_KNIGHT, COOLDOWN_QUEEN, COOLDOWN_ROOK};
use crate::coordinate::Coord;
use crate::piece::{Color, Move, Piece};

verus! {

// ---------------------------------------------------------------------------
// The rules, stated over board models.
// ---------------------------------------------------------------------------

pub open spec fn flag(b: bool) -> int {
    if b {
        1
    } else {
        0
    }
}

/// Termination measure of move generation for the pieces of `d` (all pieces
/// when `d` is `None`). Generation recurses only through simulated boards
/// that hold fewer kings than the board they were derived from.
pub open spec fn gen_rank(b: BoardModel, d: Option<Color>) -> int {
    match d {
        Some(c) => 2 * flag(b.has_king(c)) + flag(b.has_king(c.other())),
        None => 4,
    }
}

/// Termination measure of the move rules of piece `x` on board `b`.
pub open spec fn piece_rank(b: BoardModel, x: Piece) -> int {
    2 * flag(b.has_king(x.color())) + flag(b.has_king(x.color().other())) + flag(x.kind() == 5)
}

/// The square `(df, dr)` away from `c`.
pub open spec fn step(c: Coord, df: int, dr: int) -> Coord {
    Coord((c.0 + df) as i8, (c.1 + dr) as i8)
}

/// The four promotions of a pawn going from `from` to `to`.
pub open spec fn promotions(from: Coord, to: Coord, c: Color) -> Seq<Move> {
    seq![
        Move::Promotion(from, to, Piece::Queen(c, COOLDOWN_QUEEN)),
        Move::Promotion(from, to, Piece::Rook(c, COOLDOWN_ROOK)),
        Move::Promotion(from, to, Piece::Bishop(c, COOLDOWN_BISHOP)),
        Move::Promotion(from, to, Piece::Knight(c, COOLDOWN_KNIGHT)),
    ]
}

/// Square `t` is empty or holds a piece of the other color than `x`.
pub open spec fn open_for(b: BoardModel, x: Piece, t: Coord) -> bool {
    match b.at_coord(t) {
        Some(q) => q.color() != x.color(),
        None => true,
    }
}

/// The squares reached from `pos` by stepping `(df, dr)` from `cur` on: up to
/// and excluding the first piece of `x`'s color, up to and including the
/// first piece of the other color. `k` counts the steps already taken.
pub open spec fn ray(b: BoardModel, x: Piece, pos: Coord, cur: Coord, df: int, dr: int, k: int) -> Seq<Move>
    decreases 8 - k,
{
    if k >= 8 {
        seq![]
    } else {
        let next = step(cur, df, dr);
        if !next.valid() {
            seq![]
        } else {
            match b.at_coord(next) {
                Some(t) => if t.color() != x.color() {
                    seq![Move::Piece(pos, next)]
                } else {
                    seq![]
                },
                None => seq![Move::Piece(pos, next)] + ray(b, x, pos, next, df, dr, k + 1),
            }
        }
    }
}

pub open spec fn rook_candidates(b: BoardModel, x: Piece, pos: Coord) -> Seq<Move> {
    ray(b, x, pos, pos, -1, 0, 0) + ray(b, x, pos, pos, 0, 1, 0) + ray(b, x, pos, pos, 1, 0, 0)
        + ray(b, x, pos, pos, 0, -1, 0)
}

pub open spec fn bishop_candidates(b: BoardModel, x: Piece, pos: Coord) -> Seq<Move> {
    ray(b, x, pos, pos, -1, -1, 0) + ray(b, x, pos, pos, -1, 1, 0) + ray(b, x, pos, pos, 1, 1, 0)
        + ray(b, x, pos, pos, 1, -1, 0)
}

/// The knight's jump by `(df, dr)`, when it lands on the board and not on a
/// piece of its own color.
pub open spec fn jump(b: BoardModel, x: Piece, pos: Coord, df: int, dr: int) -> Seq<Move> {
    let t = step(pos, df, dr);
    if t.valid() && open_for(b, x, t) {
        seq![Move::Piece(pos, t)]
    } else {
        seq![]
    }
}

pub open spec fn knight_candidates(b: BoardModel, x: Piece, pos: Coord) -> Seq<Move> {
    jump(b, x, pos, -1, -2) + jump(b, x, pos, 1, -2) + jump(b, x, pos, -2, -1) + jump(
        b,
        x,
        pos,
        2,
        -1,
    ) + jump(b, x, pos, -2, 1) + jump(b, x, pos, 2, 1) + jump(b, x, pos, -1, 2) + jump(
        b,
        x,
        pos,
        1,
        2,
    )
}

pub open spec fn pawn_dir(c: Color) -> int {
    if c == Color::White {
        1
    } else {
        -1
    }
}

pub open spec fn pawn_start_rank(c: Color) -> int {
    if c == Color::White {
        1
    } else {
        6
    }
}

/// The rank on which a pawn of color `c` promotes.
pub open spec fn promotion_rank(c: Color) -> int {
    if c == Color::White {
        7
    } else {
        0
    }
}

/// The pawn lands on `t`: four promotions on the last rank, else one move.
pub open spec fn pawn_lands(x: Piece, pos: Coord, t: Coord) -> Seq<Move> {
    if t.1 == promotion_rank(x.color()) {
        promotions(pos, t, x.color())
    } else {
        seq![Move::Piece(pos, t)]
    }
}

pub open spec fn pawn_capture(b: BoardModel, x: Piece, pos: Coord, t: Coord) -> Seq<Move> {
    match b.at_coord(t) {
        Some(q) => if t.valid() && q.color() != x.color() {
            pawn_lands(x, pos, t)
        } else {
            seq![]
        },
        None => seq![],
    }
}

pub open spec fn pawn_candidates(b: BoardModel, x: Piece, pos: Coord) -> Seq<Move> {
    let dir = pawn_dir(x.color());
    let fwd = step(pos, 0, dir);
    let dbl = step(pos, 0, 2 * dir);
    let one = fwd.valid() && b.at_coord(fwd).is_none();
    pawn_capture(b, x, pos, step(pos, -1, dir)) + pawn_capture(b, x, pos, step(pos, 1, dir)) + (
    if one {
        pawn_lands(x, pos, fwd)
    } else {
        seq![]
    }) + (if one && pos.1 == pawn_start_rank(x.color()) && b.at_coord(dbl).is_none() {
        seq![Move::Piece(pos, dbl)]
    } else {
        seq![]
    })
}

/// Some move of `ms` lands on `t`.
pub open spec fn targets_include(ms: Seq<Move>, t: Coord) -> bool {
    exists|i: int| 0 <= i < ms.len() && (#[trigger] ms[i]).target() == Some(t)
}

/// The board on which a move of `x` is tested for self-check: the other
/// color's pieces, and `x` on the square the move lands on.
pub open spec fn check_board(b: BoardModel, m: Move, x: Piece) -> BoardModel {
    let rest = b.keep_color(x.color().other());
    match m.target() {
        Some(to) => if to.valid() {
            rest.put_at(to, Some(x))
        } else {
            rest
        },
        None => rest,
    }
}

/// The board on which a king step to `t` is tested: the other color's
/// pieces without their king, and the king `x` on `t`.
pub open spec fn king_board(b: BoardModel, x: Piece, t: Coord) -> BoardModel {
    b.keep_color(x.color().other()).put_at(t, Some(x)).without_piece(
        Piece::King(x.color().other(), COOLDOWN_KING),
    )
}

/// The king of the other color than `x` stands next to (or on) `t`.
pub open spec fn near_enemy_king(b: BoardModel, x: Piece, t: Coord) -> bool {
    match b.find(Piece::King(x.color().other(), COOLDOWN_KING)) {
        Some(k) => -1 <= k.0 - t.0 <= 1 && -1 <= k.1 - t.1 <= 1,
        None => false,
    }
}

/// Castling moves offered to king `x` standing on `pos`.
pub open spec fn castles(b: BoardModel, x: Piece, pos: Coord) -> Seq<Move> {
    let c = x.color();
    let r = home_rank(c);
    let (ks, qs) = if c == Color::White {
        (b.white_kingside, b.white_queenside)
    } else {
        (b.black_kingside, b.black_queenside)
    };
    let home = pos == Coord(4, r as i8);
    let rook = Piece::Rook(c, COOLDOWN_ROOK);
    (if ks && home && b.at(5, r).is_none() && b.at(6, r).is_none() && b.matches_at(7, r, rook) {
        seq![Move::KingSideCastle(c)]
    } else {
        seq![]
    }) + (if qs && home && b.at(3, r).is_none() && b.at(2, r).is_none() && b.at(1, r).is_none()
        && b.matches_at(0, r, rook) {
        seq![Move::QueenSideCastle(c)]
    } else {
        seq![]
    })
}

pub proof fn lemma_find_row_has_king(b: BoardModel, c: Color, r: int, f: int)
    requires
        0 <= r < 8,
        0 <= f,
        b.find_row(Piece::King(c, COOLDOWN_KING), r, f).is_some(),
    ensures
        b.has_king(c),
    decreases 8 - f,
{
    if f < 8 {
        if b.matches_at(f, r, Piece::King(c, COOLDOWN_KING)) {
            assert(is_king_of(b.at(f, r), c));
        } else {
            lemma_find_row_has_king(b, c, r, f + 1);
        }
    }
}

pub proof fn lemma_find_rows_has_king(b: BoardModel, c: Color, r: int)
    requires
        0 <= r,
        b.find_rows(Piece::King(c, COOLDOWN_KING), r).is_some(),
    ensures
        b.has_king(c),
    decreases 8 - r,
{
    if r < 8 {
        if b.find_row(Piece::King(c, COOLDOWN_KING), r, 0).is_some() {
            lemma_find_row_has_king(b, c, r, 0);
        } else {
            lemma_find_rows_has_king(b, c, r + 1);
        }
    }
}

/// The self-check board holds no more kings than the board it came from,
/// and a king of `x`'s color only when `x` is a king.
pub proof fn lemma_check_board_rank(b: BoardModel, m: Move, x: Piece)
    requires
        b.has_king(x.color()),
    ensures
        gen_rank(check_board(b, m, x), Some(x.color().other())) < piece_rank(b, x),
{
    let o = x.color().other();
    let s = check_board(b, m, x);
    if s.has_king(o) {
        let (f, r) = choose|f: int, r: int|
            0 <= f < 8 && 0 <= r < 8 && is_king_of(#[trigger] s.at(f, r), o);
        assert(is_king_of(b.at(f, r), o));
    }
    if s.has_king(x.color()) {
        let (f, r) = choose|f: int, r: int|
            0 <= f < 8 && 0 <= r < 8 && is_king_of(#[trigger] s.at(f, r), x.color());
        assert(x.kind() == 5);
    }
}

/// The king-step board holds no king of the other color.
pub proof fn lemma_king_board_rank(b: BoardModel, x: Piece, t: Coord)
    ensures
        gen_rank(king_board(b, x, t), Some(x.color().other())) < 2,
{
    let o = x.color().other();
    let s = king_board(b, x, t);
    if s.has_king(o) {
        let (f, r) = choose|f: int, r: int|
            0 <= f < 8 && 0 <= r < 8 && is_king_of(#[trigger] s.at(f, r), o);
        assert(false);
    }
}

/// The moves of the pieces of `d` (of every piece when `None`) in row `r`,
/// from file `f` on.
pub open spec fn gen_row(b: BoardModel, d: Option<Color>, r: int, f: int) -> Seq<Move>
    decreases gen_rank(b, d), 5int, 8 - f,
{
    if f >= 8 || r < 0 || r >= 8 || f < 0 {
        seq![]
    } else {
        let here = match b.at(f, r) {
            Some(x) => if d.is_none() || d == Some(x.color()) {
                proof {
                    if x.kind() == 5 {
                        assert(is_king_of(b.at(f, r), x.color()));
                    }
                }
                moves_of(b, x, Coord(f as i8, r as i8))
            } else {
                seq![]
            },
            None => seq![],
        };
        here + gen_row(b, d, r, f + 1)
    }
}

/// The moves of the pieces of `d` (of every piece when `None`), rank by rank
/// from rank `r` on, each rank file by file.
pub open spec fn gen_rows(b: BoardModel, d: Option<Color>, r: int) -> Seq<Move>
    decreases gen_rank(b, d), 6int, 8 - r,
{
    if r >= 8 || r < 0 {
        seq![]
    } else {
        gen_row(b, d, r, 0) + gen_rows(b, d, r + 1)
    }
}

/// The moves of piece `x` standing on `pos`, by its kind.
pub open spec fn moves_of(b: BoardModel, x: Piece, pos: Coord) -> Seq<Move>
    decreases (if x.kind() == 5 { 2 } else { piece_rank(b, x) }), 4int, 1int,
{
    match x {
        Piece::Pawn(..) => pawn_moves(b, x, pos),
        Piece::Knight(..) => knight_moves(b, x, pos),
        Piece::Bishop(..) => bishop_moves(b, x, pos),
        Piece::Rook(..) => rook_moves(b, x, pos),
        Piece::Queen(..) => queen_moves(b, x, pos),
        Piece::King(..) => king_moves(b, x, pos),
    }
}

/// Of the moves `ms[i..]` of `x`, those that do not leave `x`'s king attacked.
pub open spec fn safe(b: BoardModel, x: Piece, ms: Seq<Move>, i: int) -> Seq<Move>
    decreases piece_rank(b, x), 2int, ms.len() - i,
{
    if i >= ms.len() || i < 0 {
        seq![]
    } else {
        (if would_check(b, ms[i], x) {
            seq![]
        } else {
            seq![ms[i]]
        }) + safe(b, x, ms, i + 1)
    }
}

/// Move `m` of `x` would leave the king of `x`'s color attacked by the other
/// color, looking one move ahead on the self-check board.
pub open spec fn would_check(b: BoardModel, m: Move, x: Piece) -> bool
    decreases piece_rank(b, x), 1int, 0int,
{
    match b.find(Piece::King(x.color(), COOLDOWN_KING)) {
        None => false,
        Some(k) => {
            proof {
                lemma_find_rows_has_king(b, x.color(), 0);
                lemma_check_board_rank(b, m, x);
            }
            targets_include(gen_rows(check_board(b, m, x), Some(x.color().other()), 0), k)
        },
    }
}

pub open spec fn pawn_moves(b: BoardModel, x: Piece, pos: Coord) -> Seq<Move>
    decreases piece_rank(b, x), 3int, 0int,
{
    if x.cooldown() != 0 {
        seq![]
    } else {
        safe(b, x, pawn_candidates(b, x, pos), 0)
    }
}

pub open spec fn knight_moves(b: BoardModel, x: Piece, pos: Coord) -> Seq<Move>
    decreases piece_rank(b, x), 3int, 0int,
{
    if x.cooldown() != 0 {
        seq![]
    } else {
        safe(b, x, knight_candidates(b, x, pos), 0)
    }
}

pub open spec fn rook_moves(b: BoardModel, x: Piece, pos: Coord) -> Seq<Move>
    decreases piece_rank(b, x), 3int, 0int,
{
    if x.cooldown() != 0 {
        seq![]
    } else {
        safe(b, x, rook_candidates(b, x, pos), 0)
    }
}

pub open spec fn bishop_moves(b: BoardModel, x: Piece, pos: Coord) -> Seq<Move>
    decreases piece_rank(b, x), 3int, 0int,
{
    if x.cooldown() != 0 {
        seq![]
    } else {
        safe(b, x, bishop_candidates(b, x, pos), 0)
    }
}

pub open spec fn queen_moves(b: BoardModel, x: Piece, pos: Coord) -> Seq<Move>
    decreases piece_rank(b, x), 4int, 0int,
{
    bishop_moves(b, x, pos) + rook_moves(b, x, pos)
}

/// The king's step by `(df, dr)`: on the board, not next to the other king,
/// not onto its own color, and not onto a square the other color attacks.
pub open spec fn king_step(b: BoardModel, x: Piece, pos: Coord, df: int, dr: int) -> Seq<Move>
    decreases 2int, 3int, 0int,
{
    let t = step(pos, df, dr);
    if t.valid() && !near_enemy_king(b, x, t) && open_for(b, x, t) && !{
        proof {
            lemma_king_board_rank(b, x, t);
        }
        targets_include(gen_rows(king_board(b, x, t), Some(x.color().other()), 0), t)
    } {
        seq![Move::Piece(pos, t)]
    } else {
        seq![]
    }
}

pub open spec fn king_moves(b: BoardModel, x: Piece, pos: Coord) -> Seq<Move>
    decreases 2int, 4int, 0int,
{
    if x.cooldown() != 0 {
        seq![]
    } else {
        king_step(b, x, pos, -1, -1) + king_step(b, x, pos, -1, 0) + king_step(b, x, pos, -1, 1)
            + king_step(b, x, pos, 0, -1) + king_step(b, x, pos, 0, 1) + king_step(
            b,
            x,
            pos,
            1,
            -1,
        ) + king_step(b, x, pos, 1, 0) + king_step(b, x, pos, 1, 1) + castles(b, x, pos)
    }
}

// ---------------------------------------------------------------------------
// The generators.
// ---------------------------------------------------------------------------

fn target_of(m: &Move) -> (t: Option<Coord>)
    ensures
        t == m.target(),
{
    match m {
        Move::Piece(_, to) => Some(*to),
        Move::Promotion(_, to, _) => Some(*to),
        _ => None,
    }
}

/// Some move of `ms` lands on `t`.
fn includes_target(ms: &Vec<Move>, t: Coord) -> (r: bool)
    ensures
        r == targets_include(ms@, t),
{
    let mut i: usize = 0;
    while i < ms.len()
        invariant
            i <= ms@.len(),
            forall|j: int| 0 <= j < i ==> (#[trigger] ms@[j]).target() != Some(t),
        decreases ms@.len() - i,
    {
        if target_of(&ms[i]) == Some(t) {
            return true;
        }
        i = i + 1;
    }
    false
}

fn push_ray(b: &Board, x: &Piece, pos: Coord, df: i8, dr: i8, out: &mut Vec<Move>)
    requires
        pos.valid(),
        -1 <= df <= 1,
        -1 <= dr <= 1,
    ensures
        final(out)@ == old(out)@ + ray(b@, *x, pos, pos, df as int, dr as int, 0),
{
    let ghost start = out@;
    let mut cur = pos;
    let mut k: i8 = 0;
    let mut done = false;
    while k < 8 && !done
        invariant
            0 <= k <= 8,
            cur.valid(),
            -1 <= df <= 1,
            -1 <= dr <= 1,
            done ==> out@ == start + ray(b@, *x, pos, pos, df as int, dr as int, 0),
            !done ==> out@ + ray(b@, *x, pos, cur, df as int, dr as int, k as int) == start + ray(
                b@,
                *x,
                pos,
                pos,
                df as int,
                dr as int,
                0,
            ),
        decreases 8 - k, (if done { 0int } else { 1int }),
    {
        let next = Coord(cur.0 + df, cur.1 + dr);
        assert(next == step(cur, df as int, dr as int));
        if !next.is_valid() {
            assert(ray(b@, *x, pos, cur, df as int, dr as int, k as int) =~= seq![]);
            assert(out@ + seq![] =~= out@);
            done = true;
        } else {
            match b.get_piece_at(&next) {
                Some(t) => {
                    let ghost before = out@;
                    if t.get_color() != x.get_color() {
                        out.push(Move::Piece(pos, next));
                        assert(ray(b@, *x, pos, cur, df as int, dr as int, k as int) =~= seq![
                            Move::Piece(pos, next),
                        ]);
                        assert(before + seq![Move::Piece(pos, next)] =~= out@);
                    } else {
                        assert(ray(b@, *x, pos, cur, df as int, dr as int, k as int) =~= seq![]);
                        assert(out@ + seq![] =~= out@);
                    }
                    done = true;
                },
                None => {
                    let ghost before = out@;
                    out.push(Move::Piece(pos, next));
                    assert(before + ray(b@, *x, pos, cur, df as int, dr as int, k as int) =~= out@
                        + ray(b@, *x, pos, next, df as int, dr as int, k as int + 1));
                    cur = next;
                    k = k + 1;
                },
            }
        }
    }
    if !done {
        assert(out@ + seq![] =~= out@);
    }
}

fn push_jump(b: &Board, x: &Piece, pos: Coord, df: i8, dr: i8, out: &mut Vec<Move>)
    requires
        pos.valid(),
        -2 <= df <= 2,
        -2 <= dr <= 2,
    ensures
        final(out)@ == old(out)@ + jump(b@, *x, pos, df as int, dr as int),
{
    let t = Coord(pos.0 + df, pos.1 + dr);
    let open = match b.get_piece_at(&t) {
        Some(q) => q.get_color() != x.get_color(),
        None => true,
    };
    if t.is_valid() && open {
        out.push(Move::Piece(pos, t));
    } else {
        assert(out@ + seq![] =~= out@);
    }
}

fn push_promotions(from: Coord, to: Coord, c: Color, out: &mut Vec<Move>)
    ensures
        final(out)@ == old(out)@ + promotions(from, to, c),
{
    let ghost start = out@;
    out.push(Move::Promotion(from, to, Piece::Queen(c, COOLDOWN_QUEEN)));
    out.push(Move::Promotion(from, to, Piece::Rook(c, COOLDOWN_ROOK)));
    out.push(Move::Promotion(from, to, Piece::Bishop(c, COOLDOWN_BISHOP)));
    out.push(Move::Promotion(from, to, Piece::Knight(c, COOLDOWN_KNIGHT)));
    assert(out@ =~= start + promotions(from, to, c));
}

fn push_pawn_lands(x: &Piece, pos: Coord, t: Coord, promo: i8, out: &mut Vec<Move>)
    requires
        promo == promotion_rank(x.color()),
    ensures
        final(out)@ == old(out)@ + pawn_lands(*x, pos, t),
{
    if t.1 == promo {
        push_promotions(pos, t, x.get_color(), out);
    } else {
        out.push(Move::Piece(pos, t));
    }
}

fn push_pawn_capture(b: &Board, x: &Piece, pos: Coord, t: Coord, promo: i8, out: &mut Vec<Move>)
    requires
        promo == promotion_rank(x.color()),
    ensures
        final(out)@ == old(out)@ + pawn_capture(b@, *x, pos, t),
{
    match b.get_piece_at(&t) {
        Some(q) => {
            if t.is_valid() && q.get_color() != x.get_color() {
                push_pawn_lands(x, pos, t, promo, out);
            } else {
                assert(out@ + seq![] =~= out@);
            }
        },
        None => {
            assert(out@ + seq![] =~= out@);
        },
    }
}

fn pawn_candidates_exec(b: &Board, x: &Piece, pos: Coord) -> (ms: Vec<Move>)
    requires
        pos.valid(),
    ensures
        ms@ == pawn_candidates(b@, *x, pos),
{
    let (dir, start_rank, promo): (i8, i8, i8) = if x.get_color() == Color::White {
        (1, 1, 7)
    } else {
        (-1, 6, 0)
    };
    let mut ms: Vec<Move> = Vec::new();
    let left = Coord(pos.0 - 1, pos.1 + dir);
    let right = Coord(pos.0 + 1, pos.1 + dir);
    let fwd = Coord(pos.0, pos.1 + dir);
    let dbl = Coord(pos.0, pos.1 + 2 * dir);
    push_pawn_capture(b, x, pos, left, promo, &mut ms);
    let ghost s1 = ms@;
    push_pawn_capture(b, x, pos, right, promo, &mut ms);
    let ghost s2 = ms@;
    let one = fwd.is_valid() && b.get_piece_at(&fwd).is_none();
    if one {
        push_pawn_lands(x, pos, fwd, promo, &mut ms);
    }
    let ghost s3 = ms@;
    if one && pos.1 == start_rank && b.get_piece_at(&dbl).is_none() {
        ms.push(Move::Piece(pos, dbl));
    }
    assert(ms@ =~= pawn_candidates(b@, *x, pos));
    ms
}

fn knight_candidates_exec(b: &Board, x: &Piece, pos: Coord) -> (ms: Vec<Move>)
    requires
        pos.valid(),
    ensures
        ms@ == knight_candidates(b@, *x, pos),
{
    let mut ms: Vec<Move> = Vec::new();
    push_jump(b, x, pos, -1, -2, &mut ms);
    push_jump(b, x, pos, 1, -2, &mut ms);
    push_jump(b, x, pos, -2, -1, &mut ms);
    push_jump(b, x, pos, 2, -1, &mut ms);
    push_jump(b, x, pos, -2, 1, &mut ms);
    push_jump(b, x, pos, 2, 1, &mut ms);
    push_jump(b, x, pos, -1, 2, &mut ms);
    push_jump(b, x, pos, 1, 2, &mut ms);
    assert(ms@ =~= knight_candidates(b@, *x, pos));
    ms
}

fn rook_candidates_exec(b: &Board, x: &Piece, pos: Coord) -> (ms: Vec<Move>)
    requires
        pos.valid(),
    ensures
        ms@ == rook_candidates(b@, *x, pos),
{
    let mut ms: Vec<Move> = Vec::new();
    push_ray(b, x, pos, -1, 0, &mut ms);
    push_ray(b, x, pos, 0, 1, &mut ms);
    push_ray(b, x, pos, 1, 0, &mut ms);
    push_ray(b, x, pos, 0, -1, &mut ms);
    assert(ms@ =~= rook_candidates(b@, *x, pos));
    ms
}

fn bishop_candidates_exec(b: &Board, x: &Piece, pos: Coord) -> (ms: Vec<Move>)
    requires
        pos.valid(),
    ensures
        ms@ == bishop_candidates(b@, *x, pos),
{
    let mut ms: Vec<Move> = Vec::new();
    push_ray(b, x, pos, -1, -1, &mut ms);
    push_ray(b, x, pos, -1, 1, &mut ms);
    push_ray(b, x, pos, 1, 1, &mut ms);
    push_ray(b, x, pos, 1, -1, &mut ms);
    assert(ms@ =~= bishop_candidates(b@, *x, pos));
    ms
}

fn push_castles(b: &Board, x: &Piece, pos: Coord, out: &mut Vec<Move>)
    ensures
        final(out)@ == old(out)@ + castles(b@, *x, pos),
{
    let ghost start = out@;
    let c = x.get_color();
    let (r, ks, qs): (i8, bool, bool) = if c == Color::White {
        (0, b.white_can_castle_kingside, b.white_can_castle_queenside)
    } else {
        (7, b.black_can_castle_kingside, b.black_can_castle_queenside)
    };
    let home = pos == Coord(4, r);
    let rook = Piece::Rook(c, COOLDOWN_ROOK);
    let ks_rook = match b.get_piece_at(&Coord(7, r)) {
        Some(t) => t == rook,
        None => false,
    };
    if ks && home && b.get_piece_at(&Coord(5, r)).is_none() && b.get_piece_at(&Coord(6, r)).is_none()
        && ks_rook {
        out.push(Move::KingSideCastle(c));
    }
    let ghost mid = out@;
    let qs_rook = match b.get_piece_at(&Coord(0, r)) {
        Some(t) => t == rook,
        None => false,
    };
    if qs && home && b.get_piece_at(&Coord(3, r)).is_none() && b.get_piece_at(&Coord(2, r)).is_none()
        && b.get_piece_at(&Coord(1, r)).is_none() && qs_rook {
        out.push(Move::QueenSideCastle(c));
    }
    assert(out@ =~= start + castles(b@, *x, pos));
}

/// Of the candidate moves of `x`, those that do not leave its king attacked.
fn keep_safe(b: &Board, x: &Piece, cands: &Vec<Move>) -> (ms: Vec<Move>)
    ensures
        ms@ == safe(b@, *x, cands@, 0),
    decreases piece_rank(b@, *x), 2int, cands@.len() + 1,
{
    let mut ms: Vec<Move> = Vec::new();
    let mut i: usize = 0;
    while i < cands.len()
        invariant
            i <= cands@.len(),
            ms@ + safe(b@, *x, cands@, i as int) == safe(b@, *x, cands@, 0),
        decreases cands@.len() - i,
    {
        let m = cands[i];
        let ghost before = ms@;
        if !move_would_result_in_check(b, &m, x) {
            ms.push(m);
            assert(before + safe(b@, *x, cands@, i as int) =~= ms@ + safe(
                b@,
                *x,
                cands@,
                i as int + 1,
            ));
        } else {
            assert(before + safe(b@, *x, cands@, i as int) =~= ms@ + safe(
                b@,
                *x,
                cands@,
                i as int + 1,
            ));
        }
        i = i + 1;
    }
    assert(ms@ + seq![] =~= ms@);
    ms
}

/// Whether move `m` of `x` leaves the king of `x`'s color attacked: the
/// other color's pieces, with `x` placed where `m` lands, are asked whether
/// any of their moves reaches that king.
fn move_would_result_in_check(b: &Board, m: &Move, x: &Piece) -> (r: bool)
    ensures
        r == would_check(b@, *m, *x),
    decreases piece_rank(b@, *x), 1int, 0int,
{
    match b.get_coord_for_piece(&Piece::King(x.get_color(), COOLDOWN_KING)) {
        None => false,
        Some(k) => {
            let o = x.opposing_color();
            let mut sim = b.filter_by_color(o);
            match target_of(m) {
                Some(to) => {
                    if to.is_valid() {
                        sim.set_piece_at(Some(*x), to);
                    }
                },
                None => {},
            }
            assert(sim@ == check_board(b@, *m, *x));
            proof {
                lemma_find_rows_has_king(b@, x.color(), 0);
                lemma_check_board_rank(b@, *m, *x);
            }
            let ms = gen_moves(&sim, Some(o));
            includes_target(&ms, k)
        },
    }
}

/// The moves of the pieces of `d` (of every piece when `None`), rank by rank
/// and file by file.
fn gen_moves(b: &Board, d: Option<Color>) -> (ms: Vec<Move>)
    ensures
        ms@ == gen_rows(b@, d, 0),
    decreases gen_rank(b@, d), 6int, 9int,
{
    let mut ms: Vec<Move> = Vec::new();
    let mut r: usize = 0;
    while r < 8
        invariant
            r <= 8,
            ms@ + gen_rows(b@, d, r as int) == gen_rows(b@, d, 0),
        decreases 8 - r,
    {
        let mut f: usize = 0;
        while f < 8
            invariant
                r < 8,
                f <= 8,
                ms@ + gen_row(b@, d, r as int, f as int) + gen_rows(b@, d, r as int + 1) == gen_rows(
                    b@,
                    d,
                    0,
                ),
            decreases 8 - f,
        {
            let pos = Coord(f as i8, r as i8);
            let ghost before = ms@;
            match b.get_piece_at(&pos) {
                Some(x) => {
                    let take = match d {
                        None => true,
                        Some(c) => c == x.get_color(),
                    };
                    if take {
                        proof {
                            if x.kind() == 5 {
                                assert(is_king_of(b@.at(f as int, r as int), x.color()));
                            }
                        }
                        let mut part = gen_piece(b, &x, pos);
                        ms.append(&mut part);
                    }
                },
                None => {},
            }
            assert(before + gen_row(b@, d, r as int, f as int) + gen_rows(b@, d, r as int + 1)
                =~= ms@ + gen_row(b@, d, r as int, f as int + 1) + gen_rows(b@, d, r as int + 1));
            f = f + 1;
        }
        assert(ms@ + gen_row(b@, d, r as int, 8) =~= ms@);
        r = r + 1;
    }
    assert(ms@ + seq![] =~= ms@);
    ms
}

/// The moves of piece `x` standing on `pos`, by its kind.
fn gen_piece(b: &Board, x: &Piece, pos: Coord) -> (ms: Vec<Move>)
    requires
        pos.valid(),
    ensures
        ms@ == moves_of(b@, *x, pos),
    decreases (if x.kind() == 5 { 2 } else { piece_rank(b@, *x) }), 4int, 1int,
{
    match x {
        Piece::Pawn(..) => gen_pawn(b, x, pos),
        Piece::Knight(..) => gen_knight(b, x, pos),
        Piece::Bishop(..) => gen_bishop(b, x, pos),
        Piece::Rook(..) => gen_rook(b, x, pos),
        Piece::Queen(..) => gen_queen(b, x, pos),
        Piece::King(..) => gen_king(b, x, pos),
    }
}

fn gen_pawn(b: &Board, x: &Piece, pos: Coord) -> (ms: Vec<Move>)
    requires
        pos.valid(),
    ensures
        ms@ == pawn_moves(b@, *x, pos),
    decreases piece_rank(b@, *x), 3int, 0int,
{
    if x.get_cooldown() != 0 {
        return Vec::new();
    }
    let cands = pawn_candidates_exec(b, x, pos);
    keep_safe(b, x, &cands)
}

fn gen_knight(b: &Board, x: &Piece, pos: Coord) -> (ms: Vec<Move>)
    requires
        pos.valid(),
    ensures
        ms@ == knight_moves(b@, *x, pos),
    decreases piece_rank(b@, *x), 3int, 0int,
{
    if x.get_cooldown() != 0 {
        return Vec::new();
    }
    let cands = knight_candidates_exec(b, x, pos);
    keep_safe(b, x, &cands)
}

fn gen_rook(b: &Board, x: &Piece, pos: Coord) -> (ms: Vec<Move>)
    requires
        pos.valid(),
    ensures
        ms@ == rook_moves(b@, *x, pos),
    decreases piece_rank(b@, *x), 3int, 0int,
{
    if x.get_cooldown() != 0 {
        return Vec::new();
    }
    let cands = rook_candidates_exec(b, x, pos);
    keep_safe(b, x, &cands)
}

fn gen_bishop(b: &Board, x: &Piece, pos: Coord) -> (ms: Vec<Move>)
    requires
        pos.valid(),
    ensures
        ms@ == bishop_moves(b@, *x, pos),
    decreases piece_rank(b@, *x), 3int, 0int,
{
    if x.get_cooldown() != 0 {
        return Vec::new();
    }
    let cands = bishop_candidates_exec(b, x, pos);
    keep_safe(b, x, &cands)
}

fn gen_queen(b: &Board, x: &Piece, pos: Coord) -> (ms: Vec<Move>)
    requires
        pos.valid(),
    ensures
        ms@ == queen_moves(b@, *x, pos),
    decreases piece_rank(b@, *x), 4int, 0int,
{
    let mut ms = gen_bishop(b, x, pos);
    let mut rest = gen_rook(b, x, pos);
    ms.append(&mut rest);
    ms
}

fn push_king_step(b: &Board, x: &Piece, pos: Coord, df: i8, dr: i8, out: &mut Vec<Move>)
    requires
        pos.valid(),
        -1 <= df <= 1,
        -1 <= dr <= 1,
    ensures
        final(out)@ == old(out)@ + king_step(b@, *x, pos, df as int, dr as int),
    decreases 2int, 3int, 0int,
{
    let t = Coord(pos.0 + df, pos.1 + dr);
    assert(t == step(pos, df as int, dr as int));
    if !t.is_valid() {
        assert(out@ + seq![] =~= out@);
        return;
    }
    let o = x.opposing_color();
    let near = match b.get_coord_for_piece(&Piece::King(o, COOLDOWN_KING)) {
        Some(k) => {
            let fd = k.0 as i16 - t.0 as i16;
            let rd = k.1 as i16 - t.1 as i16;
            -1 <= fd && fd <= 1 && -1 <= rd && rd <= 1
        },
        None => false,
    };
    if near {
        assert(out@ + seq![] =~= out@);
        return;
    }
    let open = match b.get_piece_at(&t) {
        Some(q) => q.get_color() != x.get_color(),
        None => true,
    };
    if !open {
        assert(out@ + seq![] =~= out@);
        return;
    }
    let mut sim = b.filter_by_color(o);
    sim.set_piece_at(Some(*x), t);
    sim.remove_by_piece(&Piece::King(o, COOLDOWN_KING));
    assert(sim@ == king_board(b@, *x, t));
    proof {
        lemma_king_board_rank(b@, *x, t);
    }
    let enemy = gen_moves(&sim, Some(o));
    if includes_target(&enemy, t) {
        assert(out@ + seq![] =~= out@);
        return;
    }
    out.push(Move::Piece(pos, t));
}

fn gen_king(b: &Board, x: &Piece, pos: Coord) -> (ms: Vec<Move>)
    requires
        pos.valid(),
    ensures
        ms@ == king_moves(b@, *x, pos),
    decreases 2int, 4int, 0int,
{
    if x.get_cooldown() != 0 {
        return Vec::new();
    }
    let mut ms: Vec<Move> = Vec::new();
    push_king_step(b, x, pos, -1, -1, &mut ms);
    push_king_step(b, x, pos, -1, 0, &mut ms);
    push_king_step(b, x, pos, -1, 1, &mut ms);
    push_king_step(b, x, pos, 0, -1, &mut ms);
    push_king_step(b, x, pos, 0, 1, &mut ms);
    push_king_step(b, x, pos, 1, -1, &mut ms);
    push_king_step(b, x, pos, 1, 0, &mut ms);
    push_king_step(b, x, pos, 1, 1, &mut ms);
    push_castles(b, x, pos, &mut ms);
    assert(ms@ =~= king_moves(b@, *x, pos));
    ms
}

/// Every legal move of every piece on `b`, rank by rank and file by file.
pub open spec fn legal_moves(b: BoardModel) -> Seq<Move> {
    gen_rows(b, None, 0)
}

/// Every legal move of the pieces of color `c` on `b`.
pub open spec fn legal_moves_for(b: BoardModel, c: Color) -> Seq<Move> {
    gen_rows(b, Some(c), 0)
}

/// `m` promotes a pawn going from `from` to `k`.
pub open spec fn is_promotion_onto(m: Move, from: Coord, k: Coord) -> bool {
    match m {
        Move::Promotion(f2, t2, _) => f2 == from && t2 == k,
        _ => false,
    }
}

/// `ms[i]` lands on `k`; of several promotions from one square onto `k`
/// only the first counts, as they are one attack.
pub open spec fn counts_as_attack(ms: Seq<Move>, k: Coord, i: int) -> bool {
    match ms[i] {
        Move::Piece(_, to) => to == k,
        Move::Promotion(from, to, _) => to == k && !exists|j: int|
            0 <= j < i && is_promotion_onto(#[trigger] ms[j], from, k),
        _ => false,
    }
}

/// Number of attacks on `k` among the moves `ms[i..]`.
pub open spec fn attack_count(ms: Seq<Move>, k: Coord, i: int) -> nat
    decreases ms.len() - i,
{
    if i < 0 || i >= ms.len() {
        0
    } else {
        (if counts_as_attack(ms, k, i) {
            1nat
        } else {
            0nat
        }) + attack_count(ms, k, i + 1)
    }
}

/// Number of the other color's legal moves that attack the king of color `c`
/// (zero when there is no such king).
pub open spec fn king_checks(b: BoardModel, c: Color) -> nat {
    match b.find(Piece::King(c, COOLDOWN_KING)) {
        None => 0,
        Some(k) => attack_count(legal_moves_for(b, c.other()), k, 0),
    }
}

/// Some legal move on `b` equals `m`.
pub open spec fn is_legal(b: BoardModel, m: Move) -> bool {
    exists|i: int| 0 <= i < legal_moves(b).len() && (#[trigger] legal_moves(b)[i]).same(m)
}

fn counts_as_attack_exec(ms: &Vec<Move>, k: Coord, i: usize) -> (r: bool)
    requires
        i < ms@.len(),
    ensures
        r == counts_as_attack(ms@, k, i as int),
{
    let m = ms[i];
    assert(m == ms@[i as int]);
    match m {
        Move::Piece(_, to) => to == k,
        Move::Promotion(from, to, _) => {
            if to != k {
                return false;
            }
            let mut j: usize = 0;
            assert(is_promotion_onto(ms@[i as int], from, k));
            while j < i
                invariant
                    j <= i,
                    i < ms@.len(),
                    is_promotion_onto(ms@[i as int], from, k),
                    forall|l: int| 0 <= l < j ==> !is_promotion_onto(#[trigger] ms@[l], from, k),
                decreases i - j,
            {
                match ms[j] {
                    Move::Promotion(f2, t2, _) => {
                        if f2 == from && t2 == k {
                            assert(is_promotion_onto(ms@[j as int], from, k));
                            assert(exists|l: int|
                                0 <= l < i && is_promotion_onto(#[trigger] ms@[l], from, k));

                            return false;
                        }
                    },
                    _ => {},
                }
                j = j + 1;
            }
            true
        },
        _ => false,
    }
}

impl Board {
    /// How many of the other color's legal moves land on the square of the
    /// king of `color`; the promotions of one pawn count once.
    pub fn king_check_count(&self, color: Color) -> (n: usize)
        ensures
            n == king_checks(self@, color),
    {
        match self.get_coord_for_piece(&Piece::King(color, COOLDOWN_KING)) {
            None => 0,
            Some(k) => {
                let ms = gen_moves(self, Some(color.opposite()));
                let mut n: usize = 0;
                let mut i: usize = 0;
                while i < ms.len()
                    invariant
                        i <= ms@.len(),
                        n <= i,
                        n + attack_count(ms@, k, i as int) == attack_count(ms@, k, 0),
                    decreases ms@.len() - i,
                {
                    if counts_as_attack_exec(&ms, k, i) {
                        n = n + 1;
                    }
                    i = i + 1;
                }
                n
            },
        }
    }

    /// The move is one of the legal moves of the position.
    pub fn is_valid_move(&self, mv: Move) -> (r: bool)
        ensures
            r == is_legal(self@, mv),
    {
        let ms = gen_moves(self, None);
        let mut i: usize = 0;
        while i < ms.len()
            invariant
                i <= ms@.len(),
                ms@ == legal_moves(self@),
                forall|j: int| 0 <= j < i ==> !(#[trigger] ms@[j]).same(mv),
            decreases ms@.len() - i,
        {
            if ms[i] == mv {
                return true;
            }
            i = i + 1;
        }
        false
    }
}

/// A move generator bound to a snapshot of one position.
pub struct MoveGen {
    pub board: Board,
}

impl MoveGen {
    pub fn new(board: &Board) -> (g: MoveGen)
        ensures
            g.board@ == board@,
    {
        MoveGen { board: *board }
    }

    /// Every legal move of the position, rank by rank and file by file.
    pub fn get_possible_moves(&self) -> (ms: Vec<Move>)
        ensures
            ms@ == legal_moves(self.board@),
    {
        gen_moves(&self.board, None)
    }

    /// The legal moves of the pieces of `color`; other pieces are not looked at.
    pub fn get_possible_moves_for_color(&self, color: Color) -> (ms: Vec<Move>)
        ensures
            ms@ == legal_moves_for(self.board@, color),
    {
        gen_moves(&self.board, Some(color))
    }

    /// The legal moves of pawn `piece` standing on `pos`.
    pub fn for_pawn(&self, piece: &Piece, pos: Coord) -> (ms: Vec<Move>)
        requires
            pos.valid(),
        ensures
            ms@ == pawn_moves(self.board@, *piece, pos),
    {
        gen_pawn(&self.board, piece, pos)
    }

    /// The legal moves of knight `piece` standing on `pos`.
    pub fn for_knight(&self, piece: &Piece, pos: Coord) -> (ms: Vec<Move>)
        requires
            pos.valid(),
        ensures
            ms@ == knight_moves(self.board@, *piece, pos),
    {
        gen_knight(&self.board, piece, pos)
    }

    /// The legal moves of rook `piece` standing on `pos`.
    pub fn for_rook(&self, piece: &Piece, pos: Coord) -> (ms: Vec<Move>)
        requires
            pos.valid(),
        ensures
            ms@ == rook_moves(self.board@, *piece, pos),
    {
        gen_rook(&self.board, piece, pos)
    }

    /// The legal moves of bishop `piece` standing on `pos`.
    pub fn for_bishop(&self, piece: &Piece, pos: Coord) -> (ms: Vec<Move>)
        requires
            pos.valid(),
        ensures
            ms@ == bishop_moves(self.board@, *piece, pos),
    {
        gen_bishop(&self.board, piece, pos)
    }

    /// The legal moves of queen `piece` standing on `pos`: its bishop moves,
    /// then its rook moves.
    pub fn for_queen(&self, piece: &Piece, pos: Coord) -> (ms: Vec<Move>)
        requires
            pos.valid(),
        ensures
            ms@ == queen_moves(self.board@, *piece, pos),
    {
        gen_queen(&self.board, piece, pos)
    }

    /// The legal moves of king `piece` standing on `pos`, castling included.
    pub fn for_king(&self, piece: &Piece, pos: Coord) -> (ms: Vec<Move>)
        requires
            pos.valid(),
        ensures
            ms@ == king_moves(self.board@, *piece, pos),
    {
        gen_king(&self.board, piece, pos)
    }
}

} // verus!
