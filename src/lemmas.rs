use vstd::prelude::*;
use crate::board::{home_rank, BoardModel};
use crate::cooldowns::BOARD_TICK_RATE;
use crate::coordinate::Coord;
use crate::movegen::{
    castles, gen_row, gen_rows, king_board, open_for, ray, rook_candidates, rook_moves, king_moves, king_step, moves_of, near_enemy_king, pawn_candidates,
    pawn_capture, pawn_lands, pawn_moves, promotion_rank, promotions, queen_moves, safe, step,
    targets_include, would_check,
};
use crate::cooldowns::{COOLDOWN_KING, COOLDOWN_ROOK};
use crate::piece::{make_piece, Color, Move, Piece};

verus! {

/// Every move of `ms` has property `p`.
pub open spec fn all_moves(ms: Seq<Move>, p: spec_fn(Move) -> bool) -> bool {
    forall|i: int| 0 <= i < ms.len() ==> p(#[trigger] ms[i])
}

pub proof fn lemma_all_moves_add(a: Seq<Move>, b: Seq<Move>, p: spec_fn(Move) -> bool)
    requires
        all_moves(a, p),
        all_moves(b, p),
    ensures
        all_moves(a + b, p),
{
    assert forall|i: int| 0 <= i < (a + b).len() implies p(#[trigger] (a + b)[i]) by {
        if i < a.len() {
            assert((a + b)[i] == a[i]);
        } else {
            assert((a + b)[i] == b[i - a.len()]);
        }
    }
}

/// Every move the self-check filter keeps is one of the moves it was given.
pub proof fn lemma_safe_keeps_given(b: BoardModel, x: Piece, ms: Seq<Move>, i: int)
    requires
        0 <= i,
    ensures
        forall|k: int|
            0 <= k < safe(b, x, ms, i).len() ==> exists|j: int|
                i <= j < ms.len() && #[trigger] safe(b, x, ms, i)[k] == ms[j],
    decreases ms.len() - i,
{
    if i < ms.len() {
        lemma_safe_keeps_given(b, x, ms, i + 1);
        let head: Seq<Move> = if would_check(b, ms[i], x) {
            seq![]
        } else {
            seq![ms[i]]
        };
        assert(safe(b, x, ms, i) == head + safe(b, x, ms, i + 1));
        assert forall|k: int| 0 <= k < safe(b, x, ms, i).len() implies exists|j: int|
            i <= j < ms.len() && #[trigger] safe(b, x, ms, i)[k] == ms[j] by {
            if k < head.len() {
                assert(safe(b, x, ms, i)[k] == ms[i]);
            } else {
                let k2 = k - head.len();
                assert(safe(b, x, ms, i)[k] == safe(b, x, ms, i + 1)[k2]);
            }
        }
    }
}

/// A property of all given moves holds of the moves the filter keeps.
pub proof fn lemma_safe_all(b: BoardModel, x: Piece, ms: Seq<Move>, p: spec_fn(Move) -> bool)
    requires
        all_moves(ms, p),
    ensures
        all_moves(safe(b, x, ms, 0), p),
{
    lemma_safe_keeps_given(b, x, ms, 0);
    assert forall|k: int| 0 <= k < safe(b, x, ms, 0).len() implies p(
        #[trigger] safe(b, x, ms, 0)[k],
    ) by {
        let j = choose|j: int| 0 <= j < ms.len() && safe(b, x, ms, 0)[k] == ms[j];
    }
}

/// A piece whose cooldown is not zero has no moves, wherever it stands.
pub proof fn lemma_cooldown_blocks(b: BoardModel, x: Piece, pos: Coord)
    requires
        x.cooldown() != 0,
    ensures
        moves_of(b, x, pos) == Seq::<Move>::empty(),
{
    assert(queen_moves(b, x, pos) =~= Seq::<Move>::empty());
}

/// The board after `n` ticks.
pub open spec fn ticks(b: BoardModel, n: nat) -> BoardModel
    decreases n,
{
    if n == 0 {
        b
    } else {
        ticks(b, (n - 1) as nat).ticked()
    }
}

/// After `n` ticks a piece keeps its kind and color, and its cooldown has
/// gone down by `n` tick lengths, stopping at zero.
pub proof fn lemma_ticks_lower_cooldown(b: BoardModel, f: int, r: int, n: nat)
    requires
        b.at(f, r) is Some,
    ensures
        ticks(b, n).at(f, r) is Some,
        ticks(b, n).at(f, r).unwrap().same(b.at(f, r).unwrap()),
        ticks(b, n).at(f, r).unwrap().cooldown() == if b.at(f, r).unwrap().cooldown() >= n
            * BOARD_TICK_RATE {
            b.at(f, r).unwrap().cooldown() - n * BOARD_TICK_RATE
        } else {
            0
        },
    decreases n,
{
    if n > 0 {
        lemma_ticks_lower_cooldown(b, f, r, (n - 1) as nat);
        assert(n * BOARD_TICK_RATE == (n - 1) * BOARD_TICK_RATE + BOARD_TICK_RATE) by (
        nonlinear_arith);
    }
}

/// Enough ticks bring a piece's cooldown to zero: it stands on its square
/// as the same piece with no cooldown, free to move again.
pub proof fn lemma_ticks_restore_moves(b: BoardModel, pos: Coord, n: nat)
    requires
        b.at_coord(pos) is Some,
        n * BOARD_TICK_RATE >= b.at_coord(pos).unwrap().cooldown(),
    ensures
        ticks(b, n).at_coord(pos) == Some(
            make_piece(b.at_coord(pos).unwrap().kind(), b.at_coord(pos).unwrap().color(), 0),
        ),
{
    let p = b.at_coord(pos).unwrap();
    lemma_ticks_lower_cooldown(b, pos.0 as int, pos.1 as int, n);
    let q = ticks(b, n).at_coord(pos).unwrap();
    assert(q == make_piece(q.kind(), q.color(), q.cooldown()));
}

/// A tick leaves every castling right as it was.
pub proof fn lemma_tick_keeps_rights(b: BoardModel)
    ensures
        b.ticked().same_rights(b),
{
}

/// No move gives a castling right back.
pub proof fn lemma_move_never_restores_rights(b: BoardModel, m: Move)
    ensures
        b.apply(m).white_kingside ==> b.white_kingside,
        b.apply(m).white_queenside ==> b.white_queenside,
        b.apply(m).black_kingside ==> b.black_kingside,
        b.apply(m).black_queenside ==> b.black_queenside,
{
}

/// The board after a run of events, each a move or (`None`) a tick.
pub open spec fn run(b: BoardModel, evs: Seq<Option<Move>>) -> BoardModel
    decreases evs.len(),
{
    if evs.len() == 0 {
        b
    } else {
        let before = run(b, evs.drop_last());
        match evs.last() {
            Some(m) => before.apply(m),
            None => before.ticked(),
        }
    }
}

/// A castling right that is gone stays gone, whatever moves and ticks follow.
pub proof fn lemma_rights_never_return(b: BoardModel, evs: Seq<Option<Move>>)
    ensures
        run(b, evs).white_kingside ==> b.white_kingside,
        run(b, evs).white_queenside ==> b.white_queenside,
        run(b, evs).black_kingside ==> b.black_kingside,
        run(b, evs).black_queenside ==> b.black_queenside,
    decreases evs.len(),
{
    if evs.len() > 0 {
        lemma_rights_never_return(b, evs.drop_last());
        match evs.last() {
            Some(m) => lemma_move_never_restores_rights(run(b, evs.drop_last()), m),
            None => {},
        }
    }
}

/// Castling, on either side, takes away both castling rights of its color.
pub proof fn lemma_castle_revokes_rights(b: BoardModel, c: Color)
    ensures
        !b.apply(Move::KingSideCastle(c)).kingside_right(c),
        !b.apply(Move::KingSideCastle(c)).queenside_right(c),
        !b.apply(Move::QueenSideCastle(c)).kingside_right(c),
        !b.apply(Move::QueenSideCastle(c)).queenside_right(c),
{
}

/// A move of a king takes away both castling rights of its color.
pub proof fn lemma_king_move_revokes_rights(b: BoardModel, from: Coord, to: Coord)
    requires
        b.at_coord(from) matches Some(p) && p.kind() == 5,
    ensures
        !b.apply(Move::Piece(from, to)).kingside_right(b.at_coord(from).unwrap().color()),
        !b.apply(Move::Piece(from, to)).queenside_right(b.at_coord(from).unwrap().color()),
{
}

/// A rook leaving its corner takes away the castling right on its side.
pub proof fn lemma_rook_move_revokes_right(b: BoardModel, from: Coord, to: Coord)
    requires
        b.at_coord(from) matches Some(p) && p.kind() == 3 && from.1 == home_rank(p.color()),
    ensures
        from.0 == 7 ==> !b.apply(Move::Piece(from, to)).kingside_right(
            b.at_coord(from).unwrap().color(),
        ),
        from.0 == 0 ==> !b.apply(Move::Piece(from, to)).queenside_right(
            b.at_coord(from).unwrap().color(),
        ),
{
}

/// The conditions under which a castling move may be offered to king `x`
/// standing on `pos`: the right is still held, the king stands on its
/// starting square, the squares between king and rook are empty and the
/// rook of its color stands in the corner.
pub open spec fn castle_allowed(b: BoardModel, x: Piece, pos: Coord, m: Move) -> bool {
    let r = home_rank(x.color());
    let rook = Piece::Rook(x.color(), COOLDOWN_ROOK);
    match m {
        Move::KingSideCastle(c) => c == x.color() && b.kingside_right(c) && pos == Coord(4, r as i8)
            && b.at(5, r) is None && b.at(6, r) is None && b.matches_at(7, r, rook),
        Move::QueenSideCastle(c) => c == x.color() && b.queenside_right(c) && pos == Coord(
            4,
            r as i8,
        ) && b.at(3, r) is None && b.at(2, r) is None && b.at(1, r) is None && b.matches_at(
            0,
            r,
            rook,
        ),
        _ => true,
    }
}

/// A plain king move lands on the board, not next to the other king, and
/// not on a square that the other color's pieces reach once the king stands
/// there (with their own king taken off).
pub open spec fn king_step_safe(b: BoardModel, x: Piece, m: Move) -> bool {
    match m {
        Move::Piece(_, t) => t.valid() && !near_enemy_king(b, x, t) && !targets_include(
            gen_rows(king_board(b, x, t), Some(x.color().other()), 0),
            t,
        ),
        _ => true,
    }
}

proof fn lemma_king_steps_all(b: BoardModel, x: Piece, pos: Coord, p: spec_fn(Move) -> bool)
    requires
        forall|df: int, dr: int| all_moves(#[trigger] king_step(b, x, pos, df, dr), p),
        all_moves(castles(b, x, pos), p),
    ensures
        all_moves(king_moves(b, x, pos), p),
{
    if x.cooldown() == 0 {
        let s1 = king_step(b, x, pos, -1, -1);
        let s2 = king_step(b, x, pos, -1, 0);
        let s3 = king_step(b, x, pos, -1, 1);
        let s4 = king_step(b, x, pos, 0, -1);
        let s5 = king_step(b, x, pos, 0, 1);
        let s6 = king_step(b, x, pos, 1, -1);
        let s7 = king_step(b, x, pos, 1, 0);
        let s8 = king_step(b, x, pos, 1, 1);
        lemma_all_moves_add(s1, s2, p);
        lemma_all_moves_add(s1 + s2, s3, p);
        lemma_all_moves_add(s1 + s2 + s3, s4, p);
        lemma_all_moves_add(s1 + s2 + s3 + s4, s5, p);
        lemma_all_moves_add(s1 + s2 + s3 + s4 + s5, s6, p);
        lemma_all_moves_add(s1 + s2 + s3 + s4 + s5 + s6, s7, p);
        lemma_all_moves_add(s1 + s2 + s3 + s4 + s5 + s6 + s7, s8, p);
        lemma_all_moves_add(s1 + s2 + s3 + s4 + s5 + s6 + s7 + s8, castles(b, x, pos), p);
    }
}

/// Castling is offered only when its color still holds the right, the king
/// and the rook stand on their starting squares and the lane between them
/// is empty.
pub proof fn lemma_castle_only_when_allowed(b: BoardModel, x: Piece, pos: Coord)
    ensures
        forall|i: int|
            0 <= i < king_moves(b, x, pos).len() ==> castle_allowed(
                b,
                x,
                pos,
                #[trigger] king_moves(b, x, pos)[i],
            ),
{
    let p = |m: Move| castle_allowed(b, x, pos, m);
    assert forall|df: int, dr: int| all_moves(#[trigger] king_step(b, x, pos, df, dr), p) by {}
    lemma_king_steps_all(b, x, pos, p);
    assert(all_moves(king_moves(b, x, pos), p));
}

/// The king never steps onto a square the other color attacks, nor next to
/// the other king.
pub proof fn lemma_king_avoids_attacked_squares(b: BoardModel, x: Piece, pos: Coord)
    ensures
        forall|i: int|
            0 <= i < king_moves(b, x, pos).len() ==> king_step_safe(
                b,
                x,
                #[trigger] king_moves(b, x, pos)[i],
            ),
{
    let p = |m: Move| king_step_safe(b, x, m);
    assert forall|df: int, dr: int| all_moves(#[trigger] king_step(b, x, pos, df, dr), p) by {}
    lemma_king_steps_all(b, x, pos, p);
    assert(all_moves(king_moves(b, x, pos), p));
}

/// A promotion of pawn `x`: it lands on the last rank for `x`'s color and
/// brings a knight, bishop, rook or queen of that color.
pub open spec fn promotion_ok(x: Piece, m: Move) -> bool {
    match m {
        Move::Promotion(_, to, p) => to.1 == promotion_rank(x.color()) && p.color() == x.color() && 1
            <= p.kind() <= 4,
        _ => true,
    }
}

/// Pawns promote only on the last rank, and only to a knight, bishop, rook
/// or queen of their own color.
pub proof fn lemma_promotions_on_last_rank(b: BoardModel, x: Piece, pos: Coord)
    ensures
        forall|i: int|
            0 <= i < pawn_moves(b, x, pos).len() ==> promotion_ok(
                x,
                #[trigger] pawn_moves(b, x, pos)[i],
            ),
{
    let p = |m: Move| promotion_ok(x, m);
    if x.cooldown() == 0 {
        let dir = crate::movegen::pawn_dir(x.color());
        let l = pawn_capture(b, x, pos, step(pos, -1, dir));
        let r = pawn_capture(b, x, pos, step(pos, 1, dir));
        let fwd = step(pos, 0, dir);
        let one = fwd.valid() && b.at_coord(fwd).is_none();
        let f: Seq<Move> = if one {
            pawn_lands(x, pos, fwd)
        } else {
            seq![]
        };
        let dbl = step(pos, 0, 2 * dir);
        let d: Seq<Move> = if one && pos.1 == crate::movegen::pawn_start_rank(x.color()) && b.at_coord(
            dbl,
        ).is_none() {
            seq![Move::Piece(pos, dbl)]
        } else {
            seq![]
        };
        assert(all_moves(l, p));
        assert(all_moves(r, p));
        assert(all_moves(f, p));
        assert(all_moves(d, p));
        lemma_all_moves_add(l, r, p);
        lemma_all_moves_add(l + r, f, p);
        lemma_all_moves_add(l + r + f, d, p);
        assert(pawn_candidates(b, x, pos) == l + r + f + d);
        lemma_safe_all(b, x, pawn_candidates(b, x, pos), p);
    }
}

/// A pawn reaching the last rank is offered four promotions, to a queen, a
/// rook, a bishop and a knight.
pub proof fn lemma_four_promotions(from: Coord, to: Coord, c: Color)
    ensures
        promotions(from, to, c).len() == 4,
        promotions(from, to, c)[0] matches Move::Promotion(f, t, p) && f == from && t == to
            && p.kind() == 4 && p.color() == c,
        promotions(from, to, c)[1] matches Move::Promotion(f, t, p) && f == from && t == to
            && p.kind() == 3 && p.color() == c,
        promotions(from, to, c)[2] matches Move::Promotion(f, t, p) && f == from && t == to
            && p.kind() == 2 && p.color() == c,
        promotions(from, to, c)[3] matches Move::Promotion(f, t, p) && f == from && t == to
            && p.kind() == 1 && p.color() == c,
{
}

/// Whether a move leaves its own king attacked depends only on where it
/// lands; so the four promotions onto one square are kept or dropped together.
pub proof fn lemma_check_depends_on_target(b: BoardModel, m1: Move, m2: Move, x: Piece)
    requires
        m1.target() == m2.target(),
    ensures
        would_check(b, m1, x) == would_check(b, m2, x),
{
    assert(crate::movegen::check_board(b, m1, x) == crate::movegen::check_board(b, m2, x));
}

/// No square of `b` holds a piece of color `d`.
pub open spec fn no_piece_of(b: BoardModel, d: Color) -> bool {
    forall|f: int, r: int|
        0 <= f < 8 && 0 <= r < 8 ==> !(#[trigger] b.at(f, r) matches Some(q) && q.color() == d)
}

/// A color with no piece on the board has no moves.
pub proof fn lemma_no_pieces_no_moves(b: BoardModel, d: Color, r: int)
    requires
        no_piece_of(b, d),
        0 <= r,
    ensures
        gen_rows(b, Some(d), r) == Seq::<Move>::empty(),
    decreases 8 - r,
{
    if r < 8 {
        lemma_no_pieces_row(b, d, r, 0);
        lemma_no_pieces_no_moves(b, d, r + 1);
        assert(gen_rows(b, Some(d), r) =~= Seq::<Move>::empty());
    }
}

proof fn lemma_no_pieces_row(b: BoardModel, d: Color, r: int, f: int)
    requires
        no_piece_of(b, d),
        0 <= r < 8,
        0 <= f,
    ensures
        gen_row(b, Some(d), r, f) == Seq::<Move>::empty(),
    decreases 8 - f,
{
    if f < 8 {
        lemma_no_pieces_row(b, d, r, f + 1);
        assert(!(b.at(f, r) matches Some(q) && q.color() == d));
        assert(gen_row(b, Some(d), r, f) =~= Seq::<Move>::empty());
    }
}

/// A board with no piece like `p` has no square where `p` is found.
pub proof fn lemma_find_none(b: BoardModel, p: Piece, r: int)
    requires
        forall|f: int, r2: int| 0 <= f < 8 && 0 <= r2 < 8 ==> !#[trigger] b.matches_at(f, r2, p),
        0 <= r,
    ensures
        b.find_rows(p, r) is None,
    decreases 8 - r,
{
    if r < 8 {
        lemma_find_none_row(b, p, r, 0);
        lemma_find_none(b, p, r + 1);
    }
}

proof fn lemma_find_none_row(b: BoardModel, p: Piece, r: int, f: int)
    requires
        forall|f2: int, r2: int| 0 <= f2 < 8 && 0 <= r2 < 8 ==> !#[trigger] b.matches_at(f2, r2, p),
        0 <= r < 8,
        0 <= f,
    ensures
        b.find_row(p, r, f) is None,
    decreases 8 - f,
{
    if f < 8 {
        lemma_find_none_row(b, p, r, f + 1);
    }
}

/// Every square but `pos` is empty, and `pos` is empty or holds the king `x`.
pub open spec fn alone_on_board(b: BoardModel, x: Piece, pos: Coord) -> bool {
    &&& forall|f: int, r: int|
        0 <= f < 8 && 0 <= r < 8 && !(f == pos.0 && r == pos.1) ==> (#[trigger] b.at(f, r)) is None
    &&& (b.at_coord(pos) is None || b.at_coord(pos) == Some(x))
}

proof fn lemma_lone_king_step(b: BoardModel, c: Color, pos: Coord, df: int, dr: int)
    requires
        alone_on_board(b, Piece::King(c, 0), pos),
        1 <= pos.0 <= 6,
        1 <= pos.1 <= 6,
        -1 <= df <= 1,
        -1 <= dr <= 1,
        df != 0 || dr != 0,
    ensures
        king_step(b, Piece::King(c, 0), pos, df, dr) == seq![Move::Piece(pos, step(pos, df, dr))],
{
    let x = Piece::King(c, 0);
    let t = step(pos, df, dr);
    let o = c.other();
    assert forall|f: int, r2: int| 0 <= f < 8 && 0 <= r2 < 8 implies !#[trigger] b.matches_at(
        f,
        r2,
        Piece::King(o, COOLDOWN_KING),
    ) by {
        if f == pos.0 && r2 == pos.1 {
        } else {
            assert(b.at(f, r2) is None);
        }
    }
    lemma_find_none(b, Piece::King(o, COOLDOWN_KING), 0);
    assert(!near_enemy_king(b, x, t));
    assert(b.at(t.0 as int, t.1 as int) is None);
    let kb = king_board(b, x, t);
    assert forall|f: int, r: int| 0 <= f < 8 && 0 <= r < 8 implies !(#[trigger] kb.at(f, r) matches Some(
        q,
    ) && q.color() == o) by {
        if !(f == pos.0 && r == pos.1) {
            assert(b.at(f, r) is None);
        }
    }
    lemma_no_pieces_no_moves(kb, o, 0);
    assert(!targets_include(gen_rows(kb, Some(o), 0), t));
}

/// A king alone on the board (standing on `pos`, or not placed there at
/// all), away from the edges and ready to move, has exactly eight moves: one
/// to each neighboring square.
pub proof fn lemma_lone_king(b: BoardModel, c: Color, pos: Coord)
    requires
        alone_on_board(b, Piece::King(c, 0), pos),
        1 <= pos.0 <= 6,
        1 <= pos.1 <= 6,
    ensures
        king_moves(b, Piece::King(c, 0), pos) == seq![
            Move::Piece(pos, step(pos, -1, -1)),
            Move::Piece(pos, step(pos, -1, 0)),
            Move::Piece(pos, step(pos, -1, 1)),
            Move::Piece(pos, step(pos, 0, -1)),
            Move::Piece(pos, step(pos, 0, 1)),
            Move::Piece(pos, step(pos, 1, -1)),
            Move::Piece(pos, step(pos, 1, 0)),
            Move::Piece(pos, step(pos, 1, 1)),
        ],
        king_moves(b, Piece::King(c, 0), pos).len() == 8,
{
    let x = Piece::King(c, 0);
    lemma_lone_king_step(b, c, pos, -1, -1);
    lemma_lone_king_step(b, c, pos, -1, 0);
    lemma_lone_king_step(b, c, pos, -1, 1);
    lemma_lone_king_step(b, c, pos, 0, -1);
    lemma_lone_king_step(b, c, pos, 0, 1);
    lemma_lone_king_step(b, c, pos, 1, -1);
    lemma_lone_king_step(b, c, pos, 1, 0);
    lemma_lone_king_step(b, c, pos, 1, 1);
    assert(castles(b, x, pos) =~= Seq::<Move>::empty());
    assert(king_moves(b, x, pos) =~= seq![
        Move::Piece(pos, step(pos, -1, -1)),
        Move::Piece(pos, step(pos, -1, 0)),
        Move::Piece(pos, step(pos, -1, 1)),
        Move::Piece(pos, step(pos, 0, -1)),
        Move::Piece(pos, step(pos, 0, 1)),
        Move::Piece(pos, step(pos, 1, -1)),
        Move::Piece(pos, step(pos, 1, 0)),
        Move::Piece(pos, step(pos, 1, 1)),
    ]);
}

/// A rook move: from `pos` to an on-board square of its file or rank that is
/// empty or holds a piece of the other color.
pub open spec fn rook_move_ok(b: BoardModel, x: Piece, pos: Coord, m: Move) -> bool {
    match m {
        Move::Piece(from, t) => from == pos && t.valid() && (t.0 == pos.0 || t.1 == pos.1)
            && open_for(b, x, t),
        _ => false,
    }
}

proof fn lemma_ray_on_line(b: BoardModel, x: Piece, pos: Coord, cur: Coord, df: int, dr: int, k: int)
    requires
        df == 0 || dr == 0,
        df == 0 ==> cur.0 == pos.0,
        dr == 0 ==> cur.1 == pos.1,
        cur.valid(),
        -1 <= df <= 1,
        -1 <= dr <= 1,
    ensures
        all_moves(ray(b, x, pos, cur, df, dr, k), |m: Move| rook_move_ok(b, x, pos, m)),
    decreases 8 - k,
{
    let p = |m: Move| rook_move_ok(b, x, pos, m);
    if k < 8 {
        let next = step(cur, df, dr);
        if next.valid() {
            match b.at_coord(next) {
                Some(t) => {},
                None => {
                    lemma_ray_on_line(b, x, pos, next, df, dr, k + 1);
                    lemma_all_moves_add(
                        seq![Move::Piece(pos, next)],
                        ray(b, x, pos, next, df, dr, k + 1),
                        p,
                    );
                },
            }
        }
    }
}

/// A rook moves only along its file or rank, onto empty squares or onto a
/// piece of the other color.
pub proof fn lemma_rook_moves_on_lines(b: BoardModel, x: Piece, pos: Coord)
    requires
        pos.valid(),
    ensures
        forall|i: int|
            0 <= i < rook_moves(b, x, pos).len() ==> rook_move_ok(
                b,
                x,
                pos,
                #[trigger] rook_moves(b, x, pos)[i],
            ),
{
    let p = |m: Move| rook_move_ok(b, x, pos, m);
    if x.cooldown() == 0 {
        let r1 = ray(b, x, pos, pos, -1, 0, 0);
        let r2 = ray(b, x, pos, pos, 0, 1, 0);
        let r3 = ray(b, x, pos, pos, 1, 0, 0);
        let r4 = ray(b, x, pos, pos, 0, -1, 0);
        lemma_ray_on_line(b, x, pos, pos, -1, 0, 0);
        lemma_ray_on_line(b, x, pos, pos, 0, 1, 0);
        lemma_ray_on_line(b, x, pos, pos, 1, 0, 0);
        lemma_ray_on_line(b, x, pos, pos, 0, -1, 0);
        lemma_all_moves_add(r1, r2, p);
        lemma_all_moves_add(r1 + r2, r3, p);
        lemma_all_moves_add(r1 + r2 + r3, r4, p);
        assert(rook_candidates(b, x, pos) == r1 + r2 + r3 + r4);
        lemma_safe_all(b, x, rook_candidates(b, x, pos), p);
    }
    assert(all_moves(rook_moves(b, x, pos), p));
}

/// `m` is a promotion landing on `t`.
pub open spec fn is_promotion_to(m: Move, t: Coord) -> bool {
    match m {
        Move::Promotion(_, to, _) => to == t,
        _ => false,
    }
}

/// Number of promotions landing on `t` among `ms`.
pub open spec fn promotions_to(ms: Seq<Move>, t: Coord) -> nat
    decreases ms.len(),
{
    if ms.len() == 0 {
        0
    } else {
        (if is_promotion_to(ms[0], t) {
            1nat
        } else {
            0nat
        }) + promotions_to(ms.drop_first(), t)
    }
}

proof fn lemma_promotions_to_add(a: Seq<Move>, b: Seq<Move>, t: Coord)
    ensures
        promotions_to(a + b, t) == promotions_to(a, t) + promotions_to(b, t),
    decreases a.len(),
{
    if a.len() == 0 {
        assert(a + b =~= b);
    } else {
        assert((a + b).drop_first() =~= a.drop_first() + b);
        lemma_promotions_to_add(a.drop_first(), b, t);
    }
}

proof fn lemma_promotions_to_single(m: Move, t: Coord)
    ensures
        promotions_to(seq![m], t) == if is_promotion_to(m, t) {
            1nat
        } else {
            0nat
        },
{
    assert(seq![m].drop_first() =~= Seq::<Move>::empty());
    assert(promotions_to(Seq::<Move>::empty(), t) == 0);
}

proof fn lemma_promotions_to_safe(b: BoardModel, x: Piece, ms: Seq<Move>, i: int, t: Coord)
    requires
        0 <= i <= ms.len(),
    ensures
        promotions_to(safe(b, x, ms, i), t) == if would_check(b, Move::Piece(Coord(0, 0), t), x) {
            0
        } else {
            promotions_to(ms.subrange(i, ms.len() as int), t)
        },
    decreases ms.len() - i,
{
    if i == ms.len() {
        assert(safe(b, x, ms, i) =~= Seq::<Move>::empty());
        assert(ms.subrange(i, ms.len() as int) =~= Seq::<Move>::empty());
    } else {
        lemma_promotions_to_safe(b, x, ms, i + 1, t);
        let head: Seq<Move> = if would_check(b, ms[i], x) {
            seq![]
        } else {
            seq![ms[i]]
        };
        assert(safe(b, x, ms, i) == head + safe(b, x, ms, i + 1));
        lemma_promotions_to_add(head, safe(b, x, ms, i + 1), t);
        assert(ms.subrange(i, ms.len() as int).drop_first() =~= ms.subrange(i + 1, ms.len() as int));
        if is_promotion_to(ms[i], t) {
            lemma_check_depends_on_target(b, ms[i], Move::Piece(Coord(0, 0), t), x);
        }
        lemma_promotions_to_single(ms[i], t);
        assert(promotions_to(head, t) == if would_check(b, ms[i], x) {
            0nat
        } else {
            promotions_to(seq![ms[i]], t)
        });
        let sub = ms.subrange(i, ms.len() as int);
        assert(sub[0] == ms[i]);
        assert(promotions_to(sub, t) == (if is_promotion_to(ms[i], t) {
            1nat
        } else {
            0nat
        }) + promotions_to(ms.subrange(i + 1, ms.len() as int), t));
    }
}

proof fn lemma_pawn_lands_promotions(x: Piece, pos: Coord, l: Coord, t: Coord)
    ensures
        promotions_to(pawn_lands(x, pos, l), t) == if l.1 == promotion_rank(x.color()) && l == t {
            4nat
        } else {
            0nat
        },
{
    let ms = pawn_lands(x, pos, l);
    if l.1 == promotion_rank(x.color()) {
        let a = seq![ms[0]];
        let b = seq![ms[1]];
        let c = seq![ms[2]];
        let d = seq![ms[3]];
        assert(ms =~= a + b + c + d);
        lemma_promotions_to_add(a, b, t);
        lemma_promotions_to_add(a + b, c, t);
        lemma_promotions_to_add(a + b + c, d, t);
        lemma_promotions_to_single(ms[0], t);
        lemma_promotions_to_single(ms[1], t);
        lemma_promotions_to_single(ms[2], t);
        lemma_promotions_to_single(ms[3], t);
    } else {
        lemma_promotions_to_single(ms[0], t);
        assert(ms =~= seq![ms[0]]);
    }
}

/// Promotions come four to a destination: onto any one square a pawn has
/// either no promotion or all four.
pub proof fn lemma_promotions_come_in_fours(b: BoardModel, x: Piece, pos: Coord, t: Coord)
    requires
        pos.valid(),
    ensures
        promotions_to(pawn_moves(b, x, pos), t) == 0 || promotions_to(pawn_moves(b, x, pos), t)
            == 4,
{
    if x.cooldown() == 0 {
        let dir = crate::movegen::pawn_dir(x.color());
        let lc = step(pos, -1, dir);
        let rc = step(pos, 1, dir);
        let fwd = step(pos, 0, dir);
        let l = pawn_capture(b, x, pos, lc);
        let r = pawn_capture(b, x, pos, rc);
        let one = fwd.valid() && b.at_coord(fwd).is_none();
        let f: Seq<Move> = if one {
            pawn_lands(x, pos, fwd)
        } else {
            seq![]
        };
        let dbl = step(pos, 0, 2 * dir);
        let d: Seq<Move> = if one && pos.1 == crate::movegen::pawn_start_rank(x.color()) && b.at_coord(
            dbl,
        ).is_none() {
            seq![Move::Piece(pos, dbl)]
        } else {
            seq![]
        };
        let cands = pawn_candidates(b, x, pos);
        assert(cands == l + r + f + d);
        lemma_promotions_to_add(l, r, t);
        lemma_promotions_to_add(l + r, f, t);
        lemma_promotions_to_add(l + r + f, d, t);
        lemma_pawn_lands_promotions(x, pos, lc, t);
        lemma_pawn_lands_promotions(x, pos, rc, t);
        lemma_pawn_lands_promotions(x, pos, fwd, t);
        assert(promotions_to(l, t) <= (if lc == t { 4nat } else { 0nat }));
        assert(promotions_to(r, t) <= (if rc == t { 4nat } else { 0nat }));
        assert(promotions_to(f, t) <= (if fwd == t { 4nat } else { 0nat }));
        assert(promotions_to(l, t) == 0 || promotions_to(l, t) == 4);
        assert(promotions_to(r, t) == 0 || promotions_to(r, t) == 4);
        assert(promotions_to(f, t) == 0 || promotions_to(f, t) == 4);
        if d.len() == 1 {
            lemma_promotions_to_single(d[0], t);
            assert(d =~= seq![d[0]]);
        }
        assert(promotions_to(d, t) == 0);
        assert(lc != rc && lc != fwd && rc != fwd);
        lemma_promotions_to_safe(b, x, cands, 0, t);
        assert(cands.subrange(0, cands.len() as int) =~= cands);
    }
}

} // verus!
