//! Piece identities and the move-legality predicate.
//!
//! A move is judged against a transient occupancy snapshot: the positions and
//! colours of every piece at the instant the move is evaluated. Legality is a
//! boolean predicate, never a fallible operation: every illegal target simply
//! yields `false`.

use vstd::prelude::*;

verus! {

/// The two sides of the game.
#[derive(Clone, Copy, Debug, PartialEq, Eq, Structural)]
pub enum PieceColor {
    White,
    Black,
}

/// The six kinds of chess piece.
#[derive(Clone, Copy, Debug, PartialEq, Eq, Structural)]
pub enum PieceType {
    King,
    Queen,
    Rook,
    Bishop,
    Knight,
    Pawn,
}

/// A chess unit: type and colour are fixed for its lifetime, the position is
/// mutable board coordinates (row `x`, column `y`).
#[derive(Clone, Copy, Debug, PartialEq, Eq, Structural)]
pub struct Piece {
    pub piece_type: PieceType,
    pub color: PieceColor,
    pub x: u8,
    pub y: u8,
}

/// The colour of the opposing side.
pub open spec fn opposite(c: PieceColor) -> PieceColor {
    match c {
        PieceColor::White => PieceColor::Black,
        PieceColor::Black => PieceColor::White,
    }
}

impl PieceColor {
    /// The colour of the opposing side.
    pub fn other(&self) -> (r: PieceColor)
        ensures
            r == opposite(*self),
    {
        match self {
            PieceColor::White => PieceColor::Black,
            PieceColor::Black => PieceColor::White,
        }
    }
}

/// Both coordinates lie on the board.
pub open spec fn in_bounds(x: int, y: int) -> bool {
    0 <= x < 8 && 0 <= y < 8
}

/// Some piece of the snapshot stands on `(x, y)`.
pub open spec fn occupied(s: Seq<Piece>, x: int, y: int) -> bool {
    exists|i: int| 0 <= i < s.len() && s[i].x == x && s[i].y == y
}

/// Some piece of colour `c` stands on `(x, y)`.
pub open spec fn occupied_by(s: Seq<Piece>, x: int, y: int, c: PieceColor) -> bool {
    exists|i: int| 0 <= i < s.len() && s[i].x == x && s[i].y == y && s[i].color == c
}

/// The absolute difference of two coordinates.
pub open spec fn dist(a: int, b: int) -> int {
    if a >= b {
        a - b
    } else {
        b - a
    }
}

/// The sign of a coordinate difference: -1, 0 or 1.
pub open spec fn sgn(d: int) -> int {
    if d > 0 {
        1
    } else if d < 0 {
        -1
    } else {
        0
    }
}

/// Row of the `k`-th square on the line from `(fx, fy)` toward `(tx, ty)`.
pub open spec fn step_x(fx: int, tx: int, k: int) -> int {
    fx + k * sgn(tx - fx)
}

/// Column of the `k`-th square on the line from `(fx, fy)` toward `(tx, ty)`.
pub open spec fn step_y(fy: int, ty: int, k: int) -> int {
    fy + k * sgn(ty - fy)
}

/// Number of king-steps from `(fx, fy)` to `(tx, ty)` along a straight or
/// diagonal line: the larger coordinate distance.
pub open spec fn line_len(fx: int, fy: int, tx: int, ty: int) -> int {
    if dist(fx, tx) >= dist(fy, ty) {
        dist(fx, tx)
    } else {
        dist(fy, ty)
    }
}

/// A piece of the snapshot stands on the `k`-th square of the line from
/// `(fx, fy)` toward `(tx, ty)`.
pub open spec fn blocked_at(s: Seq<Piece>, fx: int, fy: int, tx: int, ty: int, k: int) -> bool {
    occupied(s, step_x(fx, tx, k), step_y(fy, ty, k))
}

/// Every square strictly between `(fx, fy)` and `(tx, ty)` is empty. The
/// target square itself is not part of the path.
pub open spec fn path_clear(s: Seq<Piece>, fx: int, fy: int, tx: int, ty: int) -> bool {
    forall|k: int| 1 <= k < line_len(fx, fy, tx, ty) ==> !blocked_at(s, fx, fy, tx, ty, k)
}

/// The two squares differ in exactly one coordinate: a rook line.
pub open spec fn straight_move(fx: int, fy: int, tx: int, ty: int) -> bool {
    (fx == tx && fy != ty) || (fy == ty && fx != tx)
}

/// The two squares lie on a common diagonal: a bishop line.
pub open spec fn diagonal_move(fx: int, fy: int, tx: int, ty: int) -> bool {
    dist(fx, tx) == dist(fy, ty) && fx != tx
}

/// One square in any of the eight directions.
pub open spec fn king_step(fx: int, fy: int, tx: int, ty: int) -> bool {
    dist(fx, tx) <= 1 && dist(fy, ty) <= 1 && !(fx == tx && fy == ty)
}

/// One of the eight knight offsets.
pub open spec fn knight_jump(fx: int, fy: int, tx: int, ty: int) -> bool {
    (dist(fx, tx) == 1 && dist(fy, ty) == 2) || (dist(fx, tx) == 2 && dist(fy, ty) == 1)
}

/// The back rank of a colour: row 0 for White, row 7 for Black.
pub open spec fn home_rank(c: PieceColor) -> int {
    match c {
        PieceColor::White => 0,
        PieceColor::Black => 7,
    }
}

/// The target is one of the two canonical castling destinations of a king
/// standing on its home square. Deliberately simplified: neither check-safety
/// nor intervening pieces nor the rook's presence are examined here; the move
/// resolver relocates the rook only if one stands on the matching corner.
pub open spec fn castle_target(p: Piece, tx: int, ty: int) -> bool {
    &&& p.piece_type is King
    &&& p.x == home_rank(p.color)
    &&& p.y == 4
    &&& tx == p.x
    &&& (ty == 2 || ty == 6)
}

/// The rank a pawn of colour `c` advances toward: +1 for White, -1 for Black.
pub open spec fn pawn_dir(c: PieceColor) -> int {
    match c {
        PieceColor::White => 1,
        PieceColor::Black => -1,
    }
}

/// The rank a pawn of colour `c` starts on.
pub open spec fn pawn_start(c: PieceColor) -> int {
    match c {
        PieceColor::White => 1,
        PieceColor::Black => 6,
    }
}

/// Pawn movement: forward one onto an empty square, forward two from the
/// start rank over and onto empty squares, or diagonal one onto an opposing
/// piece. No en passant.
pub open spec fn pawn_move_ok(p: Piece, tx: int, ty: int, s: Seq<Piece>) -> bool {
    let fx = p.x as int;
    let fy = p.y as int;
    ||| (ty == fy && tx == fx + pawn_dir(p.color) && !occupied(s, tx, ty))
    ||| (ty == fy && fx == pawn_start(p.color) && tx == fx + 2 * pawn_dir(p.color)
        && !occupied(s, fx + pawn_dir(p.color), fy) && !occupied(s, tx, ty))
    ||| (dist(fy, ty) == 1 && tx == fx + pawn_dir(p.color)
        && occupied_by(s, tx, ty, opposite(p.color)))
}

/// The movement geometry of the piece admits the target, given the snapshot.
pub open spec fn geometry_ok(p: Piece, tx: int, ty: int, s: Seq<Piece>) -> bool {
    let fx = p.x as int;
    let fy = p.y as int;
    match p.piece_type {
        PieceType::King => king_step(fx, fy, tx, ty) || castle_target(p, tx, ty),
        PieceType::Queen => (straight_move(fx, fy, tx, ty) || diagonal_move(fx, fy, tx, ty))
            && path_clear(s, fx, fy, tx, ty),
        PieceType::Rook => straight_move(fx, fy, tx, ty) && path_clear(s, fx, fy, tx, ty),
        PieceType::Bishop => diagonal_move(fx, fy, tx, ty) && path_clear(s, fx, fy, tx, ty),
        PieceType::Knight => knight_jump(fx, fy, tx, ty),
        PieceType::Pawn => pawn_move_ok(p, tx, ty, s),
    }
}

/// The full legality predicate: the target is on the board, holds no piece of
/// the mover's own colour, and the piece's movement geometry admits it.
pub open spec fn move_valid(p: Piece, tx: int, ty: int, s: Seq<Piece>) -> bool {
    &&& in_bounds(tx, ty)
    &&& !occupied_by(s, tx, ty, p.color)
    &&& geometry_ok(p, tx, ty, s)
}

/// `b` lies strictly between `a` and `c`, in either direction.
pub open spec fn strictly_between(a: int, b: int, c: int) -> bool {
    (a < b && b < c) || (c < b && b < a)
}

/// `(bx, by)` is one of the squares strictly between `(fx, fy)` and
/// `(tx, ty)` on a common rook line or diagonal. False whenever the two end
/// squares share no such line.
pub open spec fn on_open_segment(fx: int, fy: int, tx: int, ty: int, bx: int, by: int) -> bool {
    ||| (fx == tx && bx == fx && strictly_between(fy, by, ty))
    ||| (fy == ty && by == fy && strictly_between(fx, bx, tx))
    ||| (dist(fx, tx) == dist(fy, ty) && dist(fx, bx) == dist(fy, by)
        && strictly_between(fx, bx, tx) && strictly_between(fy, by, ty))
}

/// Each square strictly between the ends of a straight or diagonal line is
/// reached by some step count `k` of the line walk, and conversely.
proof fn lemma_segment_step(fx: int, fy: int, tx: int, ty: int, bx: int, by: int)
    requires
        on_open_segment(fx, fy, tx, ty, bx, by),
    ensures
        exists|k: int| 1 <= k < line_len(fx, fy, tx, ty)
            && bx == step_x(fx, tx, k) && by == step_y(fy, ty, k),
{
    if fx == tx && bx == fx && strictly_between(fy, by, ty) {
        let k = dist(fy, by);
        assert(k * sgn(tx - fx) == 0) by (nonlinear_arith)
            requires sgn(tx - fx) == 0;
        if fy < by {
            assert(by == step_y(fy, ty, k)) by (nonlinear_arith)
                requires sgn(ty - fy) == 1 && k == by - fy;
        } else {
            assert(by == step_y(fy, ty, k)) by (nonlinear_arith)
                requires sgn(ty - fy) == -1 && k == fy - by;
        }
        assert(bx == step_x(fx, tx, k) && by == step_y(fy, ty, k)
            && 1 <= k < line_len(fx, fy, tx, ty));
    } else if fy == ty && by == fy && strictly_between(fx, bx, tx) {
        let k = dist(fx, bx);
        assert(k * sgn(ty - fy) == 0) by (nonlinear_arith)
            requires sgn(ty - fy) == 0;
        if fx < bx {
            assert(bx == step_x(fx, tx, k)) by (nonlinear_arith)
                requires sgn(tx - fx) == 1 && k == bx - fx;
        } else {
            assert(bx == step_x(fx, tx, k)) by (nonlinear_arith)
                requires sgn(tx - fx) == -1 && k == fx - bx;
        }
        assert(bx == step_x(fx, tx, k) && by == step_y(fy, ty, k)
            && 1 <= k < line_len(fx, fy, tx, ty));
    } else {
        let k = dist(fx, bx);
        if fx < bx {
            assert(bx == step_x(fx, tx, k)) by (nonlinear_arith)
                requires sgn(tx - fx) == 1 && k == bx - fx;
        } else {
            assert(bx == step_x(fx, tx, k)) by (nonlinear_arith)
                requires sgn(tx - fx) == -1 && k == fx - bx;
        }
        if fy < by {
            assert(by == step_y(fy, ty, k)) by (nonlinear_arith)
                requires sgn(ty - fy) == 1 && k == by - fy;
        } else {
            assert(by == step_y(fy, ty, k)) by (nonlinear_arith)
                requires sgn(ty - fy) == -1 && k == fy - by;
        }
        assert(bx == step_x(fx, tx, k) && by == step_y(fy, ty, k)
            && 1 <= k < line_len(fx, fy, tx, ty));
    }
}

/// The converse direction: every step of the walk between the ends lies on
/// the open segment, provided the ends share a rook line or a diagonal.
proof fn lemma_step_on_segment(fx: int, fy: int, tx: int, ty: int, k: int)
    requires
        straight_move(fx, fy, tx, ty) || diagonal_move(fx, fy, tx, ty),
        1 <= k < line_len(fx, fy, tx, ty),
    ensures
        on_open_segment(fx, fy, tx, ty, step_x(fx, tx, k), step_y(fy, ty, k)),
{
    let bx = step_x(fx, tx, k);
    let by = step_y(fy, ty, k);
    if tx > fx {
        assert(bx == fx + k && fx < bx < tx) by (nonlinear_arith)
            requires sgn(tx - fx) == 1 && bx == fx + k * sgn(tx - fx) && 1 <= k < tx - fx;
    } else if tx < fx {
        assert(bx == fx - k && tx < bx < fx) by (nonlinear_arith)
            requires sgn(tx - fx) == -1 && bx == fx + k * sgn(tx - fx) && 1 <= k < fx - tx;
    } else {
        assert(bx == fx) by (nonlinear_arith)
            requires sgn(tx - fx) == 0 && bx == fx + k * sgn(tx - fx);
    }
    if ty > fy {
        assert(by == fy + k && fy < by < ty) by (nonlinear_arith)
            requires sgn(ty - fy) == 1 && by == fy + k * sgn(ty - fy) && 1 <= k < ty - fy;
    } else if ty < fy {
        assert(by == fy - k && ty < by < fy) by (nonlinear_arith)
            requires sgn(ty - fy) == -1 && by == fy + k * sgn(ty - fy) && 1 <= k < fy - ty;
    } else {
        assert(by == fy) by (nonlinear_arith)
            requires sgn(ty - fy) == 0 && by == fy + k * sgn(ty - fy);
    }
}

/// For all pieces and all targets off the board, the move is invalid.
pub proof fn lemma_out_of_bounds_invalid(p: Piece, tx: int, ty: int, s: Seq<Piece>)
    requires
        !in_bounds(tx, ty),
    ensures
        !move_valid(p, tx, ty, s),
{
}

/// For all pieces, a target occupied by a piece of the mover's own colour is
/// invalid.
pub proof fn lemma_same_color_target_invalid(p: Piece, tx: int, ty: int, s: Seq<Piece>)
    requires
        occupied_by(s, tx, ty, p.color),
    ensures
        !move_valid(p, tx, ty, s),
{
}

/// Rook, bishop and queen moves never pass an intervening occupied square:
/// whenever any piece stands strictly between the mover and the target, the
/// move is invalid, whatever else holds of the position.
pub proof fn lemma_slider_blocked(p: Piece, tx: int, ty: int, s: Seq<Piece>, bx: int, by: int)
    requires
        p.piece_type is Rook || p.piece_type is Bishop || p.piece_type is Queen,
        on_open_segment(p.x as int, p.y as int, tx, ty, bx, by),
        occupied(s, bx, by),
    ensures
        !move_valid(p, tx, ty, s),
{
    let fx = p.x as int;
    let fy = p.y as int;
    lemma_segment_step(fx, fy, tx, ty, bx, by);
    let k = choose|k: int| 1 <= k < line_len(fx, fy, tx, ty)
        && bx == step_x(fx, tx, k) && by == step_y(fy, ty, k);
    assert(blocked_at(s, fx, fy, tx, ty, k));
    assert(!path_clear(s, fx, fy, tx, ty));
}

/// A slider may move up to and including a blocking square: with the open
/// segment toward the target clear and an opposing piece on the target, the
/// capture is valid (the matching line geometry given).
pub proof fn lemma_slider_captures_blocker(p: Piece, tx: int, ty: int, s: Seq<Piece>)
    requires
        p.piece_type is Rook || p.piece_type is Bishop || p.piece_type is Queen,
        p.piece_type is Rook ==> straight_move(p.x as int, p.y as int, tx, ty),
        p.piece_type is Bishop ==> diagonal_move(p.x as int, p.y as int, tx, ty),
        p.piece_type is Queen ==> straight_move(p.x as int, p.y as int, tx, ty)
            || diagonal_move(p.x as int, p.y as int, tx, ty),
        in_bounds(tx, ty),
        forall|bx: int, by: int| on_open_segment(p.x as int, p.y as int, tx, ty, bx, by)
            ==> !occupied(s, bx, by),
        occupied_by(s, tx, ty, opposite(p.color)),
        !occupied_by(s, tx, ty, p.color),
    ensures
        move_valid(p, tx, ty, s),
{
    let fx = p.x as int;
    let fy = p.y as int;
    assert forall|k: int| 1 <= k < line_len(fx, fy, tx, ty)
        implies !blocked_at(s, fx, fy, tx, ty, k) by {
        lemma_step_on_segment(fx, fy, tx, ty, k);
    }
}

/// Knight moves ignore intervening occupancy entirely: legality depends only
/// on bounds, the L-shaped offset, and the target square's own occupant.
pub proof fn lemma_knight_ignores_blockers(p: Piece, tx: int, ty: int, s: Seq<Piece>)
    requires
        p.piece_type is Knight,
    ensures
        move_valid(p, tx, ty, s) == (in_bounds(tx, ty) && !occupied_by(s, tx, ty, p.color)
            && knight_jump(p.x as int, p.y as int, tx, ty)),
{
}

/// Whether any piece of the snapshot stands on `(x, y)`.
fn square_occupied(pieces: &Vec<Piece>, x: i16, y: i16) -> (r: bool)
    ensures
        r == occupied(pieces@, x as int, y as int),
{
    let n = pieces.len();
    let mut i: usize = 0;
    while i < n
        invariant
            n == pieces@.len(),
            i <= n,
            forall|j: int| 0 <= j < i ==> !(pieces@[j].x == x && pieces@[j].y == y),
        decreases n - i,
    {
        let p = pieces[i];
        if p.x as i16 == x && p.y as i16 == y {
            assert(pieces@[i as int].x == x && pieces@[i as int].y == y);
            return true;
        }
        i += 1;
    }
    false
}

/// Whether any piece of colour `c` stands on `(x, y)`.
fn square_occupied_by(pieces: &Vec<Piece>, x: i16, y: i16, c: PieceColor) -> (r: bool)
    ensures
        r == occupied_by(pieces@, x as int, y as int, c),
{
    let n = pieces.len();
    let mut i: usize = 0;
    while i < n
        invariant
            n == pieces@.len(),
            i <= n,
            forall|j: int| 0 <= j < i ==> !(pieces@[j].x == x && pieces@[j].y == y
                && pieces@[j].color == c),
        decreases n - i,
    {
        let p = pieces[i];
        if p.x as i16 == x && p.y as i16 == y && p.color == c {
            assert(pieces@[i as int].x == x && pieces@[i as int].y == y
                && pieces@[i as int].color == c);
            return true;
        }
        i += 1;
    }
    false
}

/// Walks the squares strictly between `(fx, fy)` and `(tx, ty)` and reports
/// whether all of them are empty.
fn path_is_clear(pieces: &Vec<Piece>, fx: i16, fy: i16, tx: i16, ty: i16) -> (r: bool)
    requires
        0 <= fx < 256,
        0 <= fy < 256,
        0 <= tx < 256,
        0 <= ty < 256,
    ensures
        r == path_clear(pieces@, fx as int, fy as int, tx as int, ty as int),
{
    let dx = tx - fx;
    let dy = ty - fy;
    let sx: i16 = if dx > 0 { 1 } else if dx < 0 { -1 } else { 0 };
    let sy: i16 = if dy > 0 { 1 } else if dy < 0 { -1 } else { 0 };
    let adx: i16 = if dx >= 0 { dx } else { -dx };
    let ady: i16 = if dy >= 0 { dy } else { -dy };
    let steps: i16 = if adx >= ady { adx } else { ady };
    if steps <= 1 {
        return true;
    }
    let mut k: i16 = 1;
    let mut cx: i16 = fx + sx;
    let mut cy: i16 = fy + sy;
    while k < steps
        invariant
            0 <= fx < 256,
            0 <= fy < 256,
            2 <= steps <= 255,
            1 <= k <= steps,
            sx as int == sgn(tx - fx),
            sy as int == sgn(ty - fy),
            steps as int == line_len(fx as int, fy as int, tx as int, ty as int),
            cx as int == step_x(fx as int, tx as int, k as int),
            cy as int == step_y(fy as int, ty as int, k as int),
            fx - k <= cx <= fx + k,
            fy - k <= cy <= fy + k,
            forall|j: int| 1 <= j < k
                ==> !blocked_at(pieces@, fx as int, fy as int, tx as int, ty as int, j),
        decreases steps - k,
    {
        if square_occupied(pieces, cx, cy) {
            assert(blocked_at(pieces@, fx as int, fy as int, tx as int, ty as int, k as int));
            return false;
        }
        proof {
            assert((k as int + 1) * sgn(tx as int - fx as int)
                == k as int * sgn(tx as int - fx as int) + sgn(tx as int - fx as int))
                by (nonlinear_arith);
            assert((k as int + 1) * sgn(ty as int - fy as int)
                == k as int * sgn(ty as int - fy as int) + sgn(ty as int - fy as int))
                by (nonlinear_arith);
        }
        k += 1;
        cx += sx;
        cy += sy;
    }
    true
}

impl Piece {
    /// Standard chess move legality of this piece toward `new_square`, judged
    /// against the occupancy snapshot `pieces` (which normally includes the
    /// moving piece itself). Returns `false` for every illegal target: off
    /// the board, onto a piece of the same colour, or against the piece's
    /// movement geometry.
    pub fn is_move_valid(&self, new_square: (u8, u8), pieces: &Vec<Piece>) -> (r: bool)
        ensures
            r == move_valid(*self, new_square.0 as int, new_square.1 as int, pieces@),
    {
        let (nx, ny) = new_square;
        if nx >= 8 || ny >= 8 {
            return false;
        }
        let tx = nx as i16;
        let ty = ny as i16;
        if square_occupied_by(pieces, tx, ty, self.color) {
            return false;
        }
        let fx = self.x as i16;
        let fy = self.y as i16;
        let adx: i16 = if tx >= fx { tx - fx } else { fx - tx };
        let ady: i16 = if ty >= fy { ty - fy } else { fy - ty };
        match self.piece_type {
            PieceType::King => {
                let small_step = adx <= 1 && ady <= 1 && !(adx == 0 && ady == 0);
                let home: i16 = match self.color {
                    PieceColor::White => 0,
                    PieceColor::Black => 7,
                };
                let castling = fx == home && fy == 4 && tx == fx && (ty == 2 || ty == 6);
                small_step || castling
            },
            PieceType::Queen => {
                let straight = (fx == tx && fy != ty) || (fy == ty && fx != tx);
                let diagonal = adx == ady && fx != tx;
                (straight || diagonal) && path_is_clear(pieces, fx, fy, tx, ty)
            },
            PieceType::Rook => {
                let straight = (fx == tx && fy != ty) || (fy == ty && fx != tx);
                straight && path_is_clear(pieces, fx, fy, tx, ty)
            },
            PieceType::Bishop => {
                let diagonal = adx == ady && fx != tx;
                diagonal && path_is_clear(pieces, fx, fy, tx, ty)
            },
            PieceType::Knight => (adx == 1 && ady == 2) || (adx == 2 && ady == 1),
            PieceType::Pawn => {
                let dir: i16 = match self.color {
                    PieceColor::White => 1,
                    PieceColor::Black => -1,
                };
                let start: i16 = match self.color {
                    PieceColor::White => 1,
                    PieceColor::Black => 6,
                };
                if ty == fy && tx == fx + dir {
                    !square_occupied(pieces, tx, ty)
                } else if ty == fy && fx == start && tx == fx + 2 * dir {
                    !square_occupied(pieces, fx + dir, fy) && !square_occupied(pieces, tx, ty)
                } else if ady == 1 && tx == fx + dir {
                    square_occupied_by(pieces, tx, ty, self.color.other())
                } else {
                    false
                }
            },
        }
    }
}

} // verus!
