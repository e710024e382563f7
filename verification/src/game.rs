//! The move resolver, turn alternation and game-end detection.
//!
//! Pieces live in an arena of slots; the slot index is a piece's stable
//! identity. A captured piece's slot is emptied and never reused, so a piece
//! created later (the castling rook) is a new entity with a fresh identity.
//! Every operation is total: an illegal input never panics, it merely fails
//! to produce a state transition.

use vstd::prelude::*;
use crate::board::PlayerTurn;
use crate::board::Square;
use crate::pieces::Piece;
use crate::pieces::PieceColor;
use crate::pieces::PieceType;
use crate::pieces::home_rank;
use crate::pieces::in_bounds;
use crate::pieces::move_valid;
use crate::pieces::occupied;
use crate::pieces::opposite;

verus! {

/// What a square selection did to the game.
#[derive(Clone, Copy, Debug, PartialEq, Eq, Structural)]
pub enum SelectOutcome {
    /// The game is already decided, or there was nothing to act on.
    Ignored,
    /// The square was recorded, but it holds no piece of the side to move.
    SquareChosen,
    /// A piece of the side to move now awaits a target square.
    PieceChosen,
    /// The square is empty: the whole selection was cleared.
    Cleared,
    /// The attempted move was illegal; the selection was reset.
    Rejected,
    /// The move was committed and the turn flipped.
    Moved,
    /// The move was committed and captured a king: the game is over.
    Won,
}

/// The occupancy snapshot of an arena: the pieces of the filled slots, in
/// slot order.
pub open spec fn alive(s: Seq<Option<Piece>>) -> Seq<Piece>
    decreases s.len(),
{
    if s.len() == 0 {
        Seq::empty()
    } else {
        alive(s.drop_last()) + match s.last() {
            Some(p) => seq![p],
            None => Seq::empty(),
        }
    }
}

/// Some filled slot holds a piece standing on `(x, y)`.
pub open spec fn slot_occupied(s: Seq<Option<Piece>>, x: int, y: int) -> bool {
    exists|i: int| 0 <= i < s.len() && (#[trigger] s[i] matches Some(p) && p.x == x && p.y == y)
}

/// The two occupancy notions agree: a square is occupied in the arena
/// exactly when it is occupied in the occupancy snapshot assembled from it.
pub proof fn lemma_arena_and_snapshot_occupancy_agree(s: Seq<Option<Piece>>, x: int, y: int)
    ensures
        slot_occupied(s, x, y) == occupied(alive(s), x, y),
    decreases s.len(),
{
    if s.len() == 0 {
    } else {
        let t = s.drop_last();
        lemma_arena_and_snapshot_occupancy_agree(t, x, y);
        match s.last() {
            Some(p) => {
                assert(alive(s) == alive(t) + seq![p]);
                if p.x == x && p.y == y {
                    assert(alive(s)[alive(t).len() as int] == p);
                    assert(occupied(alive(s), x, y));
                    assert(s[s.len() - 1] matches Some(q) && q.x == x && q.y == y);
                    assert(slot_occupied(s, x, y));
                } else {
                    if slot_occupied(s, x, y) {
                        let i = choose|i: int| 0 <= i < s.len() && (#[trigger] s[i]
                            matches Some(q) && q.x == x && q.y == y);
                        assert(i < t.len() && t[i] == s[i]);
                        assert(slot_occupied(t, x, y));
                    }
                    if slot_occupied(t, x, y) {
                        let i = choose|i: int| 0 <= i < t.len() && (#[trigger] t[i]
                            matches Some(q) && q.x == x && q.y == y);
                        assert(s[i] == t[i]);
                        assert(slot_occupied(s, x, y));
                    }
                    if occupied(alive(s), x, y) {
                        let i = choose|i: int| 0 <= i < alive(s).len() && alive(s)[i].x == x
                            && alive(s)[i].y == y;
                        assert(i < alive(t).len());
                        assert(alive(t)[i] == alive(s)[i]);
                        assert(occupied(alive(t), x, y));
                    }
                    if occupied(alive(t), x, y) {
                        let i = choose|i: int| 0 <= i < alive(t).len() && alive(t)[i].x == x
                            && alive(t)[i].y == y;
                        assert(alive(s)[i] == alive(t)[i]);
                        assert(occupied(alive(s), x, y));
                    }
                }
            },
            None => {
                assert(alive(s) =~= alive(t));
                if slot_occupied(s, x, y) {
                    let i = choose|i: int| 0 <= i < s.len() && (#[trigger] s[i]
                        matches Some(q) && q.x == x && q.y == y);
                    assert(i < t.len() && t[i] == s[i]);
                    assert(slot_occupied(t, x, y));
                }
                if slot_occupied(t, x, y) {
                    let i = choose|i: int| 0 <= i < t.len() && (#[trigger] t[i]
                        matches Some(q) && q.x == x && q.y == y);
                    assert(s[i] == t[i]);
                    assert(slot_occupied(s, x, y));
                }
            },
        }
    }
}

/// The first slot from `i` upward holding a piece of colour `c` on `(x, y)`.
pub open spec fn find_piece_from(
    s: Seq<Option<Piece>>,
    i: int,
    x: int,
    y: int,
    c: PieceColor,
) -> Option<int>
    decreases s.len() - i,
{
    if i < 0 || i >= s.len() {
        None
    } else if s[i] matches Some(p) && p.x == x && p.y == y && p.color == c {
        Some(i)
    } else {
        find_piece_from(s, i + 1, x, y, c)
    }
}

/// The first slot from `i` upward holding a rook of colour `c` on `(x, y)`.
pub open spec fn find_rook_from(
    s: Seq<Option<Piece>>,
    i: int,
    x: int,
    y: int,
    c: PieceColor,
) -> Option<int>
    decreases s.len() - i,
{
    if i < 0 || i >= s.len() {
        None
    } else if s[i] matches Some(p) && p.piece_type is Rook && p.x == x && p.y == y
        && p.color == c {
        Some(i)
    } else {
        find_rook_from(s, i + 1, x, y, c)
    }
}

/// The slot holds a piece opposing colour `c` that stands on `(x, y)`: the
/// capture scan of a committed move removes exactly these.
pub open spec fn capture_hit(slot: Option<Piece>, x: int, y: int, c: PieceColor) -> bool {
    slot matches Some(p) && p.x == x && p.y == y && p.color != c
}

/// The arena after the capture scan of a move of colour `c` to `(x, y)`:
/// every opposing piece on the target square is removed, all other slots are
/// untouched.
pub open spec fn after_captures(s: Seq<Option<Piece>>, x: int, y: int, c: PieceColor) -> Seq<
    Option<Piece>,
> {
    Seq::new(s.len(), |i: int| if capture_hit(s[i], x, y, c) { None } else { s[i] })
}

/// A king opposing colour `c` stands on `(x, y)`: the capture scan of such a
/// move ends the game.
pub open spec fn king_on_target(s: Seq<Option<Piece>>, x: int, y: int, c: PieceColor) -> bool {
    exists|i: int| 0 <= i < s.len() && capture_hit(s[i], x, y, c)
        && (s[i] matches Some(p) && p.piece_type is King)
}

/// The committed move is one of the two canonical castling moves: the mover
/// is a king standing on its home square, moving to column 2 or 6 of that
/// row.
pub open spec fn castling_commit(mover: Piece, x: int, y: int) -> bool {
    &&& mover.piece_type is King
    &&& mover.x == home_rank(mover.color)
    &&& mover.y == 4
    &&& x == mover.x
    &&& (y == 2 || y == 6)
}

/// The corner column of the rook taking part in a castling to column `y`.
pub open spec fn castle_corner_col(y: int) -> int {
    if y == 6 {
        7
    } else {
        0
    }
}

/// The column the castling rook reappears on.
pub open spec fn castle_rook_col(y: int) -> int {
    if y == 6 {
        5
    } else {
        3
    }
}

/// The arena after the castling exchange, where one applies: the corner rook
/// of a castling king is removed and an equivalent new rook appears in a
/// fresh slot on the post-castle column. Without a castling king, or without
/// a rook on the matching corner, the arena is unchanged.
pub open spec fn castle_stage(s: Seq<Option<Piece>>, mover: Piece, x: int, y: int) -> Seq<
    Option<Piece>,
> {
    if castling_commit(mover, x, y) {
        match find_rook_from(s, 0, mover.x as int, castle_corner_col(y), mover.color) {
            Some(rid) => s.update(rid, None).push(
                Some(
                    Piece {
                        piece_type: PieceType::Rook,
                        color: mover.color,
                        x: mover.x,
                        y: castle_rook_col(y) as u8,
                    },
                ),
            ),
            None => s,
        }
    } else {
        s
    }
}

/// The arena after a validated move of the piece of slot `pid` to `(x, y)`:
/// the castling exchange where one applies, then the capture scan, then the
/// mover's own coordinates.
pub open spec fn commit_arena(s: Seq<Option<Piece>>, pid: int, mover: Piece, x: int, y: int) -> Seq<
    Option<Piece>,
> {
    let staged = castle_stage(s, mover, x, y);
    let scanned = after_captures(staged, x, y, mover.color);
    scanned.update(
        pid,
        Some(Piece { piece_type: mover.piece_type, color: mover.color, x: x as u8, y: y as u8 }),
    )
}

/// The committed move captures a king, ending the game.
pub open spec fn commit_won(s: Seq<Option<Piece>>, mover: Piece, x: int, y: int) -> bool {
    king_on_target(castle_stage(s, mover, x, y), x, y, mover.color)
}

/// The kind of piece the standard opening position holds on column `y` of a
/// back rank.
pub open spec fn back_rank_type(y: int) -> PieceType {
    if y == 0 || y == 7 {
        PieceType::Rook
    } else if y == 1 || y == 6 {
        PieceType::Knight
    } else if y == 2 || y == 5 {
        PieceType::Bishop
    } else if y == 3 {
        PieceType::Queen
    } else {
        PieceType::King
    }
}

/// The piece of slot `i` in the standard opening position: the White back
/// rank on row 0, White pawns on row 1, the Black back rank on row 7, Black
/// pawns on row 6.
pub open spec fn initial_piece(i: int) -> Piece {
    if i < 8 {
        Piece { piece_type: back_rank_type(i), color: PieceColor::White, x: 0, y: i as u8 }
    } else if i < 16 {
        Piece { piece_type: PieceType::Pawn, color: PieceColor::White, x: 1, y: (i - 8) as u8 }
    } else if i < 24 {
        Piece {
            piece_type: back_rank_type(i - 16),
            color: PieceColor::Black,
            x: 7,
            y: (i - 16) as u8,
        }
    } else {
        Piece { piece_type: PieceType::Pawn, color: PieceColor::Black, x: 6, y: (i - 24) as u8 }
    }
}

/// Whether any filled slot holds a piece on `(x, y)`.
fn any_piece_at(pieces: &Vec<Option<Piece>>, x: u8, y: u8) -> (r: bool)
    ensures
        r == slot_occupied(pieces@, x as int, y as int),
{
    let n = pieces.len();
    let mut i: usize = 0;
    while i < n
        invariant
            n == pieces@.len(),
            i <= n,
            forall|j: int| 0 <= j < i
                ==> !(#[trigger] pieces@[j] matches Some(p) && p.x == x && p.y == y),
        decreases n - i,
    {
        match pieces[i] {
            Some(p) => {
                if p.x == x && p.y == y {
                    assert(pieces@[i as int] matches Some(q) && q.x == x && q.y == y);
                    return true;
                }
            },
            None => {},
        }
        i += 1;
    }
    false
}

/// First slot holding a piece of colour `c` on `(x, y)`, if any.
fn find_piece(pieces: &Vec<Option<Piece>>, x: u8, y: u8, c: PieceColor) -> (r: Option<usize>)
    ensures
        r is None <==> find_piece_from(pieces@, 0, x as int, y as int, c) is None,
        r matches Some(u) ==> find_piece_from(pieces@, 0, x as int, y as int, c) == Some(u as int)
            && u < pieces@.len(),
{
    let n = pieces.len();
    let mut i: usize = 0;
    while i < n
        invariant
            n == pieces@.len(),
            i <= n,
            find_piece_from(pieces@, 0, x as int, y as int, c) == find_piece_from(
                pieces@,
                i as int,
                x as int,
                y as int,
                c,
            ),
        decreases n - i,
    {
        match pieces[i] {
            Some(p) => {
                if p.x == x && p.y == y && p.color == c {
                    return Some(i);
                }
            },
            None => {},
        }
        i += 1;
    }
    None
}

/// First slot holding a rook of colour `c` on `(x, y)`, if any.
fn find_rook(pieces: &Vec<Option<Piece>>, x: u8, y: u8, c: PieceColor) -> (r: Option<usize>)
    ensures
        r is None <==> find_rook_from(pieces@, 0, x as int, y as int, c) is None,
        r matches Some(u) ==> find_rook_from(pieces@, 0, x as int, y as int, c) == Some(u as int)
            && u < pieces@.len(),
{
    let n = pieces.len();
    let mut i: usize = 0;
    while i < n
        invariant
            n == pieces@.len(),
            i <= n,
            find_rook_from(pieces@, 0, x as int, y as int, c) == find_rook_from(
                pieces@,
                i as int,
                x as int,
                y as int,
                c,
            ),
        decreases n - i,
    {
        match pieces[i] {
            Some(p) => {
                if p.x == x && p.y == y && p.color == c
                    && p.piece_type == PieceType::Rook {
                    return Some(i);
                }
            },
            None => {},
        }
        i += 1;
    }
    None
}

/// The transient occupancy snapshot assembled for one move evaluation.
fn snapshot(pieces: &Vec<Option<Piece>>) -> (r: Vec<Piece>)
    ensures
        r@ == alive(pieces@),
{
    let n = pieces.len();
    let mut snap: Vec<Piece> = Vec::new();
    let mut i: usize = 0;
    while i < n
        invariant
            n == pieces@.len(),
            i <= n,
            snap@ == alive(pieces@.subrange(0, i as int)),
        decreases n - i,
    {
        proof {
            assert(pieces@.subrange(0, i + 1 as int).drop_last() =~= pieces@.subrange(0, i as int));
            assert(pieces@.subrange(0, i + 1 as int).last() == pieces@[i as int]);
        }
        match pieces[i] {
            Some(p) => {
                snap.push(p);
                proof {
                    assert(snap@ =~= alive(pieces@.subrange(0, i + 1 as int)));
                }
            },
            None => {
                proof {
                    assert(snap@ =~= alive(pieces@.subrange(0, i + 1 as int)));
                }
            },
        }
        i += 1;
    }
    proof {
        assert(pieces@.subrange(0, n as int) =~= pieces@);
    }
    snap
}

/// Removes every opposing piece standing on the target square of a committed
/// move, and reports whether a king was among them.
fn capture_scan(pieces: &mut Vec<Option<Piece>>, x: u8, y: u8, c: PieceColor) -> (king: bool)
    ensures
        final(pieces)@ == after_captures(old(pieces)@, x as int, y as int, c),
        king == king_on_target(old(pieces)@, x as int, y as int, c),
{
    let n = pieces.len();
    let mut i: usize = 0;
    let mut king = false;
    while i < n
        invariant
            n == old(pieces)@.len(),
            pieces@.len() == n,
            i <= n,
            forall|j: int| 0 <= j < i ==> pieces@[j] == (if capture_hit(
                old(pieces)@[j],
                x as int,
                y as int,
                c,
            ) {
                None
            } else {
                old(pieces)@[j]
            }),
            forall|j: int| i <= j < n ==> pieces@[j] == old(pieces)@[j],
            king == exists|j: int| 0 <= j < i && capture_hit(old(pieces)@[j], x as int, y as int, c)
                && (old(pieces)@[j] matches Some(p) && p.piece_type is King),
        decreases n - i,
    {
        match pieces[i] {
            Some(p) => {
                if p.x == x && p.y == y && p.color != c {
                    assert(capture_hit(old(pieces)@[i as int], x as int, y as int, c));
                    if p.piece_type == PieceType::King {
                        king = true;
                    }
                    pieces.set(i, None);
                }
            },
            None => {},
        }
        i += 1;
    }
    proof {
        assert(pieces@ =~= after_captures(old(pieces)@, x as int, y as int, c));
    }
    king
}

/// The kind of piece the opening position holds on column `y` of a back rank.
fn rank_piece(y: u8) -> (r: PieceType)
    ensures
        r == back_rank_type(y as int),
{
    if y == 0 || y == 7 {
        PieceType::Rook
    } else if y == 1 || y == 6 {
        PieceType::Knight
    } else if y == 2 || y == 5 {
        PieceType::Bishop
    } else if y == 3 {
        PieceType::Queen
    } else {
        PieceType::King
    }
}

/// The piece of slot `i` in the standard opening position.
fn starting_piece(i: u8) -> (r: Piece)
    requires
        i < 32,
    ensures
        r == initial_piece(i as int),
{
    if i < 8 {
        Piece { piece_type: rank_piece(i), color: PieceColor::White, x: 0, y: i }
    } else if i < 16 {
        Piece { piece_type: PieceType::Pawn, color: PieceColor::White, x: 1, y: i - 8 }
    } else if i < 24 {
        Piece { piece_type: rank_piece(i - 16), color: PieceColor::Black, x: 7, y: i - 16 }
    } else {
        Piece { piece_type: PieceType::Pawn, color: PieceColor::Black, x: 6, y: i - 24 }
    }
}

/// Every piece of an arena stands on the board.
pub open spec fn pieces_on_board(s: Seq<Option<Piece>>) -> bool {
    forall|i: int| 0 <= i < s.len() ==> (#[trigger] s[i] matches Some(p) ==> in_bounds(
        p.x as int,
        p.y as int,
    ))
}

/// A slot found by the rook search lies within the arena.
proof fn lemma_find_rook_in_range(s: Seq<Option<Piece>>, i: int, x: int, y: int, c: PieceColor)
    requires
        find_rook_from(s, i, x, y, c) is Some,
    ensures
        i <= find_rook_from(s, i, x, y, c)->0 < s.len(),
    decreases s.len() - i,
{
    if i < 0 || i >= s.len() {
    } else if s[i] matches Some(p) && p.piece_type is Rook && p.x == x && p.y == y && p.color
        == c {
    } else {
        lemma_find_rook_in_range(s, i + 1, x, y, c);
    }
}

/// A piece's coordinates always satisfy the board bounds: a committed move
/// to an on-board target keeps every remaining piece on the board, the
/// castling rook included.
pub proof fn lemma_commit_keeps_pieces_on_board(
    s: Seq<Option<Piece>>,
    pid: int,
    mover: Piece,
    x: int,
    y: int,
)
    requires
        pieces_on_board(s),
        in_bounds(x, y),
        in_bounds(mover.x as int, mover.y as int),
        0 <= pid < s.len(),
    ensures
        pieces_on_board(commit_arena(s, pid, mover, x, y)),
{
    let staged = castle_stage(s, mover, x, y);
    if castling_commit(mover, x, y) {
        match find_rook_from(s, 0, mover.x as int, castle_corner_col(y), mover.color) {
            Some(rid) => {
                lemma_find_rook_in_range(s, 0, mover.x as int, castle_corner_col(y), mover.color);
                assert forall|i: int| 0 <= i < staged.len() implies (#[trigger] staged[i]
                    matches Some(p) ==> in_bounds(p.x as int, p.y as int)) by {
                    if i < s.len() && i != rid {
                        assert(staged[i] == s[i]);
                    }
                }
            },
            None => {},
        }
    }
    assert(pieces_on_board(staged));
    assert(staged.len() >= s.len());
    let scanned = after_captures(staged, x, y, mover.color);
    assert(pieces_on_board(scanned)) by {
        assert forall|i: int| 0 <= i < scanned.len() implies (#[trigger] scanned[i]
            matches Some(p) ==> in_bounds(p.x as int, p.y as int)) by {
            if !capture_hit(staged[i], x, y, mover.color) {
                assert(scanned[i] == staged[i]);
            }
        }
    }
    let moved = Piece { piece_type: mover.piece_type, color: mover.color, x: x as u8, y: y as u8 };
    let ca = commit_arena(s, pid, mover, x, y);
    assert(ca == scanned.update(pid, Some(moved)));
    assert(in_bounds(moved.x as int, moved.y as int));
    assert forall|i: int| 0 <= i < ca.len() implies (#[trigger] ca[i] matches Some(p)
        ==> in_bounds(p.x as int, p.y as int)) by {
        if i == pid {
            assert(ca[i] == Some(moved));
        } else {
            assert(ca[i] == scanned[i]);
        }
    }
}

/// The whole state of one game: the piece arena, the side to move, the
/// interaction-in-progress selection, and the winner once a king has been
/// captured.
pub struct Game {
    /// The piece arena; a slot index is a piece's stable identity.
    pub pieces: Vec<Option<Piece>>,
    /// The side to move.
    pub turn: PlayerTurn,
    /// The square chosen by the last selection, while one is in progress.
    pub selected_square: Option<Square>,
    /// The slot of the piece awaiting a target square, if one was chosen.
    pub selected_piece: Option<usize>,
    /// The winning colour, once a king has been captured. Terminal: it is
    /// never cleared, and no further move attempt has any effect.
    pub winner: Option<PieceColor>,
}

/// Pieces, turn and winner agree between two states.
pub open spec fn core_unchanged(o: Game, f: Game) -> bool {
    &&& f.pieces@ == o.pieces@
    &&& f.turn == o.turn
    &&& f.winner == o.winner
}

/// The two states agree entirely.
pub open spec fn all_unchanged(o: Game, f: Game) -> bool {
    &&& core_unchanged(o, f)
    &&& f.selected_square == o.selected_square
    &&& f.selected_piece == o.selected_piece
}

/// Neither a square nor a piece is selected.
pub open spec fn selection_cleared(f: Game) -> bool {
    f.selected_square is None && f.selected_piece is None
}

impl Game {
    /// A fresh game: the standard opening position, White to move, nothing
    /// selected, no winner.
    pub fn new() -> (g: Game)
        ensures
            g.pieces@.len() == 32,
            forall|i: int| 0 <= i < 32 ==> g.pieces@[i] == Some(#[trigger] initial_piece(i)),
            g.turn.0 == PieceColor::White,
            selection_cleared(g),
            g.winner is None,
    {
        let mut pieces: Vec<Option<Piece>> = Vec::new();
        let mut i: u8 = 0;
        while i < 32
            invariant
                i <= 32,
                pieces@.len() == i,
                forall|j: int| 0 <= j < i ==> pieces@[j] == Some(#[trigger] initial_piece(j)),
            decreases 32 - i,
        {
            pieces.push(Some(starting_piece(i)));
            i += 1;
        }
        Game {
            pieces,
            turn: PlayerTurn(PieceColor::White),
            selected_square: None,
            selected_piece: None,
            winner: None,
        }
    }

    /// Clears the interaction-in-progress selection; committed game state is
    /// untouched. This is the "deselect" input (a click outside the board).
    pub fn deselect(&mut self)
        ensures
            core_unchanged(*old(self), *final(self)),
            selection_cleared(*final(self)),
    {
        self.selected_square = None;
        self.selected_piece = None;
    }

    /// Marks the piece of slot `id` as taken and removes it at once. If the
    /// taken piece is a king and the game was still running, the opposing
    /// colour wins and the game becomes terminal. A slot that holds no piece
    /// changes nothing. Returns whether a king was taken.
    pub fn mark_taken(&mut self, id: usize) -> (r: bool)
        ensures
            (id >= old(self).pieces@.len() || old(self).pieces@[id as int] is None) ==> (
            all_unchanged(*old(self), *final(self)) && r == false),
            ({
                let p = old(self).pieces@[id as int]->0;
                id < old(self).pieces@.len() && old(self).pieces@[id as int] is Some ==> {
                    &&& final(self).pieces@ == old(self).pieces@.update(id as int, None)
                    &&& r == (p.piece_type is King)
                    &&& final(self).winner == (if p.piece_type is King && old(self).winner is None {
                        Some(opposite(p.color))
                    } else {
                        old(self).winner
                    })
                    &&& final(self).turn == old(self).turn
                    &&& final(self).selected_square == old(self).selected_square
                    &&& final(self).selected_piece == old(self).selected_piece
                }
            }),
    {
        if id >= self.pieces.len() {
            return false;
        }
        match self.pieces[id] {
            Some(p) => {
                self.pieces.set(id, None);
                if p.piece_type == PieceType::King {
                    if self.winner.is_none() {
                        self.winner = Some(p.color.other());
                    }
                    true
                } else {
                    false
                }
            },
            None => false,
        }
    }

    /// The "square chosen" input: one click on the board cell `(x, y)`.
    ///
    /// While no piece is selected, the click selects a piece of the side to
    /// move standing on the cell; a cell holding only other pieces is merely
    /// recorded; an empty cell clears the whole selection. While a piece is
    /// selected, the click attempts to commit a move of that piece to the
    /// cell: an illegal target changes nothing but resets the selection; a
    /// legal one applies the castling exchange where one applies, removes
    /// every opposing piece on the cell, moves the piece, flips the turn and
    /// resets the selection. Capturing a king ends the game; afterwards every
    /// further call is without effect.
    pub fn select(&mut self, x: u8, y: u8) -> (r: SelectOutcome)
        ensures
            old(self).winner is Some ==> all_unchanged(*old(self), *final(self)) && r
                == SelectOutcome::Ignored,
            ({
                let found = find_piece_from(old(self).pieces@, 0, x as int, y as int, old(self).turn.0);
                old(self).winner is None && old(self).selected_piece is None && found is Some ==> {
                    &&& core_unchanged(*old(self), *final(self))
                    &&& final(self).selected_square == Some(Square { x, y })
                    &&& final(self).selected_piece == Some(found->0 as usize)
                    &&& r == SelectOutcome::PieceChosen
                }
            }),
            (old(self).winner is None && old(self).selected_piece is None && find_piece_from(
                old(self).pieces@,
                0,
                x as int,
                y as int,
                old(self).turn.0,
            ) is None && slot_occupied(old(self).pieces@, x as int, y as int)) ==> {
                &&& core_unchanged(*old(self), *final(self))
                &&& final(self).selected_square == Some(Square { x, y })
                &&& final(self).selected_piece is None
                &&& r == SelectOutcome::SquareChosen
            },
            (old(self).winner is None && old(self).selected_piece is None && find_piece_from(
                old(self).pieces@,
                0,
                x as int,
                y as int,
                old(self).turn.0,
            ) is None && !slot_occupied(old(self).pieces@, x as int, y as int)) ==> {
                &&& core_unchanged(*old(self), *final(self))
                &&& selection_cleared(*final(self))
                &&& r == SelectOutcome::Cleared
            },
            ({
                let pid = old(self).selected_piece->0;
                old(self).winner is None && old(self).selected_piece is Some && (pid >= old(
                    self,
                ).pieces@.len() || old(self).pieces@[pid as int] is None) ==> (all_unchanged(
                    *old(self),
                    *final(self),
                ) && r == SelectOutcome::Ignored)
            }),
            ({
                let pid = old(self).selected_piece->0;
                let mover = old(self).pieces@[pid as int]->0;
                old(self).winner is None && old(self).selected_piece is Some && pid < old(
                    self,
                ).pieces@.len() && old(self).pieces@[pid as int] is Some && !move_valid(
                    mover,
                    x as int,
                    y as int,
                    alive(old(self).pieces@),
                ) ==> {
                    &&& core_unchanged(*old(self), *final(self))
                    &&& selection_cleared(*final(self))
                    &&& r == SelectOutcome::Rejected
                }
            }),
            ({
                let pid = old(self).selected_piece->0;
                let mover = old(self).pieces@[pid as int]->0;
                let won = commit_won(old(self).pieces@, mover, x as int, y as int);
                old(self).winner is None && old(self).selected_piece is Some && pid < old(
                    self,
                ).pieces@.len() && old(self).pieces@[pid as int] is Some && move_valid(
                    mover,
                    x as int,
                    y as int,
                    alive(old(self).pieces@),
                ) ==> {
                    &&& final(self).pieces@ == commit_arena(
                        old(self).pieces@,
                        pid as int,
                        mover,
                        x as int,
                        y as int,
                    )
                    &&& final(self).turn.0 == opposite(old(self).turn.0)
                    &&& selection_cleared(*final(self))
                    &&& final(self).winner == (if won {
                        Some(mover.color)
                    } else {
                        None::<PieceColor>
                    })
                    &&& r == (if won {
                        SelectOutcome::Won
                    } else {
                        SelectOutcome::Moved
                    })
                }
            }),
    {
        if self.winner.is_some() {
            return SelectOutcome::Ignored;
        }
        match self.selected_piece {
            None => {
                match find_piece(&self.pieces, x, y, self.turn.current()) {
                    Some(i) => {
                        self.selected_square = Some(Square { x, y });
                        self.selected_piece = Some(i);
                        SelectOutcome::PieceChosen
                    },
                    None => {
                        if any_piece_at(&self.pieces, x, y) {
                            self.selected_square = Some(Square { x, y });
                            self.selected_piece = None;
                            SelectOutcome::SquareChosen
                        } else {
                            self.selected_square = None;
                            self.selected_piece = None;
                            SelectOutcome::Cleared
                        }
                    },
                }
            },
            Some(pid) => {
                if pid >= self.pieces.len() {
                    return SelectOutcome::Ignored;
                }
                let mover = match self.pieces[pid] {
                    Some(p) => p,
                    None => {
                        return SelectOutcome::Ignored;
                    },
                };
                let snap = snapshot(&self.pieces);
                if !mover.is_move_valid((x, y), &snap) {
                    self.selected_square = None;
                    self.selected_piece = None;
                    return SelectOutcome::Rejected;
                }
                // The castling exchange: the corner rook is taken out and an
                // equivalent rook reappears in a fresh slot on the post-castle
                // column, for both the kingside and the queenside move alike.
                let home: u8 = match mover.color {
                    PieceColor::White => 0,
                    PieceColor::Black => 7,
                };
                let is_castle = mover.piece_type == PieceType::King && mover.x == home && mover.y
                    == 4 && x == mover.x && (y == 2 || y == 6);
                if is_castle {
                    let corner: u8 = if y == 6 {
                        7
                    } else {
                        0
                    };
                    let rook_to: u8 = if y == 6 {
                        5
                    } else {
                        3
                    };
                    match find_rook(&self.pieces, mover.x, corner, mover.color) {
                        Some(rid) => {
                            self.pieces.set(rid, None);
                            self.pieces.push(
                                Some(
                                    Piece {
                                        piece_type: PieceType::Rook,
                                        color: mover.color,
                                        x: mover.x,
                                        y: rook_to,
                                    },
                                ),
                            );
                        },
                        None => {},
                    }
                }
                let king_taken = capture_scan(&mut self.pieces, x, y, mover.color);
                assert(self.pieces@.len() >= old(self).pieces@.len());
                self.pieces.set(
                    pid,
                    Some(Piece { piece_type: mover.piece_type, color: mover.color, x, y }),
                );
                self.turn.advance();
                self.selected_square = None;
                self.selected_piece = None;
                if king_taken {
                    self.winner = Some(mover.color);
                    SelectOutcome::Won
                } else {
                    SelectOutcome::Moved
                }
            },
        }
    }
}

} // verus!
