//! The 8 x 8 grid abstraction and the turn controller.

use vstd::prelude::*;
use crate::pieces::PieceColor;
use crate::pieces::opposite;

verus! {

/// A board cell, identified by integer coordinates in `[0,8) x [0,8)`.
/// Squares are immutable value identities; they do not own pieces.
#[derive(Clone, Copy, Debug, PartialEq, Eq, Structural)]
pub struct Square {
    pub x: u8,
    pub y: u8,
}

impl Square {
    /// Whether the cell is a light one in the alternating pattern.
    pub fn is_white(&self) -> (r: bool)
        ensures
            r == ((self.x + self.y + 1) % 2 == 0),
    {
        (self.x as u16 + self.y as u16 + 1) % 2 == 0
    }
}

/// All 64 cells of the board, row by row.
pub fn board_squares() -> (r: Vec<Square>)
    ensures
        r@.len() == 64,
        forall|i: int| 0 <= i < 64 ==> r@[i] == (Square { x: (i / 8) as u8, y: (i % 8) as u8 }),
{
    let mut squares: Vec<Square> = Vec::new();
    let mut i: u8 = 0;
    while i < 8
        invariant
            i <= 8,
            squares@.len() == 8 * i,
            forall|k: int| 0 <= k < squares@.len()
                ==> squares@[k] == (Square { x: (k / 8) as u8, y: (k % 8) as u8 }),
        decreases 8 - i,
    {
        let mut j: u8 = 0;
        while j < 8
            invariant
                i < 8,
                j <= 8,
                squares@.len() == 8 * i + j,
                forall|k: int| 0 <= k < squares@.len()
                    ==> squares@[k] == (Square { x: (k / 8) as u8, y: (k % 8) as u8 }),
            decreases 8 - j,
        {
            squares.push(Square { x: i, y: j });
            j += 1;
        }
        i += 1;
    }
    squares
}

/// The colour whose move it is. Exactly one of White and Black at all times;
/// it toggles only when the move resolver commits a legal move.
#[derive(Clone, Copy, Debug, PartialEq, Eq, Structural)]
pub struct PlayerTurn(pub PieceColor);

impl Default for PlayerTurn {
    /// White moves first.
    fn default() -> (r: Self)
        ensures
            r == PlayerTurn(PieceColor::White),
    {
        PlayerTurn(PieceColor::White)
    }
}

impl PlayerTurn {
    /// The colour to move next.
    pub fn current(&self) -> (r: PieceColor)
        ensures
            r == self.0,
    {
        self.0
    }

    /// Flips the side to move, unconditionally. The move resolver calls this
    /// exactly once per committed move.
    pub fn advance(&mut self)
        ensures
            final(self).0 == opposite(old(self).0),
    {
        self.0 = self.0.other();
    }
}

/// Applied twice, `advance` returns the turn state to its original value;
/// applied once, it always flips it.
pub proof fn lemma_turn_alternation(t: PlayerTurn)
    ensures
        opposite(opposite(t.0)) == t.0,
        opposite(t.0) != t.0,
{
}

} // verus!
