//! The falling piece and the tests that decide where it may go.
//!
//! A move or a turn is tried, never forced: the candidate position is tested
//! against the board, and the piece changes only if the candidate fits. A
//! move that does not fit is an ordinary outcome, reported as `false`.

use crate::board::{in_bounds, placeable, Board};
use crate::catalog::{is_solid, law_every_orientation_is_solid, occupied, PieceKind};
use vstd::prelude::*;

verus! {

/// Column of the box of a piece that has just entered the field.
pub const SPAWN_X: i16 = 6;

/// Row of the box of a piece that has just entered the field.
pub const SPAWN_Y: i16 = 0;

/// The piece in play: its shape, how many quarter turns it has made, and the
/// board position of the top-left corner of its 4×4 box.
#[derive(Clone, Copy, Debug, PartialEq, Eq, Structural)]
pub struct ActivePiece {
    pub kind: PieceKind,
    pub orientation: usize,
    pub x: i16,
    pub y: i16,
}

/// Whether a piece of `kind`, turned `orientation` times, fits the board with
/// its box at `(ax, ay)`. A solid cell that falls outside the grid makes the
/// answer `false`; an empty cell of the box may hang outside.
pub fn can_place(board: &Board, kind: PieceKind, orientation: usize, ax: i16, ay: i16) -> (ok: bool)
    requires
        board.wf(),
    ensures
        ok == placeable(board@, kind, orientation as int, ax as int, ay as int),
{
    let mut n: usize = 0;
    while n < 16
        invariant
            n <= 16,
            board.wf(),
            forall|lx: int, ly: int| #[trigger]
                occupied(kind, orientation as int, lx, ly) && ly * 4 + lx < n ==> in_bounds(
                    ax + lx,
                    ay + ly,
                ) && board.at(ax + lx, ay + ly) == crate::board::CellState::Empty,
        decreases 16 - n,
    {
        let lx: usize = n % 4;
        let ly: usize = n / 4;
        if is_solid(kind, orientation, lx, ly) {
            let x: i32 = ax as i32 + lx as i32;
            let y: i32 = ay as i32 + ly as i32;
            if x < 0 || x >= 12 || y < 0 || y >= 18 {
                assert(occupied(kind, orientation as int, lx as int, ly as int));
                return false;
            }
            if board.is_wall_or_locked(x as usize, y as usize) {
                assert(occupied(kind, orientation as int, lx as int, ly as int));
                return false;
            }
        }
        n += 1;
    }
    true
}

/// Whether `piece` would fit the board after moving by `(dx, dy)`.
pub fn can_move(board: &Board, piece: &ActivePiece, dx: i16, dy: i16) -> (ok: bool)
    requires
        board.wf(),
    ensures
        ok == placeable(
            board@,
            piece.kind,
            piece.orientation as int,
            piece.x + dx,
            piece.y + dy,
        ),
{
    let cx: i32 = piece.x as i32 + dx as i32;
    let cy: i32 = piece.y as i32 + dy as i32;
    if cx < -32768 || cx > 32767 || cy < -32768 || cy > 32767 {
        proof {
            // A box that far away leaves every solid cell outside the grid.
            law_every_orientation_is_solid(piece.kind, piece.orientation as int);
            let (lx, ly) = choose|lx: int, ly: int|
                occupied(piece.kind, piece.orientation as int, lx, ly);
            assert(!in_bounds(cx + lx, cy + ly));
        }
        return false;
    }
    can_place(board, piece.kind, piece.orientation, cx as i16, cy as i16)
}

impl ActivePiece {
    /// The orientation counts quarter turns and stays below four.
    pub open spec fn wf(&self) -> bool {
        self.orientation < 4
    }

    /// Whether the piece fits `grid` where it stands.
    pub open spec fn fits(&self, grid: Seq<crate::board::CellState>) -> bool {
        placeable(grid, self.kind, self.orientation as int, self.x as int, self.y as int)
    }

    /// A piece of `kind` as it enters the field: not turned, its box at the
    /// top row and the middle column.
    pub fn spawn(kind: PieceKind) -> (piece: ActivePiece)
        ensures
            piece == (ActivePiece { kind, orientation: 0, x: SPAWN_X, y: SPAWN_Y }),
            piece.wf(),
    {
        ActivePiece { kind, orientation: 0, x: SPAWN_X, y: SPAWN_Y }
    }

    /// Tries to move the piece by `(dx, dy)`. If the piece fits there, it
    /// moves and the result is `true`; otherwise it stays and the result is
    /// `false`.
    pub fn try_move(&mut self, board: &Board, dx: i16, dy: i16) -> (moved: bool)
        requires
            board.wf(),
        ensures
            moved == placeable(
                board@,
                old(self).kind,
                old(self).orientation as int,
                old(self).x + dx,
                old(self).y + dy,
            ),
            moved ==> final(self).x == old(self).x + dx && final(self).y == old(self).y + dy,
            !moved ==> final(self).x == old(self).x && final(self).y == old(self).y,
            final(self).kind == old(self).kind,
            final(self).orientation == old(self).orientation,
    {
        if can_move(board, self, dx, dy) {
            proof {
                law_every_orientation_is_solid(self.kind, self.orientation as int);
                let (lx, ly) = choose|lx: int, ly: int|
                    occupied(self.kind, self.orientation as int, lx, ly);
                assert(in_bounds(self.x + dx + lx, self.y + dy + ly));
            }
            self.x = self.x + dx;
            self.y = self.y + dy;
            true
        } else {
            false
        }
    }

    /// Tries to turn the piece by one quarter turn. If the turned piece fits
    /// where the piece stands, the piece turns and the result is `true`;
    /// otherwise it stays as it is and the result is `false`.
    pub fn try_rotate(&mut self, board: &Board) -> (turned: bool)
        requires
            board.wf(),
        ensures
            turned == placeable(
                board@,
                old(self).kind,
                (old(self).orientation + 1) % 4,
                old(self).x as int,
                old(self).y as int,
            ),
            turned ==> final(self).orientation == (old(self).orientation + 1) % 4,
            !turned ==> final(self).orientation == old(self).orientation,
            final(self).kind == old(self).kind,
            final(self).x == old(self).x,
            final(self).y == old(self).y,
    {
        let next: usize = (self.orientation % 4 + 1) % 4;
        assert(next == (self.orientation + 1) % 4);
        if can_place(board, self.kind, next, self.x, self.y) {
            self.orientation = next;
            true
        } else {
            false
        }
    }
}

} // verus!
