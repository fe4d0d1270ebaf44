//! The playing field: a fixed grid of cells whose left column, right column
//! and bottom row are walls.
//!
//! Walls are cells like any other, so one occupancy test answers both
//! "did the piece leave the field" and "did the piece hit a locked block".

use crate::catalog::{is_solid, occupied, PieceKind};
use vstd::prelude::*;

verus! {

/// Width of the grid, walls included.
pub const BOARD_WIDTH: usize = 12;

/// Height of the grid, bottom wall included.
pub const BOARD_HEIGHT: usize = 18;

/// Number of cells in the grid.
pub const BOARD_CELLS: usize = 216;

/// What one cell of the grid holds.
#[derive(Clone, Copy, Debug, PartialEq, Eq, Structural)]
pub enum CellState {
    /// Nothing: a piece may pass through.
    Empty,
    /// Part of the permanent boundary.
    Wall,
    /// A block left behind by a locked piece of the given kind.
    Locked(PieceKind),
    /// Part of a full row that is about to be removed.
    MarkedForClear,
}

/// Whether `(x, y)` names a cell of the grid.
pub open spec fn in_bounds(x: int, y: int) -> bool {
    0 <= x < 12 && 0 <= y < 18
}

/// Whether `(x, y)` lies on the boundary: the two outer columns and the
/// bottom row.
pub open spec fn is_border(x: int, y: int) -> bool {
    x == 0 || x == 11 || y == 17
}

/// Whether `(x, y)` is a cell inside the walls.
pub open spec fn is_interior(x: int, y: int) -> bool {
    1 <= x < 11 && 0 <= y < 17
}

/// The cell at column `x`, row `y` of a row-major grid.
pub open spec fn grid_at(grid: Seq<CellState>, x: int, y: int) -> CellState {
    grid[y * 12 + x]
}

/// A grid is well formed when it has every cell and its walls are exactly
/// the boundary cells.
pub open spec fn grid_wf(grid: Seq<CellState>) -> bool {
    &&& grid.len() == 216
    &&& forall|x: int, y: int|
        in_bounds(x, y) ==> (is_border(x, y) <==> #[trigger] grid_at(grid, x, y) == CellState::Wall)
}

/// The grid of a fresh board: walls on the boundary, nothing inside.
pub open spec fn empty_grid() -> Seq<CellState> {
    Seq::new(
        216,
        |i: int|
            if is_border(i % 12, i / 12) {
                CellState::Wall
            } else {
                CellState::Empty
            },
    )
}

/// Whether a piece of `kind`, turned `orientation` times, with the top-left
/// corner of its box at `(ax, ay)`, fits the grid: every solid cell of the
/// piece lands on a cell of the grid, and that cell is empty. A solid cell
/// that would land outside the grid makes the piece not fit.
pub open spec fn placeable(
    grid: Seq<CellState>,
    kind: PieceKind,
    orientation: int,
    ax: int,
    ay: int,
) -> bool {
    forall|lx: int, ly: int| #[trigger]
        occupied(kind, orientation, lx, ly) ==> in_bounds(ax + lx, ay + ly) && grid_at(
            grid,
            ax + lx,
            ay + ly,
        ) == CellState::Empty
}

/// A piece does not fit where one of its solid cells would lie on a wall or
/// on a locked block.
pub proof fn law_overlap_blocks_placement(
    grid: Seq<CellState>,
    kind: PieceKind,
    orientation: int,
    ax: int,
    ay: int,
    lx: int,
    ly: int,
)
    requires
        occupied(kind, orientation, lx, ly),
        grid_at(grid, ax + lx, ay + ly) == CellState::Wall || grid_at(grid, ax + lx, ay + ly)
            is Locked,
    ensures
        !placeable(grid, kind, orientation, ax, ay),
{
}

/// Whether the piece placed at `(ax, ay)` is solid over the grid cell
/// `(x, y)`.
pub open spec fn covers(
    kind: PieceKind,
    orientation: int,
    ax: int,
    ay: int,
    x: int,
    y: int,
) -> bool {
    occupied(kind, orientation, x - ax, y - ay)
}

/// The grid after the piece placed at `(ax, ay)` is locked into it: the
/// cells under the piece hold a locked block of its kind, all others are as
/// before.
pub open spec fn locked_grid(
    grid: Seq<CellState>,
    kind: PieceKind,
    orientation: int,
    ax: int,
    ay: int,
) -> Seq<CellState> {
    Seq::new(
        grid.len(),
        |i: int|
            if covers(kind, orientation, ax, ay, i % 12, i / 12) {
                CellState::Locked(kind)
            } else {
                grid[i]
            },
    )
}

/// The grid part-way through locking: only the first `n` local cells of the
/// piece, in row-major order, have been written.
spec fn partly_locked(
    grid: Seq<CellState>,
    kind: PieceKind,
    orientation: int,
    ax: int,
    ay: int,
    n: int,
) -> Seq<CellState> {
    Seq::new(
        grid.len(),
        |i: int|
            if covers(kind, orientation, ax, ay, i % 12, i / 12) && (i / 12 - ay) * 4 + (i % 12
                - ax) < n {
                CellState::Locked(kind)
            } else {
                grid[i]
            },
    )
}

/// Locking a piece that fits keeps the walls where they are.
pub proof fn lemma_locked_grid_wf(
    grid: Seq<CellState>,
    kind: PieceKind,
    orientation: int,
    ax: int,
    ay: int,
)
    requires
        grid_wf(grid),
        placeable(grid, kind, orientation, ax, ay),
    ensures
        grid_wf(locked_grid(grid, kind, orientation, ax, ay)),
{
    let after = locked_grid(grid, kind, orientation, ax, ay);
    assert forall|x: int, y: int| in_bounds(x, y) implies (is_border(x, y) <==> #[trigger] grid_at(
        after,
        x,
        y,
    ) == CellState::Wall) by {
        let i = y * 12 + x;
        assert(i % 12 == x && i / 12 == y);
        assert(grid_at(grid, x, y) == CellState::Wall <==> is_border(x, y));
        if covers(kind, orientation, ax, ay, x, y) {
            assert(occupied(kind, orientation, x - ax, y - ay));
            assert(grid_at(grid, ax + (x - ax), ay + (y - ay)) == CellState::Empty);
        }
    }
}

/// Whether row `y` is full: none of its interior cells is empty.
pub open spec fn row_full(grid: Seq<CellState>, y: int) -> bool {
    forall|x: int| 1 <= x < 11 ==> #[trigger] grid_at(grid, x, y) != CellState::Empty
}

/// Whether no interior row of `grid` is full.
pub open spec fn no_full_row(grid: Seq<CellState>) -> bool {
    forall|y: int| 0 <= y < 17 ==> !#[trigger] row_full(grid, y)
}

/// Whether `rows` lists, from the top down and each once, exactly the full
/// interior rows of `grid` that lie in `start..end`.
pub open spec fn lists_full_rows(
    grid: Seq<CellState>,
    start: int,
    end: int,
    rows: Seq<usize>,
) -> bool {
    &&& forall|i: int|
        0 <= i < rows.len() ==> start <= #[trigger] rows[i] < end && rows[i] < 17 && row_full(
            grid,
            rows[i] as int,
        )
    &&& forall|i: int, j: int| 0 <= i < j < rows.len() ==> rows[i] < rows[j]
    &&& forall|y: int|
        start <= y < end && 0 <= y < 17 && #[trigger] row_full(grid, y) ==> rows.contains(
            y as usize,
        )
}

/// The full interior rows of `grid` among the rows `start..end`, from the
/// top down.
pub open spec fn full_rows_in(grid: Seq<CellState>, start: int, end: int) -> Seq<usize>
    decreases end - start,
{
    if end <= start {
        Seq::empty()
    } else if 0 <= end - 1 < 17 && row_full(grid, end - 1) {
        full_rows_in(grid, start, end - 1).push((end - 1) as usize)
    } else {
        full_rows_in(grid, start, end - 1)
    }
}

/// Rows at or past the bottom wall are never listed.
pub proof fn lemma_full_rows_stop_at_wall(grid: Seq<CellState>, start: int, end: int)
    requires
        17 <= end,
    ensures
        full_rows_in(grid, start, end) == full_rows_in(grid, start, 17),
    decreases end - 17,
{
    if end > 17 && end > start {
        lemma_full_rows_stop_at_wall(grid, start, end - 1);
    }
}

/// What [`full_rows_in`] returns is the list of the full rows in the span:
/// each listed row is an interior row of the span and is full, the list runs
/// from the top down, and no full interior row of the span is missing.
pub proof fn law_full_rows_are_listed(grid: Seq<CellState>, start: int, end: int)
    ensures
        lists_full_rows(grid, start, end, full_rows_in(grid, start, end)),
    decreases end - start,
{
    let rows = full_rows_in(grid, start, end);
    if end > start {
        let rest = full_rows_in(grid, start, end - 1);
        law_full_rows_are_listed(grid, start, end - 1);
        assert forall|y: int|
            start <= y < end && 0 <= y < 17 && #[trigger] row_full(grid, y) implies rows.contains(
            y as usize,
        ) by {
            if y < end - 1 {
                let k = choose|k: int| 0 <= k < rest.len() && rest[k] == y as usize;
                assert(rows[k] == y as usize);
            } else {
                assert(rows[rest.len() as int] == y as usize);
            }
        }
    }
}

/// Rows above the top of the grid are never listed.
pub proof fn lemma_full_rows_start_at_top(grid: Seq<CellState>, start: int, end: int)
    requires
        start <= 0,
    ensures
        full_rows_in(grid, start, end) == full_rows_in(grid, 0, end),
    decreases end - start,
{
    if end > start {
        lemma_full_rows_start_at_top(grid, start, end - 1);
    }
}

/// A span lists at most as many rows as it has.
pub proof fn lemma_full_rows_len(grid: Seq<CellState>, start: int, end: int)
    ensures
        full_rows_in(grid, start, end).len() <= if end > start {
            end - start
        } else {
            0
        },
    decreases end - start,
{
    if end > start {
        lemma_full_rows_len(grid, start, end - 1);
    }
}

/// Whether `rows` names interior rows only, from the top down, none twice.
pub open spec fn ascending_rows(rows: Seq<usize>) -> bool {
    &&& forall|i: int| 0 <= i < rows.len() ==> #[trigger] rows[i] < 17
    &&& forall|i: int, j: int| 0 <= i < j < rows.len() ==> rows[i] < rows[j]
}

/// The grid after the interior cells of every row in `rows` are marked for
/// clearing.
pub open spec fn marked_grid(grid: Seq<CellState>, rows: Seq<usize>) -> Seq<CellState> {
    Seq::new(
        grid.len(),
        |i: int|
            if 1 <= i % 12 < 11 && rows.contains((i / 12) as usize) {
                CellState::MarkedForClear
            } else {
                grid[i]
            },
    )
}

/// The grid after interior row `row` is taken out: every interior row above
/// it moves down by one and the top row is emptied. Walls stay.
pub open spec fn row_removed(grid: Seq<CellState>, row: int) -> Seq<CellState> {
    Seq::new(
        grid.len(),
        |i: int|
            if 1 <= i % 12 < 11 && i / 12 <= row {
                if i / 12 == 0 {
                    CellState::Empty
                } else {
                    grid[i - 12]
                }
            } else {
                grid[i]
            },
    )
}

/// The grid after the rows in `rows` are taken out one after the other, in
/// the order of the list.
pub open spec fn rows_removed(grid: Seq<CellState>, rows: Seq<usize>) -> Seq<CellState>
    decreases rows.len(),
{
    if rows.len() == 0 {
        grid
    } else {
        row_removed(rows_removed(grid, rows.drop_last()), rows.last() as int)
    }
}

/// How many of `rows` lie below row `t`, that is, have a greater index.
pub open spec fn cleared_below(rows: Seq<usize>, t: int) -> int
    decreases rows.len(),
{
    if rows.len() == 0 {
        0
    } else {
        cleared_below(rows.drop_last(), t) + if rows.last() > t {
            1int
        } else {
            0int
        }
    }
}

/// Whether `after` is `before` with all of `rows` taken out at once: the
/// walls stay, each surviving interior row sinks by the number of cleared
/// rows below it, and as many rows as were cleared are empty at the top.
#[verifier::opaque]
pub open spec fn is_compaction(
    before: Seq<CellState>,
    after: Seq<CellState>,
    rows: Seq<usize>,
) -> bool {
    &&& after.len() == before.len()
    &&& forall|x: int, y: int|
        in_bounds(x, y) && !is_interior(x, y) ==> grid_at(after, x, y) == #[trigger] grid_at(
            before,
            x,
            y,
        )
    &&& forall|x: int, y: int|
        1 <= x < 11 && 0 <= y < rows.len() ==> #[trigger] grid_at(after, x, y) == CellState::Empty
    &&& forall|x: int, t: int|
        1 <= x < 11 && 0 <= t < 17 && !rows.contains(t as usize) ==> grid_at(
            after,
            x,
            t + cleared_below(rows, t),
        ) == #[trigger] grid_at(before, x, t)
}

/// Marking interior rows keeps the walls where they are.
pub proof fn lemma_marked_grid_wf(grid: Seq<CellState>, rows: Seq<usize>)
    requires
        grid_wf(grid),
        forall|i: int| 0 <= i < rows.len() ==> rows[i] < 17,
    ensures
        grid_wf(marked_grid(grid, rows)),
{
    let after = marked_grid(grid, rows);
    assert forall|x: int, y: int| in_bounds(x, y) implies (is_border(x, y) <==> #[trigger] grid_at(
        after,
        x,
        y,
    ) == CellState::Wall) by {
        let i = y * 12 + x;
        assert(i % 12 == x && i / 12 == y);
        assert(grid_at(grid, x, y) == CellState::Wall <==> is_border(x, y));
        if rows.contains(y as usize) {
            let k = choose|k: int| 0 <= k < rows.len() && rows[k] == y as usize;
            assert(rows[k] < 17);
        }
    }
}

/// Taking out an interior row keeps the walls where they are.
pub proof fn lemma_row_removed_wf(grid: Seq<CellState>, row: int)
    requires
        grid_wf(grid),
        0 <= row < 17,
    ensures
        grid_wf(row_removed(grid, row)),
{
    let after = row_removed(grid, row);
    assert forall|x: int, y: int| in_bounds(x, y) implies (is_border(x, y) <==> #[trigger] grid_at(
        after,
        x,
        y,
    ) == CellState::Wall) by {
        let i = y * 12 + x;
        assert(i % 12 == x && i / 12 == y);
        assert(grid_at(grid, x, y) == CellState::Wall <==> is_border(x, y));
        if 1 <= x < 11 && 0 < y <= row {
            assert(grid_at(grid, x, y - 1) == CellState::Wall <==> is_border(x, y - 1));
            assert((y - 1) * 12 + x == i - 12);
        }
    }
}

/// Among rows listed from the top down that all lie above `bound`, at most
/// `bound - 1 - t` lie below row `t`.
proof fn lemma_cleared_below_bound(rows: Seq<usize>, t: int, bound: int)
    requires
        ascending_rows(rows),
        forall|i: int| 0 <= i < rows.len() ==> rows[i] < bound,
        t < bound,
    ensures
        0 <= cleared_below(rows, t) <= bound - 1 - t,
    decreases rows.len(),
{
    if rows.len() > 0 {
        let rest = rows.drop_last();
        let last = rows.last() as int;
        if last > t {
            lemma_cleared_below_bound(rest, t, last);
        } else {
            lemma_cleared_below_bound(rest, t, t + 1);
        }
    }
}

/// Every listed row lies below a row above the grid.
proof fn lemma_cleared_below_counts_all(rows: Seq<usize>, t: int)
    requires
        t < 0,
    ensures
        cleared_below(rows, t) == rows.len(),
    decreases rows.len(),
{
    if rows.len() > 0 {
        lemma_cleared_below_counts_all(rows.drop_last(), t);
    }
}

/// Taking out one more row, below all those already taken out, gives the
/// grid with all of them taken out at once.
proof fn lemma_compaction_step(
    before: Seq<CellState>,
    mid: Seq<CellState>,
    done: Seq<usize>,
    row: usize,
)
    requires
        before.len() == 216,
        is_compaction(before, mid, done),
        ascending_rows(done.push(row)),
    ensures
        is_compaction(before, row_removed(mid, row as int), done.push(row)),
{
    reveal(is_compaction);
    let rows = done.push(row);
    let after = row_removed(mid, row as int);
    assert(rows.drop_last() =~= done);
    assert(rows.last() == row);
    assert(rows[done.len() as int] == row);
    assert forall|i: int| 0 <= i < done.len() implies done[i] < row by {
        assert(rows[i] == done[i]);
    }
    assert(ascending_rows(done)) by {
        assert forall|i: int| 0 <= i < done.len() implies #[trigger] done[i] < 17 by {
            assert(rows[i] == done[i]);
        }
        assert forall|i: int, j: int| 0 <= i < j < done.len() implies done[i] < done[j] by {
            assert(rows[i] == done[i] && rows[j] == done[j]);
        }
    }
    lemma_cleared_below_counts_all(done, -1);
    lemma_cleared_below_bound(done, -1, row as int);
    assert(done.len() <= row);

    assert forall|x: int, y: int| in_bounds(x, y) && !is_interior(x, y) implies grid_at(
        after,
        x,
        y,
    ) == #[trigger] grid_at(before, x, y) by {
        let i = y * 12 + x;
        assert(i % 12 == x && i / 12 == y);
        assert(grid_at(mid, x, y) == grid_at(before, x, y));
    }
    assert forall|x: int, y: int| 1 <= x < 11 && 0 <= y < rows.len() implies #[trigger] grid_at(
        after,
        x,
        y,
    ) == CellState::Empty by {
        let i = y * 12 + x;
        assert(i % 12 == x && i / 12 == y);
        if y > 0 {
            assert(grid_at(mid, x, y - 1) == CellState::Empty);
            assert((y - 1) * 12 + x == i - 12);
        }
    }
    assert forall|x: int, t: int|
        1 <= x < 11 && 0 <= t < 17 && !rows.contains(t as usize) implies grid_at(
        after,
        x,
        t + cleared_below(rows, t),
    ) == #[trigger] grid_at(before, x, t) by {
        assert(t != row);
        assert(!done.contains(t as usize)) by {
            if done.contains(t as usize) {
                let k = choose|k: int| 0 <= k < done.len() && done[k] == t as usize;
                assert(rows[k] == t as usize);
            }
        }
        assert(grid_at(mid, x, t + cleared_below(done, t)) == grid_at(before, x, t));
        if t > row {
            lemma_cleared_below_bound(done, t, t + 1);
            let i = t * 12 + x;
            assert(i % 12 == x && i / 12 == t);
        } else {
            lemma_cleared_below_bound(done, t, row as int);
            let y = t + cleared_below(done, t) + 1;
            let i = y * 12 + x;
            assert(i % 12 == x && i / 12 == y);
            assert((y - 1) * 12 + x == i - 12);
        }
    }
}

/// Taking rows out one after the other, from the top down, gives the same
/// grid as taking them all out at once, whether or not the rows are next to
/// each other.
pub proof fn law_removing_rows_in_turn_is_compaction(grid: Seq<CellState>, rows: Seq<usize>)
    requires
        grid.len() == 216,
        ascending_rows(rows),
    ensures
        is_compaction(grid, rows_removed(grid, rows), rows),
    decreases rows.len(),
{
    if rows.len() == 0 {
        reveal(is_compaction);
    } else {
        let rest = rows.drop_last();
        assert(rest.push(rows.last()) =~= rows);
        assert(ascending_rows(rest)) by {
            assert forall|i: int| 0 <= i < rest.len() implies #[trigger] rest[i] < 17 by {
                assert(rest[i] == rows[i]);
            }
            assert forall|i: int, j: int| 0 <= i < j < rest.len() implies rest[i] < rest[j] by {
                assert(rest[i] == rows[i] && rest[j] == rows[j]);
            }
        }
        law_removing_rows_in_turn_is_compaction(grid, rest);
        lemma_compaction_step(grid, rows_removed(grid, rest), rest, rows.last());
    }
}

/// Taking rows out, from the top down, keeps the walls where they are.
pub proof fn lemma_rows_removed_wf(grid: Seq<CellState>, rows: Seq<usize>)
    requires
        grid_wf(grid),
        forall|i: int| 0 <= i < rows.len() ==> rows[i] < 17,
    ensures
        grid_wf(rows_removed(grid, rows)),
    decreases rows.len(),
{
    if rows.len() > 0 {
        let rest = rows.drop_last();
        assert forall|i: int| 0 <= i < rest.len() implies rest[i] < 17 by {
            assert(rest[i] == rows[i]);
        }
        lemma_rows_removed_wf(grid, rest);
        lemma_row_removed_wf(rows_removed(grid, rest), rows.last() as int);
    }
}

/// After a compaction every row beneath the emptied top rows holds a
/// surviving row of the grid before: the row that this function returns.
pub proof fn law_compaction_accounts_for_every_row(rows: Seq<usize>, y: int) -> (t: int)
    requires
        ascending_rows(rows),
        rows.len() <= y < 17,
    ensures
        0 <= t < 17,
        !rows.contains(t as usize),
        t + cleared_below(rows, t) == y,
    decreases rows.len(),
{
    if rows.len() == 0 {
        y
    } else {
        let rest = rows.drop_last();
        let last = rows.last() as int;
        assert forall|i: int| 0 <= i < rest.len() implies rest[i] < last by {
            assert(rest[i] == rows[i]);
        }
        if y > last {
            lemma_cleared_below_bound(rest, y, y + 1);
            assert(!rows.contains(y as usize)) by {
                if rows.contains(y as usize) {
                    let k = choose|k: int| 0 <= k < rows.len() && rows[k] == y as usize;
                    assert(rows[k] <= rows.last());
                }
            }
            y
        } else {
            let t = law_compaction_accounts_for_every_row(rest, y - 1);
            lemma_cleared_below_bound(rest, t, 17);
            assert(!rows.contains(t as usize)) by {
                if rows.contains(t as usize) {
                    let k = choose|k: int| 0 <= k < rows.len() && rows[k] == t as usize;
                    if k < rest.len() {
                        assert(rest[k] == t as usize);
                    }
                }
            }
            t
        }
    }
}

/// Compaction never makes a row full by copying: a row that is full
/// afterwards is a surviving row that was full before, moved down. So when
/// every full row was among those taken out, no full row is left.
pub proof fn law_compaction_creates_no_full_row(
    before: Seq<CellState>,
    after: Seq<CellState>,
    rows: Seq<usize>,
)
    requires
        grid_wf(before),
        ascending_rows(rows),
        is_compaction(before, after, rows),
    ensures
        forall|y: int|
            0 <= y < 17 && #[trigger] row_full(after, y) ==> exists|t: int|
                0 <= t < 17 && !rows.contains(t as usize) && t + cleared_below(rows, t) == y
                    && #[trigger] row_full(before, t),
        (forall|t: int| 0 <= t < 17 && #[trigger] row_full(before, t) ==> rows.contains(t as usize))
            ==> forall|y: int| 0 <= y < 17 ==> !#[trigger] row_full(after, y),
{
    reveal(is_compaction);
    assert forall|y: int| 0 <= y < 17 && #[trigger] row_full(after, y) implies exists|t: int|
        0 <= t < 17 && !rows.contains(t as usize) && t + cleared_below(rows, t) == y
            && #[trigger] row_full(before, t) by {
        if y < rows.len() {
            assert(grid_at(after, 1, y) == CellState::Empty);
        } else {
            let t = law_compaction_accounts_for_every_row(rows, y);
            assert forall|x: int| 1 <= x < 11 implies #[trigger] grid_at(before, x, t)
                != CellState::Empty by {
                assert(grid_at(after, x, t + cleared_below(rows, t)) == grid_at(before, x, t));
            }
            assert(row_full(before, t));
        }
    }
}

/// The playing field.
#[derive(Debug)]
pub struct Board {
    cells: Vec<CellState>,
}

impl View for Board {
    type V = Seq<CellState>;

    /// The cells in row-major order, top row first.
    closed spec fn view(&self) -> Seq<CellState> {
        self.cells@
    }
}

impl Board {
    /// The cell at column `x`, row `y`.
    pub open spec fn at(&self, x: int, y: int) -> CellState {
        grid_at(self@, x, y)
    }

    /// The board's invariant: see [`grid_wf`].
    pub open spec fn wf(&self) -> bool {
        grid_wf(self@)
    }

    /// A board with its walls and nothing else.
    pub fn new() -> (board: Board)
        ensures
            board.wf(),
            board@ == empty_grid(),
    {
        let mut cells: Vec<CellState> = Vec::new();
        let mut i: usize = 0;
        while i < BOARD_CELLS
            invariant
                i <= 216,
                cells@.len() == i,
                forall|k: int| 0 <= k < i ==> cells@[k] == empty_grid()[k],
            decreases 216 - i,
        {
            let x: usize = i % BOARD_WIDTH;
            let y: usize = i / BOARD_WIDTH;
            let cell = if x == 0 || x == BOARD_WIDTH - 1 || y == BOARD_HEIGHT - 1 {
                CellState::Wall
            } else {
                CellState::Empty
            };
            cells.push(cell);
            i += 1;
        }
        let board = Board { cells };
        assert(board@ =~= empty_grid());
        assert forall|x: int, y: int| in_bounds(x, y) implies (is_border(x, y) <==> #[trigger] grid_at(
            board@,
            x,
            y,
        ) == CellState::Wall) by {
            let i = y * 12 + x;
            assert(i % 12 == x && i / 12 == y);
        }
        board
    }

    /// Reads the cell at column `x`, row `y`.
    pub fn cell(&self, x: usize, y: usize) -> (state: CellState)
        requires
            self.wf(),
            in_bounds(x as int, y as int),
        ensures
            state == self.at(x as int, y as int),
    {
        self.cells[y * BOARD_WIDTH + x]
    }

    /// Whether the cell at `(x, y)` blocks a piece: true unless the cell is
    /// exactly [`CellState::Empty`]. Walls, locked blocks and marked cells
    /// all block.
    pub fn is_wall_or_locked(&self, x: usize, y: usize) -> (blocked: bool)
        requires
            self.wf(),
            in_bounds(x as int, y as int),
        ensures
            blocked == (self.at(x as int, y as int) != CellState::Empty),
    {
        match self.cells[y * BOARD_WIDTH + x] {
            CellState::Empty => false,
            _ => true,
        }
    }

    /// Locks a piece into the grid: every cell under a solid cell of the
    /// piece becomes a locked block of its kind, every other cell stays as it
    /// was. The piece must fit where it is locked.
    pub fn lock(&mut self, kind: PieceKind, orientation: usize, ax: i16, ay: i16)
        requires
            old(self).wf(),
            placeable(old(self)@, kind, orientation as int, ax as int, ay as int),
        ensures
            final(self).wf(),
            final(self)@ == locked_grid(old(self)@, kind, orientation as int, ax as int, ay as int),
    {
        let mut n: usize = 0;
        while n < 16
            invariant
                n <= 16,
                old(self).wf(),
                placeable(old(self)@, kind, orientation as int, ax as int, ay as int),
                self@ == partly_locked(
                    old(self)@,
                    kind,
                    orientation as int,
                    ax as int,
                    ay as int,
                    n as int,
                ),
            decreases 16 - n,
        {
            let lx: usize = n % 4;
            let ly: usize = n / 4;
            if is_solid(kind, orientation, lx, ly) {
                assert(in_bounds(ax + lx, ay + ly));
                let x: usize = (ax as i32 + lx as i32) as usize;
                let y: usize = (ay as i32 + ly as i32) as usize;
                let ghost before = self@;
                self.cells.set(y * BOARD_WIDTH + x, CellState::Locked(kind));
                assert(self@ =~= partly_locked(
                    old(self)@,
                    kind,
                    orientation as int,
                    ax as int,
                    ay as int,
                    n + 1,
                )) by {
                    let target = y * 12 + x;
                    assert(target % 12 == x && target / 12 == y);
                    assert forall|i: int| 0 <= i < 216 implies self@[i] == partly_locked(
                        old(self)@,
                        kind,
                        orientation as int,
                        ax as int,
                        ay as int,
                        n + 1,
                    )[i] by {
                        if i != target {
                            assert(self@[i] == before[i]);
                            assert(i == (i / 12) * 12 + i % 12);
                        }
                    }
                }
            } else {
                assert(self@ =~= partly_locked(
                    old(self)@,
                    kind,
                    orientation as int,
                    ax as int,
                    ay as int,
                    n + 1,
                )) by {
                    assert forall|i: int| 0 <= i < 216 implies self@[i] == partly_locked(
                        old(self)@,
                        kind,
                        orientation as int,
                        ax as int,
                        ay as int,
                        n + 1,
                    )[i] by {
                        let cx = i % 12 - ax;
                        let cy = i / 12 - ay;
                        if covers(kind, orientation as int, ax as int, ay as int, i % 12, i / 12)
                            && cy * 4 + cx == n {
                            assert(cx == lx && cy == ly);
                        }
                    }
                }
            }
            n += 1;
        }
        proof {
            assert(self@ =~= locked_grid(
                old(self)@,
                kind,
                orientation as int,
                ax as int,
                ay as int,
            ));
            lemma_locked_grid_wf(old(self)@, kind, orientation as int, ax as int, ay as int);
        }
    }

    /// Whether interior row `y` is full.
    pub fn is_row_full(&self, y: usize) -> (full: bool)
        requires
            self.wf(),
            y < 17,
        ensures
            full == row_full(self@, y as int),
    {
        let mut x: usize = 1;
        while x < BOARD_WIDTH - 1
            invariant
                1 <= x <= 11,
                y < 17,
                self.wf(),
                forall|cx: int| 1 <= cx < x ==> #[trigger] grid_at(self@, cx, y as int)
                    != CellState::Empty,
            decreases 11 - x,
        {
            if !self.is_wall_or_locked(x, y) {
                assert(grid_at(self@, x as int, y as int) == CellState::Empty);
                return false;
            }
            x += 1;
        }
        true
    }

    /// Lists the full rows among the interior rows `start..end`, from the
    /// top down. The bottom wall is never listed, and rows past it are not
    /// looked at.
    pub fn scan_full_rows(&self, start: usize, end: usize) -> (rows: Vec<usize>)
        requires
            self.wf(),
        ensures
            rows@ == full_rows_in(self@, start as int, end as int),
            lists_full_rows(self@, start as int, end as int, rows@),
    {
        let stop: usize = if end < BOARD_HEIGHT - 1 {
            end
        } else {
            BOARD_HEIGHT - 1
        };
        let mut rows: Vec<usize> = Vec::new();
        let mut y: usize = start;
        while y < stop
            invariant
                start <= y,
                y <= stop || y == start,
                stop <= 17,
                stop <= end,
                stop == end || stop == 17,
                self.wf(),
                rows@ == full_rows_in(self@, start as int, y as int),
            decreases stop - y,
        {
            if self.is_row_full(y) {
                rows.push(y);
            }
            y += 1;
        }
        proof {
            if stop == 17 {
                lemma_full_rows_stop_at_wall(self@, start as int, end as int);
            }
            law_full_rows_are_listed(self@, start as int, end as int);
        }
        rows
    }

    /// Marks the interior cells of each row in `rows` for clearing. Nothing
    /// else changes.
    pub fn mark_for_clear(&mut self, rows: &Vec<usize>)
        requires
            old(self).wf(),
            forall|i: int| 0 <= i < rows@.len() ==> rows@[i] < 17,
        ensures
            final(self).wf(),
            final(self)@ == marked_grid(old(self)@, rows@),
    {
        let mut k: usize = 0;
        while k < rows.len()
            invariant
                k <= rows@.len(),
                forall|i: int| 0 <= i < rows@.len() ==> rows@[i] < 17,
                self@ == marked_grid(old(self)@, rows@.take(k as int)),
                old(self)@.len() == 216,
            decreases rows@.len() - k,
        {
            let y: usize = rows[k];
            let ghost done = rows@.take(k as int);
            let ghost next = rows@.take(k + 1);
            assert(next =~= done.push(y));
            assert forall|r: usize| next.contains(r) <==> done.contains(r) || r == y by {
                if done.contains(r) {
                    let j = choose|j: int| 0 <= j < done.len() && done[j] == r;
                    assert(next[j] == r);
                }
                assert(next[k as int] == y);
            }
            let mut x: usize = 1;
            while x < BOARD_WIDTH - 1
                invariant
                    1 <= x <= 11,
                    y < 17,
                    old(self)@.len() == 216,
                    self@.len() == 216,
                    forall|r: usize| next.contains(r) <==> done.contains(r) || r == y,
                    forall|i: int|
                        0 <= i < 216 ==> #[trigger] self@[i] == if 1 <= i % 12 < 11 && (
                        done.contains((i / 12) as usize) || (i / 12 == y && i % 12 < x)) {
                            CellState::MarkedForClear
                        } else {
                            old(self)@[i]
                        },
                decreases 11 - x,
            {
                let ghost target = y * 12 + x;
                assert(target % 12 == x && target / 12 == y);
                self.cells.set(y * BOARD_WIDTH + x, CellState::MarkedForClear);
                x += 1;
            }
            assert(self@ =~= marked_grid(old(self)@, next));
            k += 1;
        }
        proof {
            assert(rows@.take(rows@.len() as int) =~= rows@);
            lemma_marked_grid_wf(old(self)@, rows@);
        }
    }

    /// Takes out interior row `row`: every interior row above it moves down
    /// by one, and the top row is emptied.
    pub fn remove_row(&mut self, row: usize)
        requires
            old(self).wf(),
            row < 17,
        ensures
            final(self).wf(),
            final(self)@ == row_removed(old(self)@, row as int),
    {
        let mut x: usize = 1;
        while x < BOARD_WIDTH - 1
            invariant
                1 <= x <= 11,
                row < 17,
                old(self)@.len() == 216,
                self@.len() == 216,
                forall|i: int|
                    0 <= i < 216 ==> #[trigger] self@[i] == if i % 12 < x {
                        row_removed(old(self)@, row as int)[i]
                    } else {
                        old(self)@[i]
                    },
            decreases 11 - x,
        {
            let mut y: usize = row;
            while y > 0
                invariant
                    1 <= x < 11,
                    y <= row < 17,
                    old(self)@.len() == 216,
                    self@.len() == 216,
                    forall|i: int|
                        0 <= i < 216 ==> #[trigger] self@[i] == if i % 12 < x || (i % 12 == x && y
                            < i / 12) {
                            row_removed(old(self)@, row as int)[i]
                        } else {
                            old(self)@[i]
                        },
                decreases y,
            {
                let ghost target = y * 12 + x;
                assert(target % 12 == x && target / 12 == y);
                assert((target - 12) % 12 == x && (target - 12) / 12 == y - 1);
                let above = self.cells[(y - 1) * BOARD_WIDTH + x];
                self.cells.set(y * BOARD_WIDTH + x, above);
                y -= 1;
            }
            assert(x as int % 12 == x && x as int / 12 == 0);
            self.cells.set(x, CellState::Empty);
            x += 1;
        }
        proof {
            assert(self@ =~= row_removed(old(self)@, row as int));
            lemma_row_removed_wf(old(self)@, row as int);
        }
    }

    /// Takes out every row in `rows`, one after the other from the top
    /// down. The result is the grid with all of them taken out at once:
    /// see [`is_compaction`].
    pub fn compact(&mut self, rows: &Vec<usize>)
        requires
            old(self).wf(),
            ascending_rows(rows@),
        ensures
            final(self).wf(),
            final(self)@ == rows_removed(old(self)@, rows@),
            is_compaction(old(self)@, final(self)@, rows@),
    {
        let mut k: usize = 0;
        assert(is_compaction(old(self)@, self@, rows@.take(0))) by {
            reveal(is_compaction);
            assert(rows@.take(0).len() == 0);
        }
        while k < rows.len()
            invariant
                k <= rows@.len(),
                ascending_rows(rows@),
                old(self)@.len() == 216,
                self.wf(),
                self@ == rows_removed(old(self)@, rows@.take(k as int)),
                is_compaction(old(self)@, self@, rows@.take(k as int)),
            decreases rows@.len() - k,
        {
            let row: usize = rows[k];
            proof {
                assert(rows@.take(k + 1) =~= rows@.take(k as int).push(row));
                assert(rows@.take(k + 1).drop_last() =~= rows@.take(k as int));
                lemma_compaction_step(old(self)@, self@, rows@.take(k as int), row);
            }
            self.remove_row(row);
            k += 1;
        }
        assert(rows@.take(rows@.len() as int) =~= rows@);
    }

    /// Puts a locked block of `kind` into the interior cell `(x, y)`,
    /// whatever the cell held before.
    pub fn place_block(&mut self, x: usize, y: usize, kind: PieceKind)
        requires
            old(self).wf(),
            is_interior(x as int, y as int),
        ensures
            final(self).wf(),
            final(self)@ == old(self)@.update(y * 12 + x, CellState::Locked(kind)),
    {
        self.cells.set(y * BOARD_WIDTH + x, CellState::Locked(kind));
        assert forall|cx: int, cy: int| in_bounds(cx, cy) implies (is_border(cx, cy) <==> #[trigger] grid_at(
            self@,
            cx,
            cy,
        ) == CellState::Wall) by {
            assert(grid_at(old(self)@, cx, cy) == CellState::Wall <==> is_border(cx, cy));
        }
    }
}

} // verus!
