//! The state machine of a game: spawn, fall, lock, clear, and game over.
//!
//! One call of [`SimulationController::advance`] is one tick. The caller
//! decides how long a tick lasts and which command it carries; the
//! controller decides what the command and gravity do to the game.
//!
//! Two rules may surprise: a blocked soft drop does nothing, so only gravity
//! locks a piece; and the bonus for cleared rows doubles with each row.

use crate::board::{
    ascending_rows, full_rows_in, grid_at, grid_wf, in_bounds, law_compaction_creates_no_full_row,
    law_full_rows_are_listed, law_removing_rows_in_turn_is_compaction, lemma_full_rows_len,
    lemma_full_rows_start_at_top, lemma_locked_grid_wf, lemma_marked_grid_wf,
    lemma_rows_removed_wf, locked_grid, marked_grid, placeable, row_full, rows_removed, Board,
    CellState,
};
use crate::catalog::{law_every_orientation_is_solid, occupied, PieceKind, KIND_COUNT};
use crate::piece::{can_place, ActivePiece, SPAWN_X, SPAWN_Y};
use crate::score::{line_bonus, ScoreTracker, PIECE_POINTS};
use vstd::arithmetic::power2::lemma2_to64;
use vstd::prelude::*;

verus! {

/// The most that one tick can add to the score: a piece and four rows.
pub const MAX_AWARD: u64 = 1625;

/// What the player asks for during one tick.
#[derive(Clone, Copy, Debug, PartialEq, Eq, Structural)]
pub enum Command {
    MoveLeft,
    MoveRight,
    SoftDrop,
    Rotate,
    /// No key is held.
    Idle,
}

/// Where the controller stands between two ticks.
#[derive(Clone, Copy, Debug, PartialEq, Eq, Structural)]
pub enum Phase {
    /// No piece is in play; the next piece is about to enter.
    Spawning,
    /// A piece is in play.
    Falling,
    /// A piece was locked and filled rows, which are marked and shown for
    /// one tick before they are taken out.
    LineClearing,
    /// A piece could not enter. Nothing changes any more.
    GameOver,
}

/// The state of a game as a front end sees it.
#[derive(Clone, Copy, Debug, PartialEq, Eq, Structural)]
pub enum SimulationState {
    Active,
    GameOver,
}

/// The controller as a plain value: what its contracts speak of.
pub struct SimulationView {
    /// The cells of the board, row-major.
    pub grid: Seq<CellState>,
    /// The piece in play. It means something only while the phase is
    /// [`Phase::Falling`].
    pub piece: ActivePiece,
    /// The points awarded so far.
    pub score: nat,
    pub phase: Phase,
    /// The rows that are marked and wait to be taken out.
    pub marked: Seq<usize>,
    /// Whether the last command was a rotation: a rotation that follows
    /// another without a break is ignored.
    pub rotate_held: bool,
    /// Ticks spent falling since gravity last pulled.
    pub ticks: usize,
    /// Gravity pulls on every `speed`-th tick spent falling.
    pub speed: usize,
}

/// The invariant of a game.
pub open spec fn view_wf(v: SimulationView) -> bool {
    &&& grid_wf(v.grid)
    &&& v.piece.wf()
    &&& ascending_rows(v.marked)
    &&& (v.phase == Phase::Falling ==> v.piece.fits(v.grid))
    &&& (v.phase == Phase::LineClearing <==> v.marked.len() > 0)
    &&& (v.ticks == 0 || v.ticks < v.speed)
}

/// `piece` after a try to move it by `(dx, dy)` on `grid`.
pub open spec fn try_move_of(
    grid: Seq<CellState>,
    piece: ActivePiece,
    dx: int,
    dy: int,
) -> ActivePiece {
    if placeable(grid, piece.kind, piece.orientation as int, piece.x + dx, piece.y + dy) {
        ActivePiece { x: (piece.x + dx) as i16, y: (piece.y + dy) as i16, ..piece }
    } else {
        piece
    }
}

/// `piece` after a try to turn it by a quarter turn on `grid`.
pub open spec fn try_rotate_of(grid: Seq<CellState>, piece: ActivePiece) -> ActivePiece {
    if placeable(grid, piece.kind, (piece.orientation + 1) % 4, piece.x as int, piece.y as int) {
        ActivePiece { orientation: ((piece.orientation + 1) % 4) as usize, ..piece }
    } else {
        piece
    }
}

/// The game after the player's command is applied to the falling piece.
/// A blocked move or turn changes nothing. A rotation is honoured only if
/// the command before it was not a rotation.
pub open spec fn after_command(v: SimulationView, command: Command) -> SimulationView {
    match command {
        Command::MoveLeft => SimulationView {
            piece: try_move_of(v.grid, v.piece, -1, 0),
            rotate_held: false,
            ..v
        },
        Command::MoveRight => SimulationView {
            piece: try_move_of(v.grid, v.piece, 1, 0),
            rotate_held: false,
            ..v
        },
        Command::SoftDrop => SimulationView {
            piece: try_move_of(v.grid, v.piece, 0, 1),
            rotate_held: false,
            ..v
        },
        Command::Rotate => SimulationView {
            piece: if v.rotate_held {
                v.piece
            } else {
                try_rotate_of(v.grid, v.piece)
            },
            rotate_held: true,
            ..v
        },
        Command::Idle => SimulationView { rotate_held: false, ..v },
    }
}

/// The game after the falling piece is locked where it stands: the piece
/// becomes part of the grid, the full rows among the four rows of its box
/// are marked, and the score grows by the points for the piece and the
/// bonus for the rows. With rows marked the phase is
/// [`Phase::LineClearing`], else [`Phase::Spawning`].
pub open spec fn after_lock(v: SimulationView) -> SimulationView {
    let locked = locked_grid(
        v.grid,
        v.piece.kind,
        v.piece.orientation as int,
        v.piece.x as int,
        v.piece.y as int,
    );
    let rows = full_rows_in(locked, v.piece.y as int, v.piece.y + 4);
    SimulationView {
        grid: marked_grid(locked, rows),
        score: v.score + PIECE_POINTS as nat + line_bonus(rows.len()),
        phase: if rows.len() > 0 {
            Phase::LineClearing
        } else {
            Phase::Spawning
        },
        marked: rows,
        ..v
    }
}

/// Whether gravity pulls on this tick.
pub open spec fn gravity_due(v: SimulationView) -> bool {
    v.ticks + 1 >= v.speed
}

/// The game after the clock part of a tick spent falling: the tick is
/// counted, and if gravity is due the piece moves down by one row, or is
/// locked if it cannot.
pub open spec fn after_gravity(v: SimulationView) -> SimulationView {
    if !gravity_due(v) {
        SimulationView { ticks: (v.ticks + 1) as usize, ..v }
    } else if placeable(
        v.grid,
        v.piece.kind,
        v.piece.orientation as int,
        v.piece.x as int,
        v.piece.y + 1,
    ) {
        SimulationView { piece: try_move_of(v.grid, v.piece, 0, 1), ticks: 0, ..v }
    } else {
        after_lock(SimulationView { ticks: 0, ..v })
    }
}

/// The game after one tick that carries `command`, up to the point where a
/// new piece would enter.
///
/// While a piece falls, the command is applied and then the clock. While
/// rows are marked, they are taken out and the phase becomes
/// [`Phase::Spawning`]; the command is not looked at. While the game waits
/// for a piece or is over, nothing changes.
pub open spec fn step_of(v: SimulationView, command: Command) -> SimulationView {
    match v.phase {
        Phase::Falling => after_gravity(after_command(v, command)),
        Phase::LineClearing => SimulationView {
            grid: rows_removed(v.grid, v.marked),
            marked: Seq::empty(),
            phase: Phase::Spawning,
            ..v
        },
        Phase::Spawning => v,
        Phase::GameOver => v,
    }
}

/// The game after a piece of `kind` tries to enter. While the phase is
/// [`Phase::Spawning`], the piece is put at the top, not turned; if it fits
/// it falls, and if not the game is over. In any other phase nothing
/// changes.
pub open spec fn spawn_of(v: SimulationView, kind: PieceKind) -> SimulationView {
    if v.phase == Phase::Spawning {
        let piece = ActivePiece { kind, orientation: 0, x: SPAWN_X, y: SPAWN_Y };
        SimulationView {
            piece,
            phase: if piece.fits(v.grid) {
                Phase::Falling
            } else {
                Phase::GameOver
            },
            ..v
        }
    } else {
        v
    }
}

/// Draws a number below `bound` with `rand`'s `Rng::gen_range(0..bound)` on
/// the thread's generator. The contract claims what holds of every draw: it
/// lies in the range. An empty range, on which the call panics, is left out.
#[verifier::external_body]
fn random_below(bound: u8) -> (i: u8)
    requires
        bound > 0,
    ensures
        i < bound,
{
    rand::Rng::gen_range(&mut rand::thread_rng(), 0..bound)
}

/// One game: the board, the piece in play, the score and the clock.
#[derive(Debug)]
pub struct SimulationController {
    board: Board,
    piece: ActivePiece,
    score: ScoreTracker,
    phase: Phase,
    marked: Vec<usize>,
    rotate_held: bool,
    ticks: usize,
    speed: usize,
}

impl View for SimulationController {
    type V = SimulationView;

    closed spec fn view(&self) -> SimulationView {
        SimulationView {
            grid: self.board@,
            piece: self.piece,
            score: self.score@,
            phase: self.phase,
            marked: self.marked@,
            rotate_held: self.rotate_held,
            ticks: self.ticks,
            speed: self.speed,
        }
    }
}

impl SimulationController {
    /// The invariant of a game: see [`view_wf`].
    pub open spec fn wf(&self) -> bool {
        view_wf(self@)
    }

    /// A game on an empty board that waits for its first piece. Gravity
    /// pulls on every `speed`-th tick; a speed of 0 counts as 1.
    pub fn new(speed: usize) -> (game: SimulationController)
        ensures
            game.wf(),
            game@.grid == crate::board::empty_grid(),
            game@.score == 0,
            game@.phase == Phase::Spawning,
            game@.marked.len() == 0,
            !game@.rotate_held,
            game@.ticks == 0,
            game@.speed == speed,
    {
        SimulationController::from_board(Board::new(), speed)
    }

    /// A game on a board that already holds blocks, waiting for its first
    /// piece.
    pub fn from_board(board: Board, speed: usize) -> (game: SimulationController)
        requires
            board.wf(),
        ensures
            game.wf(),
            game@.grid == board@,
            game@.score == 0,
            game@.phase == Phase::Spawning,
            game@.marked.len() == 0,
            !game@.rotate_held,
            game@.ticks == 0,
            game@.speed == speed,
    {
        SimulationController {
            board,
            piece: ActivePiece::spawn(PieceKind::I),
            score: ScoreTracker::new(),
            phase: Phase::Spawning,
            marked: Vec::new(),
            rotate_held: false,
            ticks: 0,
            speed,
        }
    }

    /// The board, for drawing.
    pub fn board(&self) -> (board: &Board)
        ensures
            board@ == self@.grid,
    {
        &self.board
    }

    /// The piece in play, if one is falling.
    pub fn active_piece(&self) -> (piece: Option<ActivePiece>)
        ensures
            piece == if self@.phase == Phase::Falling {
                Some(self@.piece)
            } else {
                None
            },
    {
        match self.phase {
            Phase::Falling => Some(self.piece),
            _ => None,
        }
    }

    /// The points awarded so far.
    pub fn score(&self) -> (points: u64)
        ensures
            points == self@.score,
    {
        self.score.total()
    }

    /// The phase between ticks.
    pub fn phase(&self) -> (phase: Phase)
        ensures
            phase == self@.phase,
    {
        self.phase
    }

    /// Whether the game still runs.
    pub fn state(&self) -> (state: SimulationState)
        ensures
            state == if self@.phase == Phase::GameOver {
                SimulationState::GameOver
            } else {
                SimulationState::Active
            },
    {
        match self.phase {
            Phase::GameOver => SimulationState::GameOver,
            _ => SimulationState::Active,
        }
    }

    /// The rows that are marked and wait to be taken out, from the top down.
    pub fn marked_rows(&self) -> (rows: &Vec<usize>)
        ensures
            rows@ == self@.marked,
    {
        &self.marked
    }

    /// Applies the player's command to the falling piece.
    fn apply(&mut self, command: Command)
        requires
            old(self).wf(),
            old(self)@.phase == Phase::Falling,
        ensures
            final(self)@ == after_command(old(self)@, command),
            final(self).wf(),
    {
        match command {
            Command::MoveLeft => {
                self.piece.try_move(&self.board, -1, 0);
                self.rotate_held = false;
            },
            Command::MoveRight => {
                self.piece.try_move(&self.board, 1, 0);
                self.rotate_held = false;
            },
            Command::SoftDrop => {
                self.piece.try_move(&self.board, 0, 1);
                self.rotate_held = false;
            },
            Command::Rotate => {
                if !self.rotate_held {
                    self.piece.try_rotate(&self.board);
                }
                self.rotate_held = true;
            },
            Command::Idle => {
                self.rotate_held = false;
            },
        }
    }

    /// Locks the falling piece, marks the rows it filled and awards the
    /// points.
    fn lock_piece(&mut self)
        requires
            old(self).wf(),
            old(self)@.phase == Phase::Falling,
            old(self)@.ticks == 0,
            old(self)@.score + MAX_AWARD <= u64::MAX,
        ensures
            final(self)@ == after_lock(old(self)@),
            final(self).wf(),
    {
        let piece = self.piece;
        self.board.lock(piece.kind, piece.orientation, piece.x, piece.y);
        let top: i32 = piece.y as i32;
        let start: usize = if top < 0 {
            0
        } else {
            top as usize
        };
        let end: usize = if top + 4 < 0 {
            0
        } else {
            (top + 4) as usize
        };
        let rows = self.board.scan_full_rows(start, end);
        proof {
            let locked = self.board@;
            if top < 0 {
                lemma_full_rows_start_at_top(locked, top as int, top + 4);
            }
            lemma_full_rows_len(locked, top as int, top + 4);
            law_full_rows_are_listed(locked, top as int, top + 4);
            lemma2_to64();
        }
        self.board.mark_for_clear(&rows);
        self.score.add_piece_locked();
        self.score.add_lines_cleared(rows.len());
        if rows.len() > 0 {
            self.phase = Phase::LineClearing;
        } else {
            self.phase = Phase::Spawning;
        }
        self.marked = rows;
    }

    /// Runs one tick up to the point where a new piece would enter: see
    /// [`step_of`]. A caller that picks the pieces itself follows this with
    /// [`SimulationController::spawn`] whenever the phase is
    /// [`Phase::Spawning`].
    pub fn step(&mut self, command: Command)
        requires
            old(self).wf(),
            old(self)@.score + MAX_AWARD <= u64::MAX,
        ensures
            final(self).wf(),
            final(self)@ == step_of(old(self)@, command),
    {
        match self.phase {
            Phase::Falling => {
                self.apply(command);
                if self.ticks + 1 >= self.speed {
                    self.ticks = 0;
                    if !self.piece.try_move(&self.board, 0, 1) {
                        self.lock_piece();
                    }
                } else {
                    self.ticks = self.ticks + 1;
                }
            },
            Phase::LineClearing => {
                self.board.compact(&self.marked);
                self.marked = Vec::new();
                self.phase = Phase::Spawning;
            },
            Phase::Spawning => {},
            Phase::GameOver => {},
        }
    }

    /// Lets a piece of `kind` enter if the game waits for one: see
    /// [`spawn_of`]. The game is over if the piece does not fit; the score
    /// stays as it was either way.
    pub fn spawn(&mut self, kind: PieceKind)
        requires
            old(self).wf(),
        ensures
            final(self).wf(),
            final(self)@ == spawn_of(old(self)@, kind),
    {
        match self.phase {
            Phase::Spawning => {
                self.piece = ActivePiece::spawn(kind);
                if can_place(&self.board, kind, 0, SPAWN_X, SPAWN_Y) {
                    self.phase = Phase::Falling;
                } else {
                    self.phase = Phase::GameOver;
                }
            },
            _ => {},
        }
    }

    /// Runs one whole tick: [`SimulationController::step`], and then, if the
    /// game waits for a piece, a piece of a kind drawn at random enters.
    /// Which kind is drawn is not known beforehand, so the contract holds
    /// for whichever it was.
    pub fn advance(&mut self, command: Command)
        requires
            old(self).wf(),
            old(self)@.score + MAX_AWARD <= u64::MAX,
        ensures
            final(self).wf(),
            exists|kind: PieceKind| final(self)@ == spawn_of(step_of(old(self)@, command), kind),
            step_of(old(self)@, command).phase != Phase::Spawning ==> final(self)@ == step_of(
                old(self)@,
                command,
            ),
    {
        self.step(command);
        match self.phase {
            Phase::Spawning => {
                let kind = random_kind();
                self.spawn(kind);
                assert(self@ == spawn_of(step_of(old(self)@, command), kind));
            },
            _ => {
                assert(self@ == spawn_of(step_of(old(self)@, command), PieceKind::I));
            },
        }
    }
}

/// Draws a piece kind at random, each of the seven as likely as the others.
pub fn random_kind() -> (kind: PieceKind) {
    match PieceKind::from_index(random_below(KIND_COUNT)) {
        Some(kind) => kind,
        None => unreached(),
    }
}

/// Whether the grid of a game holds no full row that the game does not know
/// of: none at all while no rows are marked, and none but the marked rows
/// while rows wait to be taken out.
pub open spec fn view_settled(v: SimulationView) -> bool {
    forall|y: int|
        0 <= y < 17 && #[trigger] row_full(v.grid, y) ==> v.marked.contains(y as usize)
}

/// A tick keeps the invariant of a game, whatever the command and whichever
/// piece enters.
pub proof fn law_tick_keeps_invariant(v: SimulationView, command: Command, kind: PieceKind)
    requires
        view_wf(v),
    ensures
        view_wf(step_of(v, command)),
        view_wf(spawn_of(v, kind)),
        view_wf(spawn_of(step_of(v, command), kind)),
{
    lemma_step_keeps_invariant(v, command);
}

proof fn lemma_command_keeps_invariant(v: SimulationView, command: Command)
    requires
        view_wf(v),
        v.phase == Phase::Falling,
    ensures
        view_wf(after_command(v, command)),
        after_command(v, command).grid == v.grid,
        after_command(v, command).phase == v.phase,
        after_command(v, command).marked == v.marked,
        after_command(v, command).score == v.score,
        after_command(v, command).ticks == v.ticks,
        after_command(v, command).speed == v.speed,
{
    let p = v.piece;
    if placeable(v.grid, p.kind, p.orientation as int, p.x - 1, p.y + 0) {
        lemma_moved_piece_in_range(v.grid, p, -1, 0);
    }
    if placeable(v.grid, p.kind, p.orientation as int, p.x + 1, p.y + 0) {
        lemma_moved_piece_in_range(v.grid, p, 1, 0);
    }
    if placeable(v.grid, p.kind, p.orientation as int, p.x + 0, p.y + 1) {
        lemma_moved_piece_in_range(v.grid, p, 0, 1);
    }
}

/// A piece that fits after a move has coordinates that the piece can hold.
proof fn lemma_moved_piece_in_range(grid: Seq<CellState>, piece: ActivePiece, dx: int, dy: int)
    requires
        placeable(grid, piece.kind, piece.orientation as int, piece.x + dx, piece.y + dy),
    ensures
        -4 < piece.x + dx < 12,
        -4 < piece.y + dy < 18,
        try_move_of(grid, piece, dx, dy).x == piece.x + dx,
        try_move_of(grid, piece, dx, dy).y == piece.y + dy,
        try_move_of(grid, piece, dx, dy).fits(grid),
{
    law_every_orientation_is_solid(piece.kind, piece.orientation as int);
    let (lx, ly) = choose|lx: int, ly: int| occupied(piece.kind, piece.orientation as int, lx, ly);
    assert(in_bounds(piece.x + dx + lx, piece.y + dy + ly));
}

proof fn lemma_lock_keeps_invariant(v: SimulationView)
    requires
        view_wf(v),
        v.phase == Phase::Falling,
        v.ticks == 0,
    ensures
        view_wf(after_lock(v)),
        view_settled(v) ==> view_settled(after_lock(v)),
{
    let p = v.piece;
    let locked = locked_grid(v.grid, p.kind, p.orientation as int, p.x as int, p.y as int);
    let rows = full_rows_in(locked, p.y as int, p.y + 4);
    lemma_locked_grid_wf(v.grid, p.kind, p.orientation as int, p.x as int, p.y as int);
    law_full_rows_are_listed(locked, p.y as int, p.y + 4);
    lemma_marked_grid_wf(locked, rows);
    if view_settled(v) {
        let after = marked_grid(locked, rows);
        assert forall|y: int| 0 <= y < 17 && #[trigger] row_full(after, y) implies rows.contains(
            y as usize,
        ) by {
            if !rows.contains(y as usize) {
                // The row was not marked, so it is as the lock left it.
                assert forall|x: int| 1 <= x < 11 implies #[trigger] grid_at(locked, x, y)
                    != CellState::Empty by {
                    let i = y * 12 + x;
                    assert(i % 12 == x && i / 12 == y);
                    assert(grid_at(after, x, y) != CellState::Empty);
                }
                assert(row_full(locked, y));
                // It lies outside the rows of the piece, so the lock left it alone.
                assert(!(p.y <= y < p.y + 4));
                assert forall|x: int| 1 <= x < 11 implies #[trigger] grid_at(v.grid, x, y)
                    != CellState::Empty by {
                    let i = y * 12 + x;
                    assert(i % 12 == x && i / 12 == y);
                    assert(grid_at(locked, x, y) != CellState::Empty);
                }
                assert(row_full(v.grid, y));
            }
        }
    }
}

proof fn lemma_step_keeps_invariant(v: SimulationView, command: Command)
    requires
        view_wf(v),
    ensures
        view_wf(step_of(v, command)),
        view_settled(v) ==> view_settled(step_of(v, command)),
{
    match v.phase {
        Phase::Falling => {
            lemma_command_keeps_invariant(v, command);
            let c = after_command(v, command);
            assert(view_settled(v) ==> view_settled(c));
            if gravity_due(c) {
                if placeable(
                    c.grid,
                    c.piece.kind,
                    c.piece.orientation as int,
                    c.piece.x as int,
                    c.piece.y + 1,
                ) {
                    lemma_moved_piece_in_range(c.grid, c.piece, 0, 1);
                } else {
                    lemma_lock_keeps_invariant(SimulationView { ticks: 0, ..c });
                }
            }
        },
        Phase::LineClearing => {
            lemma_rows_removed_wf(v.grid, v.marked);
            let after = rows_removed(v.grid, v.marked);
            assert(ascending_rows(Seq::<usize>::empty()));
            if view_settled(v) {
                law_removing_rows_in_turn_is_compaction(v.grid, v.marked);
                law_compaction_creates_no_full_row(v.grid, after, v.marked);
            }
        },
        Phase::Spawning => {},
        Phase::GameOver => {},
    }
}

/// No tick leaves a full row behind that the game does not know of: if the
/// grid was settled before the tick, it is settled after it. Together with
/// the invariant this says that rows are full only while they are marked.
pub proof fn law_tick_keeps_grid_settled(v: SimulationView, command: Command, kind: PieceKind)
    requires
        view_wf(v),
        view_settled(v),
    ensures
        view_settled(step_of(v, command)),
        view_settled(spawn_of(step_of(v, command), kind)),
{
    lemma_step_keeps_invariant(v, command);
}

/// A game that is over stays as it is: no tick and no piece changes it.
pub proof fn law_game_over_is_final(v: SimulationView, command: Command, kind: PieceKind)
    requires
        v.phase == Phase::GameOver,
    ensures
        step_of(v, command) == v,
        spawn_of(v, kind) == v,
{
}

/// The score never falls, and a piece that enters, or fails to enter,
/// leaves it as it was.
pub proof fn law_score_never_falls(v: SimulationView, command: Command, kind: PieceKind)
    ensures
        step_of(v, command).score >= v.score,
        spawn_of(v, kind).score == v.score,
{
}

/// Only gravity locks a piece: on a tick on which gravity is not due, the
/// grid, the score and the phase stay as they were, whatever the command,
/// even a soft drop that is blocked.
pub proof fn law_only_gravity_locks(v: SimulationView, command: Command)
    requires
        v.phase == Phase::Falling,
        !gravity_due(v),
    ensures
        step_of(v, command).grid == v.grid,
        step_of(v, command).score == v.score,
        step_of(v, command).phase == Phase::Falling,
{
}

/// A rotation that follows a rotation without a break is ignored: the piece
/// keeps its orientation through the command.
pub proof fn law_held_rotation_is_ignored(v: SimulationView)
    requires
        v.rotate_held,
    ensures
        after_command(v, Command::Rotate).piece == v.piece,
        after_command(v, Command::Rotate).rotate_held,
{
}

} // verus!
