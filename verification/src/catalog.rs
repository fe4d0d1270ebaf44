//! The seven piece shapes and the rotation algebra over their 4×4 masks.
//!
//! Each shape is stored once, at orientation 0, as sixteen cells in row-major
//! order. The three other orientations are never materialised: a closed-form
//! index maps a local coordinate in any orientation back into the stored mask.

use vstd::prelude::*;

verus! {

/// Side length of a piece's local bounding box.
pub const PIECE_SIZE: usize = 4;

/// Number of cells in a piece mask.
pub const MASK_LEN: usize = 16;

/// Number of piece kinds.
pub const KIND_COUNT: u8 = 7;

/// The seven shapes, in catalog order.
#[derive(Clone, Copy, Debug, PartialEq, Eq, Structural)]
pub enum PieceKind {
    I,
    T,
    O,
    Z,
    S,
    L,
    J,
}

/// The stored mask of `kind`: sixteen cells, row-major, `true` where the
/// shape is solid at orientation 0.
pub open spec fn mask_of(kind: PieceKind) -> Seq<bool> {
    match kind {
        PieceKind::I => seq![
            false, false, true, false,
            false, false, true, false,
            false, false, true, false,
            false, false, true, false,
        ],
        PieceKind::T => seq![
            false, false, true, false,
            false, true, true, false,
            false, false, true, false,
            false, false, false, false,
        ],
        PieceKind::O => seq![
            false, false, false, false,
            false, true, true, false,
            false, true, true, false,
            false, false, false, false,
        ],
        PieceKind::Z => seq![
            false, false, true, false,
            false, true, true, false,
            false, true, false, false,
            false, false, false, false,
        ],
        PieceKind::S => seq![
            false, true, false, false,
            false, true, true, false,
            false, false, true, false,
            false, false, false, false,
        ],
        PieceKind::L => seq![
            false, true, false, false,
            false, true, false, false,
            false, true, true, false,
            false, false, false, false,
        ],
        PieceKind::J => seq![
            false, false, true, false,
            false, false, true, false,
            false, true, true, false,
            false, false, false, false,
        ],
    }
}

/// The index into the stored mask that the local cell `(x, y)` reads at
/// `orientation`, one quarter turn per step.
pub open spec fn rotated_index_of(x: int, y: int, orientation: int) -> int {
    if orientation == 0 {
        y * 4 + x
    } else if orientation == 1 {
        12 + y - x * 4
    } else if orientation == 2 {
        15 - y * 4 - x
    } else {
        3 - y + x * 4
    }
}

/// Whether the local cell `(x, y)` of `kind` is solid at `orientation`.
/// Cells outside the 4×4 box are never solid.
pub open spec fn occupied(kind: PieceKind, orientation: int, x: int, y: int) -> bool {
    0 <= x < 4 && 0 <= y < 4 && mask_of(kind)[rotated_index_of(x, y, orientation % 4)]
}

/// Returns the stored mask of `kind`.
pub fn mask(kind: PieceKind) -> (m: [bool; 16])
    ensures
        m@ == mask_of(kind),
{
    let m: [bool; 16] = match kind {
        PieceKind::I => [
            false, false, true, false,
            false, false, true, false,
            false, false, true, false,
            false, false, true, false,
        ],
        PieceKind::T => [
            false, false, true, false,
            false, true, true, false,
            false, false, true, false,
            false, false, false, false,
        ],
        PieceKind::O => [
            false, false, false, false,
            false, true, true, false,
            false, true, true, false,
            false, false, false, false,
        ],
        PieceKind::Z => [
            false, false, true, false,
            false, true, true, false,
            false, true, false, false,
            false, false, false, false,
        ],
        PieceKind::S => [
            false, true, false, false,
            false, true, true, false,
            false, false, true, false,
            false, false, false, false,
        ],
        PieceKind::L => [
            false, true, false, false,
            false, true, false, false,
            false, true, true, false,
            false, false, false, false,
        ],
        PieceKind::J => [
            false, false, true, false,
            false, false, true, false,
            false, true, true, false,
            false, false, false, false,
        ],
    };
    assert(m@ =~= mask_of(kind));
    m
}

/// Maps a local cell and an orientation to an index into the stored mask.
pub fn rotated_index(x: usize, y: usize, orientation: usize) -> (index: usize)
    requires
        x < 4,
        y < 4,
        orientation < 4,
    ensures
        index == rotated_index_of(x as int, y as int, orientation as int),
        index < 16,
{
    if orientation == 0 {
        y * 4 + x
    } else if orientation == 1 {
        12 + y - x * 4
    } else if orientation == 2 {
        15 - y * 4 - x
    } else {
        3 - y + x * 4
    }
}

/// Maps a local cell and a turn count to an index into the stored mask.
/// The turn count may be any number: only its remainder by four matters.
pub fn rotate(px: i16, py: i16, r: usize) -> (index: usize)
    requires
        0 <= px < 4,
        0 <= py < 4,
    ensures
        index == rotated_index_of(px as int, py as int, (r % 4) as int),
        index < 16,
{
    rotated_index(px as usize, py as usize, r % 4)
}

/// Whether the local cell `(x, y)` of `kind` is solid after `orientation`
/// quarter turns.
pub fn is_solid(kind: PieceKind, orientation: usize, x: usize, y: usize) -> (solid: bool)
    requires
        x < 4,
        y < 4,
    ensures
        solid == occupied(kind, orientation as int, x as int, y as int),
{
    let m = mask(kind);
    m[rotated_index(x, y, orientation % 4)]
}

impl PieceKind {
    /// Position of the kind in the catalog.
    pub open spec fn index_of(self) -> int {
        match self {
            PieceKind::I => 0,
            PieceKind::T => 1,
            PieceKind::O => 2,
            PieceKind::Z => 3,
            PieceKind::S => 4,
            PieceKind::L => 5,
            PieceKind::J => 6,
        }
    }

    /// Position of the kind in the catalog, from 0 to 6.
    pub fn index(self) -> (i: u8)
        ensures
            i == self.index_of(),
            i < KIND_COUNT,
    {
        match self {
            PieceKind::I => 0,
            PieceKind::T => 1,
            PieceKind::O => 2,
            PieceKind::Z => 3,
            PieceKind::S => 4,
            PieceKind::L => 5,
            PieceKind::J => 6,
        }
    }

    /// The kind at catalog position `i`, if there is one.
    pub fn from_index(i: u8) -> (kind: Option<PieceKind>)
        ensures
            i < KIND_COUNT <==> kind.is_some(),
            kind matches Some(k) ==> k.index_of() == i,
    {
        match i {
            0 => Some(PieceKind::I),
            1 => Some(PieceKind::T),
            2 => Some(PieceKind::O),
            3 => Some(PieceKind::Z),
            4 => Some(PieceKind::S),
            5 => Some(PieceKind::L),
            6 => Some(PieceKind::J),
            _ => None,
        }
    }
}

/// The local cell that reads mask index `i` at `orientation`: the inverse of
/// [`rotated_index_of`].
pub open spec fn cell_of_index(i: int, orientation: int) -> (int, int) {
    if orientation == 0 {
        (i % 4, i / 4)
    } else if orientation == 1 {
        (3 - i / 4, i % 4)
    } else if orientation == 2 {
        ((15 - i) % 4, (15 - i) / 4)
    } else {
        (i / 4, 3 - i % 4)
    }
}

/// Every local cell of the 4×4 box reads an index inside the mask, whatever
/// the orientation.
pub proof fn law_rotated_index_in_range(x: int, y: int, orientation: int)
    requires
        0 <= x < 4,
        0 <= y < 4,
        0 <= orientation < 4,
    ensures
        0 <= rotated_index_of(x, y, orientation) < 16,
{
}

/// At a fixed orientation the index map is one-to-one and onto: going from a
/// cell to its index and back returns the cell, and going from an index to
/// its cell and forth returns the index. So each orientation reads every
/// mask cell exactly once.
pub proof fn law_rotation_is_bijection(orientation: int)
    requires
        0 <= orientation < 4,
    ensures
        forall|x: int, y: int|
            0 <= x < 4 && 0 <= y < 4 ==> cell_of_index(
                #[trigger] rotated_index_of(x, y, orientation),
                orientation,
            ) == (x, y),
        forall|i: int|
            0 <= i < 16 ==> {
                let (x, y) = #[trigger] cell_of_index(i, orientation);
                0 <= x < 4 && 0 <= y < 4 && rotated_index_of(x, y, orientation) == i
            },
{
}

/// Two different cells never read the same mask index at one orientation.
pub proof fn law_rotation_is_injective(orientation: int, x1: int, y1: int, x2: int, y2: int)
    requires
        0 <= orientation < 4,
        0 <= x1 < 4,
        0 <= y1 < 4,
        0 <= x2 < 4,
        0 <= y2 < 4,
        rotated_index_of(x1, y1, orientation) == rotated_index_of(x2, y2, orientation),
    ensures
        x1 == x2,
        y1 == y2,
{
}

/// One more quarter turn reads the mask as the previous orientation does
/// after the cell itself is turned: `(x, y)` goes to `(y, 3 - x)`.
pub proof fn law_quarter_turn(x: int, y: int, orientation: int)
    requires
        0 <= x < 4,
        0 <= y < 4,
        0 <= orientation < 4,
    ensures
        rotated_index_of(x, y, (orientation + 1) % 4) == rotated_index_of(y, 3 - x, orientation),
{
}

/// Every kind is solid somewhere in every orientation: no turn makes a piece
/// vanish.
pub proof fn law_every_orientation_is_solid(kind: PieceKind, orientation: int)
    requires
        0 <= orientation,
    ensures
        exists|x: int, y: int| occupied(kind, orientation, x, y),
{
    let r = orientation % 4;
    law_rotation_is_bijection(r);
    // Index 6 is solid in the I, T, O, Z, S and J masks, index 5 in the L mask.
    let i: int = if kind == PieceKind::L { 5 } else { 6 };
    assert(mask_of(kind)[i]);
    let (x, y) = cell_of_index(i, r);
    assert(occupied(kind, orientation, x, y));
}

} // verus!
