//! The integer lattice under the noise: the cell that a coordinate falls
//! into, and the gradient that the table assigns to each corner of a cell.

use crate::permutation_table::{
    hash_of, lemma_hash_reads_low_bytes, low_byte, mask_low_byte, PermutationTable,
};
use vstd::prelude::*;

verus! {

/// One of the four fixed gradient vectors, each component `1` or `-1`.
#[derive(Clone, Copy, Debug, PartialEq, Eq, Structural)]
pub enum Gradient {
    /// The vector `(1, 1)`.
    PlusPlus,
    /// The vector `(1, -1)`.
    PlusMinus,
    /// The vector `(-1, 1)`.
    MinusPlus,
    /// The vector `(-1, -1)`.
    MinusMinus,
}

/// The gradient that a hash byte selects, by its low two bits.
pub open spec fn gradient_of(hash: u8) -> Gradient {
    if hash % 4 == 0 {
        Gradient::PlusPlus
    } else if hash % 4 == 1 {
        Gradient::PlusMinus
    } else if hash % 4 == 2 {
        Gradient::MinusPlus
    } else {
        Gradient::MinusMinus
    }
}

impl Gradient {
    /// The x component as a number.
    pub open spec fn spec_x(self) -> int {
        match self {
            Gradient::PlusPlus | Gradient::PlusMinus => 1,
            Gradient::MinusPlus | Gradient::MinusMinus => -1,
        }
    }

    /// The y component as a number.
    pub open spec fn spec_y(self) -> int {
        match self {
            Gradient::PlusPlus | Gradient::MinusPlus => 1,
            Gradient::PlusMinus | Gradient::MinusMinus => -1,
        }
    }

    /// Selects a gradient by the low two bits of a hash byte.
    pub fn from_hash(hash: u8) -> (gradient: Gradient)
        ensures
            gradient == gradient_of(hash),
    {
        let low: u8 = hash & 0b11;
        assert(hash & 0b11 == hash % 4) by (bit_vector);
        if low == 0 {
            Gradient::PlusPlus
        } else if low == 1 {
            Gradient::PlusMinus
        } else if low == 2 {
            Gradient::MinusPlus
        } else {
            Gradient::MinusMinus
        }
    }

    /// The x component: `1` or `-1`.
    pub fn x(self) -> (x: i8)
        ensures
            x == self.spec_x(),
    {
        match self {
            Gradient::PlusPlus | Gradient::PlusMinus => 1,
            Gradient::MinusPlus | Gradient::MinusMinus => -1,
        }
    }

    /// The y component: `1` or `-1`.
    pub fn y(self) -> (y: i8)
        ensures
            y == self.spec_y(),
    {
        match self {
            Gradient::PlusPlus | Gradient::MinusPlus => 1,
            Gradient::PlusMinus | Gradient::MinusMinus => -1,
        }
    }
}

/// The gradients at the four corners of a lattice cell. The first digit of
/// a field's name is the corner's offset in x, the second its offset in y.
#[derive(Clone, Copy, Debug, PartialEq, Eq, Structural)]
pub struct CornerGradients {
    /// At the cell's own corner.
    pub g00: Gradient,
    /// One step along y.
    pub g01: Gradient,
    /// One step along x.
    pub g10: Gradient,
    /// One step along both.
    pub g11: Gradient,
}

/// The gradient at the lattice point `(x, y)` under `table`.
pub open spec fn gradient_at(table: Seq<u8>, x: int, y: int) -> Gradient {
    gradient_of(hash_of(table, seq![x as isize, y as isize]))
}

/// The gradients at the corners of the cell `(cell_x, cell_y)`.
pub open spec fn corner_gradients_of(table: Seq<u8>, cell_x: u8, cell_y: u8) -> CornerGradients {
    CornerGradients {
        g00: gradient_at(table, cell_x as int, cell_y as int),
        g01: gradient_at(table, cell_x as int, cell_y + 1),
        g10: gradient_at(table, cell_x + 1, cell_y as int),
        g11: gradient_at(table, cell_x + 1, cell_y + 1),
    }
}

/// Cells that lie side by side, also across the wrap from cell 255 to cell
/// 0, see the same gradients at the corners that they share.
pub proof fn lemma_neighbours_share_corners(table: Seq<u8>, cell_x: u8, cell_y: u8)
    ensures
        ({
            let here = corner_gradients_of(table, cell_x, cell_y);
            let beside = corner_gradients_of(table, ((cell_x + 1) % 256) as u8, cell_y);
            let above = corner_gradients_of(table, cell_x, ((cell_y + 1) % 256) as u8);
            &&& here.g10 == beside.g00
            &&& here.g11 == beside.g01
            &&& here.g01 == above.g00
            &&& here.g11 == above.g10
        }),
{
    let x = cell_x as isize;
    let y = cell_y as isize;
    let next_x = (cell_x + 1) as isize;
    let next_y = (cell_y + 1) as isize;
    let wrapped_x = (((cell_x + 1) % 256) as u8) as isize;
    let wrapped_y = (((cell_y + 1) % 256) as u8) as isize;
    lemma_hash_reads_low_bytes(table, seq![next_x, y], seq![wrapped_x, y]);
    lemma_hash_reads_low_bytes(table, seq![next_x, next_y], seq![wrapped_x, next_y]);
    lemma_hash_reads_low_bytes(table, seq![x, next_y], seq![x, wrapped_y]);
    lemma_hash_reads_low_bytes(table, seq![next_x, next_y], seq![next_x, wrapped_y]);
}

/// Wraps the floor of a coordinate into the table's period of 256 cells.
pub fn unit_cell(floor: isize) -> (cell: u8)
    ensures
        cell == low_byte(floor),
{
    mask_low_byte(floor) as u8
}

/// Looks up the gradient of each corner of the cell `(cell_x, cell_y)`.
pub fn corner_gradients(table: &PermutationTable, cell_x: u8, cell_y: u8) -> (corners:
    CornerGradients)
    ensures
        corners == corner_gradients_of(table@, cell_x, cell_y),
{
    let x: isize = cell_x as isize;
    let y: isize = cell_y as isize;
    let h00 = table.hash(&[x, y]);
    let h01 = table.hash(&[x, y + 1]);
    let h10 = table.hash(&[x + 1, y]);
    let h11 = table.hash(&[x + 1, y + 1]);
    CornerGradients {
        g00: Gradient::from_hash(h00),
        g01: Gradient::from_hash(h01),
        g10: Gradient::from_hash(h10),
        g11: Gradient::from_hash(h11),
    }
}

} // verus!
