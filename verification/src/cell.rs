//! Grid cells, the integer keys under which they are stored, and the order
//! in which a scan visits them.

use vstd::prelude::*;

verus! {

/// A discrete grid position with non-negative coordinates.
#[derive(Clone, Copy, Debug, PartialEq, Eq, Structural)]
pub struct Cell {
    pub x: u32,
    pub y: u32,
}

/// The key of a cell: its column in the high half, its row in the low half.
pub open spec fn cell_key(c: Cell) -> u64 {
    (c.x as int * 0x1_0000_0000 + c.y as int) as u64
}

/// The cell that a key stands for.
pub open spec fn key_cell(k: u64) -> Cell {
    Cell { x: (k as int / 0x1_0000_0000) as u32, y: (k as int % 0x1_0000_0000) as u32 }
}

/// Scan order: column by column, and within a column row by row.
pub open spec fn precedes(a: Cell, b: Cell) -> bool {
    a.x < b.x || (a.x == b.x && a.y < b.y)
}

/// Keys and cells correspond one to one.
pub proof fn lemma_key_round_trip(c: Cell, k: u64)
    ensures
        key_cell(cell_key(c)) == c,
        cell_key(key_cell(k)) == k,
{
}

/// Distinct cells have distinct keys.
pub proof fn lemma_key_injective(a: Cell, b: Cell)
    ensures
        cell_key(a) == cell_key(b) <==> a == b,
{
}

/// Scan order is the numeric order of the keys.
pub proof fn lemma_key_order(a: Cell, b: Cell)
    ensures
        precedes(a, b) <==> cell_key(a) < cell_key(b),
{
}

impl Cell {
    /// The cell at column `x`, row `y`.
    pub fn new(x: u32, y: u32) -> (c: Cell)
        ensures
            c.x == x,
            c.y == y,
    {
        Cell { x, y }
    }

    /// The key under which this cell is stored.
    pub fn key(&self) -> (k: u64)
        ensures
            k == cell_key(*self),
    {
        let hi: u64 = self.x as u64;
        let lo: u64 = self.y as u64;
        hi * 0x1_0000_0000 + lo
    }

    /// The cell that `k` is the key of.
    pub fn from_key(k: u64) -> (c: Cell)
        ensures
            c == key_cell(k),
            cell_key(c) == k,
    {
        let x: u32 = (k / 0x1_0000_0000) as u32;
        let y: u32 = (k % 0x1_0000_0000) as u32;
        Cell { x, y }
    }
}

} // verus!
