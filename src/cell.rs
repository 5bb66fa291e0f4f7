//! The two cell states and the fixed survive / birth / die rule.

use vstd::prelude::*;

verus! {

/// The state of one grid cell.
#[derive(Clone, Copy, Debug, PartialEq, Eq, Structural)]
pub enum Cell {
    Dead,
    Alive,
}

/// Numeric weight of a cell: Dead counts 0, Alive counts 1.
pub open spec fn weight(c: Cell) -> nat {
    match c {
        Cell::Dead => 0,
        Cell::Alive => 1,
    }
}

/// The opposite state.
pub open spec fn flipped(c: Cell) -> Cell {
    match c {
        Cell::Dead => Cell::Alive,
        Cell::Alive => Cell::Dead,
    }
}

/// The Game of Life rule: the state a cell takes in the next generation,
/// given its current state and the number of live cells around it.
pub open spec fn rule(c: Cell, live: int) -> Cell {
    match c {
        Cell::Alive => if live == 2 || live == 3 { Cell::Alive } else { Cell::Dead },
        Cell::Dead => if live == 3 { Cell::Alive } else { Cell::Dead },
    }
}

impl Cell {
    /// Flips Dead to Alive and Alive to Dead.
    pub fn toggle(c: Cell) -> (r: Cell)
        ensures
            r == flipped(c),
    {
        match c {
            Cell::Dead => Cell::Alive,
            Cell::Alive => Cell::Dead,
        }
    }

    /// The cell's numeric weight, used when counting live neighbours.
    pub fn as_u8(self) -> (r: u8)
        ensures
            r == weight(self),
    {
        match self {
            Cell::Dead => 0,
            Cell::Alive => 1,
        }
    }

    /// The state of this cell in the next generation when `live` of its
    /// neighbours are alive now. Defined for every count.
    pub fn next_state(self, live: u8) -> (r: Cell)
        ensures
            r == rule(self, live as int),
    {
        match self {
            Cell::Alive => if live == 2 || live == 3 { Cell::Alive } else { Cell::Dead },
            Cell::Dead => if live == 3 { Cell::Alive } else { Cell::Dead },
        }
    }
}

} // verus!
