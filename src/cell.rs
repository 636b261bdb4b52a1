use vstd::prelude::*;

verus! {

/// The state of one cell.
#[derive(Clone, Copy, Debug, PartialEq, Eq, Structural)]
pub enum Cell {
    Dead,
    Alive,
}

impl Cell {
    /// The cell's contribution to a neighbour count: 1 when alive, 0 when dead.
    pub open spec fn spec_value(self) -> nat {
        match self {
            Cell::Dead => 0,
            Cell::Alive => 1,
        }
    }

    /// The numeric value of the cell, summed to count live neighbours.
    pub fn value(self) -> (r: u8)
        ensures
            r == self.spec_value(),
    {
        match self {
            Cell::Dead => 0,
            Cell::Alive => 1,
        }
    }
}

/// The Game of Life rule: the state of a cell in the next generation, given its
/// current state and its number of live neighbours.
pub open spec fn next_state(cell: Cell, live_neighbors: int) -> Cell {
    match cell {
        Cell::Alive => if live_neighbors == 2 || live_neighbors == 3 {
            Cell::Alive
        } else {
            Cell::Dead
        },
        Cell::Dead => if live_neighbors == 3 {
            Cell::Alive
        } else {
            Cell::Dead
        },
    }
}

/// Applies the rule to one cell. The table, row by row: a live cell with fewer
/// than two live neighbours dies; with two or three it survives; with more than
/// three it dies; a dead cell with exactly three comes alive; any other cell
/// keeps its state.
pub fn next_cell(cell: Cell, live_neighbors: u8) -> (r: Cell)
    ensures
        r == next_state(cell, live_neighbors as int),
        cell == Cell::Alive && live_neighbors < 2 ==> r == Cell::Dead,
        cell == Cell::Alive && (live_neighbors == 2 || live_neighbors == 3) ==> r == Cell::Alive,
        cell == Cell::Alive && live_neighbors > 3 ==> r == Cell::Dead,
        cell == Cell::Dead && live_neighbors == 3 ==> r == Cell::Alive,
        cell == Cell::Dead && live_neighbors != 3 ==> r == cell,
{
    match (cell, live_neighbors) {
        (Cell::Alive, x) if x < 2 => Cell::Dead,
        (Cell::Alive, 2) | (Cell::Alive, 3) => Cell::Alive,
        (Cell::Alive, x) if x > 3 => Cell::Dead,
        (Cell::Dead, 3) => Cell::Alive,
        (otherwise, _) => otherwise,
    }
}

} // verus!
