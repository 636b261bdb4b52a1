use vstd::prelude::*;

use crate::cell::{next_state, Cell};

verus! {

/// The mathematical model of a universe: its dimensions and its cells in
/// row-major order.
pub struct Grid {
    pub width: nat,
    pub height: nat,
    pub cells: Seq<Cell>,
}

/// The glyph that stands for a live cell.
pub const ALIVE_GLYPH: char = '\u{25FC}';

/// The glyph that stands for a dead cell.
pub const DEAD_GLYPH: char = '\u{25FB}';

/// The glyph of one cell in the text rendering.
pub open spec fn glyph(cell: Cell) -> char {
    match cell {
        Cell::Alive => ALIVE_GLYPH,
        Cell::Dead => DEAD_GLYPH,
    }
}

/// Cell (row, column) of an in-range pair lies inside a `width * height` grid.
pub proof fn lemma_index_in_bounds(row: int, column: int, width: int, height: int)
    requires
        0 <= row < height,
        0 <= column < width,
    ensures
        0 <= row * width + column < width * height,
{
    assert(0 <= row * width + column < width * height) by (nonlinear_arith)
        requires
            0 <= row < height,
            0 <= column < width,
    ;
}

impl Grid {
    /// Positive dimensions and exactly `width * height` cells.
    pub open spec fn wf(self) -> bool {
        self.width > 0 && self.height > 0 && self.cells.len() == self.width * self.height
    }

    /// The cell at (row, column).
    pub open spec fn at(self, row: int, column: int) -> Cell {
        self.cells[row * self.width + column]
    }

    /// What the neighbour at row offset `delta_row` and column offset
    /// `delta_col` adds to the count: offsets are added and taken modulo the
    /// dimensions, and the pair of zero offsets adds nothing.
    pub open spec fn term(self, row: int, column: int, delta_row: int, delta_col: int) -> nat {
        if delta_row == 0 && delta_col == 0 {
            0
        } else {
            self.at((row + delta_row) % (self.height as int), (column + delta_col) % (self.width as int)).spec_value()
        }
    }

    /// The terms of one row offset, over the column offsets `width - 1`, 0 and 1.
    pub open spec fn row_terms(self, row: int, column: int, delta_row: int) -> nat {
        self.term(row, column, delta_row, self.width - 1) + self.term(row, column, delta_row, 0)
            + self.term(row, column, delta_row, 1)
    }

    /// The live neighbour count of (row, column): the terms over the row
    /// offsets `height - 1`, 0 and 1.
    pub open spec fn live_neighbors(self, row: int, column: int) -> nat {
        self.row_terms(row, column, self.height - 1) + self.row_terms(row, column, 0)
            + self.row_terms(row, column, 1)
    }

    /// The next state of the cell at row-major index `index`.
    pub open spec fn next_at(self, index: int) -> Cell {
        next_state(
            self.cells[index],
            self.live_neighbors(index / (self.width as int), index % (self.width as int)) as int,
        )
    }

    /// The next generation: every cell updated from this generation at once.
    pub open spec fn step(self) -> Grid {
        Grid {
            width: self.width,
            height: self.height,
            cells: Seq::new(self.cells.len(), |i: int| self.next_at(i)),
        }
    }

    /// The generation `n` ticks after this one.
    pub open spec fn steps(self, n: nat) -> Grid
        decreases n,
    {
        if n == 0 {
            self
        } else {
            self.steps((n - 1) as nat).step()
        }
    }

    /// One row of the rendering: the glyphs of its cells, then a line break.
    pub open spec fn render_row(self, row: int) -> Seq<char> {
        Seq::new(self.width, |c: int| glyph(self.at(row, c))).push('\n')
    }

    /// The rendering of the first `rows` rows.
    pub open spec fn render_rows(self, rows: nat) -> Seq<char>
        decreases rows,
    {
        if rows == 0 {
            Seq::empty()
        } else {
            self.render_rows((rows - 1) as nat) + self.render_row(rows - 1)
        }
    }

    /// The text rendering of the whole grid.
    pub open spec fn rendering(self) -> Seq<char> {
        self.render_rows(self.height)
    }

    /// Every cell is dead.
    pub open spec fn all_dead(self) -> bool {
        forall|i: int| 0 <= i < self.cells.len() ==> #[trigger] self.cells[i] == Cell::Dead
    }
}

} // verus!
