use vstd::prelude::*;

use vstd::arithmetic::div_mod::lemma_fundamental_div_mod_converse;

use crate::cell::{next_cell, Cell};
use crate::grid::{glyph, lemma_index_in_bounds, Grid, ALIVE_GLYPH, DEAD_GLYPH};

verus! {

/// The width of a universe made by `Universe::new`.
pub const WIDTH: u32 = 64;

/// The height of a universe made by `Universe::new`.
pub const HEIGHT: u32 = 64;

/// A toroidal grid of cells, stored in row-major order.
pub struct Universe {
    width: u32,
    height: u32,
    cells: Vec<Cell>,
}

impl View for Universe {
    type V = Grid;

    closed spec fn view(&self) -> Grid {
        Grid { width: self.width as nat, height: self.height as nat, cells: self.cells@ }
    }
}

/// Relies on String::push: the character is appended at the end.
#[verifier::external_body]
fn push_char(s: &mut String, c: char)
    ensures
        final(s)@ == old(s)@.push(c),
{
    s.push(c);
}

impl Universe {
    #[verifier::type_invariant]
    spec fn inv(self) -> bool {
        self@.wf()
    }

    /// A `WIDTH` by `HEIGHT` universe whose cell `i` is alive exactly when
    /// `random_bits[i]` is set: the caller draws the bits.
    pub fn new(random_bits: &Vec<bool>) -> (u: Universe)
        requires
            random_bits@.len() == WIDTH * HEIGHT,
        ensures
            u@.wf(),
            u@.width == WIDTH,
            u@.height == HEIGHT,
            u@.cells.len() == random_bits@.len(),
            forall|i: int|
                0 <= i < random_bits@.len() ==> #[trigger] u@.cells[i] == (if random_bits@[i] {
                    Cell::Alive
                } else {
                    Cell::Dead
                }),
    {
        let mut cells: Vec<Cell> = Vec::new();
        let mut i: usize = 0;
        while i < random_bits.len()
            invariant
                i <= random_bits@.len(),
                cells@.len() == i,
                forall|j: int|
                    0 <= j < i ==> #[trigger] cells@[j] == (if random_bits@[j] {
                        Cell::Alive
                    } else {
                        Cell::Dead
                    }),
            decreases random_bits@.len() - i,
        {
            let cell = if random_bits[i] {
                Cell::Alive
            } else {
                Cell::Dead
            };
            cells.push(cell);
            i = i + 1;
        }
        Universe { width: WIDTH, height: HEIGHT, cells }
    }

    /// A universe with the given dimensions and cells, or `None` unless both
    /// dimensions are positive and there are exactly `width * height` cells.
    pub fn from_cells(width: u32, height: u32, cells: Vec<Cell>) -> (r: Option<Universe>)
        ensures
            r.is_some() <==> (width > 0 && height > 0 && cells@.len() == width * height),
            r matches Some(u) ==> u@.wf() && u@ == (Grid { width: width as nat, height: height as nat, cells: cells@ }),
    {
        proof {
            assert(width as u64 * height as u64 <= u64::MAX) by (nonlinear_arith)
                requires
                    width <= u32::MAX,
                    height <= u32::MAX,
            ;
        }
        if width == 0 || height == 0 || cells.len() as u64 != width as u64 * height as u64 {
            None
        } else {
            Some(Universe { width, height, cells })
        }
    }

    /// The number of columns.
    pub fn width(&self) -> (r: u32)
        ensures
            r == self@.width,
    {
        self.width
    }

    /// The number of rows.
    pub fn height(&self) -> (r: u32)
        ensures
            r == self@.height,
    {
        self.height
    }

    /// The cells in row-major order.
    pub fn cells(&self) -> (r: &[Cell])
        ensures
            r@ == self@.cells,
    {
        self.cells.as_slice()
    }

    /// The row-major index of (row, column).
    pub fn get_index(&self, row: u32, column: u32) -> (r: usize)
        requires
            row < self@.height,
            column < self@.width,
        ensures
            r == row * self@.width + column,
            r < self@.cells.len(),
    {
        proof {
            use_type_invariant(self);
            lemma_index_in_bounds(row as int, column as int, self.width as int, self.height as int);
        }
        let r = row as usize;
        let w = self.width as usize;
        let c = column as usize;
        // The index stays below the number of cells, so the sum fits in usize.
        let len = self.cells.len();
        proof {
            assert(r * w + c < len);
            assert(r * w <= r * w + c);
        }
        r * w + c
    }

    /// What the neighbour at the given offsets adds to the count of (row, column).
    fn neighbor_term(&self, row: u32, column: u32, delta_row: u32, delta_col: u32) -> (r: u8)
        requires
            row < self@.height,
            column < self@.width,
        ensures
            r == self@.term(row as int, column as int, delta_row as int, delta_col as int),
    {
        proof {
            use_type_invariant(self);
        }
        if delta_row == 0 && delta_col == 0 {
            return 0;
        }
        let neighbor_row = ((row as u64 + delta_row as u64) % self.height as u64) as u32;
        let neighbor_col = ((column as u64 + delta_col as u64) % self.width as u64) as u32;
        let idx = self.get_index(neighbor_row, neighbor_col);
        self.cells[idx].value()
    }

    /// The terms of one row offset, over the column offsets `width - 1`, 0 and 1.
    fn row_neighbor_count(&self, row: u32, column: u32, delta_row: u32) -> (r: u8)
        requires
            row < self@.height,
            column < self@.width,
        ensures
            r == self@.row_terms(row as int, column as int, delta_row as int),
    {
        proof {
            use_type_invariant(self);
        }
        self.neighbor_term(row, column, delta_row, self.width - 1) + self.neighbor_term(
            row,
            column,
            delta_row,
            0,
        ) + self.neighbor_term(row, column, delta_row, 1)
    }

    /// The number of live cells among the eight neighbours of (row, column),
    /// with wrap-around at the edges.
    pub fn live_neighbor_count(&self, row: u32, column: u32) -> (r: u8)
        requires
            row < self@.height,
            column < self@.width,
        ensures
            r == self@.live_neighbors(row as int, column as int),
    {
        proof {
            use_type_invariant(self);
        }
        self.row_neighbor_count(row, column, self.height - 1) + self.row_neighbor_count(
            row,
            column,
            0,
        ) + self.row_neighbor_count(row, column, 1)
    }

    /// Advances one generation: every cell's next state is computed from the
    /// current grid into a separate buffer, which then replaces the cells.
    pub fn tick(&mut self)
        ensures
            final(self)@.wf(),
            final(self)@ == old(self)@.step(),
    {
        proof {
            use_type_invariant(&*self);
        }
        let mut next = self.cells.clone();
        let mut row: u32 = 0;
        while row < self.height
            invariant
                self@ == old(self)@,
                self@.wf(),
                row <= self@.height,
                next@.len() == self@.cells.len(),
                forall|i: int| 0 <= i < row * self@.width ==> #[trigger] next@[i] == self@.next_at(i),
            decreases self@.height - row,
        {
            let mut col: u32 = 0;
            while col < self.width
                invariant
                    self@ == old(self)@,
                    self@.wf(),
                    row < self@.height,
                    col <= self@.width,
                    next@.len() == self@.cells.len(),
                    forall|i: int|
                        0 <= i < row * self@.width + col ==> #[trigger] next@[i] == self@.next_at(i),
                decreases self@.width - col,
            {
                let idx = self.get_index(row, col);
                let cell = self.cells[idx];
                let live_neighbors = self.live_neighbor_count(row, col);
                next.set(idx, next_cell(cell, live_neighbors));
                proof {
                    lemma_fundamental_div_mod_converse(
                        idx as int,
                        self.width as int,
                        row as int,
                        col as int,
                    );
                }
                col = col + 1;
            }
            proof {
                assert((row + 1) * self.width == row * self.width + self.width) by (nonlinear_arith);
            }
            row = row + 1;
        }
        proof {
            assert(self@.height * self@.width == self@.width * self@.height) by (nonlinear_arith);
        }
        self.cells = next;
        proof {
            assert(self@.cells =~= old(self)@.step().cells);
        }
    }

    /// The text rendering: one line per row, a glyph per cell, each line ended
    /// by a line break.
    pub fn render(&self) -> (r: String)
        ensures
            r@ == self@.rendering(),
    {
        proof {
            use_type_invariant(self);
        }
        let mut s = String::new();
        let mut row: u32 = 0;
        while row < self.height
            invariant
                self@.wf(),
                row <= self@.height,
                s@ == self@.render_rows(row as nat),
            decreases self@.height - row,
        {
            let mut col: u32 = 0;
            while col < self.width
                invariant
                    self@.wf(),
                    row < self@.height,
                    col <= self@.width,
                    s@ == self@.render_rows(row as nat) + Seq::new(
                        col as nat,
                        |c: int| glyph(self@.at(row as int, c)),
                    ),
                decreases self@.width - col,
            {
                let idx = self.get_index(row, col);
                let symbol = if self.cells[idx] == Cell::Dead {
                    DEAD_GLYPH
                } else {
                    ALIVE_GLYPH
                };
                push_char(&mut s, symbol);
                proof {
                    assert(Seq::new((col + 1) as nat, |c: int| glyph(self@.at(row as int, c)))
                        =~= Seq::new(col as nat, |c: int| glyph(self@.at(row as int, c))).push(symbol));
                }
                col = col + 1;
            }
            push_char(&mut s, '\n');
            proof {
                assert(self@.render_rows((row + 1) as nat) =~= s@);
            }
            row = row + 1;
        }
        s
    }
}

} // verus!
