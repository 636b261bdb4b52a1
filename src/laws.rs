use vstd::prelude::*;

use vstd::arithmetic::div_mod::{
    lemma_fundamental_div_mod,
    lemma_fundamental_div_mod_converse,
    lemma_mod_add_multiples_vanish,
    lemma_mod_pos_bound,
    lemma_small_mod,
};

use crate::cell::Cell;
use crate::grid::{lemma_index_in_bounds, Grid};

verus! {

/// The value of the cell reached from (row, column) by a true step of
/// `delta_row` rows and `delta_col` columns, wrapping at the edges.
pub open spec fn wrapped_value(g: Grid, row: int, column: int, delta_row: int, delta_col: int) -> nat {
    g.at((row + delta_row) % (g.height as int), (column + delta_col) % (g.width as int)).spec_value()
}

/// The sum over the eight true neighbours of (row, column).
pub open spec fn wrapped_neighbor_sum(g: Grid, row: int, column: int) -> nat {
    wrapped_value(g, row, column, -1, -1) + wrapped_value(g, row, column, -1, 0)
        + wrapped_value(g, row, column, -1, 1) + wrapped_value(g, row, column, 0, -1)
        + wrapped_value(g, row, column, 0, 1) + wrapped_value(g, row, column, 1, -1)
        + wrapped_value(g, row, column, 1, 0) + wrapped_value(g, row, column, 1, 1)
}

/// One step forward or back from an in-range coordinate, modulo the size.
proof fn lemma_wrap_step(x: int, m: int)
    requires
        0 <= x < m,
    ensures
        (x + 1) % m == (if x + 1 == m { 0 } else { x + 1 }),
        (x - 1) % m == (if x == 0 { m - 1 } else { x - 1 }),
        (x + (m - 1)) % m == (x - 1) % m,
        x % m == x,
{
    lemma_small_mod(x as nat, m as nat);
    lemma_mod_add_multiples_vanish(x - 1, m);
    if x + 1 == m {
        lemma_fundamental_div_mod_converse(x + 1, m, 1, 0);
    } else {
        lemma_small_mod((x + 1) as nat, m as nat);
    }
    if x == 0 {
        lemma_fundamental_div_mod_converse(x - 1, m, -1, m - 1);
    } else {
        lemma_small_mod((x - 1) as nat, m as nat);
    }
}

/// Row-major indices of in-range coordinates are equal only for equal
/// coordinates.
proof fn lemma_index_injective(r1: int, c1: int, r2: int, c2: int, width: int)
    requires
        0 <= c1 < width,
        0 <= c2 < width,
        r1 * width + c1 == r2 * width + c2,
    ensures
        r1 == r2,
        c1 == c2,
{
    lemma_fundamental_div_mod_converse(r1 * width + c1, width, r1, c1);
    lemma_fundamental_div_mod_converse(r2 * width + c2, width, r2, c2);
}

/// Wrap-around: on a grid of at least two rows and two columns, the live
/// neighbour count of (row, column) is the sum over its eight true
/// neighbours, one row and one column away in each direction, where a step
/// off one edge re-enters at the opposite edge.
pub proof fn lemma_neighbors_wrap(g: Grid, row: int, column: int)
    requires
        g.wf(),
        g.width >= 2,
        g.height >= 2,
        0 <= row < g.height,
        0 <= column < g.width,
    ensures
        g.live_neighbors(row, column) == wrapped_neighbor_sum(g, row, column),
{
    lemma_wrap_step(row, g.height as int);
    lemma_wrap_step(column, g.width as int);
}

/// The live neighbour count of a cell does not depend on the cell itself: on
/// a grid of at least two rows and two columns, two grids that differ at most
/// at (row, column) give it the same count.
pub proof fn lemma_neighbors_ignore_center(g1: Grid, g2: Grid, row: int, column: int)
    requires
        g1.wf(),
        g2.wf(),
        g1.width == g2.width,
        g1.height == g2.height,
        g1.width >= 2,
        g1.height >= 2,
        0 <= row < g1.height,
        0 <= column < g1.width,
        forall|i: int|
            0 <= i < g1.cells.len() && i != row * g1.width + column ==> #[trigger] g1.cells[i]
                == g2.cells[i],
    ensures
        g1.live_neighbors(row, column) == g2.live_neighbors(row, column),
{
    let h = g1.height as int;
    let w = g1.width as int;
    lemma_neighbors_wrap(g1, row, column);
    lemma_neighbors_wrap(g2, row, column);
    lemma_wrap_step(row, h);
    lemma_wrap_step(column, w);
    assert forall|dr: int, dc: int|
        -1 <= dr <= 1 && -1 <= dc <= 1 && !(dr == 0 && dc == 0) implies #[trigger] wrapped_value(
        g1,
        row,
        column,
        dr,
        dc,
    ) == wrapped_value(g2, row, column, dr, dc) by {
        let nr = (row + dr) % h;
        let nc = (column + dc) % w;
        lemma_index_in_bounds(nr, nc, w, h);
        if nr * w + nc == row * w + column {
            lemma_index_injective(nr, nc, row, column, w);
        }
    }
    assert(wrapped_value(g1, row, column, -1, -1) == wrapped_value(g2, row, column, -1, -1));
    assert(wrapped_value(g1, row, column, -1, 0) == wrapped_value(g2, row, column, -1, 0));
    assert(wrapped_value(g1, row, column, -1, 1) == wrapped_value(g2, row, column, -1, 1));
    assert(wrapped_value(g1, row, column, 0, -1) == wrapped_value(g2, row, column, 0, -1));
    assert(wrapped_value(g1, row, column, 0, 1) == wrapped_value(g2, row, column, 0, 1));
    assert(wrapped_value(g1, row, column, 1, -1) == wrapped_value(g2, row, column, 1, -1));
    assert(wrapped_value(g1, row, column, 1, 0) == wrapped_value(g2, row, column, 1, 0));
    assert(wrapped_value(g1, row, column, 1, 1) == wrapped_value(g2, row, column, 1, 1));
}

/// Ticking keeps the dimensions and the well-formedness of a grid, for any
/// number of ticks.
pub proof fn lemma_steps_keep_dimensions(g: Grid, n: nat)
    requires
        g.wf(),
    ensures
        g.steps(n).wf(),
        g.steps(n).width == g.width,
        g.steps(n).height == g.height,
        g.steps(n).cells.len() == g.width * g.height,
    decreases n,
{
    if n > 0 {
        lemma_steps_keep_dimensions(g, (n - 1) as nat);
    }
}

/// In an all-dead grid every cell has no live neighbour.
proof fn lemma_dead_grid_no_neighbors(g: Grid, row: int, column: int)
    requires
        g.wf(),
        g.all_dead(),
        0 <= row < g.height,
        0 <= column < g.width,
    ensures
        g.live_neighbors(row, column) == 0,
{
    let h = g.height as int;
    let w = g.width as int;
    assert forall|dr: int, dc: int| 0 <= dr <= h && 0 <= dc <= w implies #[trigger] g.term(
        row,
        column,
        dr,
        dc,
    ) == 0 by {
        if !(dr == 0 && dc == 0) {
            let nr = (row + dr) % h;
            let nc = (column + dc) % w;
            lemma_index_in_bounds(nr, nc, w, h);
            assert(g.cells[nr * w + nc] == Cell::Dead);
        }
    }
    assert(g.term(row, column, h - 1, w - 1) == 0);
    assert(g.term(row, column, h - 1, 0) == 0);
    assert(g.term(row, column, h - 1, 1) == 0);
    assert(g.term(row, column, 0, w - 1) == 0);
    assert(g.term(row, column, 0, 0) == 0);
    assert(g.term(row, column, 0, 1) == 0);
    assert(g.term(row, column, 1, w - 1) == 0);
    assert(g.term(row, column, 1, 0) == 0);
    assert(g.term(row, column, 1, 1) == 0);
}

/// A fully dead grid stays fully dead after any number of ticks.
pub proof fn lemma_dead_grid_stays_dead(g: Grid, n: nat)
    requires
        g.wf(),
        g.all_dead(),
    ensures
        g.steps(n).all_dead(),
    decreases n,
{
    if n > 0 {
        let p = g.steps((n - 1) as nat);
        lemma_dead_grid_stays_dead(g, (n - 1) as nat);
        lemma_steps_keep_dimensions(g, (n - 1) as nat);
        let w = p.width as int;
        assert forall|i: int| 0 <= i < p.step().cells.len() implies #[trigger] p.step().cells[i]
            == Cell::Dead by {
            lemma_fundamental_div_mod(i, w);
            lemma_mod_pos_bound(i, w);
            assert(0 <= i / w < p.height) by (nonlinear_arith)
                requires
                    0 <= i < w * p.height,
                    i == w * (i / w) + i % w,
                    0 <= i % w < w,
            ;
            lemma_dead_grid_no_neighbors(p, i / w, i % w);
        }
    }
}

/// `x` is `first` or the coordinate after it, modulo `size`.
pub open spec fn in_pair(x: int, first: int, size: int) -> bool {
    x == first || x == (first + 1) % size
}

/// A grid whose only live cells form the 2x2 block with top-left corner
/// (top, left), wrapping at the edges.
pub open spec fn block_grid(width: nat, height: nat, top: int, left: int) -> Grid {
    Grid {
        width,
        height,
        cells: Seq::new(
            width * height,
            |i: int|
                if in_pair(i / (width as int), top, height as int) && in_pair(
                    i % (width as int),
                    left,
                    width as int,
                ) {
                    Cell::Alive
                } else {
                    Cell::Dead
                },
        ),
    }
}

/// The cell at an in-range (row, column) of a block grid.
proof fn lemma_block_at(width: nat, height: nat, top: int, left: int, row: int, column: int)
    requires
        width > 0,
        0 <= row < height,
        0 <= column < width,
    ensures
        block_grid(width, height, top, left).at(row, column) == (if in_pair(row, top, height as int)
            && in_pair(column, left, width as int) {
            Cell::Alive
        } else {
            Cell::Dead
        }),
{
    lemma_index_in_bounds(row, column, width as int, height as int);
    lemma_fundamental_div_mod_converse(row * width + column, width as int, row, column);
}

/// A 2x2 block of live cells surrounded by dead cells, on a grid of at least
/// four rows and four columns, is unchanged by a tick.
pub proof fn lemma_block_is_still(width: nat, height: nat, top: int, left: int)
    requires
        width >= 4,
        height >= 4,
        0 <= top < height,
        0 <= left < width,
    ensures
        block_grid(width, height, top, left).step() == block_grid(width, height, top, left),
{
    let g = block_grid(width, height, top, left);
    let w = width as int;
    let h = height as int;
    lemma_wrap_step(top, h);
    lemma_wrap_step(left, w);
    assert forall|i: int| 0 <= i < g.cells.len() implies #[trigger] g.next_at(i) == g.cells[i] by {
        lemma_fundamental_div_mod(i, w);
        lemma_mod_pos_bound(i, w);
        let row = i / w;
        let col = i % w;
        assert(0 <= row < h) by (nonlinear_arith)
            requires
                0 <= i < w * h,
                i == w * row + col,
                0 <= col < w,
        ;
        lemma_fundamental_div_mod_converse(i, w, row, col);
        lemma_neighbors_wrap(g, row, col);
        lemma_wrap_step(row, h);
        lemma_wrap_step(col, w);
        let up = (row - 1) % h;
        let down = (row + 1) % h;
        let lt = (col - 1) % w;
        let rt = (col + 1) % w;
        lemma_block_at(width, height, top, left, up, lt);
        lemma_block_at(width, height, top, left, up, col);
        lemma_block_at(width, height, top, left, up, rt);
        lemma_block_at(width, height, top, left, row, lt);
        lemma_block_at(width, height, top, left, row, rt);
        lemma_block_at(width, height, top, left, down, lt);
        lemma_block_at(width, height, top, left, down, col);
        lemma_block_at(width, height, top, left, down, rt);
        lemma_block_at(width, height, top, left, row, col);
    }
    assert(g.step().cells =~= g.cells);
}

/// `x` is `center` or next to it, modulo `size`.
pub open spec fn in_triple(x: int, center: int, size: int) -> bool {
    x == (center - 1) % size || x == center || x == (center + 1) % size
}

/// Whether (row, column) lies on the line of three cells centred on
/// (center_row, center_col): across the row, or down the column when
/// `vertical`.
pub open spec fn on_line(
    row: int,
    column: int,
    width: int,
    height: int,
    center_row: int,
    center_col: int,
    vertical: bool,
) -> bool {
    if vertical {
        column == center_col && in_triple(row, center_row, height)
    } else {
        row == center_row && in_triple(column, center_col, width)
    }
}

/// A grid whose only live cells form a line of three centred on
/// (center_row, center_col), wrapping at the edges.
pub open spec fn line_grid(width: nat, height: nat, center_row: int, center_col: int, vertical: bool) -> Grid {
    Grid {
        width,
        height,
        cells: Seq::new(
            width * height,
            |i: int|
                if on_line(
                    i / (width as int),
                    i % (width as int),
                    width as int,
                    height as int,
                    center_row,
                    center_col,
                    vertical,
                ) {
                    Cell::Alive
                } else {
                    Cell::Dead
                },
        ),
    }
}

/// The cell at an in-range (row, column) of a line grid.
proof fn lemma_line_at(
    width: nat,
    height: nat,
    center_row: int,
    center_col: int,
    vertical: bool,
    row: int,
    column: int,
)
    requires
        width > 0,
        0 <= row < height,
        0 <= column < width,
    ensures
        line_grid(width, height, center_row, center_col, vertical).at(row, column) == (if on_line(
            row,
            column,
            width as int,
            height as int,
            center_row,
            center_col,
            vertical,
        ) {
            Cell::Alive
        } else {
            Cell::Dead
        }),
{
    lemma_index_in_bounds(row, column, width as int, height as int);
    lemma_fundamental_div_mod_converse(row * width + column, width as int, row, column);
}

/// One tick turns a line of three into the perpendicular line through the
/// same centre, on a grid of at least five rows and five columns.
proof fn lemma_line_turns(width: nat, height: nat, center_row: int, center_col: int, vertical: bool)
    requires
        width >= 5,
        height >= 5,
        0 <= center_row < height,
        0 <= center_col < width,
    ensures
        line_grid(width, height, center_row, center_col, vertical).step() == line_grid(
            width,
            height,
            center_row,
            center_col,
            !vertical,
        ),
{
    let g = line_grid(width, height, center_row, center_col, vertical);
    let t = line_grid(width, height, center_row, center_col, !vertical);
    let w = width as int;
    let h = height as int;
    lemma_wrap_step(center_row, h);
    lemma_wrap_step(center_col, w);
    assert forall|i: int| 0 <= i < g.cells.len() implies #[trigger] g.next_at(i) == t.cells[i] by {
        lemma_fundamental_div_mod(i, w);
        lemma_mod_pos_bound(i, w);
        let row = i / w;
        let col = i % w;
        assert(0 <= row < h) by (nonlinear_arith)
            requires
                0 <= i < w * h,
                i == w * row + col,
                0 <= col < w,
        ;
        lemma_fundamental_div_mod_converse(i, w, row, col);
        lemma_neighbors_wrap(g, row, col);
        lemma_wrap_step(row, h);
        lemma_wrap_step(col, w);
        let up = (row - 1) % h;
        let down = (row + 1) % h;
        let lt = (col - 1) % w;
        let rt = (col + 1) % w;
        lemma_line_at(width, height, center_row, center_col, vertical, up, lt);
        lemma_line_at(width, height, center_row, center_col, vertical, up, col);
        lemma_line_at(width, height, center_row, center_col, vertical, up, rt);
        lemma_line_at(width, height, center_row, center_col, vertical, row, lt);
        lemma_line_at(width, height, center_row, center_col, vertical, row, rt);
        lemma_line_at(width, height, center_row, center_col, vertical, down, lt);
        lemma_line_at(width, height, center_row, center_col, vertical, down, col);
        lemma_line_at(width, height, center_row, center_col, vertical, down, rt);
        lemma_line_at(width, height, center_row, center_col, vertical, row, col);
    }
    assert(g.step().cells =~= t.cells);
}

/// A line of three live cells on an otherwise dead grid of at least five
/// rows and five columns oscillates: one tick turns it into the
/// perpendicular line through the same centre, and a second tick brings it
/// back.
pub proof fn lemma_blinker_oscillates(width: nat, height: nat, center_row: int, center_col: int, vertical: bool)
    requires
        width >= 5,
        height >= 5,
        0 <= center_row < height,
        0 <= center_col < width,
    ensures
        line_grid(width, height, center_row, center_col, vertical).steps(1) == line_grid(
            width,
            height,
            center_row,
            center_col,
            !vertical,
        ),
        line_grid(width, height, center_row, center_col, vertical).steps(2) == line_grid(
            width,
            height,
            center_row,
            center_col,
            vertical,
        ),
{
    let g = line_grid(width, height, center_row, center_col, vertical);
    lemma_line_turns(width, height, center_row, center_col, vertical);
    lemma_line_turns(width, height, center_row, center_col, !vertical);
    assert(g.steps(1) == g.steps(0).step());
    assert(g.steps(2) == g.steps(1).step());
}

} // verus!
