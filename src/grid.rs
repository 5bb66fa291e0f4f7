//! The mathematical model of a row-major toroidal grid: indexing, wrap-around,
//! neighbourhoods, the next generation, and the exported views.

use vstd::prelude::*;
use vstd::arithmetic::div_mod::{
    lemma_div_pos_is_pos,
    lemma_fundamental_div_mod_converse,
    lemma_mod_bound,
    lemma_multiply_divide_lt,
};
use crate::cell::{flipped, rule, weight, Cell};

verus! {

/// Linear position of (row, col) in a row-major grid `width` cells wide.
pub open spec fn index_of_spec(width: int, row: int, col: int) -> int {
    row * width + col
}

/// The (row, col) of linear position `index` in a grid `width` cells wide.
pub open spec fn coord_of_spec(width: int, index: int) -> (int, int) {
    (index / width, index % width)
}

/// A coordinate one step past either end of an axis of length `n` re-enters
/// at the other end; for `-1 <= x <= n` this is `(x + n) mod n`.
pub open spec fn wrap(x: int, n: int) -> int {
    if x < 0 {
        x + n
    } else if x >= n {
        x - n
    } else {
        x
    }
}

/// The eight Moore neighbours of (row, col) on a `width` x `height` torus,
/// in the order north-west, north, north-east, west, east, south-west, south,
/// south-east.
pub open spec fn neighbour_coords(width: int, height: int, row: int, col: int) -> Seq<(int, int)> {
    let n = wrap(row - 1, height);
    let s = wrap(row + 1, height);
    let w = wrap(col - 1, width);
    let e = wrap(col + 1, width);
    seq![(n, w), (n, col), (n, e), (row, w), (row, e), (s, w), (s, col), (s, e)]
}

/// How many of the listed coordinates hold a live cell.
pub open spec fn live_at(cells: Seq<Cell>, width: int, coords: Seq<(int, int)>) -> nat
    decreases coords.len(),
{
    if coords.len() == 0 {
        0
    } else {
        let p = coords.last();
        live_at(cells, width, coords.drop_last()) + weight(cells[index_of_spec(width, p.0, p.1)])
    }
}

/// Number of live cells in the Moore neighbourhood of (row, col), with wrap-around.
pub open spec fn live_neighbours_spec(
    cells: Seq<Cell>,
    width: int,
    height: int,
    row: int,
    col: int,
) -> nat {
    live_at(cells, width, neighbour_coords(width, height, row, col))
}

/// The generation that follows `cells`: every cell takes the state that the
/// rule gives for its current state and its live neighbour count.
pub open spec fn next_generation(cells: Seq<Cell>, width: int, height: int) -> Seq<Cell> {
    Seq::new(
        cells.len(),
        |i: int|
            rule(
                cells[i],
                live_neighbours_spec(cells, width, height, i / width, i % width) as int,
            ),
    )
}

/// Number of live cells in a sequence.
pub open spec fn count_alive(cells: Seq<Cell>) -> nat
    decreases cells.len(),
{
    if cells.len() == 0 {
        0
    } else {
        count_alive(cells.drop_last()) + weight(cells.last())
    }
}

/// The live cells as a flat list of (row, col) pairs, in row-major order.
pub open spec fn paint_list(cells: Seq<Cell>, width: int) -> Seq<i32>
    decreases cells.len(),
{
    if cells.len() == 0 {
        seq![]
    } else {
        let i = cells.len() - 1;
        let tail = if cells.last() == Cell::Alive {
            seq![(i / width) as i32, (i % width) as i32]
        } else {
            seq![]
        };
        paint_list(cells.drop_last(), width) + tail
    }
}

/// The glyph that draws a cell in the text rendering.
pub open spec fn glyph(c: Cell) -> Seq<char> {
    match c {
        Cell::Dead => "\u{25fb}"@,
        Cell::Alive => "\u{25fc}"@,
    }
}

/// Text rendering of the cells, one glyph per cell in row-major order and a
/// line break after each full row of `width` cells.
pub open spec fn render_spec(cells: Seq<Cell>, width: int) -> Seq<char>
    decreases cells.len(),
{
    if cells.len() == 0 {
        seq![]
    } else {
        let line_end = if (cells.len() as int) % width == 0 {
            seq!['\n']
        } else {
            seq![]
        };
        render_spec(cells.drop_last(), width) + glyph(cells.last()) + line_end
    }
}

/// The demonstration seed: a cell is alive where its linear index is a
/// multiple of 2 or of 7.
pub open spec fn fancy_cell(index: int) -> Cell {
    if index % 2 == 0 || index % 7 == 0 {
        Cell::Alive
    } else {
        Cell::Dead
    }
}

/// Whether some listed coordinate lands on linear position `index`.
pub open spec fn covered(width: int, coords: Seq<(i32, i32)>, index: int) -> bool {
    exists|k: int|
        0 <= k < coords.len() && #[trigger] index_of_spec(width, coords[k].0 as int, coords[k].1 as int)
            == index
}

/// `cells` with every listed coordinate made alive and the rest unchanged.
pub open spec fn with_all_alive(cells: Seq<Cell>, width: int, coords: Seq<(i32, i32)>) -> Seq<Cell> {
    Seq::new(
        cells.len(),
        |i: int|
            if covered(width, coords, i) {
                Cell::Alive
            } else {
                cells[i]
            },
    )
}

/// `cells` with the cell at (row, col) made alive.
pub open spec fn with_alive(cells: Seq<Cell>, width: int, row: int, col: int) -> Seq<Cell> {
    cells.update(index_of_spec(width, row, col), Cell::Alive)
}

/// `cells` with the cell at (row, col) made dead.
pub open spec fn with_dead(cells: Seq<Cell>, width: int, row: int, col: int) -> Seq<Cell> {
    cells.update(index_of_spec(width, row, col), Cell::Dead)
}

/// `cells` with the cell at (row, col) flipped.
pub open spec fn with_flipped(cells: Seq<Cell>, width: int, row: int, col: int) -> Seq<Cell> {
    let i = index_of_spec(width, row, col);
    cells.update(i, flipped(cells[i]))
}

/// A coordinate inside the grid has a linear position inside the grid.
pub proof fn lemma_index_in_range(width: int, height: int, row: int, col: int)
    requires
        0 < width,
        0 <= row < height,
        0 <= col < width,
    ensures
        0 <= index_of_spec(width, row, col) < width * height,
{
    assert(0 <= row * width + col < width * height) by (nonlinear_arith)
        requires
            0 < width,
            0 <= row < height,
            0 <= col < width,
    ;
}

/// A linear position inside the grid has a coordinate inside the grid.
pub proof fn lemma_coord_in_range(width: int, height: int, index: int)
    requires
        0 < width,
        0 <= index < width * height,
    ensures
        0 <= index / width < height,
        0 <= index % width < width,
{
    lemma_div_pos_is_pos(index, width);
    lemma_multiply_divide_lt(index, width, height);
    lemma_mod_bound(index, width);
}

/// Taking a coordinate to its linear position and back gives the coordinate.
pub proof fn lemma_coord_of_index(width: int, row: int, col: int)
    requires
        0 < width,
        0 <= col < width,
    ensures
        coord_of_spec(width, index_of_spec(width, row, col)) == (row, col),
{
    lemma_fundamental_div_mod_converse(row * width + col, width, row, col);
}

/// Making one more listed coordinate alive is a single update.
pub proof fn lemma_with_all_alive_step(cells: Seq<Cell>, width: int, coords: Seq<(i32, i32)>, k: int)
    requires
        0 <= k < coords.len(),
        0 <= index_of_spec(width, coords[k].0 as int, coords[k].1 as int) < cells.len(),
    ensures
        with_all_alive(cells, width, coords.take(k + 1)) == with_all_alive(
            cells,
            width,
            coords.take(k),
        ).update(index_of_spec(width, coords[k].0 as int, coords[k].1 as int), Cell::Alive),
{
    let prefix = coords.take(k);
    let longer = coords.take(k + 1);
    let here = index_of_spec(width, coords[k].0 as int, coords[k].1 as int);
    let before = with_all_alive(cells, width, prefix);
    let after = with_all_alive(cells, width, longer);
    assert forall|i: int| 0 <= i < cells.len() implies after[i] == before.update(here, Cell::Alive)[i] by {
        if i == here {
            assert(longer[k] == coords[k]);
            assert(index_of_spec(width, longer[k].0 as int, longer[k].1 as int) == i);
            assert(covered(width, longer, i));
        } else if covered(width, longer, i) {
            let m = choose|m: int|
                0 <= m < longer.len() && #[trigger] index_of_spec(
                    width,
                    longer[m].0 as int,
                    longer[m].1 as int,
                ) == i;
            assert(longer[k] == coords[k]);
            assert(m != k);
            assert(prefix[m] == longer[m]);
            assert(index_of_spec(width, prefix[m].0 as int, prefix[m].1 as int) == i);
            assert(covered(width, prefix, i));
        } else {
            assert forall|m: int| 0 <= m < prefix.len() implies #[trigger] index_of_spec(
                width,
                prefix[m].0 as int,
                prefix[m].1 as int,
            ) != i by {
                assert(longer[m] == prefix[m]);
                assert(index_of_spec(width, longer[m].0 as int, longer[m].1 as int) != i);
            }
            assert(!covered(width, prefix, i));
        }
    }
    assert(after =~= before.update(here, Cell::Alive));
}

} // verus!
