//! The universe: a fixed-size toroidal grid of cells stored row-major.

use vstd::prelude::*;
use vstd::string::StringExecFns;
use crate::cell::Cell;
use crate::grid::{
    coord_of_spec,
    count_alive,
    fancy_cell,
    index_of_spec,
    lemma_coord_in_range,
    lemma_index_in_range,
    lemma_with_all_alive_step,
    live_at,
    live_neighbours_spec,
    neighbour_coords,
    next_generation,
    paint_list,
    glyph,
    render_spec,
    with_alive,
    with_dead,
    with_flipped,
    with_all_alive,
};

verus! {

/// A Game of Life grid of `width` x `height` cells whose edges wrap around.
///
/// Coordinates are (row, col) with `0 <= row < height` and `0 <= col < width`;
/// the cell at (row, col) is stored at position `row * width + col`.
/// Every method requires its coordinates to lie inside the grid.
pub struct Universe {
    width: i32,
    height: i32,
    cells: Vec<Cell>,
}

impl Universe {
    /// Number of columns.
    pub closed spec fn spec_width(&self) -> int {
        self.width as int
    }

    /// Number of rows.
    pub closed spec fn spec_height(&self) -> int {
        self.height as int
    }

    /// The cells in row-major order.
    pub closed spec fn grid(&self) -> Seq<Cell> {
        self.cells@
    }

    /// Both sides are positive, every linear position fits in `i32`, and
    /// there is exactly one cell per coordinate.
    pub open spec fn wf(&self) -> bool {
        &&& 0 < self.spec_width()
        &&& 0 < self.spec_height()
        &&& self.spec_width() * self.spec_height() <= i32::MAX
        &&& self.grid().len() == self.spec_width() * self.spec_height()
    }

    /// Whether (row, col) is a coordinate of this grid.
    pub open spec fn in_bounds(&self, row: int, col: int) -> bool {
        0 <= row < self.spec_height() && 0 <= col < self.spec_width()
    }

    /// The cell at (row, col).
    pub open spec fn cell_at(&self, row: int, col: int) -> Cell {
        self.grid()[index_of_spec(self.spec_width(), row, col)]
    }

    /// A grid of the given size with every cell dead.
    pub fn new(width: i32, height: i32) -> (u: Universe)
        requires
            0 < width,
            0 < height,
            width * height <= i32::MAX,
        ensures
            u.wf(),
            u.spec_width() == width,
            u.spec_height() == height,
            u.grid() == Seq::new((width * height) as nat, |i: int| Cell::Dead),
    {
        let n: usize = width as usize * height as usize;
        let mut cells: Vec<Cell> = Vec::new();
        let mut i: usize = 0;
        while i < n
            invariant
                i <= n,
                cells@ == Seq::new(i as nat, |j: int| Cell::Dead),
            decreases n - i,
        {
            cells.push(Cell::Dead);
            i += 1;
        }
        Universe { width, height, cells }
    }

    /// A grid of the given size seeded with the demonstration pattern: the
    /// cell at linear position `i` is alive exactly when `i` is a multiple of
    /// 2 or of 7.
    pub fn new_fancy(width: i32, height: i32) -> (u: Universe)
        requires
            0 < width,
            0 < height,
            width * height <= i32::MAX,
        ensures
            u.wf(),
            u.spec_width() == width,
            u.spec_height() == height,
            u.grid() == Seq::new((width * height) as nat, |i: int| fancy_cell(i)),
    {
        let n: usize = width as usize * height as usize;
        let mut cells: Vec<Cell> = Vec::new();
        let mut i: usize = 0;
        while i < n
            invariant
                i <= n,
                cells@ == Seq::new(i as nat, |j: int| fancy_cell(j)),
            decreases n - i,
        {
            let c = if i % 2 == 0 || i % 7 == 0 {
                Cell::Alive
            } else {
                Cell::Dead
            };
            cells.push(c);
            i += 1;
        }
        Universe { width, height, cells }
    }

    /// Number of columns.
    pub fn width(&self) -> (r: i32)
        ensures
            r == self.spec_width(),
    {
        self.width
    }

    /// Number of rows.
    pub fn height(&self) -> (r: i32)
        ensures
            r == self.spec_height(),
    {
        self.height
    }

    /// Linear position of (row, col): `row * width + col`.
    pub fn index_of(&self, row: i32, col: i32) -> (r: usize)
        requires
            self.wf(),
            self.in_bounds(row as int, col as int),
        ensures
            r == index_of_spec(self.spec_width(), row as int, col as int),
            r < self.grid().len(),
    {
        proof {
            lemma_index_in_range(self.width as int, self.height as int, row as int, col as int);
        }
        (row * self.width + col) as usize
    }

    /// The (row, col) of linear position `index`: `(index / width, index % width)`.
    pub fn coord_of(&self, index: usize) -> (r: (i32, i32))
        requires
            self.wf(),
            index < self.grid().len(),
        ensures
            (r.0 as int, r.1 as int) == coord_of_spec(self.spec_width(), index as int),
            self.in_bounds(r.0 as int, r.1 as int),
    {
        proof {
            lemma_coord_in_range(self.width as int, self.height as int, index as int);
        }
        let w = self.width as usize;
        ((index / w) as i32, (index % w) as i32)
    }

    /// The eight wrapped neighbours of (row, column), in the order
    /// north-west, north, north-east, west, east, south-west, south, south-east.
    pub fn neighbours(&self, row: i32, column: i32) -> (r: Vec<(i32, i32)>)
        requires
            self.wf(),
            self.in_bounds(row as int, column as int),
        ensures
            r@.map_values(|p: (i32, i32)| (p.0 as int, p.1 as int)) == neighbour_coords(
                self.spec_width(),
                self.spec_height(),
                row as int,
                column as int,
            ),
    {
        let north = if row == 0 {
            self.height - 1
        } else {
            row - 1
        };
        let south = if row == self.height - 1 {
            0
        } else {
            row + 1
        };
        let west = if column == 0 {
            self.width - 1
        } else {
            column - 1
        };
        let east = if column == self.width - 1 {
            0
        } else {
            column + 1
        };
        let r = vec![
            (north, west),
            (north, column),
            (north, east),
            (row, west),
            (row, east),
            (south, west),
            (south, column),
            (south, east),
        ];
        assert(r@.map_values(|p: (i32, i32)| (p.0 as int, p.1 as int)) =~= neighbour_coords(
            self.spec_width(),
            self.spec_height(),
            row as int,
            column as int,
        ));
        r
    }

    /// Number of live cells among the eight wrapped neighbours of (row, column).
    pub fn live_neighbours(&self, row: i32, column: i32) -> (r: u8)
        requires
            self.wf(),
            self.in_bounds(row as int, column as int),
        ensures
            r == live_neighbours_spec(
                self.grid(),
                self.spec_width(),
                self.spec_height(),
                row as int,
                column as int,
            ),
            r <= 8,
    {
        let nbrs = self.neighbours(row, column);
        let ghost coords = neighbour_coords(
            self.spec_width(),
            self.spec_height(),
            row as int,
            column as int,
        );
        assert(nbrs@.len() == nbrs@.map_values(|p: (i32, i32)| (p.0 as int, p.1 as int)).len());
        let mut count: u8 = 0;
        let mut k: usize = 0;
        while k < nbrs.len()
            invariant
                self.wf(),
                nbrs@.len() == 8,
                nbrs@.map_values(|p: (i32, i32)| (p.0 as int, p.1 as int)) == coords,
                coords == neighbour_coords(
                    self.spec_width(),
                    self.spec_height(),
                    row as int,
                    column as int,
                ),
                self.in_bounds(row as int, column as int),
                k <= 8,
                count <= k,
                count == live_at(self.grid(), self.spec_width(), coords.take(k as int)),
            decreases nbrs.len() - k,
        {
            let (nr, nc) = nbrs[k];
            assert(coords[k as int] == (nr as int, nc as int));
            let idx = self.index_of(nr, nc);
            count = count + self.cells[idx].as_u8();
            assert(coords.take(k as int + 1).drop_last() =~= coords.take(k as int));
            k += 1;
        }
        assert(coords.take(8) =~= coords);
        count
    }

    /// Advances the grid by one generation. The next generation is built in a
    /// separate buffer from the current one alone and replaces it whole.
    pub fn tick(&mut self)
        requires
            old(self).wf(),
        ensures
            final(self).wf(),
            final(self).spec_width() == old(self).spec_width(),
            final(self).spec_height() == old(self).spec_height(),
            final(self).grid() == next_generation(
                old(self).grid(),
                old(self).spec_width(),
                old(self).spec_height(),
            ),
    {
        let n = self.cells.len();
        let mut next: Vec<Cell> = Vec::new();
        let mut i: usize = 0;
        while i < n
            invariant
                self.wf(),
                n == self.grid().len(),
                i <= n,
                next@ == next_generation(self.grid(), self.spec_width(), self.spec_height()).take(
                    i as int,
                ),
            decreases n - i,
        {
            let (row, col) = self.coord_of(i);
            let live = self.live_neighbours(row, col);
            next.push(self.cells[i].next_state(live));
            assert(next@ =~= next_generation(
                self.grid(),
                self.spec_width(),
                self.spec_height(),
            ).take(i as int + 1));
            i += 1;
        }
        assert(next@ =~= next_generation(self.grid(), self.spec_width(), self.spec_height()));
        self.cells = next;
    }
    /// Makes the cell at (row, col) alive; every other cell is unchanged.
    pub fn set_cell(&mut self, row: i32, col: i32)
        requires
            old(self).wf(),
            old(self).in_bounds(row as int, col as int),
        ensures
            final(self).wf(),
            final(self).spec_width() == old(self).spec_width(),
            final(self).spec_height() == old(self).spec_height(),
            final(self).grid() == with_alive(old(self).grid(), old(self).spec_width(), row as int, col as int),
    {
        let i = self.index_of(row, col);
        self.cells[i] = Cell::Alive;
    }

    /// Makes the cell at (row, col) dead; every other cell is unchanged.
    pub fn unset_cell(&mut self, row: i32, col: i32)
        requires
            old(self).wf(),
            old(self).in_bounds(row as int, col as int),
        ensures
            final(self).wf(),
            final(self).spec_width() == old(self).spec_width(),
            final(self).spec_height() == old(self).spec_height(),
            final(self).grid() == with_dead(old(self).grid(), old(self).spec_width(), row as int, col as int),
    {
        let i = self.index_of(row, col);
        self.cells[i] = Cell::Dead;
    }

    /// Flips the cell at (row, col); every other cell is unchanged.
    pub fn toggle_cell(&mut self, row: i32, col: i32)
        requires
            old(self).wf(),
            old(self).in_bounds(row as int, col as int),
        ensures
            final(self).wf(),
            final(self).spec_width() == old(self).spec_width(),
            final(self).spec_height() == old(self).spec_height(),
            final(self).grid() == with_flipped(old(self).grid(), old(self).spec_width(), row as int, col as int),
    {
        let i = self.index_of(row, col);
        let c = Cell::toggle(self.cells[i]);
        self.cells[i] = c;
    }

    /// Makes every listed cell alive; every unlisted cell is unchanged.
    /// Repeated coordinates are harmless and the order does not matter.
    pub fn set_cells(&mut self, cells: &[(i32, i32)])
        requires
            old(self).wf(),
            forall|k: int|
                0 <= k < cells@.len() ==> old(self).in_bounds(
                    #[trigger] cells@[k].0 as int,
                    cells@[k].1 as int,
                ),
        ensures
            final(self).wf(),
            final(self).spec_width() == old(self).spec_width(),
            final(self).spec_height() == old(self).spec_height(),
            final(self).grid() == with_all_alive(old(self).grid(), old(self).spec_width(), cells@),
    {
        let ghost w = self.spec_width();
        let ghost start = self.grid();
        let mut k: usize = 0;
        while k < cells.len()
            invariant
                self.wf(),
                self.spec_width() == w,
                self.spec_height() == old(self).spec_height(),
                w == old(self).spec_width(),
                start == old(self).grid(),
                k <= cells@.len(),
                forall|j: int|
                    0 <= j < cells@.len() ==> self.in_bounds(
                        #[trigger] cells@[j].0 as int,
                        cells@[j].1 as int,
                    ),
                self.grid() == with_all_alive(start, w, cells@.take(k as int)),
            decreases cells@.len() - k,
        {
            let (row, col) = cells[k];
            self.set_cell(row, col);
            proof {
                assert(self.in_bounds(cells@[k as int].0 as int, cells@[k as int].1 as int));
                lemma_index_in_range(w, self.spec_height(), row as int, col as int);
                lemma_with_all_alive_step(start, w, cells@, k as int);
            }
            k += 1;
        }
        assert(cells@.take(cells@.len() as int) =~= cells@);
    }

    /// Makes every cell dead.
    pub fn clear(&mut self)
        requires
            old(self).wf(),
        ensures
            final(self).wf(),
            final(self).spec_width() == old(self).spec_width(),
            final(self).spec_height() == old(self).spec_height(),
            final(self).grid() == Seq::new(old(self).grid().len(), |i: int| Cell::Dead),
    {
        let n = self.cells.len();
        let mut i: usize = 0;
        while i < n
            invariant
                self.wf(),
                self.spec_width() == old(self).spec_width(),
                self.spec_height() == old(self).spec_height(),
                n == self.grid().len(),
                i <= n,
                forall|j: int| 0 <= j < i ==> self.grid()[j] == Cell::Dead,
            decreases n - i,
        {
            self.cells[i] = Cell::Dead;
            i += 1;
        }
        assert(self.grid() =~= Seq::new(n as nat, |i: int| Cell::Dead));
    }

    /// Number of live cells, counted afresh on every call.
    pub fn num_live_cells(&self) -> (r: u32)
        requires
            self.wf(),
        ensures
            r == count_alive(self.grid()),
    {
        let n = self.cells.len();
        let mut count: u32 = 0;
        let mut i: usize = 0;
        while i < n
            invariant
                self.wf(),
                n == self.grid().len(),
                i <= n,
                count <= i,
                count == count_alive(self.grid().take(i as int)),
            decreases n - i,
        {
            assert(self.grid().take(i as int + 1).drop_last() =~= self.grid().take(i as int));
            if self.cells[i] == Cell::Alive {
                count = count + 1;
            }
            i += 1;
        }
        assert(self.grid().take(n as int) =~= self.grid());
        count
    }

    /// Number of cells in the grid: `width * height`.
    pub fn num_active_cells(&self) -> (r: u32)
        requires
            self.wf(),
        ensures
            r == self.spec_width() * self.spec_height(),
            r == self.grid().len(),
    {
        self.cells.len() as u32
    }

    /// The live cells as a flat list `[row0, col0, row1, col1, ...]` in
    /// row-major order, for a host that plots points.
    pub fn cells_to_paint(&self) -> (r: Vec<i32>)
        requires
            self.wf(),
        ensures
            r@ == paint_list(self.grid(), self.spec_width()),
    {
        let n = self.cells.len();
        let mut out: Vec<i32> = Vec::new();
        let mut i: usize = 0;
        while i < n
            invariant
                self.wf(),
                n == self.grid().len(),
                i <= n,
                out@ == paint_list(self.grid().take(i as int), self.spec_width()),
            decreases n - i,
        {
            assert(self.grid().take(i as int + 1).drop_last() =~= self.grid().take(i as int));
            if self.cells[i] == Cell::Alive {
                let (row, col) = self.coord_of(i);
                out.push(row);
                out.push(col);
            }
            assert(out@ =~= paint_list(self.grid().take(i as int + 1), self.spec_width()));
            i += 1;
        }
        assert(self.grid().take(n as int) =~= self.grid());
        out
    }

    /// Text rendering for debugging: one glyph per cell, `\u{25fc}` for a
    /// live cell and `\u{25fb}` for a dead one, each row followed by a line
    /// break.
    pub fn render_text(&self) -> (r: String)
        requires
            self.wf(),
        ensures
            r@ == render_spec(self.grid(), self.spec_width()),
    {
        let n = self.cells.len();
        let w = self.width as usize;
        let mut out = String::new();
        let mut i: usize = 0;
        while i < n
            invariant
                self.wf(),
                n == self.grid().len(),
                w == self.spec_width(),
                i <= n,
                out@ == render_spec(self.grid().take(i as int), self.spec_width()),
            decreases n - i,
        {
            assert(self.grid().take(i as int + 1).drop_last() =~= self.grid().take(i as int));
            let g = match self.cells[i] {
                Cell::Dead => "\u{25fb}",
                Cell::Alive => "\u{25fc}",
            };
            assert(g@ == glyph(self.grid()[i as int]));
            out.append(g);
            if (i + 1) % w == 0 {
                proof {
                    reveal_strlit("\n");
                }
                out.append("\n");
            }
            assert(out@ =~= render_spec(self.grid().take(i as int + 1), self.spec_width()));
            i += 1;
        }
        assert(self.grid().take(n as int) =~= self.grid());
        out
    }

    /// The current generation as a read-only row-major buffer.
    pub fn get_cells(&self) -> (r: &Vec<Cell>)
        ensures
            r@ == self.grid(),
    {
        &self.cells
    }
}

} // verus!
