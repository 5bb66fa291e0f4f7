//! Properties of the simulation that relate several operations or hold of
//! every state, proved over the model that the operations' contracts use.

use vstd::prelude::*;
use crate::cell::{rule, weight, Cell};
use crate::grid::{
    coord_of_spec,
    index_of_spec,
    lemma_coord_of_index,
    lemma_index_in_range,
    live_at,
    live_neighbours_spec,
    neighbour_coords,
    with_alive,
    with_flipped,
};
use crate::universe::Universe;

verus! {

/// Converting an in-range coordinate to its linear position and back yields
/// the same coordinate.
pub proof fn index_round_trip(u: Universe, row: int, col: int)
    requires
        u.wf(),
        u.in_bounds(row, col),
    ensures
        coord_of_spec(u.spec_width(), index_of_spec(u.spec_width(), row, col)) == (row, col),
{
    lemma_coord_of_index(u.spec_width(), row, col);
}

/// Toggling the same cell twice restores the grid exactly: that cell gets its
/// original state back and no other cell is touched.
pub proof fn toggle_twice_restores(u: Universe, row: int, col: int)
    requires
        u.wf(),
        u.in_bounds(row, col),
    ensures
        with_flipped(with_flipped(u.grid(), u.spec_width(), row, col), u.spec_width(), row, col)
            == u.grid(),
{
    let w = u.spec_width();
    lemma_index_in_range(w, u.spec_height(), row, col);
    assert(with_flipped(with_flipped(u.grid(), w, row, col), w, row, col) =~= u.grid());
}

/// Setting the same cell alive twice gives the same grid as setting it once.
pub proof fn set_twice_is_set_once(u: Universe, row: int, col: int)
    requires
        u.wf(),
        u.in_bounds(row, col),
    ensures
        with_alive(with_alive(u.grid(), u.spec_width(), row, col), u.spec_width(), row, col)
            == with_alive(u.grid(), u.spec_width(), row, col),
{
    let w = u.spec_width();
    lemma_index_in_range(w, u.spec_height(), row, col);
    assert(with_alive(with_alive(u.grid(), w, row, col), w, row, col) =~= with_alive(
        u.grid(),
        w,
        row,
        col,
    ));
}

/// For every state and every possible neighbour count the rule gives exactly
/// one next state: a cell is alive next exactly when it has three live
/// neighbours, or is alive now and has two.
pub proof fn rule_is_total(c: Cell, live: int)
    requires
        0 <= live <= 8,
    ensures
        rule(c, live) == Cell::Alive <==> (live == 3 || (c == Cell::Alive && live == 2)),
        rule(c, live) == Cell::Dead <==> !(live == 3 || (c == Cell::Alive && live == 2)),
{
}

/// One more coordinate adds the weight of the cell it names.
proof fn lemma_live_at_step(cells: Seq<Cell>, width: int, coords: Seq<(int, int)>, k: int)
    requires
        0 <= k < coords.len(),
    ensures
        live_at(cells, width, coords.take(k + 1)) == live_at(cells, width, coords.take(k)) + weight(
            cells[index_of_spec(width, coords[k].0, coords[k].1)],
        ),
{
    assert(coords.take(k + 1).drop_last() =~= coords.take(k));
}

/// Two in-range coordinates with the same linear position are equal.
proof fn lemma_index_injective(width: int, r1: int, c1: int, r2: int, c2: int)
    requires
        0 < width,
        0 <= c1 < width,
        0 <= c2 < width,
        index_of_spec(width, r1, c1) == index_of_spec(width, r2, c2),
    ensures
        r1 == r2,
        c1 == c2,
{
    lemma_coord_of_index(width, r1, c1);
    lemma_coord_of_index(width, r2, c2);
}

/// On a grid at least 3 x 3 the eight wrapped neighbours of a cell are eight
/// different cells of the grid, none of them the cell itself.
pub proof fn neighbourhood_is_eight_cells(u: Universe, row: int, col: int)
    requires
        u.wf(),
        u.spec_width() >= 3,
        u.spec_height() >= 3,
        u.in_bounds(row, col),
    ensures
        neighbour_coords(u.spec_width(), u.spec_height(), row, col).len() == 8,
        neighbour_coords(u.spec_width(), u.spec_height(), row, col).no_duplicates(),
        !neighbour_coords(u.spec_width(), u.spec_height(), row, col).contains((row, col)),
        forall|k: int|
            0 <= k < 8 ==> u.in_bounds(
                #[trigger] neighbour_coords(u.spec_width(), u.spec_height(), row, col)[k].0,
                neighbour_coords(u.spec_width(), u.spec_height(), row, col)[k].1,
            ),
{
    let nb = neighbour_coords(u.spec_width(), u.spec_height(), row, col);
    assert forall|i: int, j: int| 0 <= i < nb.len() && 0 <= j < nb.len() && i != j implies nb[i]
        != nb[j] by {}
    assert forall|k: int| 0 <= k < nb.len() implies nb[k] != (row, col) by {}
}

/// The count over the first `k` neighbours of a cell, when the `k`-th of them
/// is live exactly where the mirrored neighbour of the lone cell is the cell.
proof fn lemma_lone_prefix(
    cells: Seq<Cell>,
    width: int,
    nb: Seq<(int, int)>,
    mine: Seq<(int, int)>,
    p: (int, int),
    k: int,
)
    requires
        0 <= k <= 8,
        nb.len() == 8,
        mine.len() == 8,
        mine.no_duplicates(),
        forall|j: int|
            0 <= j < 8 ==> weight(#[trigger] cells[index_of_spec(width, nb[j].0, nb[j].1)]) == (if mine[7
                - j] == p {
                1nat
            } else {
                0nat
            }),
    ensures
        live_at(cells, width, nb.take(k)) == (if exists|j: int| 8 - k <= j < 8 && mine[j] == p {
            1nat
        } else {
            0nat
        }),
    decreases k,
{
    if k == 0 {
        assert(nb.take(0) =~= Seq::<(int, int)>::empty());
    } else {
        lemma_lone_prefix(cells, width, nb, mine, p, k - 1);
        lemma_live_at_step(cells, width, nb, k - 1);
        assert(weight(cells[index_of_spec(width, nb[k - 1].0, nb[k - 1].1)]) == (if mine[8 - k] == p {
            1nat
        } else {
            0nat
        }));
        if mine[8 - k] == p {
            assert forall|j: int| 9 - k <= j < 8 implies mine[j] != p by {
                assert(mine[j] != mine[8 - k]);
            }
        } else {
            assert((exists|j: int| 8 - k <= j < 8 && mine[j] == p) ==> exists|j: int|
                9 - k <= j < 8 && mine[j] == p);
        }
    }
}

/// When the only live cell of a grid at least 3 x 3 is at (r0, c0), a cell
/// sees one live neighbour if it is among the eight wrapped neighbours of
/// (r0, c0), and none otherwise: the lone cell adds to exactly eight counts,
/// and its own count is zero.
pub proof fn lone_cell_neighbour_counts(u: Universe, r0: int, c0: int, row: int, col: int)
    requires
        u.wf(),
        u.spec_width() >= 3,
        u.spec_height() >= 3,
        u.in_bounds(r0, c0),
        u.in_bounds(row, col),
        forall|i: int|
            0 <= i < u.grid().len() ==> (#[trigger] u.grid()[i] == Cell::Alive <==> i
                == index_of_spec(u.spec_width(), r0, c0)),
    ensures
        live_neighbours_spec(u.grid(), u.spec_width(), u.spec_height(), row, col) == if neighbour_coords(
            u.spec_width(),
            u.spec_height(),
            r0,
            c0,
        ).contains((row, col)) {
            1nat
        } else {
            0nat
        },
{
    let w = u.spec_width();
    let h = u.spec_height();
    let cells = u.grid();
    let nb = neighbour_coords(w, h, row, col);
    let mine = neighbour_coords(w, h, r0, c0);
    neighbourhood_is_eight_cells(u, row, col);
    neighbourhood_is_eight_cells(u, r0, c0);
    lemma_index_in_range(w, h, r0, c0);
    assert forall|k: int| 0 <= k < 8 implies weight(
        #[trigger] cells[index_of_spec(w, nb[k].0, nb[k].1)],
    ) == (if mine[7 - k] == (row, col) { 1nat } else { 0nat }) by {
        lemma_index_in_range(w, h, nb[k].0, nb[k].1);
        if nb[k] != (r0, c0) && index_of_spec(w, nb[k].0, nb[k].1) == index_of_spec(w, r0, c0) {
            lemma_index_injective(w, nb[k].0, nb[k].1, r0, c0);
        }
    }
    lemma_lone_prefix(cells, w, nb, mine, (row, col), 8);
    assert(mine.contains((row, col)) ==> exists|j: int| 0 <= j < 8 && mine[j] == (row, col));
    assert(nb.take(8) =~= nb);
}

} // verus!
