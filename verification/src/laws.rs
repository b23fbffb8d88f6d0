//! General properties of the transition rule, proved once for every grid.

use vstd::prelude::*;

use crate::model::{
    all_dead, lemma_min_row_len_le, live_neighbor_count, live_view, min_row_len, next_cells,
    seed_cells, wf_cells, LIVE,
};

verus! {

/// The cell matrix after `k` applications of the transition rule.
pub open spec fn iterate_next(cells: Seq<Seq<u8>>, width: nat, height: nat, k: nat) -> Seq<Seq<u8>>
    decreases k,
{
    if k == 0 {
        cells
    } else {
        next_cells(iterate_next(cells, width, height, (k - 1) as nat), width, height)
    }
}

/// An all-dead grid of any size is a fixed point of the rule: no cell has a
/// live neighbor, and a dead cell without exactly 3 live neighbors stays
/// dead.
pub proof fn lemma_dead_grid_is_fixed(cells: Seq<Seq<u8>>, width: nat, height: nat)
    requires
        wf_cells(cells, width, height),
        all_dead(cells, width, height),
    ensures
        next_cells(cells, width, height) == cells,
{
    assert forall|y: int| 0 <= y < height implies #[trigger] next_cells(cells, width, height)[y]
        =~= cells[y] by {
        assert forall|x: int| 0 <= x < width implies #[trigger] next_cells(cells, width, height)[y][x]
            == cells[y][x] by {
            assert(live_neighbor_count(cells, width, height, x, y) == 0);
        }
    }
    assert(next_cells(cells, width, height) =~= cells);
}

/// The next value of a cell depends only on its current value and its live
/// neighbor count: two cells that agree on both, in any two grids, get the
/// same next value.
pub proof fn lemma_rule_is_pointwise(
    c1: Seq<Seq<u8>>,
    w1: nat,
    h1: nat,
    x1: int,
    y1: int,
    c2: Seq<Seq<u8>>,
    w2: nat,
    h2: nat,
    x2: int,
    y2: int,
)
    requires
        0 <= x1 < w1,
        0 <= y1 < h1,
        0 <= x2 < w2,
        0 <= y2 < h2,
        c1[y1][x1] == c2[y2][x2],
        live_neighbor_count(c1, w1, h1, x1, y1) == live_neighbor_count(c2, w2, h2, x2, y2),
    ensures
        next_cells(c1, w1, h1)[y1][x1] == next_cells(c2, w2, h2)[y2][x2],
{
}

/// Seeding from a non-empty pattern and reading the boolean view back yields
/// exactly the live cells of the pattern truncated to its minimum row length.
pub proof fn lemma_seed_round_trip(rows: Seq<Seq<u8>>)
    requires
        rows.len() > 0,
    ensures
        live_view(seed_cells(rows)).len() == rows.len(),
        forall|y: int|
            0 <= y < rows.len() ==> (#[trigger] live_view(seed_cells(rows))[y]).len()
                == min_row_len(rows),
        forall|y: int, x: int|
            0 <= y < rows.len() && 0 <= x < min_row_len(rows)
                ==> (#[trigger] live_view(seed_cells(rows))[y][x] <==> rows[y][x] == LIVE),
{
    assert forall|y: int| 0 <= y < rows.len() implies (#[trigger] live_view(seed_cells(rows))[y]).len()
        == min_row_len(rows) by {
        lemma_min_row_len_le(rows, y);
    }
    assert forall|y: int, x: int|
        0 <= y < rows.len() && 0 <= x < min_row_len(rows) implies (#[trigger] live_view(
        seed_cells(rows),
    )[y][x] <==> rows[y][x] == LIVE) by {
        lemma_min_row_len_le(rows, y);
        assert(seed_cells(rows)[y][x] == rows[y][x]);
    }
}

/// A fixed point of the rule is fixed forever: once one application leaves
/// the grid unchanged, every number of further applications leaves it
/// unchanged too.
pub proof fn lemma_fixed_point_is_forever(cells: Seq<Seq<u8>>, width: nat, height: nat, k: nat)
    requires
        wf_cells(cells, width, height),
        next_cells(cells, width, height) == cells,
    ensures
        iterate_next(cells, width, height, k) == cells,
    decreases k,
{
    if k > 0 {
        lemma_fixed_point_is_forever(cells, width, height, (k - 1) as nat);
    }
}

/// A corner cell has at most 3 neighbors: the positions beyond the two edges
/// that meet at the corner are not on the grid and are never counted, with no
/// wraparound to the opposite edges.
pub proof fn lemma_corner_has_at_most_three_neighbors(
    cells: Seq<Seq<u8>>,
    width: nat,
    height: nat,
)
    ensures
        live_neighbor_count(cells, width, height, 0, 0) <= 3,
{
}

/// A live corner cell with exactly 2 of its at-most-3 possible neighbors
/// live survives the step.
pub proof fn lemma_corner_cell_survives(cells: Seq<Seq<u8>>, width: nat, height: nat)
    requires
        width > 0,
        height > 0,
        cells[0][0] == LIVE,
        live_neighbor_count(cells, width, height, 0, 0) == 2,
    ensures
        next_cells(cells, width, height)[0][0] == LIVE,
{
}

} // verus!
