//! The mathematical model of a grid and of the transition rule.

use vstd::prelude::*;

verus! {

/// The value of a live cell.
pub const LIVE: u8 = 1;

/// The value of a dead cell.
pub const DEAD: u8 = 0;

/// The abstract state of a grid: a label, its dimensions, and a row-major
/// matrix of cell values.
#[verifier::ext_equal]
pub ghost struct GridModel {
    pub name: Seq<char>,
    pub width: nat,
    pub height: nat,
    pub cells: Seq<Seq<u8>>,
}

/// A well-formed cell matrix: `height` rows, each of length `width`, every
/// value either `DEAD` or `LIVE`.
pub open spec fn wf_cells(cells: Seq<Seq<u8>>, width: nat, height: nat) -> bool {
    &&& cells.len() == height
    &&& forall|y: int| 0 <= y < height ==> (#[trigger] cells[y]).len() == width
    &&& forall|y: int, x: int|
        0 <= y < height && 0 <= x < width ==> #[trigger] cells[y][x] == DEAD || cells[y][x] == LIVE
}

impl GridModel {
    /// The grid's structural invariant.
    pub open spec fn wf(self) -> bool {
        wf_cells(self.cells, self.width, self.height)
    }
}

/// Whether position `(x, y)` lies on the grid and holds a live cell.
/// Positions outside the grid never count as live: this is what makes the
/// topology a finite plane rather than a torus.
pub open spec fn live_at(cells: Seq<Seq<u8>>, width: nat, height: nat, x: int, y: int) -> bool {
    0 <= y < height && 0 <= x < width && cells[y][x] == LIVE
}

/// 1 if `(x, y)` holds a live cell, 0 otherwise.
pub open spec fn one_if_live(cells: Seq<Seq<u8>>, width: nat, height: nat, x: int, y: int) -> int {
    if live_at(cells, width, height, x, y) {
        1
    } else {
        0
    }
}

/// The number of live cells among the up-to-8 neighbors of `(x, y)`.
/// Out-of-bounds positions contribute nothing, so an edge cell has fewer
/// potential live neighbors than an interior cell.
pub open spec fn live_neighbor_count(
    cells: Seq<Seq<u8>>,
    width: nat,
    height: nat,
    x: int,
    y: int,
) -> int {
    one_if_live(cells, width, height, x - 1, y - 1)
        + one_if_live(cells, width, height, x, y - 1)
        + one_if_live(cells, width, height, x + 1, y - 1)
        + one_if_live(cells, width, height, x - 1, y)
        + one_if_live(cells, width, height, x + 1, y)
        + one_if_live(cells, width, height, x - 1, y + 1)
        + one_if_live(cells, width, height, x, y + 1)
        + one_if_live(cells, width, height, x + 1, y + 1)
}

/// The transition rule, a pure function of the current value and the live
/// neighbor count: a dead cell with exactly 3 live neighbors is born, a live
/// cell with 2 or 3 live neighbors survives, every other cell is dead.
pub open spec fn next_value(v: u8, n: int) -> u8 {
    if (v == DEAD && n == 3) || (v == LIVE && (n == 2 || n == 3)) {
        LIVE
    } else {
        DEAD
    }
}

/// The successor generation: every cell is computed from the same snapshot
/// `cells` of the current generation.
pub open spec fn next_cells(cells: Seq<Seq<u8>>, width: nat, height: nat) -> Seq<Seq<u8>> {
    Seq::new(
        height,
        |y: int| Seq::new(width, |x: int| next_value(cells[y][x], live_neighbor_count(cells, width, height, x, y))),
    )
}

/// Whether one of the first `n` coordinate pairs names position `(x, y)`.
pub open spec fn marks_point(points: Seq<(usize, usize)>, n: int, x: int, y: int) -> bool {
    exists|i: int| 0 <= i < n && (#[trigger] points[i]).0 == x && points[i].1 == y
}

/// Whether every cell of the matrix is dead.
pub open spec fn all_dead(cells: Seq<Seq<u8>>, width: nat, height: nat) -> bool {
    forall|y: int, x: int| 0 <= y < height && 0 <= x < width ==> #[trigger] cells[y][x] == DEAD
}

/// The cell matrix as the renderer sees it: one boolean per cell, true for a
/// live cell.
pub open spec fn live_view(cells: Seq<Seq<u8>>) -> Seq<Seq<bool>> {
    Seq::new(cells.len(), |y: int| Seq::new(cells[y].len(), |x: int| cells[y][x] == LIVE))
}

/// The length of the shortest row of a non-empty sequence of rows.
pub open spec fn min_row_len(rows: Seq<Seq<u8>>) -> nat
    recommends
        rows.len() > 0,
    decreases rows.len(),
{
    if rows.len() <= 1 {
        rows[0].len()
    } else {
        let m = min_row_len(rows.drop_last());
        if rows.last().len() <= m {
            rows.last().len()
        } else {
            m
        }
    }
}

/// The cell matrix a seed pattern produces: every row truncated to the length
/// of the shortest row, so that the matrix is rectangular.
pub open spec fn seed_cells(rows: Seq<Seq<u8>>) -> Seq<Seq<u8>> {
    Seq::new(rows.len(), |y: int| rows[y].take(min_row_len(rows) as int))
}

/// Whether every value of the (possibly jagged) rows is `DEAD` or `LIVE`.
pub open spec fn binary_rows(rows: Seq<Seq<u8>>) -> bool {
    forall|y: int, x: int|
        0 <= y < rows.len() && 0 <= x < rows[y].len() ==> #[trigger] rows[y][x] == DEAD
            || rows[y][x] == LIVE
}

/// No row of a non-empty sequence of rows is shorter than the minimum.
pub proof fn lemma_min_row_len_le(rows: Seq<Seq<u8>>, y: int)
    requires
        0 <= y < rows.len(),
    ensures
        min_row_len(rows) <= rows[y].len(),
    decreases rows.len(),
{
    if rows.len() > 1 && y < rows.len() - 1 {
        lemma_min_row_len_le(rows.drop_last(), y);
    }
}

/// Truncating a non-empty 0/1 seed to its minimum row length gives a
/// well-formed cell matrix.
pub proof fn lemma_seed_cells_wf(rows: Seq<Seq<u8>>)
    requires
        rows.len() > 0,
        binary_rows(rows),
    ensures
        wf_cells(seed_cells(rows), min_row_len(rows), rows.len()),
{
    assert forall|y: int| 0 <= y < rows.len() implies (#[trigger] seed_cells(rows)[y]).len()
        == min_row_len(rows) by {
        lemma_min_row_len_le(rows, y);
    }
    assert forall|y: int, x: int|
        0 <= y < rows.len() && 0 <= x < min_row_len(rows) implies #[trigger] seed_cells(
        rows,
    )[y][x] == DEAD || seed_cells(rows)[y][x] == LIVE by {
        lemma_min_row_len_le(rows, y);
        assert(seed_cells(rows)[y][x] == rows[y][x]);
    }
}

/// The successor generation is well formed whenever the current one is.
pub proof fn lemma_next_cells_wf(cells: Seq<Seq<u8>>, width: nat, height: nat)
    requires
        wf_cells(cells, width, height),
    ensures
        wf_cells(next_cells(cells, width, height), width, height),
{
}

} // verus!
