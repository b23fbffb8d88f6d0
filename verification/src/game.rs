//! The executable grid engine.

use vstd::prelude::*;

use crate::model::{
    all_dead, binary_rows, lemma_min_row_len_le, lemma_next_cells_wf, lemma_seed_cells_wf,
    live_neighbor_count, live_view, marks_point, min_row_len, next_cells, next_value, seed_cells,
    GridModel, DEAD, LIVE,
};

verus! {

/// Returned by [`LifeGame::from`] when the seed pattern has no rows, so that
/// no common row width exists.
#[derive(Debug)]
pub struct EmptyInputError;

/// A Game-of-Life grid: a display label, the dimensions, and the current
/// generation of cells, stored row-major.
pub struct LifeGame {
    name: String,
    width: usize,
    height: usize,
    cells: Vec<Vec<u8>>,
}

impl View for LifeGame {
    type V = GridModel;

    closed spec fn view(&self) -> GridModel {
        GridModel {
            name: self.name@,
            width: self.width as nat,
            height: self.height as nat,
            cells: self.cells.deep_view(),
        }
    }
}

/// Each entry of the deep view of a row matrix is the view of that row.
proof fn lemma_rows_deep_view(v: &Vec<Vec<u8>>)
    ensures
        v.deep_view().len() == v@.len(),
        forall|i: int| 0 <= i < v@.len() ==> #[trigger] v.deep_view()[i] == v@[i]@,
        forall|i: int| 0 <= i < v@.len() ==> (#[trigger] v@[i])@ == v.deep_view()[i],
{
    assert forall|i: int| 0 <= i < v@.len() implies #[trigger] v.deep_view()[i] == v@[i]@ by {
        assert(v.deep_view()[i] =~= v@[i]@);
    }
}

/// Each entry of the deep view of a boolean row matrix is the view of that
/// row.
proof fn lemma_bool_rows_deep_view(v: &Vec<Vec<bool>>)
    ensures
        v.deep_view().len() == v@.len(),
        forall|i: int| 0 <= i < v@.len() ==> #[trigger] v.deep_view()[i] == v@[i]@,
        forall|i: int| 0 <= i < v@.len() ==> (#[trigger] v@[i])@ == v.deep_view()[i],
{
    assert forall|i: int| 0 <= i < v@.len() implies #[trigger] v.deep_view()[i] == v@[i]@ by {
        assert(v.deep_view()[i] =~= v@[i]@);
    }
}

/// Each entry of the deep view of a borrowed row slice is the view of that
/// row.
proof fn lemma_row_slice_deep_view(v: &[Vec<u8>])
    ensures
        v.deep_view().len() == v@.len(),
        forall|i: int| 0 <= i < v@.len() ==> #[trigger] v.deep_view()[i] == v@[i]@,
        forall|i: int| 0 <= i < v@.len() ==> (#[trigger] v@[i])@ == v.deep_view()[i],
{
    assert forall|i: int| 0 <= i < v@.len() implies #[trigger] v.deep_view()[i] == v@[i]@ by {
        assert(v.deep_view()[i] =~= v@[i]@);
    }
}

impl LifeGame {
    /// An unlabelled grid of the given dimensions with every cell dead.
    pub fn new(width: usize, height: usize) -> (r: Self)
        ensures
            r@.wf(),
            r@.name == Seq::<char>::empty(),
            r@.width == width as nat,
            r@.height == height as nat,
            all_dead(r@.cells, width as nat, height as nat),
    {
        let mut cells: Vec<Vec<u8>> = Vec::new();
        for y in 0..height
            invariant
                cells@.len() == y,
                forall|yy: int| 0 <= yy < y ==> (#[trigger] cells@[yy])@.len() == width,
                forall|yy: int, xx: int|
                    0 <= yy < y && 0 <= xx < width ==> #[trigger] cells@[yy]@[xx] == DEAD,
        {
            let mut row: Vec<u8> = Vec::new();
            for x in 0..width
                invariant
                    row@.len() == x,
                    forall|xx: int| 0 <= xx < x ==> #[trigger] row@[xx] == DEAD,
            {
                row.push(DEAD);
            }
            cells.push(row);
        }
        proof {
            lemma_rows_deep_view(&cells);
        }
        LifeGame { name: String::new(), width, height, cells }
    }

    /// A labelled grid seeded from a non-empty pattern of 0/1 rows. The rows
    /// may be jagged: every row is truncated to the length of the shortest
    /// one, and the cells a longer row holds beyond that length are dropped.
    /// An empty pattern has no well-defined width and is rejected.
    pub fn from(name: &str, input: &[Vec<u8>]) -> (r: Result<Self, EmptyInputError>)
        requires
            binary_rows(input.deep_view()),
        ensures
            match r {
                Ok(g) => {
                    &&& input@.len() > 0
                    &&& g@.wf()
                    &&& g@.name == name@
                    &&& g@.height == input@.len() as nat
                    &&& g@.width == min_row_len(input.deep_view())
                    &&& g@.cells == seed_cells(input.deep_view())
                },
                Err(_) => input@.len() == 0,
            },
    {
        let height = input.len();
        if height == 0 {
            return Err(EmptyInputError);
        }
        let ghost dv = input.deep_view();
        proof {
            lemma_row_slice_deep_view(input);
        }
        let mut width: usize = input[0].len();
        let mut i: usize = 1;
        while i < height
            invariant
                1 <= i <= height,
                height == input@.len(),
                dv == input.deep_view(),
                dv.len() == height,
                forall|k: int| 0 <= k < input@.len() ==> (#[trigger] input@[k])@ == dv[k],
                width as nat == min_row_len(dv.take(i as int)),
            decreases height - i,
        {
            let len = input[i].len();
            proof {
                assert(dv.take(i + 1).drop_last() =~= dv.take(i as int));
            }
            if len < width {
                width = len;
            }
            i += 1;
        }
        proof {
            assert(dv.take(height as int) =~= dv);
        }
        let mut cells: Vec<Vec<u8>> = Vec::new();
        for y in 0..height
            invariant
                height == input@.len(),
                dv == input.deep_view(),
                dv.len() == height,
                forall|k: int| 0 <= k < input@.len() ==> (#[trigger] input@[k])@ == dv[k],
                width as nat == min_row_len(dv),
                cells@.len() == y,
                forall|yy: int| 0 <= yy < y ==> (#[trigger] cells@[yy])@ == seed_cells(dv)[yy],
        {
            proof {
                lemma_min_row_len_le(dv, y as int);
            }
            let irow = &input[y];
            let mut row: Vec<u8> = Vec::new();
            for x in 0..width
                invariant
                    y < input@.len(),
                    dv == input.deep_view(),
                    dv.len() == input@.len(),
                    irow@ == dv[y as int],
                    width <= irow@.len(),
                    row@.len() == x,
                    forall|xx: int| 0 <= xx < x ==> #[trigger] row@[xx] == dv[y as int][xx],
            {
                row.push(irow[x]);
            }
            proof {
                assert(row@ =~= seed_cells(dv)[y as int]);
            }
            cells.push(row);
        }
        proof {
            lemma_rows_deep_view(&cells);
            assert(cells.deep_view() =~= seed_cells(dv));
            lemma_seed_cells_wf(dv);
        }
        Ok(LifeGame { name: name.to_owned(), width, height, cells })
    }

    /// The current generation as one boolean row per grid row, true for a
    /// live cell, for a renderer to consume. Reading the view changes
    /// nothing.
    pub fn cells_iter(&self) -> (r: Vec<Vec<bool>>)
        ensures
            r.deep_view() == live_view(self@.cells),
    {
        proof {
            lemma_rows_deep_view(&self.cells);
        }
        let mut rows: Vec<Vec<bool>> = Vec::new();
        for y in 0..self.cells.len()
            invariant
                y <= self.cells@.len(),
                rows@.len() == y,
                forall|yy: int|
                    0 <= yy < y ==> (#[trigger] rows@[yy])@ == live_view(self@.cells)[yy],
        {
            proof {
                lemma_rows_deep_view(&self.cells);
            }
            let irow = &self.cells[y];
            let mut row: Vec<bool> = Vec::new();
            for x in 0..irow.len()
                invariant
                    y < self.cells@.len(),
                    irow@ == self@.cells[y as int],
                    row@.len() == x,
                    x <= irow@.len(),
                    forall|xx: int| 0 <= xx < x ==> #[trigger] row@[xx] == (irow@[xx] == LIVE),
            {
                row.push(irow[x] == LIVE);
            }
            proof {
                assert(row@ =~= live_view(self@.cells)[y as int]);
            }
            rows.push(row);
        }
        proof {
            lemma_bool_rows_deep_view(&rows);
            assert(rows.deep_view() =~= live_view(self@.cells));
        }
        rows
    }

    /// The grid's display label.
    pub fn name(&self) -> (r: &str)
        ensures
            r@ == self@.name,
    {
        self.name.as_str()
    }

    /// The grid width, reduced modulo 2^16 to fit the result type.
    pub fn width(&self) -> (r: u16)
        ensures
            r == self@.width % 0x10000,
    {
        (self.width % 0x10000) as u16
    }

    /// The grid height, reduced modulo 2^16 to fit the result type.
    pub fn height(&self) -> (r: u16)
        ensures
            r == self@.height % 0x10000,
    {
        (self.height % 0x10000) as u16
    }

    /// The number of live cells among the up-to-8 in-bounds neighbors of
    /// `(x, y)`. Neighbors outside the grid do not exist and are not counted.
    fn count_alives(&self, x: usize, y: usize) -> (n: usize)
        requires
            self@.wf(),
            x < self@.width,
            y < self@.height,
        ensures
            n == live_neighbor_count(self@.cells, self@.width, self@.height, x as int, y as int),
    {
        proof {
            lemma_rows_deep_view(&self.cells);
        }
        let mut n: usize = 0;
        if x > 0 && y > 0 && self.cells[y - 1][x - 1] == LIVE {
            n += 1;
        }
        if y > 0 && self.cells[y - 1][x] == LIVE {
            n += 1;
        }
        if x + 1 < self.width && y > 0 && self.cells[y - 1][x + 1] == LIVE {
            n += 1;
        }
        if x > 0 && self.cells[y][x - 1] == LIVE {
            n += 1;
        }
        if x + 1 < self.width && self.cells[y][x + 1] == LIVE {
            n += 1;
        }
        if x > 0 && y + 1 < self.height && self.cells[y + 1][x - 1] == LIVE {
            n += 1;
        }
        if y + 1 < self.height && self.cells[y + 1][x] == LIVE {
            n += 1;
        }
        if x + 1 < self.width && y + 1 < self.height && self.cells[y + 1][x + 1] == LIVE {
            n += 1;
        }
        n
    }

    /// The next value of the cell at `(x, y)` whose current value is `cell`:
    /// the transition rule applied to the cell and its live neighbor count.
    fn to_next_cell(&self, cell: u8, x: usize, y: usize) -> (r: u8)
        requires
            self@.wf(),
            x < self@.width,
            y < self@.height,
        ensures
            r == next_value(
                cell,
                live_neighbor_count(self@.cells, self@.width, self@.height, x as int, y as int),
            ),
    {
        let n = self.count_alives(x, y);
        if (cell == DEAD && n == 3) || (cell == LIVE && (n == 2 || n == 3)) {
            LIVE
        } else {
            DEAD
        }
    }

    /// Replaces the current generation with its successor and reports whether
    /// anything changed: `Some(())` if at least one cell differs from the
    /// previous generation, `None` if the grid is a fixed point of the rule.
    pub fn next(&mut self) -> (r: Option<()>)
        requires
            old(self)@.wf(),
        ensures
            final(self)@.wf(),
            final(self)@.name == old(self)@.name,
            final(self)@.width == old(self)@.width,
            final(self)@.height == old(self)@.height,
            final(self)@.cells == next_cells(old(self)@.cells, old(self)@.width, old(self)@.height),
            r is Some <==> final(self)@.cells != old(self)@.cells,
    {
        proof {
            lemma_next_cells_wf(old(self)@.cells, old(self)@.width, old(self)@.height);
        }
        let next = self.to_next_cells();
        if cells_equal(&self.cells, &next) {
            None
        } else {
            self.cells = next;
            Some(())
        }
    }

    /// Marks each of the given `(x, y)` positions live, leaving every other
    /// cell as it was. Every position must lie on the grid.
    pub fn set_alives(&mut self, points: &[(usize, usize)])
        requires
            old(self)@.wf(),
            forall|i: int|
                0 <= i < points@.len() ==> (#[trigger] points@[i]).0 < old(self)@.width
                    && points@[i].1 < old(self)@.height,
        ensures
            final(self)@.wf(),
            final(self)@.name == old(self)@.name,
            final(self)@.width == old(self)@.width,
            final(self)@.height == old(self)@.height,
            forall|x: int, y: int|
                0 <= x < old(self)@.width && 0 <= y < old(self)@.height
                    ==> #[trigger] final(self)@.cells[y][x] == if marks_point(
                    points@,
                    points@.len() as int,
                    x,
                    y,
                ) {
                    LIVE
                } else {
                    old(self)@.cells[y][x]
                },
    {
        let ghost g0 = self@;
        for i in 0..points.len()
            invariant
                self@.wf(),
                g0.wf(),
                self@.name == g0.name,
                self@.width == g0.width,
                self@.height == g0.height,
                forall|k: int|
                    0 <= k < points@.len() ==> (#[trigger] points@[k]).0 < g0.width
                        && points@[k].1 < g0.height,
                forall|x: int, y: int|
                    0 <= x < g0.width && 0 <= y < g0.height ==> #[trigger] self@.cells[y][x] == if marks_point(
                        points@,
                        i as int,
                        x,
                        y,
                    ) {
                        LIVE
                    } else {
                        g0.cells[y][x]
                    },
        {
            proof {
                lemma_rows_deep_view(&self.cells);
            }
            let (x, y) = points[i];
            self.cells[y][x] = LIVE;
            proof {
                lemma_rows_deep_view(&self.cells);
            }
        }
    }

    /// The successor generation of the current cells, computed from a single
    /// snapshot: no cell's update sees another cell's updated value.
    fn to_next_cells(&self) -> (r: Vec<Vec<u8>>)
        requires
            self@.wf(),
        ensures
            r.deep_view() == next_cells(self@.cells, self@.width, self@.height),
    {
        proof {
            lemma_rows_deep_view(&self.cells);
        }
        let mut rows: Vec<Vec<u8>> = Vec::new();
        for y in 0..self.height
            invariant
                self@.wf(),
                self@.width == self.width as nat,
                self@.height == self.height as nat,
                rows@.len() == y,
                forall|yy: int|
                    0 <= yy < y ==> (#[trigger] rows@[yy])@ == next_cells(
                        self@.cells,
                        self@.width,
                        self@.height,
                    )[yy],
        {
            let mut row: Vec<u8> = Vec::new();
            for x in 0..self.width
                invariant
                    self@.wf(),
                    self@.width == self.width as nat,
                    self@.height == self.height as nat,
                    y < self.height,
                    row@.len() == x,
                    forall|xx: int|
                        0 <= xx < x ==> #[trigger] row@[xx] == next_value(
                            self@.cells[y as int][xx],
                            live_neighbor_count(
                                self@.cells,
                                self@.width,
                                self@.height,
                                xx,
                                y as int,
                            ),
                        ),
            {
                proof {
                    lemma_rows_deep_view(&self.cells);
                }
                let cell = self.cells[y][x];
                row.push(self.to_next_cell(cell, x, y));
            }
            proof {
                assert(row@ =~= next_cells(self@.cells, self@.width, self@.height)[y as int]);
            }
            rows.push(row);
        }
        proof {
            lemma_rows_deep_view(&rows);
            assert(rows.deep_view() =~= next_cells(self@.cells, self@.width, self@.height));
        }
        rows
    }
}

/// Whether two row matrices hold exactly the same values.
fn cells_equal(a: &Vec<Vec<u8>>, b: &Vec<Vec<u8>>) -> (r: bool)
    ensures
        r == (a.deep_view() == b.deep_view()),
{
    proof {
        lemma_rows_deep_view(a);
        lemma_rows_deep_view(b);
    }
    if a.len() != b.len() {
        return false;
    }
    for i in 0..a.len()
        invariant
            a@.len() == b@.len(),
            forall|ii: int| 0 <= ii < i ==> (#[trigger] a.deep_view()[ii]) == b.deep_view()[ii],
    {
        proof {
            lemma_rows_deep_view(a);
            lemma_rows_deep_view(b);
        }
        let ra = &a[i];
        let rb = &b[i];
        if ra.len() != rb.len() {
            proof {
                assert(a.deep_view()[i as int].len() != b.deep_view()[i as int].len());
            }
            return false;
        }
        for j in 0..ra.len()
            invariant
                ra@.len() == rb@.len(),
                0 <= i < a.deep_view().len(),
                a.deep_view().len() == b.deep_view().len(),
                ra@ == a.deep_view()[i as int],
                rb@ == b.deep_view()[i as int],
                forall|jj: int| 0 <= jj < j ==> #[trigger] ra@[jj] == rb@[jj],
        {
            if ra[j] != rb[j] {
                proof {
                    assert(a.deep_view()[i as int][j as int] != b.deep_view()[i as int][j as int]);
                }
                return false;
            }
        }
        proof {
            assert(ra@ =~= rb@);
        }
    }
    proof {
        assert(a.deep_view() =~= b.deep_view());
    }
    true
}

} // verus!
