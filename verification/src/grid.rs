//! A fixed-size two-dimensional grid of cell values.
//!
//! The grid stores `row_size * column_size` cells in a flat vector in
//! row-major order. Every access is validated against the declared
//! dimensions; `get` and `set` report an out-of-bounds coordinate as an
//! error instead of panicking.

use vstd::prelude::*;

verus! {

/// Flat row-major storage for a rectangular field of cells.
#[derive(Debug)]
pub struct Grid<T> {
    row_size: usize,
    column_size: usize,
    cells: Vec<T>,
}

impl<T> Grid<T> {
    /// Number of rows, as declared at construction.
    pub closed spec fn rows(&self) -> int {
        self.row_size as int
    }

    /// Number of columns, as declared at construction.
    pub closed spec fn cols(&self) -> int {
        self.column_size as int
    }

    /// The flat row-major sequence of stored cells.
    pub closed spec fn cell_seq(&self) -> Seq<T> {
        self.cells@
    }

    /// Well-formedness: the storage always holds exactly one cell per
    /// coordinate of the declared `rows() x cols()` rectangle.
    pub open spec fn wf(&self) -> bool {
        self.cell_seq().len() == self.rows() * self.cols()
    }

    /// Whether `(r, c)` lies inside the declared dimensions.
    pub open spec fn in_bounds(&self, r: int, c: int) -> bool {
        0 <= r < self.rows() && 0 <= c < self.cols()
    }

    /// The cell stored at in-bounds coordinate `(r, c)`.
    pub open spec fn cell(&self, r: int, c: int) -> T {
        self.cell_seq()[r * self.cols() + c]
    }
}

/// The flat index of an in-bounds coordinate lies inside the storage.
pub proof fn lemma_flat_index_bound(r: int, c: int, rows: int, cols: int)
    by (nonlinear_arith)
    requires
        0 <= r < rows,
        0 <= c < cols,
    ensures
        0 <= r * cols + c < rows * cols,
{
}

/// Distinct in-bounds coordinates have distinct flat indices.
pub proof fn lemma_flat_index_injective(r1: int, c1: int, r2: int, c2: int, rows: int, cols: int)
    by (nonlinear_arith)
    requires
        0 <= r1 < rows,
        0 <= c1 < cols,
        0 <= r2 < rows,
        0 <= c2 < cols,
        !(r1 == r2 && c1 == c2),
    ensures
        r1 * cols + c1 != r2 * cols + c2,
{
}

impl<T: Copy> Grid<T> {
    /// Creates a grid of the given dimensions with every cell set to
    /// `init_data`. Dimensions may be zero, producing an empty grid.
    pub fn new(row_size: usize, column_size: usize, init_data: T) -> (g: Grid<T>)
        requires
            row_size * column_size <= usize::MAX,
        ensures
            g.wf(),
            g.rows() == row_size,
            g.cols() == column_size,
            forall|i: int| 0 <= i < g.cell_seq().len() ==> g.cell_seq()[i] == init_data,
    {
        let count: usize = row_size * column_size;
        let mut cells: Vec<T> = Vec::new();
        let mut i: usize = 0;
        while i < count
            invariant
                i <= count,
                cells@.len() == i,
                forall|j: int| 0 <= j < i ==> cells@[j] == init_data,
            decreases count - i,
        {
            cells.push(init_data);
            i = i + 1;
        }
        Grid { row_size, column_size, cells }
    }

    /// Returns the dimensions as `(row size, column size)`.
    pub fn size(&self) -> (s: (usize, usize))
        ensures
            s.0 == self.rows(),
            s.1 == self.cols(),
    {
        (self.row_size, self.column_size)
    }

    /// Deep copy: a brand-new grid with the same dimensions and cell values,
    /// backed by independent storage.
    pub fn clone(&self) -> (g: Grid<T>)
        requires
            self.wf(),
        ensures
            g.wf(),
            g.rows() == self.rows(),
            g.cols() == self.cols(),
            g.cell_seq() == self.cell_seq(),
    {
        let mut cells: Vec<T> = Vec::new();
        let mut i: usize = 0;
        let len: usize = self.cells.len();
        while i < len
            invariant
                i <= len,
                len == self.cells@.len(),
                cells@.len() == i,
                forall|j: int| 0 <= j < i ==> cells@[j] == self.cells@[j],
            decreases len - i,
        {
            cells.push(self.cells[i]);
            i = i + 1;
        }
        proof {
            assert(cells@ =~= self.cells@);
        }
        Grid { row_size: self.row_size, column_size: self.column_size, cells }
    }

    /// Returns the cell at `(row, column)`, or an error when the coordinate
    /// lies outside the grid.
    pub fn get(&self, row: usize, column: usize) -> (r: Result<&T, &'static str>)
        requires
            self.wf(),
        ensures
            r is Ok <==> self.in_bounds(row as int, column as int),
            r is Ok ==> *r->Ok_0 == self.cell(row as int, column as int),
    {
        if row >= self.row_size {
            return Err("Get row is out of bounds");
        }
        if column >= self.column_size {
            return Err("Get column is out of bounds");
        }
        let _storage_len: usize = self.cells.len();
        proof {
            lemma_flat_index_bound(row as int, column as int, self.rows(), self.cols());
        }
        Ok(&self.cells[row * self.column_size + column])
    }

    /// Overwrites the cell at `(row, column)` with `data`, or returns an
    /// error (changing nothing) when the coordinate lies outside the grid.
    pub fn set(&mut self, row: usize, column: usize, data: T) -> (r: Result<(), &'static str>)
        requires
            old(self).wf(),
        ensures
            final(self).wf(),
            final(self).rows() == old(self).rows(),
            final(self).cols() == old(self).cols(),
            r is Ok <==> old(self).in_bounds(row as int, column as int),
            r is Ok ==> final(self).cell_seq() == old(self).cell_seq().update(
                row as int * old(self).cols() + column as int,
                data,
            ),
            r is Ok ==> final(self).cell(row as int, column as int) == data,
            r is Ok ==> forall|r2: int, c2: int|
                old(self).in_bounds(r2, c2) && !(r2 == row as int && c2 == column as int)
                    ==> final(self).cell(r2, c2) == old(self).cell(r2, c2),
            r is Err ==> *final(self) == *old(self),
    {
        if row >= self.row_size {
            return Err("Given row is out of grid bounds");
        }
        if column >= self.column_size {
            return Err("Given column is out of grid bounds");
        }
        let _storage_len: usize = self.cells.len();
        proof {
            lemma_flat_index_bound(row as int, column as int, self.rows(), self.cols());
        }
        self.cells[row * self.column_size + column] = data;
        proof {
            assert forall|r2: int, c2: int|
                old(self).in_bounds(r2, c2) && !(r2 == row as int && c2 == column as int)
                    implies self.cell(r2, c2) == old(self).cell(r2, c2) by {
                lemma_flat_index_bound(r2, c2, self.rows(), self.cols());
                lemma_flat_index_injective(
                    r2,
                    c2,
                    row as int,
                    column as int,
                    self.rows(),
                    self.cols(),
                );
            }
        }
        Ok(())
    }
}

/// Writing to a cell and reading it back: when `(r, c)` is in bounds, the
/// grid whose storage is `cells.update(r * cols + c, v)` — the grid that a
/// successful `set(r, c, v)` produces — holds `v` at `(r, c)` and the old
/// value everywhere else; `get` returns exactly the stored cell.
pub proof fn lemma_set_then_get<T>(g: Grid<T>, g2: Grid<T>, r: int, c: int, v: T)
    requires
        g.wf(),
        g.in_bounds(r, c),
        g2.rows() == g.rows(),
        g2.cols() == g.cols(),
        g2.cell_seq() == g.cell_seq().update(r * g.cols() + c, v),
    ensures
        g2.wf(),
        g2.cell(r, c) == v,
        forall|r2: int, c2: int|
            g.in_bounds(r2, c2) && !(r2 == r && c2 == c) ==> #[trigger] g2.cell(r2, c2) == g.cell(
                r2,
                c2,
            ),
{
    lemma_flat_index_bound(r, c, g.rows(), g.cols());
    assert forall|r2: int, c2: int|
        g.in_bounds(r2, c2) && !(r2 == r && c2 == c) implies #[trigger] g2.cell(r2, c2) == g.cell(
        r2,
        c2,
    ) by {
        lemma_flat_index_bound(r2, c2, g.rows(), g.cols());
        lemma_flat_index_injective(r2, c2, r, c, g.rows(), g.cols());
    }
}

/// 1 when the condition holds, 0 otherwise; used to sum up neighbors.
pub open spec fn count_if(b: bool) -> int {
    if b {
        1
    } else {
        0
    }
}

impl Grid<usize> {
    /// A coordinate is live when it is in bounds and its cell holds a value
    /// greater than zero.
    pub open spec fn live(&self, r: int, c: int) -> bool {
        self.in_bounds(r, c) && self.cell(r, c) > 0
    }

    /// Number of live cells among the up-to-8 cells surrounding `(r, c)`,
    /// clipped at the grid edges (no wraparound). The center cell itself is
    /// never counted.
    pub open spec fn neighbor_count(&self, r: int, c: int) -> int {
        count_if(self.live(r - 1, c - 1)) + count_if(self.live(r - 1, c)) + count_if(
            self.live(r - 1, c + 1),
        ) + count_if(self.live(r, c - 1)) + count_if(self.live(r, c + 1)) + count_if(
            self.live(r + 1, c - 1),
        ) + count_if(self.live(r + 1, c)) + count_if(self.live(r + 1, c + 1))
    }

    /// Direct read of an in-bounds cell.
    fn cell_at(&self, row: usize, column: usize) -> (v: usize)
        requires
            self.wf(),
            self.in_bounds(row as int, column as int),
        ensures
            v == self.cell(row as int, column as int),
    {
        let _storage_len: usize = self.cells.len();
        proof {
            lemma_flat_index_bound(row as int, column as int, self.rows(), self.cols());
        }
        self.cells[row * self.column_size + column]
    }

    /// Counts the live cells among the up-to-8 neighbors of `(row_index,
    /// column_index)`: the 3x3 block centered there, clipped at the grid
    /// edges, with the center excluded. A cell is live when its value is
    /// greater than zero. Fails when the center coordinate itself is out of
    /// bounds; the check is strict (`>=`), the same convention as `get` and
    /// `set`.
    pub fn get_number_of_neighbors(&self, row_index: usize, column_index: usize) -> (r: Result<
        usize,
        &'static str,
    >)
        requires
            self.wf(),
        ensures
            r is Ok <==> self.in_bounds(row_index as int, column_index as int),
            r is Ok ==> r->Ok_0 == self.neighbor_count(row_index as int, column_index as int),
            r is Ok ==> r->Ok_0 <= 8,
    {
        if row_index >= self.row_size {
            return Err("Center row is out of bounds");
        }
        if column_index >= self.column_size {
            return Err("Center column is out of bounds");
        }
        let mut number_of_neighbors: usize = 0;
        // Row above the center.
        if row_index > 0 {
            if column_index > 0 && self.cell_at(row_index - 1, column_index - 1) > 0 {
                number_of_neighbors = number_of_neighbors + 1;
            }
            if self.cell_at(row_index - 1, column_index) > 0 {
                number_of_neighbors = number_of_neighbors + 1;
            }
            if column_index + 1 < self.column_size && self.cell_at(row_index - 1, column_index + 1)
                > 0 {
                number_of_neighbors = number_of_neighbors + 1;
            }
        }
        // The center's own row.
        if column_index > 0 && self.cell_at(row_index, column_index - 1) > 0 {
            number_of_neighbors = number_of_neighbors + 1;
        }
        if column_index + 1 < self.column_size && self.cell_at(row_index, column_index + 1) > 0 {
            number_of_neighbors = number_of_neighbors + 1;
        }
        // Row below the center.
        if row_index + 1 < self.row_size {
            if column_index > 0 && self.cell_at(row_index + 1, column_index - 1) > 0 {
                number_of_neighbors = number_of_neighbors + 1;
            }
            if self.cell_at(row_index + 1, column_index) > 0 {
                number_of_neighbors = number_of_neighbors + 1;
            }
            if column_index + 1 < self.column_size && self.cell_at(row_index + 1, column_index + 1)
                > 0 {
                number_of_neighbors = number_of_neighbors + 1;
            }
        }
        Ok(number_of_neighbors)
    }

    /// Every cell of the grid is live.
    pub open spec fn all_alive(&self) -> bool {
        forall|r: int, c: int| self.in_bounds(r, c) ==> #[trigger] self.cell(r, c) > 0
    }
}

/// A neighbor count is always between 0 and 8: at most one per surrounding
/// cell, and the center cell is never part of the sum.
pub proof fn lemma_neighbor_count_bounds(g: Grid<usize>, r: int, c: int)
    ensures
        0 <= g.neighbor_count(r, c) <= 8,
{
}

/// The neighbor count of a coordinate does not depend on the value stored at
/// that coordinate itself: two grids of equal dimensions whose cells agree
/// everywhere except at the center report the same count there.
pub proof fn lemma_neighbor_count_ignores_center(g1: Grid<usize>, g2: Grid<usize>, r: int, c: int)
    requires
        g1.wf(),
        g2.wf(),
        g1.rows() == g2.rows(),
        g1.cols() == g2.cols(),
        g1.in_bounds(r, c),
        g1.cell_seq().len() == g2.cell_seq().len(),
        forall|i: int|
            0 <= i < g1.cell_seq().len() && i != r * g1.cols() + c ==> g1.cell_seq()[i]
                == g2.cell_seq()[i],
    ensures
        g1.neighbor_count(r, c) == g2.neighbor_count(r, c),
{
    assert forall|r2: int, c2: int|
        g1.in_bounds(r2, c2) && !(r2 == r && c2 == c) implies g1.live(r2, c2) == g2.live(
        r2,
        c2,
    ) by {
        lemma_flat_index_bound(r2, c2, g1.rows(), g1.cols());
        lemma_flat_index_injective(r2, c2, r, c, g1.rows(), g1.cols());
    }
}

/// On a fully-live grid, an interior cell has all 8 of its neighbors in
/// bounds and live.
pub proof fn lemma_all_alive_interior(g: Grid<usize>, r: int, c: int)
    requires
        g.wf(),
        g.all_alive(),
        1 <= r < g.rows() - 1,
        1 <= c < g.cols() - 1,
    ensures
        g.neighbor_count(r, c) == 8,
{
    assert(g.live(r - 1, c - 1) && g.live(r - 1, c) && g.live(r - 1, c + 1));
    assert(g.live(r, c - 1) && g.live(r, c + 1));
    assert(g.live(r + 1, c - 1) && g.live(r + 1, c) && g.live(r + 1, c + 1));
}

/// On a fully-live grid with at least two rows and two columns, a corner
/// cell has exactly 3 neighbors in bounds, all live.
pub proof fn lemma_all_alive_corner(g: Grid<usize>, r: int, c: int)
    requires
        g.wf(),
        g.all_alive(),
        g.rows() >= 2,
        g.cols() >= 2,
        r == 0 || r == g.rows() - 1,
        c == 0 || c == g.cols() - 1,
    ensures
        g.neighbor_count(r, c) == 3,
{
    let ra = if r == 0 {
        r + 1
    } else {
        r - 1
    };
    let ca = if c == 0 {
        c + 1
    } else {
        c - 1
    };
    assert(g.live(ra, c) && g.live(r, ca) && g.live(ra, ca));
}

/// On a fully-live grid with at least two rows and two columns, an edge cell
/// that is not a corner has exactly 5 neighbors in bounds, all live.
pub proof fn lemma_all_alive_edge(g: Grid<usize>, r: int, c: int)
    requires
        g.wf(),
        g.all_alive(),
        g.rows() >= 2,
        g.cols() >= 2,
        g.in_bounds(r, c),
        r == 0 || r == g.rows() - 1 || c == 0 || c == g.cols() - 1,
        !((r == 0 || r == g.rows() - 1) && (c == 0 || c == g.cols() - 1)),
    ensures
        g.neighbor_count(r, c) == 5,
{
    if r == 0 || r == g.rows() - 1 {
        // A cell on the top or bottom edge: its row neighbors, plus the
        // three cells of the one adjacent row.
        let ra = if r == 0 {
            r + 1
        } else {
            r - 1
        };
        assert(g.live(r, c - 1) && g.live(r, c + 1));
        assert(g.live(ra, c - 1) && g.live(ra, c) && g.live(ra, c + 1));
    } else {
        // A cell on the left or right edge.
        let ca = if c == 0 {
            c + 1
        } else {
            c - 1
        };
        assert(g.live(r - 1, c) && g.live(r + 1, c));
        assert(g.live(r - 1, ca) && g.live(r, ca) && g.live(r + 1, ca));
    }
}

} // verus!
