//! A dense two-dimensional table of `usize`, stored by `ndarray`.

use ndarray::{Array2, Axis};
use vstd::prelude::*;

verus! {

/// An `ndarray::Array2<usize>`: a table with a fixed number of rows and of
/// columns. The answers are held in one (a row per agent, a column per task),
/// and so are the counts of a mechanism.
///
/// The array is opaque to the verifier. What it holds is spoken of through
/// [`matrix_rows`] and [`matrix_width`], which the view puts together; nothing
/// of it is proved.
#[verifier::external_body]
pub struct Matrix {
    cells: Array2<usize>,
}

/// The rows of the array, first to last, each with its entries in column order.
pub uninterp spec fn matrix_rows(m: Matrix) -> Seq<Seq<usize>>;

/// The number of columns, which an array has even when it has no row.
pub uninterp spec fn matrix_width(m: Matrix) -> nat;

/// What a [`Matrix`] holds: its rows, and how many columns it has.
pub struct Table {
    /// The rows, first to last, each with its entries in column order.
    pub rows: Seq<Seq<usize>>,
    /// The number of columns.
    pub width: nat,
}

impl Table {
    /// Every row is as long as the table is wide.
    pub open spec fn rectangular(self) -> bool {
        forall|i: int| 0 <= i < self.rows.len() ==> (#[trigger] self.rows[i]).len() == self.width
    }

    /// The columns `from..to` of every row, as a table of their own.
    pub open spec fn columns(self, from: int, to: int) -> Table
        recommends
            0 <= from <= to <= self.width,
    {
        Table {
            rows: Seq::new(self.rows.len(), |i: int| self.rows[i].subrange(from, to)),
            width: (to - from) as nat,
        }
    }

    /// The table of `rows` rows and `width` columns whose rows are cut out of
    /// `cells` one after the other.
    pub open spec fn of_cells(rows: nat, width: nat, cells: Seq<usize>) -> Table {
        Table {
            rows: Seq::new(rows, |i: int| cells.subrange(i * width, (i + 1) * width)),
            width,
        }
    }

    /// The table of `n` rows and `n` columns that is zero everywhere.
    pub open spec fn zeros(n: nat) -> Table {
        Table { rows: Seq::new(n, |i: int| Seq::new(n, |j: int| 0usize)), width: n }
    }

    /// Row `i` is zero in every column.
    pub open spec fn is_zero_row(self, i: int) -> bool {
        forall|j: int| 0 <= j < self.width ==> #[trigger] self.rows[i][j] == 0
    }

    /// The table with the entry in row `i` and column `j` replaced by `v`.
    pub open spec fn with_entry(self, i: int, j: int, v: usize) -> Table
        recommends
            0 <= i < self.rows.len(),
            0 <= j < self.width,
    {
        Table { rows: self.rows.update(i, self.rows[i].update(j, v)), width: self.width }
    }
}

/// A vector of `len` items can be laid out as `rows` rows of `cols` columns:
/// the lengths agree and neither side is beyond `isize::MAX`.
pub open spec fn shape_takes(rows: nat, cols: nat, len: nat) -> bool {
    rows * cols == len && rows <= isize::MAX && cols <= isize::MAX
}

/// In a table cut out of `rows * width` cells, every row is `width` long and
/// the entry in row `i` and column `j` is the cell `i * width + j`.
pub proof fn lemma_of_cells(rows: nat, width: nat, cells: Seq<usize>)
    requires
        rows * width == cells.len(),
    ensures
        Table::of_cells(rows, width, cells).rectangular(),
        forall|i: int, j: int|
            0 <= i < rows && 0 <= j < width ==> #[trigger] Table::of_cells(
                rows,
                width,
                cells,
            ).rows[i][j] == cells[i * width + j],
{
    let t = Table::of_cells(rows, width, cells);
    assert forall|i: int| 0 <= i < t.rows.len() implies (#[trigger] t.rows[i]).len()
        == width by {
        lemma_row_bounds(rows, width, i);
    }
    assert forall|i: int, j: int| 0 <= i < rows && 0 <= j < width implies #[trigger] t.rows[i][j]
        == cells[i * width + j] by {
        lemma_row_bounds(rows, width, i);
    }
}

/// Row `i` of `rows` rows of `width` cells lies within the `rows * width`
/// cells.
proof fn lemma_row_bounds(rows: nat, width: nat, i: int)
    by (nonlinear_arith)
    requires
        0 <= i < rows,
    ensures
        0 <= i * width,
        (i + 1) * width <= rows * width,
        (i + 1) * width - i * width == width,
{
}

impl View for Matrix {
    type V = Table;

    open spec fn view(&self) -> Table {
        Table { rows: matrix_rows(*self), width: matrix_width(*self) }
    }
}

impl Matrix {
    /// `Array2::from_shape_vec` with a shape of two lengths, which stands for
    /// row-major order. It fails where the vector's length is not
    /// `rows * cols`, and where a length that is not zero, or their product,
    /// is beyond `isize::MAX`; a vector's length never is. Otherwise the array
    /// holds the vector's items, the first `cols` of them as its first row.
    #[verifier::external_body]
    fn shaped(rows: usize, cols: usize, cells: Vec<usize>) -> (r: Option<Matrix>)
        ensures
            r.is_some() == shape_takes(rows as nat, cols as nat, cells@.len()),
            r matches Some(m) ==> m@ == Table::of_cells(rows as nat, cols as nat, cells@),
    {
        match Array2::from_shape_vec((rows, cols), cells) {
            Ok(cells) => Some(Matrix { cells }),
            Err(_) => None,
        }
    }

    /// `Array2::zeros` with the shape `(n, n)`. It panics where the number of
    /// entries is beyond `isize::MAX`, and the allocation behind it where their
    /// bytes are; eight bytes an entry keep clear of both.
    #[verifier::external_body]
    pub(crate) fn zeroed(n: usize) -> (r: Matrix)
        requires
            n * n * 8 <= isize::MAX,
        ensures
            r@ == Table::zeros(n as nat),
    {
        Matrix { cells: Array2::zeros((n, n)) }
    }

    /// `ArrayBase::dim`: the number of rows and the number of columns. Each
    /// row of a two-dimensional array has as many entries as there are columns.
    #[verifier::external_body]
    fn shape(&self) -> (r: (usize, usize))
        ensures
            r.0 == matrix_rows(*self).len(),
            r.1 == matrix_width(*self),
            forall|i: int| 0 <= i < r.0 ==> (#[trigger] matrix_rows(*self)[i]).len() == r.1,
    {
        self.cells.dim()
    }

    /// `ArrayRef::get`, which an array derefs to, with an index of row and
    /// column, the entry copied out: `None` where the row or the column is out
    /// of bounds.
    #[verifier::external_body]
    fn entry(&self, i: usize, j: usize) -> (r: Option<usize>)
        ensures
            r == (if i < matrix_rows(*self).len() && j < matrix_width(*self) {
                Some(matrix_rows(*self)[i as int][j as int])
            } else {
                None
            }),
    {
        self.cells.get((i, j)).copied()
    }

    /// `ArrayRef::get_mut`, which an array derefs to, with an index of row and
    /// column: a reference to that entry, through which it alone changes, or
    /// `None` where the row or the column is out of bounds.
    #[verifier::external_body]
    fn entry_mut(&mut self, i: usize, j: usize) -> (r: Option<&mut usize>)
        ensures
            match r {
                Some(e) => {
                    &&& i < old(self)@.rows.len()
                    &&& j < old(self)@.width
                    &&& *e == old(self)@.rows[i as int][j as int]
                    &&& final(self)@ == old(self)@.with_entry(i as int, j as int, *final(e))
                },
                None => {
                    &&& !(i < old(self)@.rows.len() && j < old(self)@.width)
                    &&& final(self)@ == old(self)@
                },
            },
    {
        self.cells.get_mut((i, j))
    }

    /// `ArrayRef::row`, which panics on a row out of bounds, copied into a
    /// vector by `ArrayRef::to_vec`: the entries of row `i` in column order.
    #[verifier::external_body]
    fn row_vec(&self, i: usize) -> (r: Vec<usize>)
        requires
            i < matrix_rows(*self).len(),
        ensures
            r@ == matrix_rows(*self)[i as int],
    {
        self.cells.row(i).to_vec()
    }

    /// `ArrayView::split_at` along the column axis, on the view of the whole
    /// array that `ArrayRef::view` gives, each side copied into an array of its
    /// own by `ArrayRef::to_owned`. It panics where `at` is beyond the number of
    /// columns. The left side holds the columns before `at` and the right side
    /// the others; both keep every row.
    #[verifier::external_body]
    fn split_columns(&self, at: usize) -> (r: (Matrix, Matrix))
        requires
            at <= matrix_width(*self),
        ensures
            r.0@ == self@.columns(0, at as int),
            r.1@ == self@.columns(at as int, self@.width as int),
    {
        let (left, right) = self.cells.view().split_at(Axis(1), at);
        (Matrix { cells: left.to_owned() }, Matrix { cells: right.to_owned() })
    }

    /// A table of `rows` rows and `cols` columns that holds `cells`, the first
    /// `cols` of them as its first row, the next `cols` as its second: the
    /// entry in row `i` and column `j` is `cells[i * cols + j]`.
    ///
    /// `None` where `cells` is not `rows * cols` long, or where `rows` or
    /// `cols` is beyond `isize::MAX`.
    pub fn from_shape_vec(rows: usize, cols: usize, cells: Vec<usize>) -> (r: Option<Matrix>)
        ensures
            r.is_some() == shape_takes(rows as nat, cols as nat, cells@.len()),
            r matches Some(m) ==> m@ == Table::of_cells(rows as nat, cols as nat, cells@),
            r matches Some(m) ==> m@.rectangular() && forall|i: int, j: int|
                0 <= i < rows && 0 <= j < cols ==> #[trigger] m@.rows[i][j] == cells@[i * cols
                    + j],
    {
        proof {
            if shape_takes(rows as nat, cols as nat, cells@.len()) {
                lemma_of_cells(rows as nat, cols as nat, cells@);
            }
        }
        Matrix::shaped(rows, cols, cells)
    }

    /// The number of rows. Every row is as long as the table is wide.
    pub fn nrows(&self) -> (r: usize)
        ensures
            r == self@.rows.len(),
            self@.rectangular(),
    {
        self.shape().0
    }

    /// The number of columns. Every row is as long as the table is wide.
    pub fn ncols(&self) -> (r: usize)
        ensures
            r == self@.width,
            self@.rectangular(),
    {
        self.shape().1
    }

    /// The entry in row `i` and column `j`, or `None` where there is none.
    pub fn get(&self, i: usize, j: usize) -> (r: Option<usize>)
        ensures
            r == (if i < self@.rows.len() && j < self@.width {
                Some(self@.rows[i as int][j as int])
            } else {
                None
            }),
    {
        self.entry(i, j)
    }

    /// Row `i`, copied out: as many entries as the table is wide.
    pub fn row(&self, i: usize) -> (r: Vec<usize>)
        requires
            i < self@.rows.len(),
        ensures
            r@ == self@.rows[i as int],
            r@.len() == self@.width,
    {
        let _ = self.shape();
        self.row_vec(i)
    }

    /// Adds one to the entry in row `i` and column `j`.
    pub(crate) fn increment(&mut self, i: usize, j: usize)
        requires
            i < old(self)@.rows.len(),
            j < old(self)@.width,
            old(self)@.rows[i as int][j as int] < usize::MAX,
        ensures
            final(self)@ == old(self)@.with_entry(
                i as int,
                j as int,
                (old(self)@.rows[i as int][j as int] + 1) as usize,
            ),
    {
        if let Some(e) = self.entry_mut(i, j) {
            *e = *e + 1;
        }
    }

    /// The table cut in two before column `at`: the columns before `at` of
    /// every row, and the others. Column `j` of the right part is column
    /// `at + j` of the table.
    pub fn split_at_column(&self, at: usize) -> (r: (Matrix, Matrix))
        requires
            at <= self@.width,
        ensures
            r.0@ == self@.columns(0, at as int),
            r.1@ == self@.columns(at as int, self@.width as int),
            r.0@.rectangular() && r.1@.rectangular(),
            forall|i: int, j: int|
                0 <= i < self@.rows.len() && 0 <= j < at ==> #[trigger] r.0@.rows[i][j]
                    == self@.rows[i][j],
            forall|i: int, j: int|
                0 <= i < self@.rows.len() && 0 <= j < self@.width - at
                    ==> #[trigger] r.1@.rows[i][j] == self@.rows[i][at + j],
    {
        let _ = self.shape();
        self.split_columns(at)
    }
}

} // verus!
