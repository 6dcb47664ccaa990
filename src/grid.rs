//! A two-dimensional byte grid held in an `ndarray::Array2`.
use vstd::prelude::*;

verus! {

/// A grid of bytes in row-major order, backed by `ndarray::Array2<u8>`.
#[verifier::external_body]
pub struct ByteGrid {
    cells: ndarray::Array2<u8>,
}

/// The cells of a grid, row by row.
pub uninterp spec fn byte_cells(g: ByteGrid) -> Seq<u8>;

/// The number of columns of a grid.
pub uninterp spec fn byte_cols(g: ByteGrid) -> nat;

/// Relies on `ndarray::Array2::from_shape_vec`: with as many values as
/// `rows * cols` it succeeds and lays them out row by row.
#[verifier::external_body]
fn grid_from_vec(rows: usize, cols: usize, v: Vec<u8>) -> (r: ByteGrid)
    requires
        v.len() == rows * cols,
        rows <= isize::MAX,
        cols <= isize::MAX,
        rows * cols <= isize::MAX,
    ensures
        byte_cells(r) == v@,
        byte_cols(r) == cols,
{
    ByteGrid { cells: ndarray::Array2::from_shape_vec((rows, cols), v).unwrap() }
}

/// Relies on indexing an `ndarray::Array2` by `[row, column]`.
#[verifier::external_body]
fn grid_at(g: &ByteGrid, y: usize, x: usize) -> (r: u8)
    requires
        x < byte_cols(*g),
        y * byte_cols(*g) + x < byte_cells(*g).len(),
    ensures
        r == byte_cells(*g)[y * byte_cols(*g) + x],
{
    g.cells[[y, x]]
}

/// Relies on mutable indexing of an `ndarray::Array2` by `[row, column]`.
#[verifier::external_body]
fn grid_put(g: &mut ByteGrid, y: usize, x: usize, v: u8)
    requires
        x < byte_cols(*old(g)),
        y * byte_cols(*old(g)) + x < byte_cells(*old(g)).len(),
    ensures
        byte_cols(*final(g)) == byte_cols(*old(g)),
        byte_cells(*final(g)) == byte_cells(*old(g)).update(y * byte_cols(*old(g)) + x, v),
{
    g.cells[[y, x]] = v;
}

impl ByteGrid {
    pub open spec fn cells(&self) -> Seq<u8> {
        byte_cells(*self)
    }

    pub open spec fn cols(&self) -> nat {
        byte_cols(*self)
    }

    /// A grid of `rows × cols` cells taken row by row from `values`.
    pub fn from_rows(rows: usize, cols: usize, values: Vec<u8>) -> (r: ByteGrid)
        requires
            values.len() == rows * cols,
            rows <= isize::MAX,
            cols <= isize::MAX,
            rows * cols <= isize::MAX,
        ensures
            r.cells() == values@,
            r.cols() == cols,
    {
        grid_from_vec(rows, cols, values)
    }

    /// The cell in row `y`, column `x`.
    pub fn get(&self, y: usize, x: usize) -> (r: u8)
        requires
            x < self.cols(),
            y * self.cols() + x < self.cells().len(),
        ensures
            r == self.cells()[y * self.cols() + x],
    {
        grid_at(self, y, x)
    }

    pub fn set(&mut self, y: usize, x: usize, v: u8)
        requires
            x < old(self).cols(),
            y * old(self).cols() + x < old(self).cells().len(),
        ensures
            final(self).cols() == old(self).cols(),
            final(self).cells() == old(self).cells().update(y * old(self).cols() + x, v),
    {
        grid_put(self, y, x, v)
    }
}

} // verus!
