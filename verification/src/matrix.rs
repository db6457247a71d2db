//! Dense matrices of raw fixed-point entries, stored row-major.

use vstd::prelude::*;

verus! {

use crate::errors::TdrError;
use crate::fixed::fits;

/// Largest admitted row or column count.
pub const MAX_DIM: usize = 0x8000;

/// An `rows x cols` matrix of raw fixed-point values.
pub struct Matrix {
    rows: usize,
    cols: usize,
    data: Vec<i64>,
}

/// Some entry is outside the representable range.
pub open spec fn has_unfit(data: Seq<i64>) -> bool {
    exists|k: int| 0 <= k < data.len() && !(#[trigger] fits(data[k] as int))
}

/// The error, if any, that constructing a matrix from the given pieces
/// must report.
pub open spec fn matrix_new_err(rows: int, cols: int, data: Seq<i64>) -> Option<TdrError> {
    if rows > MAX_DIM || cols > MAX_DIM {
        Option::Some(TdrError::InvalidConfiguration)
    } else if data.len() != rows * cols {
        Option::Some(TdrError::DimensionMismatch)
    } else if has_unfit(data) {
        Option::Some(TdrError::NonFiniteResult)
    } else {
        Option::None
    }
}

impl Matrix {
    /// Number of rows.
    pub closed spec fn nrows(self) -> int {
        self.rows as int
    }

    /// Number of columns.
    pub closed spec fn ncols(self) -> int {
        self.cols as int
    }

    /// All entries, row-major.
    pub closed spec fn vals(self) -> Seq<i64> {
        self.data@
    }

    /// The raw value at row `i`, column `j`.
    pub open spec fn entry(self, i: int, j: int) -> int {
        self.vals()[i * self.ncols() + j] as int
    }

    /// Shape agrees with the length of the store, dimensions are bounded,
    /// and every entry is in the representable range.
    pub open spec fn wf(self) -> bool {
        &&& self.vals().len() == self.nrows() * self.ncols()
        &&& self.nrows() <= MAX_DIM as int
        &&& self.ncols() <= MAX_DIM as int
        &&& forall|k: int| 0 <= k < self.vals().len() ==> fits(self.vals()[k] as int)
    }

    /// Same row and column counts.
    pub open spec fn same_shape(self, other: Matrix) -> bool {
        self.nrows() == other.nrows() && self.ncols() == other.ncols()
    }

    /// A matrix with no entries at all.
    pub open spec fn spec_is_empty(self) -> bool {
        self.nrows() * self.ncols() == 0
    }

    /// Builds a matrix from row-major data, validating shape, dimension
    /// bounds and entry range.
    pub fn new(rows: usize, cols: usize, data: Vec<i64>) -> (r: Result<Matrix, TdrError>)
        ensures
            match matrix_new_err(rows as int, cols as int, data@) {
                Option::Some(e) => r == Result::<Matrix, TdrError>::Err(e),
                Option::None => {
                    &&& r is Ok
                    &&& r->Ok_0.wf()
                    &&& r->Ok_0.nrows() == rows
                    &&& r->Ok_0.ncols() == cols
                    &&& r->Ok_0.vals() == data@
                },
            },
    {
        if rows > MAX_DIM || cols > MAX_DIM {
            return Result::Err(TdrError::InvalidConfiguration);
        }
        proof {
            lemma_dims_product(rows as int, cols as int);
        }
        if data.len() != rows * cols {
            return Result::Err(TdrError::DimensionMismatch);
        }
        let n = data.len();
        let mut k: usize = 0;
        while k < n
            invariant
                0 <= k <= n,
                n == data@.len(),
                rows <= MAX_DIM,
                cols <= MAX_DIM,
                data@.len() == rows * cols,
                forall|t: int| 0 <= t < k ==> fits(data@[t] as int),
            decreases n - k,
        {
            let v = data[k];
            if v < -crate::fixed::MAX_RAW || v > crate::fixed::MAX_RAW {
                assert(!fits(data@[k as int] as int));
                assert(has_unfit(data@));
                return Result::Err(TdrError::NonFiniteResult);
            }
            k = k + 1;
        }
        Result::Ok(Matrix { rows, cols, data })
    }

    /// Builds a matrix with every entry equal to `value`.
    pub fn from_element(rows: usize, cols: usize, value: i64) -> (r: Result<Matrix, TdrError>)
        ensures
            rows > MAX_DIM || cols > MAX_DIM ==> r == Result::<Matrix, TdrError>::Err(
                TdrError::InvalidConfiguration,
            ),
            rows <= MAX_DIM && cols <= MAX_DIM && !fits(value as int) ==> r == Result::<
                Matrix,
                TdrError,
            >::Err(TdrError::NonFiniteResult),
            rows <= MAX_DIM && cols <= MAX_DIM && fits(value as int) ==> {
                &&& r is Ok
                &&& r->Ok_0.wf()
                &&& r->Ok_0.nrows() == rows
                &&& r->Ok_0.ncols() == cols
                &&& forall|i: int, j: int|
                    0 <= i < rows && 0 <= j < cols ==> r->Ok_0.entry(i, j) == value
            },
    {
        if rows > MAX_DIM || cols > MAX_DIM {
            return Result::Err(TdrError::InvalidConfiguration);
        }
        if value < -crate::fixed::MAX_RAW || value > crate::fixed::MAX_RAW {
            return Result::Err(TdrError::NonFiniteResult);
        }
        proof {
            lemma_dims_product(rows as int, cols as int);
        }
        let n = rows * cols;
        let mut data: Vec<i64> = Vec::new();
        let mut k: usize = 0;
        while k < n
            invariant
                0 <= k <= n,
                data@.len() == k,
                forall|t: int| 0 <= t < k ==> data@[t] == value,
            decreases n - k,
        {
            data.push(value);
            k = k + 1;
        }
        let m = Matrix { rows, cols, data };
        proof {
            assert forall|i: int, j: int| 0 <= i < rows && 0 <= j < cols implies m.entry(i, j)
                == value by {
                lemma_flat_index(rows as int, cols as int, i, j);
            }
        }
        Result::Ok(m)
    }

    /// Internal constructor for data already known to be valid.
    pub(crate) fn from_parts(rows: usize, cols: usize, data: Vec<i64>) -> (m: Matrix)
        requires
            rows <= MAX_DIM,
            cols <= MAX_DIM,
            data@.len() == rows * cols,
            forall|k: int| 0 <= k < data@.len() ==> fits(data@[k] as int),
        ensures
            m.wf(),
            m.nrows() == rows,
            m.ncols() == cols,
            m.vals() == data@,
    {
        Matrix { rows, cols, data }
    }

    /// Row count.
    pub fn rows(&self) -> (r: usize)
        ensures
            r == self.nrows(),
    {
        self.rows
    }

    /// Column count.
    pub fn cols(&self) -> (r: usize)
        ensures
            r == self.ncols(),
    {
        self.cols
    }

    /// Total number of entries.
    pub fn entry_count(&self) -> (r: usize)
        requires
            self.wf(),
        ensures
            r == self.vals().len(),
    {
        self.data.len()
    }

    /// Borrow of the whole row-major store.
    pub(crate) fn raw_data(&self) -> (r: &Vec<i64>)
        ensures
            r@ == self.vals(),
    {
        &self.data
    }

    /// The entry at flat row-major position `k`.
    pub(crate) fn raw_at(&self, k: usize) -> (r: i64)
        requires
            self.wf(),
            k < self.vals().len(),
        ensures
            r == self.vals()[k as int],
            fits(r as int),
    {
        self.data[k]
    }

    /// The entry at row `i`, column `j`.
    pub fn get(&self, i: usize, j: usize) -> (r: i64)
        requires
            self.wf(),
            i < self.nrows(),
            j < self.ncols(),
        ensures
            r as int == self.entry(i as int, j as int),
            fits(r as int),
    {
        proof {
            lemma_flat_index(self.nrows(), self.ncols(), i as int, j as int);
            lemma_dims_product(self.nrows(), self.ncols());
        }
        self.data[i * self.cols + j]
    }
}

/// Row-major flattening stays inside the store: `i * cols + j` lies below
/// `rows * cols` whenever `i < rows` and `j < cols`.
pub proof fn lemma_flat_index(rows: int, cols: int, i: int, j: int)
    by (nonlinear_arith)
    requires
        0 <= i < rows,
        0 <= j < cols,
    ensures
        0 <= i * cols + j < rows * cols,
{
}

/// The entry count of a bounded matrix stays well below the 32-bit range.
pub proof fn lemma_dims_product(rows: int, cols: int)
    by (nonlinear_arith)
    requires
        0 <= rows <= MAX_DIM,
        0 <= cols <= MAX_DIM,
    ensures
        0 <= rows * cols <= 0x4000_0000,
{
}

} // verus!
