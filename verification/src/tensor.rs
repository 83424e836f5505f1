//! Matrices of single-precision numbers, kept as their bit patterns.
//!
//! Nothing here computes with the numbers: matrices are turned and cut.
use vstd::arithmetic::div_mod::{lemma_fundamental_div_mod, lemma_fundamental_div_mod_converse};
use vstd::prelude::*;

verus! {

/// A matrix, row after row.
#[derive(Debug)]
pub struct Matrix {
    pub rows: usize,
    pub cols: usize,
    /// The bits of each number.
    pub data: Vec<u32>,
}

/// What a [`Matrix`] holds, as plain values.
pub struct Grid {
    pub rows: nat,
    pub cols: nat,
    pub data: Seq<u32>,
}

impl View for Matrix {
    type V = Grid;

    open spec fn view(&self) -> Grid {
        Grid { rows: self.rows as nat, cols: self.cols as nat, data: self.data@ }
    }
}

impl Grid {
    /// There is one number for each row and column.
    pub open spec fn wf(self) -> bool {
        self.data.len() == self.rows * self.cols
    }

    /// The number in row `r` and column `c`.
    pub open spec fn at(self, r: int, c: int) -> u32 {
        self.data[r * self.cols + c]
    }

    /// The matrix with rows and columns exchanged.
    pub open spec fn transposed(self) -> Grid {
        Grid {
            rows: self.cols,
            cols: self.rows,
            data: Seq::new(
                self.rows * self.cols,
                |i: int| self.at(i % self.rows as int, i / self.rows as int),
            ),
        }
    }

    /// The matrix with row `r` replaced by `row`.
    pub open spec fn with_row(self, r: nat, row: Seq<u32>) -> Grid {
        Grid {
            rows: self.rows,
            cols: self.cols,
            data: Seq::new(
                self.data.len(),
                |i: int|
                    if r * self.cols <= i < r * self.cols + self.cols {
                        row[i - r * self.cols]
                    } else {
                        self.data[i]
                    },
            ),
        }
    }

    /// The matrix with rows of zeros added up to `rows` rows.
    pub open spec fn padded_to(self, rows: nat) -> Grid {
        Grid {
            rows,
            cols: self.cols,
            data: self.data + Seq::new(
                ((rows - self.rows) * self.cols) as nat,
                |i: int| 0u32,
            ),
        }
    }

    /// The rows from `a` up to but not including `b`.
    pub open spec fn row_range(self, a: nat, b: nat) -> Grid {
        Grid {
            rows: (b - a) as nat,
            cols: self.cols,
            data: self.data.subrange((a * self.cols) as int, (b * self.cols) as int),
        }
    }
}

/// The index of row `r`, column `c` lies within the matrix.
proof fn index_in_range(r: int, c: int, rows: int, cols: int)
    requires
        0 <= r < rows,
        0 <= c < cols,
    ensures
        0 <= r * cols + c < rows * cols,
{
    assert(r * cols + c < rows * cols) by (nonlinear_arith)
        requires
            0 <= r < rows,
            0 <= c < cols,
    ;
    assert(0 <= r * cols) by (nonlinear_arith)
        requires
            0 <= r,
            0 <= cols,
    ;
}

/// An index below `rows * cols` has a row below `rows` and a column below
/// `cols`.
proof fn index_splits(i: int, rows: int, cols: int)
    requires
        0 <= i < rows * cols,
        0 <= rows,
        0 <= cols,
    ensures
        cols > 0,
        0 <= i / cols < rows,
        0 <= i % cols < cols,
        i == (i / cols) * cols + i % cols,
{
    assert(cols > 0) by (nonlinear_arith)
        requires
            0 <= i < rows * cols,
            0 <= cols,
    ;
    lemma_fundamental_div_mod(i, cols);
    assert(i / cols < rows && 0 <= i / cols) by (nonlinear_arith)
        requires
            0 <= i < rows * cols,
            cols > 0,
            i == cols * (i / cols) + i % cols,
            0 <= i % cols < cols,
    ;
    assert((i / cols) * cols == cols * (i / cols)) by (nonlinear_arith);
}

/// Exchanging rows and columns puts each number in the place that mirrors its
/// own.
pub proof fn transposed_at(g: Grid, r: int, c: int)
    requires
        g.wf(),
        0 <= r < g.rows,
        0 <= c < g.cols,
    ensures
        g.transposed().wf(),
        g.transposed().at(c, r) == g.at(r, c),
{
    let rows = g.rows as int;
    let cols = g.cols as int;
    index_in_range(c, r, cols, rows);
    let i = c * rows + r;
    lemma_fundamental_div_mod_converse(i, rows, c, r);
    assert(rows * cols == cols * rows) by (nonlinear_arith);
}

/// Exchanging rows and columns twice gives the matrix back.
pub proof fn transposed_twice(g: Grid)
    requires
        g.wf(),
    ensures
        g.transposed().wf(),
        g.transposed().transposed() == g,
{
    let t = g.transposed();
    assert(g.rows * g.cols == g.cols * g.rows) by (nonlinear_arith);
    assert forall|i: int| 0 <= i < g.data.len() implies t.transposed().data[i] == g.data[i] by {
        index_splits(i, g.rows as int, g.cols as int);
        transposed_at(g, i / g.cols as int, i % g.cols as int);
    }
    assert(t.transposed().data =~= g.data);
}

/// The parts of a matrix cut between two rows, put one behind the other, are
/// the matrix.
pub proof fn row_ranges_join(g: Grid, a: nat, b: nat, c: nat)
    requires
        g.wf(),
        a <= b <= c <= g.rows,
    ensures
        g.row_range(a, b).wf(),
        g.row_range(a, b).data + g.row_range(b, c).data == g.row_range(a, c).data,
        g.row_range(0, g.rows) == g,
{
    row_bounds(a, b, g.rows, g.cols);
    row_bounds(b, c, g.rows, g.cols);
    assert(b * g.cols - a * g.cols == (b - a) * g.cols) by (nonlinear_arith)
        requires
            a <= b,
    ;
    assert(g.row_range(a, b).data + g.row_range(b, c).data =~= g.row_range(a, c).data);
    assert(g.row_range(0, g.rows).data =~= g.data);
}

/// Rows in order start at indices in order.
proof fn row_bounds(a: nat, b: nat, rows: nat, cols: nat)
    requires
        a <= b <= rows,
    ensures
        0 <= a * cols <= b * cols <= rows * cols,
{
    assert(0 <= a * cols <= b * cols <= rows * cols) by (nonlinear_arith)
        requires
            a <= b <= rows,
    ;
}

/// The indices of a row behind those of the rows before it.
proof fn rows_apart(i: int, r: int, c: int, cols: int)
    requires
        0 <= c < cols,
        i != r,
    ensures
        i < r ==> i * cols + c < r * cols,
        r < i ==> r * cols + cols <= i * cols + c,
{
    if i < r {
        assert(i * cols + c < r * cols) by (nonlinear_arith)
            requires
                i < r,
                0 <= c < cols,
        ;
    } else {
        assert(r * cols + cols <= i * cols + c) by (nonlinear_arith)
            requires
                r < i,
                0 <= c < cols,
        ;
    }
}

/// Replacing a row puts its numbers there, in order, and leaves every other
/// row as it was.
pub proof fn row_replaced(g: Grid, r: nat, row: Seq<u32>, i: int, c: int)
    requires
        g.wf(),
        r < g.rows,
        row.len() == g.cols,
        0 <= i < g.rows,
        0 <= c < g.cols,
    ensures
        g.with_row(r, row).wf(),
        g.with_row(r, row).rows == g.rows && g.with_row(r, row).cols == g.cols,
        g.with_row(r, row).at(r as int, c) == row[c],
        i != r ==> g.with_row(r, row).at(i, c) == g.at(i, c),
{
    index_in_range(i, c, g.rows as int, g.cols as int);
    index_in_range(r as int, c, g.rows as int, g.cols as int);
    if i != r {
        rows_apart(i, r as int, c, g.cols as int);
    }
}

/// The rows of a matrix stand one behind the other: a row that is put behind
/// the numbers of a matrix is its next row.
pub proof fn row_appended(g: Grid, row: Seq<u32>, i: int, c: int)
    requires
        g.wf(),
        row.len() == g.cols,
        0 <= i < g.rows,
        0 <= c < g.cols,
    ensures
        ({
            let longer = Grid { rows: g.rows + 1, cols: g.cols, data: g.data + row };
            &&& longer.wf()
            &&& longer.at(g.rows as int, c) == row[c]
            &&& longer.at(i, c) == g.at(i, c)
        }),
{
    index_in_range(i, c, g.rows as int, g.cols as int);
    assert((g.rows + 1) * g.cols == g.rows * g.cols + g.cols) by (nonlinear_arith);
}

/// Padding keeps the rows of a matrix where they are and adds rows of zeros
/// behind them.
pub proof fn padding_adds_zeros(g: Grid, rows: nat, i: int, c: int)
    requires
        g.wf(),
        g.rows <= rows,
        0 <= i < rows,
        0 <= c < g.cols,
    ensures
        g.padded_to(rows).wf(),
        g.padded_to(rows).rows == rows && g.padded_to(rows).cols == g.cols,
        i < g.rows ==> g.padded_to(rows).at(i, c) == g.at(i, c),
        i >= g.rows ==> g.padded_to(rows).at(i, c) == 0,
{
    let extra = (rows - g.rows) * g.cols;
    assert(extra >= 0 && extra == rows * g.cols - g.rows * g.cols) by (nonlinear_arith)
        requires
            extra == (rows - g.rows) * g.cols,
            g.rows <= rows,
    ;
    index_in_range(i, c, rows as int, g.cols as int);
    if i < g.rows {
        index_in_range(i, c, g.rows as int, g.cols as int);
    } else if i > g.rows {
        rows_apart(i, g.rows as int, c, g.cols as int);
    }
}

/// Cutting rows out keeps them in order: the first is row `a`.
pub proof fn rows_cut_out(g: Grid, a: nat, b: nat, i: int, c: int)
    requires
        g.wf(),
        a <= b <= g.rows,
        0 <= i < b - a,
        0 <= c < g.cols,
    ensures
        g.row_range(a, b).rows == b - a && g.row_range(a, b).cols == g.cols,
        g.row_range(a, b).at(i, c) == g.at(a + i, c),
{
    row_bounds(a, b, g.rows, g.cols);
    row_bounds(b, g.rows, g.rows, g.cols);
    index_in_range(i, c, b - a, g.cols as int);
    assert((b - a) * g.cols == b * g.cols - a * g.cols) by (nonlinear_arith);
    assert((a + i) * g.cols == a * g.cols + i * g.cols) by (nonlinear_arith);
}

/// The number of elements of an array with these extents.
pub open spec fn product(dims: Seq<usize>) -> nat
    decreases dims.len(),
{
    if dims.len() == 0 {
        1
    } else {
        product(dims.drop_last()) * dims.last() as nat
    }
}

/// The product of the extents that are not zero.
pub open spec fn nonzero_product(dims: Seq<usize>) -> nat
    decreases dims.len(),
{
    if dims.len() == 0 {
        1
    } else if dims.last() == 0 {
        nonzero_product(dims.drop_last())
    } else {
        nonzero_product(dims.drop_last()) * dims.last() as nat
    }
}

/// Why `len` numbers do not make an array with these extents.
pub open spec fn shape_fault(dims: Seq<usize>, len: nat) -> Option<Seq<char>> {
    if nonzero_product(dims) > isize::MAX {
        Some("ShapeError/Overflow: arithmetic overflow"@)
    } else if product(dims) > len {
        Some("ShapeError/OutOfBounds: out of bounds indexing"@)
    } else if product(dims) < len {
        Some("ShapeError/IncompatibleShape: incompatible shapes"@)
    } else {
        None
    }
}

/// The product of two extents.
proof fn two_extents(a: usize, b: usize)
    ensures
        product(seq![a, b]) == a as nat * b as nat,
{
    reveal_with_fuel(product, 3);
    assert(seq![a, b].drop_last() =~= seq![a]);
    assert(seq![a].drop_last() =~= Seq::<usize>::empty());
    assert(product(seq![a]) == 1 * a as nat);
}

/// `ndarray::ArrayBase::from_shape_vec`, then `into_raw_vec_and_offset`: the
/// array of the given extents in row-major order keeps the numbers as they
/// are.  Numbers that do not make such an array give the text of a
/// `ShapeError`: too large extents first, then too few numbers, then too many.
#[verifier::external_body]
pub(crate) fn shaped(dims: &Vec<usize>, data: Vec<u32>) -> (r: Result<Vec<u32>, String>)
    ensures
        match r {
            Ok(v) => shape_fault(dims@, data@.len()) is None && v@ == data@,
            Err(e) => shape_fault(dims@, data@.len()) == Some(e@),
        },
{
    match ndarray::ArrayD::<u32>::from_shape_vec(dims.as_slice(), data) {
        Ok(array) => Ok(array.into_raw_vec_and_offset().0),
        Err(e) => Err(e.to_string()),
    }
}

impl Matrix {
    /// There is one number for each row and column.
    pub open spec fn wf(&self) -> bool {
        self@.wf()
    }

    /// The matrix of the given shape with the given numbers, or why they do not
    /// fit it.
    pub fn from_shape_vec(rows: usize, cols: usize, data: Vec<u32>) -> (r: Result<Matrix, String>)
        ensures
            match r {
                Ok(m) => {
                    &&& shape_fault(seq![rows, cols], data@.len()) is None
                    &&& m.wf()
                    &&& m@ == (Grid { rows: rows as nat, cols: cols as nat, data: data@ })
                },
                Err(e) => shape_fault(seq![rows, cols], data@.len()) == Some(e@),
            },
    {
        let mut dims: Vec<usize> = Vec::new();
        dims.push(rows);
        dims.push(cols);
        assert(dims@ =~= seq![rows, cols]);
        match shaped(&dims, data) {
            Err(e) => Err(e),
            Ok(kept) => {
                proof {
                    two_extents(rows, cols);
                }
                Ok(Matrix { rows, cols, data: kept })
            },
        }
    }

    /// The matrix of the given shape that holds zeros.
    pub fn zeros(rows: usize, cols: usize) -> (r: Matrix)
        requires
            rows * cols <= usize::MAX,
        ensures
            r.wf(),
            r@ == (Grid {
                rows: rows as nat,
                cols: cols as nat,
                data: Seq::new((rows * cols) as nat, |i: int| 0u32),
            }),
    {
        let n: usize = rows * cols;
        let mut data: Vec<u32> = Vec::new();
        let mut i: usize = 0;
        while i < n
            invariant
                0 <= i <= n,
                data@ == Seq::new(i as nat, |k: int| 0u32),
            decreases n - i,
        {
            data.push(0);
            i += 1;
            assert(data@ =~= Seq::new(i as nat, |k: int| 0u32));
        }
        Matrix { rows, cols, data }
    }

    /// The number in row `r` and column `c`.
    pub fn get(&self, r: usize, c: usize) -> (v: u32)
        requires
            self.wf(),
            r < self.rows,
            c < self.cols,
        ensures
            v == self@.at(r as int, c as int),
    {
        proof {
            index_in_range(r as int, c as int, self.rows as int, self.cols as int);
            row_bounds(r as nat, self.rows as nat, self.rows as nat, self.cols as nat);
        }
        assert(self.data@.len() == self.data.len());
        self.data[r * self.cols + c]
    }

    /// A copy.
    pub fn copy(&self) -> (r: Matrix)
        ensures
            r@ == self@,
    {
        Matrix {
            rows: self.rows,
            cols: self.cols,
            data: vstd::slice::slice_to_vec(self.data.as_slice()),
        }
    }

    /// The matrix with rows and columns exchanged.
    pub fn transpose(&self) -> (r: Matrix)
        requires
            self.wf(),
        ensures
            r.wf(),
            r@ == self@.transposed(),
    {
        let ghost t = self@.transposed();
        let ghost rows = self.rows as int;
        let ghost cols = self.cols as int;
        assert(rows * cols == cols * rows) by (nonlinear_arith);
        let mut data: Vec<u32> = Vec::new();
        let mut c: usize = 0;
        assert(data@ =~= t.data.take(0));
        assert(0 * rows == 0) by (nonlinear_arith);
        while c < self.cols
            invariant
                0 <= c <= self.cols,
                self.wf(),
                t == self@.transposed(),
                rows == self.rows,
                cols == self.cols,
                rows * cols == cols * rows,
                c * rows <= cols * rows,
                data@ == t.data.take(c * rows),
                data@.len() == c * rows,
            decreases self.cols - c,
        {
            let mut r: usize = 0;
            proof {
                row_bounds((c + 1) as nat, cols as nat, cols as nat, rows as nat);
                assert((c + 1) * rows == c * rows + rows) by (nonlinear_arith);
            }
            while r < self.rows
                invariant
                    0 <= r <= self.rows,
                    0 <= c < self.cols,
                    self.wf(),
                    t == self@.transposed(),
                    rows == self.rows,
                    cols == self.cols,
                    rows * cols == cols * rows,
                    0 <= c * rows,
                    c * rows + rows <= cols * rows,
                    data@ == t.data.take(c * rows + r),
                    data@.len() == c * rows + r,
                decreases self.rows - r,
            {
                let ghost i = c * rows + r;
                proof {
                    transposed_at(self@, r as int, c as int);
                    assert(t.at(c as int, r as int) == t.data[i]);
                }
                let v = self.get(r, c);
                data.push(v);
                assert(data@ =~= t.data.take(i + 1));
                r += 1;
            }
            c += 1;
        }
        assert(t.data.take(cols * rows) =~= t.data);
        Matrix { rows: self.cols, cols: self.rows, data }
    }

    /// Replaces row `r` by `row`.
    pub fn set_row(&mut self, r: usize, row: &Vec<u32>)
        requires
            old(self).wf(),
            r < old(self).rows,
            row@.len() == old(self).cols,
        ensures
            final(self).wf(),
            final(self)@ == old(self)@.with_row(r as nat, row@),
    {
        let ghost g = self@;
        proof {
            row_bounds((r + 1) as nat, self.rows as nat, self.rows as nat, self.cols as nat);
            assert((r + 1) * self.cols == r * self.cols + self.cols) by (nonlinear_arith);
            assert(0 <= r * self.cols) by (nonlinear_arith);
            assert(self.data@.len() == self.data.len());
        }
        let start: usize = r * self.cols;
        let mut c: usize = 0;
        while c < self.cols
            invariant
                0 <= c <= self.cols,
                self.rows == g.rows,
                self.cols == g.cols,
                row@.len() == self.cols,
                start == r * g.cols,
                start + self.cols <= self.data@.len(),
                self.data@.len() == g.data.len(),
                self.data@ == Seq::new(
                    g.data.len(),
                    |i: int|
                        if start <= i < start + c {
                            row@[i - start]
                        } else {
                            g.data[i]
                        },
                ),
            decreases self.cols - c,
        {
            assert(self.data@.len() == self.data.len());
            self.data.set(start + c, row[c]);
            c += 1;
            assert(self.data@ =~= Seq::new(
                g.data.len(),
                |i: int|
                    if start <= i < start + c {
                        row@[i - start]
                    } else {
                        g.data[i]
                    },
            ));
        }
        assert(self.data@ =~= g.with_row(r as nat, row@).data);
    }

    /// The matrix with rows of zeros added up to `rows` rows.
    pub fn padded(&self, rows: usize) -> (r: Matrix)
        requires
            self.wf(),
            self.rows <= rows,
            rows * self.cols <= usize::MAX,
        ensures
            r.wf(),
            r@ == self@.padded_to(rows as nat),
    {
        let mut data = vstd::slice::slice_to_vec(self.data.as_slice());
        let n: usize = rows * self.cols;
        let ghost extra = (rows - self.rows) * self.cols;
        proof {
            assert(extra == n - self.data@.len() && extra >= 0) by (nonlinear_arith)
                requires
                    extra == (rows - self.rows) * self.cols,
                    n == rows * self.cols,
                    self.data@.len() == self.rows * self.cols,
                    self.rows <= rows,
            ;
        }
        let ghost start = self.data@;
        assert(data@ =~= start + Seq::new(0, |i: int| 0u32));
        while data.len() < n
            invariant
                start.len() <= data@.len() <= n,
                data@ == start + Seq::new((data@.len() - start.len()) as nat, |i: int| 0u32),
            decreases n - data.len(),
        {
            let ghost before = data@;
            data.push(0);
            assert(data@ =~= start + Seq::new((data@.len() - start.len()) as nat, |i: int| 0u32));
        }
        Matrix { rows, cols: self.cols, data }
    }

    /// The rows from `a` up to but not including `b`.
    pub fn row_slice(&self, a: usize, b: usize) -> (r: Matrix)
        requires
            self.wf(),
            a <= b <= self.rows,
        ensures
            r.wf(),
            r@ == self@.row_range(a as nat, b as nat),
    {
        proof {
            row_bounds(a as nat, b as nat, self.rows as nat, self.cols as nat);
            row_bounds(b as nat, self.rows as nat, self.rows as nat, self.cols as nat);
            row_ranges_join(self@, a as nat, b as nat, b as nat);
        }
        assert(self.data@.len() == self.data.len());
        let from: usize = a * self.cols;
        let to: usize = b * self.cols;
        let part = vstd::slice::slice_subrange(self.data.as_slice(), from, to);
        Matrix { rows: b - a, cols: self.cols, data: vstd::slice::slice_to_vec(part) }
    }
}

/// Numbers make a matrix if there is one for each row and column, and they are
/// then read row after row; with more or fewer of them there is no matrix.
pub proof fn numbers_make_matrix(
    rows: usize,
    cols: usize,
    data: Vec<u32>,
    made: Result<Matrix, String>,
    r: int,
    c: int,
)
    requires
        call_ensures(Matrix::from_shape_vec, (rows, cols, data), made),
    ensures
        made matches Ok(m) ==> {
            &&& data@.len() == rows * cols
            &&& m@.rows == rows && m@.cols == cols
            &&& 0 <= r < rows && 0 <= c < cols ==> m@.at(r, c) == data@[r * cols + c]
        },
        data@.len() == rows * cols && 0 < rows * cols <= isize::MAX ==> made is Ok,
{
    two_extents(rows, cols);
    if data@.len() == rows * cols && 0 < rows * cols <= isize::MAX {
        assert(rows > 0 && cols > 0) by (nonlinear_arith)
            requires
                0 < rows * cols,
        ;
        reveal_with_fuel(nonzero_product, 3);
        assert(seq![rows, cols].drop_last() =~= seq![rows]);
        assert(seq![rows].drop_last() =~= Seq::<usize>::empty());
        assert(nonzero_product(seq![rows]) == 1 * rows as nat);
    }
}

} // verus!
