//! Matrices whose shape is part of their type.

use crate::grid::column;
use crate::grid::grid_of;
use crate::grid::has_difference_grid;
use crate::grid::has_dot;
use crate::grid::has_hadamard_grid;
use crate::grid::has_image_grid;
use crate::grid::has_product_grid;
use crate::grid::has_sum_grid;
use crate::grid::is_difference_grid;
use crate::grid::is_dot;
use crate::grid::is_grid;
use crate::grid::is_hadamard_grid;
use crate::grid::is_image_grid;
use crate::grid::is_product_grid;
use crate::grid::is_sum_grid;
use crate::grid::is_zero_grid;
use crate::grid::lemma_dot_step;
use crate::grid::transposed;
use crate::scalar::graph_of;
use crate::scalar::is_difference;
use crate::scalar::is_product;
use crate::scalar::is_sum;
use crate::scalar::Scalar;
use vstd::prelude::*;

verus! {

/// A matrix of `ROWS` rows and `COLS` columns, held in an array of rows.
#[derive(Clone, Debug)]
pub struct Matrix<T, const ROWS: usize, const COLS: usize> {
    pub data: [[T; COLS]; ROWS],
}

impl<T, const ROWS: usize, const COLS: usize> View for Matrix<T, ROWS, COLS> {
    type V = Seq<Seq<T>>;

    /// The rows of the matrix, each as the sequence of its entries.
    open spec fn view(&self) -> Seq<Seq<T>> {
        grid_of(self.data)
    }
}

/// The view of a matrix has the shape that the type names.
pub proof fn lemma_view_is_grid<T, const ROWS: usize, const COLS: usize>(a: Matrix<T, ROWS, COLS>)
    ensures
        is_grid(a@, ROWS as nat, COLS as nat),
{
}

/// Two matrices with the same view are the same matrix.
pub proof fn lemma_same_view<T, const ROWS: usize, const COLS: usize>(
    a: Matrix<T, ROWS, COLS>,
    b: Matrix<T, ROWS, COLS>,
)
    requires
        a@ == b@,
    ensures
        a == b,
{
    assert forall|i: int| 0 <= i < ROWS implies a.data[i] == b.data[i] by {
        assert(a@[i] == b@[i]);
        assert(a.data[i] =~= b.data[i]);
    }
    assert(a.data =~= b.data);
}

impl<T: Scalar, const ROWS: usize, const COLS: usize> Matrix<T, ROWS, COLS> {
    /// The matrix whose every entry is zero.
    pub fn zeros() -> (zeros: Matrix<T, ROWS, COLS>)
        ensures
            is_zero_grid(zeros@),
    {
        Matrix { data: [[T::default(); COLS]; ROWS] }
    }

    /// A matrix filled, row by row, with values drawn from `draw`.
    ///
    /// The source decides how the entries are distributed; to initialise
    /// weights it should draw uniformly from `[-1, 1)`.
    pub fn random<G: FnMut() -> T>(mut draw: G) -> (result: Matrix<T, ROWS, COLS>)
        requires
            call_requires(draw, ()),
        ensures
            forall|i: int, j: int|
                0 <= i < ROWS && 0 <= j < COLS ==> call_ensures(draw, (), #[trigger] result@[i][j]),
    {
        let ghost source = draw;
        let mut data = [[T::default(); COLS]; ROWS];
        let mut row: usize = 0;
        while row < ROWS
            invariant
                row <= ROWS,
                draw == source,
                call_requires(draw, ()),
                forall|i: int, j: int|
                    0 <= i < row && 0 <= j < COLS ==> call_ensures(
                        source,
                        (),
                        #[trigger] data[i][j],
                    ),
            decreases ROWS - row,
        {
            let mut col: usize = 0;
            while col < COLS
                invariant
                    row < ROWS,
                    col <= COLS,
                    draw == source,
                    call_requires(draw, ()),
                    forall|i: int, j: int|
                        0 <= i < row && 0 <= j < COLS ==> call_ensures(
                            source,
                            (),
                            #[trigger] data[i][j],
                        ),
                    forall|j: int|
                        0 <= j < col ==> call_ensures(source, (), #[trigger] data[row as int][j]),
                decreases COLS - col,
            {
                data[row][col] = draw();
                col = col + 1;
            }
            row = row + 1;
        }
        Matrix { data }
    }

    /// The matrix product of `self` and `other`. Each entry accumulates, from
    /// zero, the products along a row of `self` and a column of `other`.
    ///
    /// The arithmetic must accept the operands it meets on the way; where it
    /// accepts every operand, as that of floating-point numbers does, nothing
    /// is asked.
    pub fn multiply<const OTHER_COLS: usize>(
        &self,
        other: &Matrix<T, COLS, OTHER_COLS>,
    ) -> (product: Matrix<T, ROWS, OTHER_COLS>)
        requires
            has_product_grid(self@, other@, OTHER_COLS as nat),
        ensures
            is_product_grid(self@, other@, product@),
    {
        let mut data = [[T::default(); OTHER_COLS]; ROWS];
        let mut i: usize = 0;
        while i < ROWS
            invariant
                i <= ROWS,
                has_product_grid(self@, other@, OTHER_COLS as nat),
                forall|r: int, c: int|
                    0 <= r < i && 0 <= c < OTHER_COLS ==> is_dot(
                        self@[r],
                        column(other@, c),
                        COLS as nat,
                        #[trigger] data[r][c],
                    ),
            decreases ROWS - i,
        {
            let mut j: usize = 0;
            while j < OTHER_COLS
                invariant
                    i < ROWS,
                    j <= OTHER_COLS,
                    has_product_grid(self@, other@, OTHER_COLS as nat),
                    forall|r: int, c: int|
                        0 <= r < i && 0 <= c < OTHER_COLS ==> is_dot(
                            self@[r],
                            column(other@, c),
                            COLS as nat,
                            #[trigger] data[r][c],
                        ),
                    forall|c: int|
                        0 <= c < j ==> is_dot(
                            self@[i as int],
                            column(other@, c),
                            COLS as nat,
                            #[trigger] data[i as int][c],
                        ),
                decreases OTHER_COLS - j,
            {
                let mut sum = T::default();
                let mut k: usize = 0;
                assert(has_dot(self@[i as int], column(other@, j as int), COLS as nat));
                while k < COLS
                    invariant
                        i < ROWS,
                        j < OTHER_COLS,
                        k <= COLS,
                        has_dot(self@[i as int], column(other@, j as int), COLS as nat),
                        is_dot(self@[i as int], column(other@, j as int), k as nat, sum),
                    decreases COLS - k,
                {
                    assert(self@[i as int][k as int] == self.data[i as int][k as int]);
                    assert(column(other@, j as int)[k as int] == other.data[k as int][j as int]);
                    let term = self.data[i][k] * other.data[k][j];
                    let next = sum + term;
                    proof {
                        lemma_dot_step(
                            self@[i as int],
                            column(other@, j as int),
                            k as nat,
                            sum,
                            term,
                            next,
                        );
                    }
                    sum = next;
                    k = k + 1;
                }
                data[i][j] = sum;
                j = j + 1;
            }
            i = i + 1;
        }
        Matrix { data }
    }

    /// The entrywise sum of `self` and `other`. Addition must accept the
    /// entries of the two at every place.
    pub fn add(&self, other: &Matrix<T, ROWS, COLS>) -> (result: Matrix<T, ROWS, COLS>)
        requires
            has_sum_grid(self@, other@),
        ensures
            is_sum_grid(self@, other@, result@),
    {
        let mut data = [[T::default(); COLS]; ROWS];
        let mut row: usize = 0;
        while row < ROWS
            invariant
                row <= ROWS,
                has_sum_grid(self@, other@),
                forall|i: int, j: int|
                    0 <= i < row && 0 <= j < COLS ==> is_sum(
                        self.data[i][j],
                        other.data[i][j],
                        #[trigger] data[i][j],
                    ),
            decreases ROWS - row,
        {
            let mut col: usize = 0;
            while col < COLS
                invariant
                    row < ROWS,
                    col <= COLS,
                    has_sum_grid(self@, other@),
                    forall|i: int, j: int|
                        0 <= i < row && 0 <= j < COLS ==> is_sum(
                            self.data[i][j],
                            other.data[i][j],
                            #[trigger] data[i][j],
                        ),
                    forall|j: int|
                        0 <= j < col ==> is_sum(
                            self.data[row as int][j],
                            other.data[row as int][j],
                            #[trigger] data[row as int][j],
                        ),
                decreases COLS - col,
            {
                assert(self@[row as int][col as int] == self.data[row as int][col as int]);
                assert(other@[row as int][col as int] == other.data[row as int][col as int]);
                data[row][col] = self.data[row][col] + other.data[row][col];
                col = col + 1;
            }
            row = row + 1;
        }
        Matrix { data }
    }

    /// The entrywise product of `self` and `other`. Multiplication must accept
    /// the entries of the two at every place.
    pub fn dot_multiply(&self, other: &Matrix<T, ROWS, COLS>) -> (result: Matrix<T, ROWS, COLS>)
        requires
            has_hadamard_grid(self@, other@),
        ensures
            is_hadamard_grid(self@, other@, result@),
    {
        let mut data = [[T::default(); COLS]; ROWS];
        let mut row: usize = 0;
        while row < ROWS
            invariant
                row <= ROWS,
                has_hadamard_grid(self@, other@),
                forall|i: int, j: int|
                    0 <= i < row && 0 <= j < COLS ==> is_product(
                        self.data[i][j],
                        other.data[i][j],
                        #[trigger] data[i][j],
                    ),
            decreases ROWS - row,
        {
            let mut col: usize = 0;
            while col < COLS
                invariant
                    row < ROWS,
                    col <= COLS,
                    has_hadamard_grid(self@, other@),
                    forall|i: int, j: int|
                        0 <= i < row && 0 <= j < COLS ==> is_product(
                            self.data[i][j],
                            other.data[i][j],
                            #[trigger] data[i][j],
                        ),
                    forall|j: int|
                        0 <= j < col ==> is_product(
                            self.data[row as int][j],
                            other.data[row as int][j],
                            #[trigger] data[row as int][j],
                        ),
                decreases COLS - col,
            {
                assert(self@[row as int][col as int] == self.data[row as int][col as int]);
                assert(other@[row as int][col as int] == other.data[row as int][col as int]);
                data[row][col] = self.data[row][col] * other.data[row][col];
                col = col + 1;
            }
            row = row + 1;
        }
        Matrix { data }
    }

    /// The entrywise difference of `self` and `other`. Subtraction must accept
    /// the entries of the two at every place.
    pub fn subtract(&self, other: &Matrix<T, ROWS, COLS>) -> (result: Matrix<T, ROWS, COLS>)
        requires
            has_difference_grid(self@, other@),
        ensures
            is_difference_grid(self@, other@, result@),
    {
        let mut data = [[T::default(); COLS]; ROWS];
        let mut row: usize = 0;
        while row < ROWS
            invariant
                row <= ROWS,
                has_difference_grid(self@, other@),
                forall|i: int, j: int|
                    0 <= i < row && 0 <= j < COLS ==> is_difference(
                        self.data[i][j],
                        other.data[i][j],
                        #[trigger] data[i][j],
                    ),
            decreases ROWS - row,
        {
            let mut col: usize = 0;
            while col < COLS
                invariant
                    row < ROWS,
                    col <= COLS,
                    has_difference_grid(self@, other@),
                    forall|i: int, j: int|
                        0 <= i < row && 0 <= j < COLS ==> is_difference(
                            self.data[i][j],
                            other.data[i][j],
                            #[trigger] data[i][j],
                        ),
                    forall|j: int|
                        0 <= j < col ==> is_difference(
                            self.data[row as int][j],
                            other.data[row as int][j],
                            #[trigger] data[row as int][j],
                        ),
                decreases COLS - col,
            {
                assert(self@[row as int][col as int] == self.data[row as int][col as int]);
                assert(other@[row as int][col as int] == other.data[row as int][col as int]);
                data[row][col] = self.data[row][col] - other.data[row][col];
                col = col + 1;
            }
            row = row + 1;
        }
        Matrix { data }
    }

    /// The matrix of the values that `function` returns on the entries of
    /// `self`, all of which it must accept.
    pub fn map<F: Fn(T) -> T>(&self, function: &F) -> (result: Matrix<T, ROWS, COLS>)
        requires
            has_image_grid(self@, *function),
        ensures
            is_image_grid(self@, graph_of(*function), result@),
    {
        let mut data = [[T::default(); COLS]; ROWS];
        let mut row: usize = 0;
        while row < ROWS
            invariant
                row <= ROWS,
                has_image_grid(self@, *function),
                forall|i: int, j: int|
                    0 <= i < row && 0 <= j < COLS ==> call_ensures(
                        *function,
                        (self.data[i][j],),
                        #[trigger] data[i][j],
                    ),
            decreases ROWS - row,
        {
            let mut col: usize = 0;
            while col < COLS
                invariant
                    row < ROWS,
                    col <= COLS,
                    has_image_grid(self@, *function),
                    forall|i: int, j: int|
                        0 <= i < row && 0 <= j < COLS ==> call_ensures(
                            *function,
                            (self.data[i][j],),
                            #[trigger] data[i][j],
                        ),
                    forall|j: int|
                        0 <= j < col ==> call_ensures(
                            *function,
                            (self.data[row as int][j],),
                            #[trigger] data[row as int][j],
                        ),
                decreases COLS - col,
            {
                assert(self@[row as int][col as int] == self.data[row as int][col as int]);
                data[row][col] = function(self.data[row][col]);
                col = col + 1;
            }
            row = row + 1;
        }
        Matrix { data }
    }

    /// The matrix that holds `data`.
    pub fn from(data: [[T; COLS]; ROWS]) -> (matrix: Matrix<T, ROWS, COLS>)
        ensures
            matrix.data == data,
    {
        Matrix { data }
    }

    /// The transpose of `self`: rows become columns.
    pub fn transpose(&self) -> (result: Matrix<T, COLS, ROWS>)
        ensures
            result@ == transposed(self@, COLS as nat),
    {
        let mut data = [[T::default(); ROWS]; COLS];
        let mut row: usize = 0;
        while row < ROWS
            invariant
                row <= ROWS,
                forall|i: int, j: int|
                    0 <= i < row && 0 <= j < COLS ==> #[trigger] data[j][i] == self.data[i][j],
            decreases ROWS - row,
        {
            let mut col: usize = 0;
            while col < COLS
                invariant
                    row < ROWS,
                    col <= COLS,
                    forall|i: int, j: int|
                        0 <= i < row && 0 <= j < COLS ==> #[trigger] data[j][i] == self.data[i][j],
                    forall|j: int|
                        0 <= j < col ==> #[trigger] data[j][row as int] == self.data[row as int][j],
                decreases COLS - col,
            {
                data[col][row] = self.data[row][col];
                col = col + 1;
            }
            row = row + 1;
        }
        let result = Matrix { data };
        assert(result@ =~~= transposed(self@, COLS as nat));
        result
    }
}

/// The shapes of the operands do not fit the operation.
#[derive(Clone, Copy, Debug, PartialEq, Eq, Structural)]
pub struct ShapeMismatch;

/// A matrix of varying shape in a buffer of fixed size.
///
/// The buffer has `ROWS` rows and `COLS` columns. The matrix proper holds the
/// first `rows` rows and, of each, the first `cols` entries. Arithmetic changes
/// the matrix in place, so that one buffer can hold the results of a chain of
/// operations of differing shape.
#[derive(Clone, Debug)]
pub struct NormalizedMatrix<T, const ROWS: usize, const COLS: usize> {
    pub data: [[T; COLS]; ROWS],
    pub cols: usize,
    pub rows: usize,
}

impl<T, const ROWS: usize, const COLS: usize> View for NormalizedMatrix<T, ROWS, COLS> {
    type V = Seq<Seq<T>>;

    /// The matrix proper: `rows` rows of `cols` entries.
    open spec fn view(&self) -> Seq<Seq<T>> {
        Seq::new(self.rows as nat, |i: int| Seq::new(self.cols as nat, |j: int| self.data[i][j]))
    }
}

impl<T, const ROWS: usize, const COLS: usize> NormalizedMatrix<T, ROWS, COLS> {
    /// The whole buffer, row by row.
    pub open spec fn buffer(&self) -> Seq<Seq<T>> {
        grid_of(self.data)
    }

    /// The matrix proper lies within the buffer.
    pub open spec fn fits(&self) -> bool {
        self.rows <= ROWS && self.cols <= COLS
    }

    /// `self` and `other` hold the same entry at every place of the buffer that
    /// is not among the first `cols` entries of one of the first `rows` rows.
    pub open spec fn agrees_outside(&self, other: &Self, rows: usize, cols: usize) -> bool {
        forall|i: int, j: int|
            0 <= i < ROWS && 0 <= j < COLS && !(i < rows && j < cols) ==> #[trigger] self.data[i][j]
                == other.data[i][j]
    }
}

impl<T: Scalar, const ROWS: usize, const COLS: usize> NormalizedMatrix<T, ROWS, COLS> {
    /// A buffer of zeros, to hold a matrix of `rows` rows and `cols` columns.
    /// A shape beyond the buffer is taken as given; arithmetic refuses it.
    pub fn zeros(cols: usize, rows: usize) -> (zeros: Self)
        ensures
            zeros.cols == cols,
            zeros.rows == rows,
            is_zero_grid(zeros.buffer()),
    {
        NormalizedMatrix { data: [[T::default(); COLS]; ROWS], rows, cols }
    }

    /// Multiplies `self` by `other` in place: `self` becomes the matrix product.
    /// Every row is read in full before any of its entries is written, so no
    /// entry of the product is computed from another.
    ///
    /// Both matrices must lie within their buffers, `other` must have as many
    /// rows as `self` has columns, and the product must fit the buffer of
    /// `self`; if not, the call fails and `self` is left as it was.
    pub fn multiply<const OTHER_COLS: usize>(
        &mut self,
        other: &NormalizedMatrix<T, COLS, OTHER_COLS>,
    ) -> (result: Result<(), ShapeMismatch>)
        requires
            old(self).fits() && other.fits() && other.rows == old(self).cols && other.cols <= COLS
                ==> has_product_grid(old(self)@, other@, other.cols as nat),
        ensures
            result is Ok <==> old(self).fits() && other.fits() && other.rows == old(self).cols
                && other.cols <= COLS,
            result is Ok ==> {
                &&& final(self).rows == old(self).rows
                &&& final(self).cols == other.cols
                &&& is_product_grid(old(self)@, other@, final(self)@)
                &&& final(self).agrees_outside(old(self), old(self).rows, other.cols)
            },
            result is Err ==> *final(self) == *old(self),
    {
        if self.rows > ROWS || self.cols > COLS || other.rows > COLS || other.cols > OTHER_COLS
            || other.rows != self.cols || other.cols > COLS {
            return Err(ShapeMismatch);
        }
        let ghost before = *self;
        let mut i: usize = 0;
        while i < self.rows
            invariant
                has_product_grid(before@, other@, other.cols as nat),
                i <= self.rows <= ROWS,
                self.cols <= COLS,
                self.rows == before.rows,
                self.cols == before.cols,
                other.rows == self.cols,
                other.cols <= OTHER_COLS,
                other.cols <= COLS,
                forall|r: int, c: int|
                    0 <= r < i && 0 <= c < other.cols ==> is_dot(
                        before@[r],
                        column(other@, c),
                        other.rows as nat,
                        #[trigger] self.data[r][c],
                    ),
                forall|r: int, c: int|
                    0 <= r < ROWS && 0 <= c < COLS && !(r < i && c < other.cols)
                        ==> #[trigger] self.data[r][c] == before.data[r][c],
            decreases self.rows - i,
        {
            let row = self.data[i];
            let mut j: usize = 0;
            while j < other.cols
                invariant
                    has_product_grid(before@, other@, other.cols as nat),
                    i < self.rows <= ROWS,
                    self.cols <= COLS,
                    self.rows == before.rows,
                    self.cols == before.cols,
                    other.rows == self.cols,
                    j <= other.cols <= OTHER_COLS,
                    other.cols <= COLS,
                    row == before.data[i as int],
                    forall|r: int, c: int|
                        0 <= r < i && 0 <= c < other.cols ==> is_dot(
                            before@[r],
                            column(other@, c),
                            other.rows as nat,
                            #[trigger] self.data[r][c],
                        ),
                    forall|c: int|
                        0 <= c < j ==> is_dot(
                            before@[i as int],
                            column(other@, c),
                            other.rows as nat,
                            #[trigger] self.data[i as int][c],
                        ),
                    forall|r: int, c: int|
                        0 <= r < ROWS && 0 <= c < COLS && !(r < i && c < other.cols) && !(r == i
                            && c < j) ==> #[trigger] self.data[r][c] == before.data[r][c],
                decreases other.cols - j,
            {
                let mut sum = T::default();
                let mut k: usize = 0;
                assert(has_dot(before@[i as int], column(other@, j as int), other.rows as nat));
                while k < self.cols
                    invariant
                        has_dot(before@[i as int], column(other@, j as int), other.rows as nat),
                        i < before.rows <= ROWS,
                        k <= self.cols <= COLS,
                        self.cols == before.cols,
                        other.rows == self.cols,
                        j < other.cols <= OTHER_COLS,
                        row == before.data[i as int],
                        is_dot(before@[i as int], column(other@, j as int), k as nat, sum),
                    decreases self.cols - k,
                {
                    assert(before@[i as int][k as int] == row[k as int]);
                    assert(column(other@, j as int)[k as int] == other.data[k as int][j as int]);
                    let term = row[k] * other.data[k][j];
                    let next = sum + term;
                    proof {
                        lemma_dot_step(
                            before@[i as int],
                            column(other@, j as int),
                            k as nat,
                            sum,
                            term,
                            next,
                        );
                    }
                    sum = next;
                    k = k + 1;
                }
                self.data[i][j] = sum;
                j = j + 1;
            }
            i = i + 1;
        }
        self.cols = other.cols;
        Ok(())
    }

    /// Adds `other` to `self` in place, entry by entry.
    ///
    /// Both matrices must hold the same shape, within their buffers; if not,
    /// the call fails and `self` is left as it was.
    pub fn add(&mut self, other: &NormalizedMatrix<T, ROWS, COLS>) -> (result: Result<
        (),
        ShapeMismatch,
    >)
        requires
            old(self).fits() && other.rows == old(self).rows && other.cols == old(self).cols
                ==> has_sum_grid(old(self)@, other@),
        ensures
            result is Ok <==> old(self).fits() && other.rows == old(self).rows && other.cols == old(
                self,
            ).cols,
            result is Ok ==> {
                &&& final(self).rows == old(self).rows
                &&& final(self).cols == old(self).cols
                &&& is_sum_grid(old(self)@, other@, final(self)@)
                &&& final(self).agrees_outside(old(self), old(self).rows, old(self).cols)
            },
            result is Err ==> *final(self) == *old(self),
    {
        if self.rows > ROWS || self.cols > COLS || other.rows != self.rows || other.cols
            != self.cols {
            return Err(ShapeMismatch);
        }
        let ghost before = *self;
        let mut row: usize = 0;
        while row < self.rows
            invariant
                has_sum_grid(before@, other@),
                other.rows == self.rows,
                other.cols == self.cols,
                row <= self.rows <= ROWS,
                self.cols <= COLS,
                self.rows == before.rows,
                self.cols == before.cols,
                forall|i: int, j: int|
                    0 <= i < row && 0 <= j < self.cols ==> is_sum(
                        before.data[i][j],
                        other.data[i][j],
                        #[trigger] self.data[i][j],
                    ),
                forall|i: int, j: int|
                    0 <= i < ROWS && 0 <= j < COLS && !(i < row && j < self.cols)
                        ==> #[trigger] self.data[i][j] == before.data[i][j],
            decreases self.rows - row,
        {
            let mut col: usize = 0;
            while col < self.cols
                invariant
                    has_sum_grid(before@, other@),
                    other.rows == self.rows,
                    other.cols == self.cols,
                    row < self.rows <= ROWS,
                    col <= self.cols <= COLS,
                    self.rows == before.rows,
                    self.cols == before.cols,
                    forall|i: int, j: int|
                        0 <= i < row && 0 <= j < self.cols ==> is_sum(
                            before.data[i][j],
                            other.data[i][j],
                            #[trigger] self.data[i][j],
                        ),
                    forall|j: int|
                        0 <= j < col ==> is_sum(
                            before.data[row as int][j],
                            other.data[row as int][j],
                            #[trigger] self.data[row as int][j],
                        ),
                    forall|i: int, j: int|
                        0 <= i < ROWS && 0 <= j < COLS && !(i < row && j < self.cols) && !(i == row
                            && j < col) ==> #[trigger] self.data[i][j] == before.data[i][j],
                decreases self.cols - col,
            {
                assert(before@[row as int][col as int] == self.data[row as int][col as int]);
                assert(other@[row as int][col as int] == other.data[row as int][col as int]);
                self.data[row][col] = self.data[row][col] + other.data[row][col];
                col = col + 1;
            }
            row = row + 1;
        }
        Ok(())
    }

    /// Multiplies `self` by `other` in place, entry by entry.
    ///
    /// Both matrices must hold the same shape, within their buffers; if not,
    /// the call fails and `self` is left as it was.
    pub fn dot_multiply(&mut self, other: &NormalizedMatrix<T, ROWS, COLS>) -> (result: Result<
        (),
        ShapeMismatch,
    >)
        requires
            old(self).fits() && other.rows == old(self).rows && other.cols == old(self).cols
                ==> has_hadamard_grid(old(self)@, other@),
        ensures
            result is Ok <==> old(self).fits() && other.rows == old(self).rows && other.cols == old(
                self,
            ).cols,
            result is Ok ==> {
                &&& final(self).rows == old(self).rows
                &&& final(self).cols == old(self).cols
                &&& is_hadamard_grid(old(self)@, other@, final(self)@)
                &&& final(self).agrees_outside(old(self), old(self).rows, old(self).cols)
            },
            result is Err ==> *final(self) == *old(self),
    {
        if self.rows > ROWS || self.cols > COLS || other.rows != self.rows || other.cols
            != self.cols {
            return Err(ShapeMismatch);
        }
        let ghost before = *self;
        let mut row: usize = 0;
        while row < self.rows
            invariant
                has_hadamard_grid(before@, other@),
                other.rows == self.rows,
                other.cols == self.cols,
                row <= self.rows <= ROWS,
                self.cols <= COLS,
                self.rows == before.rows,
                self.cols == before.cols,
                forall|i: int, j: int|
                    0 <= i < row && 0 <= j < self.cols ==> is_product(
                        before.data[i][j],
                        other.data[i][j],
                        #[trigger] self.data[i][j],
                    ),
                forall|i: int, j: int|
                    0 <= i < ROWS && 0 <= j < COLS && !(i < row && j < self.cols)
                        ==> #[trigger] self.data[i][j] == before.data[i][j],
            decreases self.rows - row,
        {
            let mut col: usize = 0;
            while col < self.cols
                invariant
                    has_hadamard_grid(before@, other@),
                    other.rows == self.rows,
                    other.cols == self.cols,
                    row < self.rows <= ROWS,
                    col <= self.cols <= COLS,
                    self.rows == before.rows,
                    self.cols == before.cols,
                    forall|i: int, j: int|
                        0 <= i < row && 0 <= j < self.cols ==> is_product(
                            before.data[i][j],
                            other.data[i][j],
                            #[trigger] self.data[i][j],
                        ),
                    forall|j: int|
                        0 <= j < col ==> is_product(
                            before.data[row as int][j],
                            other.data[row as int][j],
                            #[trigger] self.data[row as int][j],
                        ),
                    forall|i: int, j: int|
                        0 <= i < ROWS && 0 <= j < COLS && !(i < row && j < self.cols) && !(i == row
                            && j < col) ==> #[trigger] self.data[i][j] == before.data[i][j],
                decreases self.cols - col,
            {
                assert(before@[row as int][col as int] == self.data[row as int][col as int]);
                assert(other@[row as int][col as int] == other.data[row as int][col as int]);
                self.data[row][col] = self.data[row][col] * other.data[row][col];
                col = col + 1;
            }
            row = row + 1;
        }
        Ok(())
    }

    /// Subtracts `other` from `self` in place, entry by entry.
    ///
    /// Both matrices must hold the same shape, within their buffers; if not,
    /// the call fails and `self` is left as it was.
    pub fn subtract(&mut self, other: &NormalizedMatrix<T, ROWS, COLS>) -> (result: Result<
        (),
        ShapeMismatch,
    >)
        requires
            old(self).fits() && other.rows == old(self).rows && other.cols == old(self).cols
                ==> has_difference_grid(old(self)@, other@),
        ensures
            result is Ok <==> old(self).fits() && other.rows == old(self).rows && other.cols == old(
                self,
            ).cols,
            result is Ok ==> {
                &&& final(self).rows == old(self).rows
                &&& final(self).cols == old(self).cols
                &&& is_difference_grid(old(self)@, other@, final(self)@)
                &&& final(self).agrees_outside(old(self), old(self).rows, old(self).cols)
            },
            result is Err ==> *final(self) == *old(self),
    {
        if self.rows > ROWS || self.cols > COLS || other.rows != self.rows || other.cols
            != self.cols {
            return Err(ShapeMismatch);
        }
        let ghost before = *self;
        let mut row: usize = 0;
        while row < self.rows
            invariant
                has_difference_grid(before@, other@),
                other.rows == self.rows,
                other.cols == self.cols,
                row <= self.rows <= ROWS,
                self.cols <= COLS,
                self.rows == before.rows,
                self.cols == before.cols,
                forall|i: int, j: int|
                    0 <= i < row && 0 <= j < self.cols ==> is_difference(
                        before.data[i][j],
                        other.data[i][j],
                        #[trigger] self.data[i][j],
                    ),
                forall|i: int, j: int|
                    0 <= i < ROWS && 0 <= j < COLS && !(i < row && j < self.cols)
                        ==> #[trigger] self.data[i][j] == before.data[i][j],
            decreases self.rows - row,
        {
            let mut col: usize = 0;
            while col < self.cols
                invariant
                    has_difference_grid(before@, other@),
                    other.rows == self.rows,
                    other.cols == self.cols,
                    row < self.rows <= ROWS,
                    col <= self.cols <= COLS,
                    self.rows == before.rows,
                    self.cols == before.cols,
                    forall|i: int, j: int|
                        0 <= i < row && 0 <= j < self.cols ==> is_difference(
                            before.data[i][j],
                            other.data[i][j],
                            #[trigger] self.data[i][j],
                        ),
                    forall|j: int|
                        0 <= j < col ==> is_difference(
                            before.data[row as int][j],
                            other.data[row as int][j],
                            #[trigger] self.data[row as int][j],
                        ),
                    forall|i: int, j: int|
                        0 <= i < ROWS && 0 <= j < COLS && !(i < row && j < self.cols) && !(i == row
                            && j < col) ==> #[trigger] self.data[i][j] == before.data[i][j],
                decreases self.cols - col,
            {
                assert(before@[row as int][col as int] == self.data[row as int][col as int]);
                assert(other@[row as int][col as int] == other.data[row as int][col as int]);
                self.data[row][col] = self.data[row][col] - other.data[row][col];
                col = col + 1;
            }
            row = row + 1;
        }
        Ok(())
    }

    /// Replaces every entry of the buffer by the value that `function` returns
    /// on it. The shape stays as it is.
    pub fn map<F: Fn(T) -> T>(&mut self, function: &F)
        requires
            has_image_grid(old(self).buffer(), *function),
        ensures
            final(self).rows == old(self).rows,
            final(self).cols == old(self).cols,
            is_image_grid(old(self).buffer(), graph_of(*function), final(self).buffer()),
    {
        let ghost before = *self;
        let mut row: usize = 0;
        while row < ROWS
            invariant
                has_image_grid(before.buffer(), *function),
                row <= ROWS,
                self.rows == before.rows,
                self.cols == before.cols,
                forall|i: int, j: int|
                    0 <= i < row && 0 <= j < COLS ==> call_ensures(
                        *function,
                        (before.data[i][j],),
                        #[trigger] self.data[i][j],
                    ),
                forall|i: int, j: int|
                    row <= i < ROWS && 0 <= j < COLS ==> #[trigger] self.data[i][j]
                        == before.data[i][j],
            decreases ROWS - row,
        {
            let mut col: usize = 0;
            while col < COLS
                invariant
                    has_image_grid(before.buffer(), *function),
                    row < ROWS,
                    col <= COLS,
                    self.rows == before.rows,
                    self.cols == before.cols,
                    forall|i: int, j: int|
                        0 <= i < row && 0 <= j < COLS ==> call_ensures(
                            *function,
                            (before.data[i][j],),
                            #[trigger] self.data[i][j],
                        ),
                    forall|j: int|
                        0 <= j < col ==> call_ensures(
                            *function,
                            (before.data[row as int][j],),
                            #[trigger] self.data[row as int][j],
                        ),
                    forall|i: int, j: int|
                        row <= i < ROWS && 0 <= j < COLS && !(i == row && j < col)
                            ==> #[trigger] self.data[i][j] == before.data[i][j],
                decreases COLS - col,
            {
                assert(before.buffer()[row as int][col as int] == self.data[row as int][col as int]);
                self.data[row][col] = function(self.data[row][col]);
                col = col + 1;
            }
            row = row + 1;
        }
    }

    /// The transpose, in a buffer of transposed size: the whole buffer is
    /// transposed, and the numbers of rows and columns change places.
    pub fn transpose(&self) -> (result: NormalizedMatrix<T, COLS, ROWS>)
        ensures
            result.rows == self.cols,
            result.cols == self.rows,
            result.buffer() == transposed(self.buffer(), COLS as nat),
    {
        let mut data = [[T::default(); ROWS]; COLS];
        let mut row: usize = 0;
        while row < ROWS
            invariant
                row <= ROWS,
                forall|i: int, j: int|
                    0 <= i < row && 0 <= j < COLS ==> #[trigger] data[j][i] == self.data[i][j],
            decreases ROWS - row,
        {
            let mut col: usize = 0;
            while col < COLS
                invariant
                    row < ROWS,
                    col <= COLS,
                    forall|i: int, j: int|
                        0 <= i < row && 0 <= j < COLS ==> #[trigger] data[j][i] == self.data[i][j],
                    forall|j: int|
                        0 <= j < col ==> #[trigger] data[j][row as int] == self.data[row as int][j],
                decreases COLS - col,
            {
                data[col][row] = self.data[row][col];
                col = col + 1;
            }
            row = row + 1;
        }
        let result = NormalizedMatrix { data, rows: self.cols, cols: self.rows };
        assert(result.buffer() =~~= transposed(self.buffer(), COLS as nat));
        result
    }
}

} // verus!
