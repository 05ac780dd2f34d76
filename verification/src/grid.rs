//! The mathematical model of a matrix: a sequence of rows of equal length.
//!
//! Every matrix of the library is viewed as such a grid, and every contract on
//! matrix arithmetic is one of the relations below between the grids of the
//! operands and the grid of the result. The relations named `is_..` say what a
//! result is; those named `has_..` say that the result can be computed, which
//! is to say that the arithmetic accepts the operands it will meet.

use crate::scalar::is_difference;
use crate::scalar::is_product;
use crate::scalar::is_sum;
use crate::scalar::is_zero;
use crate::scalar::Scalar;
use core::ops::Add;
use core::ops::Mul;
use core::ops::Sub;
use vstd::prelude::*;

verus! {

/// `g` has `rows` rows of `cols` entries each.
pub open spec fn is_grid<T>(g: Seq<Seq<T>>, rows: nat, cols: nat) -> bool {
    &&& g.len() == rows
    &&& forall|i: int| 0 <= i < rows ==> (#[trigger] g[i]).len() == cols
}

/// The grid that an array of rows holds.
pub open spec fn grid_of<T, const ROWS: usize, const COLS: usize>(data: [[T; COLS]; ROWS]) -> Seq<
    Seq<T>,
> {
    Seq::new(ROWS as nat, |i: int| data[i]@)
}

/// Column `j` of `g`, from the top down.
pub open spec fn column<T>(g: Seq<Seq<T>>, j: int) -> Seq<T> {
    Seq::new(g.len(), |k: int| g[k][j])
}

/// The grid of one column that holds the entries of `v`.
pub open spec fn as_column<T>(v: Seq<T>) -> Seq<Seq<T>> {
    Seq::new(v.len(), |i: int| seq![v[i]])
}

/// The transpose of a grid with `cols` columns: entry `(j, i)` is entry `(i, j)`
/// of `g`.
pub open spec fn transposed<T>(g: Seq<Seq<T>>, cols: nat) -> Seq<Seq<T>> {
    Seq::new(cols, |j: int| Seq::new(g.len(), |i: int| g[i][j]))
}

/// Every entry of `r` is zero.
pub open spec fn is_zero_grid<T: Scalar>(r: Seq<Seq<T>>) -> bool {
    forall|i: int, j: int| 0 <= i < r.len() && 0 <= j < r[i].len() ==> is_zero(#[trigger] r[i][j])
}

/// Every entry of `r` is a sum of the entries of `a` and `b` at its place.
pub open spec fn is_sum_grid<T: Scalar>(a: Seq<Seq<T>>, b: Seq<Seq<T>>, r: Seq<Seq<T>>) -> bool {
    forall|i: int, j: int|
        0 <= i < r.len() && 0 <= j < r[i].len() ==> is_sum(a[i][j], b[i][j], #[trigger] r[i][j])
}

/// Every entry of `r` is a difference of the entries of `a` and `b` at its place.
pub open spec fn is_difference_grid<T: Scalar>(
    a: Seq<Seq<T>>,
    b: Seq<Seq<T>>,
    r: Seq<Seq<T>>,
) -> bool {
    forall|i: int, j: int|
        0 <= i < r.len() && 0 <= j < r[i].len() ==> is_difference(
            a[i][j],
            b[i][j],
            #[trigger] r[i][j],
        )
}

/// Every entry of `r` is a product of the entries of `a` and `b` at its place.
pub open spec fn is_hadamard_grid<T: Scalar>(
    a: Seq<Seq<T>>,
    b: Seq<Seq<T>>,
    r: Seq<Seq<T>>,
) -> bool {
    forall|i: int, j: int|
        0 <= i < r.len() && 0 <= j < r[i].len() ==> is_product(
            a[i][j],
            b[i][j],
            #[trigger] r[i][j],
        )
}

/// Every entry of `r` is a product of the entry of `a` at its place and `factor`.
pub open spec fn is_scaled_grid<T: Scalar>(a: Seq<Seq<T>>, factor: T, r: Seq<Seq<T>>) -> bool {
    forall|i: int, j: int|
        0 <= i < r.len() && 0 <= j < r[i].len() ==> is_product(a[i][j], factor, #[trigger] r[i][j])
}

/// Every entry of `r` is related by `f` to the entry of `a` at its place.
pub open spec fn is_image_grid<T>(
    a: Seq<Seq<T>>,
    f: spec_fn(T, T) -> bool,
    r: Seq<Seq<T>>,
) -> bool {
    forall|i: int, j: int|
        0 <= i < r.len() && 0 <= j < r[i].len() ==> f(a[i][j], #[trigger] r[i][j])
}

/// `acc` is a value that the dot product of the first `n` entries of `a` and `b`
/// may have: the accumulation starts from zero and adds the products
/// `a[0] * b[0]`, `a[1] * b[1]`, ... in that order.
pub open spec fn is_dot<T: Scalar>(a: Seq<T>, b: Seq<T>, n: nat, acc: T) -> bool
    decreases n,
{
    if n == 0 {
        is_zero(acc)
    } else {
        exists|prev: T, term: T|
            #![trigger is_sum(prev, term, acc)]
            is_dot(a, b, (n - 1) as nat, prev) && is_product(a[n - 1], b[n - 1], term) && is_sum(
                prev,
                term,
                acc,
            )
    }
}

/// A dot product over `n` entries, and one product more, make a dot product
/// over `n + 1` entries.
pub proof fn lemma_dot_step<T: Scalar>(a: Seq<T>, b: Seq<T>, n: nat, prev: T, term: T, acc: T)
    requires
        is_dot(a, b, n, prev),
        is_product(a[n as int], b[n as int], term),
        is_sum(prev, term, acc),
    ensures
        is_dot(a, b, n + 1, acc),
{
    assert(is_dot(a, b, ((n + 1) - 1) as nat, prev));
    assert(is_product(a[(n + 1) - 1], b[(n + 1) - 1], term));
}

/// `r` is a matrix product of `a` and `b`: entry `(i, j)` is a dot product of
/// row `i` of `a` and column `j` of `b`, over all rows of `b`.
pub open spec fn is_product_grid<T: Scalar>(
    a: Seq<Seq<T>>,
    b: Seq<Seq<T>>,
    r: Seq<Seq<T>>,
) -> bool {
    forall|i: int, j: int|
        0 <= i < r.len() && 0 <= j < r[i].len() ==> is_dot(
            a[i],
            column(b, j),
            b.len(),
            #[trigger] r[i][j],
        )
}

/// Addition accepts the entries of `a` and `b` at every place.
pub open spec fn has_sum_grid<T: Scalar>(a: Seq<Seq<T>>, b: Seq<Seq<T>>) -> bool {
    forall|i: int, j: int|
        0 <= i < a.len() && 0 <= j < a[i].len() ==> #[trigger] call_requires(
            <T as Add>::add,
            (a[i][j], b[i][j]),
        )
}

/// Subtraction accepts the entries of `a` and `b` at every place.
pub open spec fn has_difference_grid<T: Scalar>(a: Seq<Seq<T>>, b: Seq<Seq<T>>) -> bool {
    forall|i: int, j: int|
        0 <= i < a.len() && 0 <= j < a[i].len() ==> #[trigger] call_requires(
            <T as Sub>::sub,
            (a[i][j], b[i][j]),
        )
}

/// Multiplication accepts the entries of `a` and `b` at every place.
pub open spec fn has_hadamard_grid<T: Scalar>(a: Seq<Seq<T>>, b: Seq<Seq<T>>) -> bool {
    forall|i: int, j: int|
        0 <= i < a.len() && 0 <= j < a[i].len() ==> #[trigger] call_requires(
            <T as Mul>::mul,
            (a[i][j], b[i][j]),
        )
}

/// The function `f` accepts every entry of `a`.
pub open spec fn has_image_grid<T, F: Fn(T) -> T>(a: Seq<Seq<T>>, f: F) -> bool {
    forall|i: int, j: int|
        0 <= i < a.len() && 0 <= j < a[i].len() ==> #[trigger] call_requires(f, (a[i][j],))
}

/// The dot product of the first `n` entries of `a` and `b` can be computed:
/// multiplication accepts every pair of entries, and addition accepts every
/// accumulation so far together with the next product.
pub open spec fn has_dot<T: Scalar>(a: Seq<T>, b: Seq<T>, n: nat) -> bool {
    &&& forall|k: int| 0 <= k < n ==> #[trigger] call_requires(<T as Mul>::mul, (a[k], b[k]))
    &&& forall|k: nat, acc: T, term: T|
        #![trigger is_dot(a, b, k, acc), call_requires(<T as Add>::add, (acc, term))]
        k < n && is_dot(a, b, k, acc) && is_product(a[k as int], b[k as int], term)
            ==> call_requires(<T as Add>::add, (acc, term))
}

/// The matrix product of `a` and `b` can be computed: so can the dot product
/// of every row of `a` with each of the first `cols` columns of `b`.
pub open spec fn has_product_grid<T: Scalar>(a: Seq<Seq<T>>, b: Seq<Seq<T>>, cols: nat) -> bool {
    forall|i: int, j: int|
        0 <= i < a.len() && 0 <= j < cols ==> #[trigger] has_dot(a[i], column(b, j), b.len())
}

} // verus!
