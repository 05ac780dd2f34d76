//! Identities of matrix arithmetic.
//!
//! Transposition moves entries and computes nothing, so its identity holds of
//! every number type. The identities of addition and multiplication hold
//! wherever the numbers themselves obey the rule in question on the entries at
//! hand; each lemma names that rule as its hypothesis. Floating-point numbers
//! obey these rules on most entries and break them on a few: a sum may round,
//! and zero times infinity is no number.

use crate::grid::column;
use crate::grid::is_difference_grid;
use crate::grid::is_dot;
use crate::grid::is_grid;
use crate::grid::is_image_grid;
use crate::grid::is_product_grid;
use crate::grid::is_sum_grid;
use crate::grid::is_zero_grid;
use crate::grid::transposed;
use crate::matrix::lemma_same_view;
use crate::matrix::lemma_view_is_grid;
use crate::matrix::Matrix;
use crate::scalar::is_difference;
use crate::scalar::is_product;
use crate::scalar::is_sum;
use crate::scalar::is_value_at_zero;
use crate::scalar::is_zero;
use crate::scalar::Scalar;
use vstd::prelude::*;

verus! {

/// Subtracting `b` from a sum of `a` and `b` gives `a` back.
pub open spec fn cancels<T: Scalar>(a: T, b: T) -> bool {
    forall|s: T, d: T|
        #![trigger is_difference(s, b, d)]
        is_sum(a, b, s) && is_difference(s, b, d) ==> d == a
}

/// The entry at place `j` of `row` comes through a dot product with column
/// `j` of the identity as it is:
///
/// - before place `j`, `zero` times an entry adds nothing to `zero`;
/// - at place `j`, `one` times the entry, added to `zero`, is the entry;
/// - after place `j`, `zero` times an entry adds nothing to the entry at `j`.
pub open spec fn picks_entry<T: Scalar>(row: Seq<T>, j: int, zero: T, one: T) -> bool {
    &&& forall|k: int, p: T, r: T|
        #![trigger is_product(row[k], zero, p), is_sum(zero, p, r)]
        0 <= k < j && is_product(row[k], zero, p) && is_sum(zero, p, r) ==> r == zero
    &&& forall|p: T, r: T|
        #![trigger is_product(row[j], one, p), is_sum(zero, p, r)]
        is_product(row[j], one, p) && is_sum(zero, p, r) ==> r == row[j]
    &&& forall|k: int, p: T, r: T|
        #![trigger is_product(row[k], zero, p), is_sum(row[j], p, r)]
        j < k < row.len() && is_product(row[k], zero, p) && is_sum(row[j], p, r) ==> r == row[j]
}

/// `g` holds `one` on its diagonal and `zero` everywhere else.
pub open spec fn is_identity_grid<T>(g: Seq<Seq<T>>, zero: T, one: T) -> bool {
    forall|i: int, j: int|
        0 <= i < g.len() && 0 <= j < g[i].len() ==> #[trigger] g[i][j] == if i == j {
            one
        } else {
            zero
        }
}

/// Transposing a grid twice gives the grid back.
pub proof fn lemma_transposed_twice<T>(g: Seq<Seq<T>>, rows: nat, cols: nat)
    requires
        is_grid(g, rows, cols),
    ensures
        transposed(transposed(g, cols), rows) == g,
{
    assert(transposed(transposed(g, cols), rows) =~~= g);
}

/// Transposing a matrix twice gives the matrix back: if `once` is the
/// transpose of `a` and `twice` the transpose of `once`, then `twice` is `a`.
pub proof fn lemma_transpose_twice<T, const ROWS: usize, const COLS: usize>(
    a: Matrix<T, ROWS, COLS>,
    once: Matrix<T, COLS, ROWS>,
    twice: Matrix<T, ROWS, COLS>,
)
    requires
        once@ == transposed(a@, COLS as nat),
        twice@ == transposed(once@, ROWS as nat),
    ensures
        twice == a,
{
    lemma_view_is_grid(a);
    lemma_transposed_twice(a@, ROWS as nat, COLS as nat);
    lemma_same_view(twice, a);
}

/// Adding `b` and then subtracting it gives `a` back, provided that the
/// numbers cancel at every place: if `sum` is a sum of `a` and `b`, and `back`
/// a difference of `sum` and `b`, then `back` is `a`.
pub proof fn lemma_add_then_subtract<T: Scalar, const ROWS: usize, const COLS: usize>(
    a: Matrix<T, ROWS, COLS>,
    b: Matrix<T, ROWS, COLS>,
    sum: Matrix<T, ROWS, COLS>,
    back: Matrix<T, ROWS, COLS>,
)
    requires
        is_sum_grid(a@, b@, sum@),
        is_difference_grid(sum@, b@, back@),
        forall|i: int, j: int|
            0 <= i < ROWS && 0 <= j < COLS ==> cancels(#[trigger] a@[i][j], b@[i][j]),
    ensures
        back == a,
{
    assert forall|i: int, j: int| 0 <= i < ROWS && 0 <= j < COLS implies back@[i][j]
        == a@[i][j] by {
        assert(is_sum(a@[i][j], b@[i][j], sum@[i][j]));
        assert(is_difference(sum@[i][j], b@[i][j], back@[i][j]));
        assert(cancels(a@[i][j], b@[i][j]));
    }
    assert(back@ =~~= a@);
    lemma_same_view(back, a);
}

/// The dot product of a row with a column that holds `one` at place `j` and
/// `zero` elsewhere is `zero` as long as it has not reached place `j`, and is
/// the row's entry at `j` from then on.
proof fn lemma_dot_with_unit_column<T: Scalar>(
    row: Seq<T>,
    unit: Seq<T>,
    zero: T,
    one: T,
    j: int,
    n: nat,
    acc: T,
)
    requires
        n <= row.len(),
        row.len() == unit.len(),
        0 <= j < unit.len(),
        forall|k: int| 0 <= k < unit.len() ==> #[trigger] unit[k] == if k == j {
            one
        } else {
            zero
        },
        forall|z: T| #[trigger] is_zero(z) ==> z == zero,
        picks_entry(row, j, zero, one),
        is_dot(row, unit, n, acc),
    ensures
        n <= j ==> acc == zero,
        n > j ==> acc == row[j],
    decreases n,
{
    if n > 0 {
        let (prev, term) = choose|prev: T, term: T|
            #![trigger is_sum(prev, term, acc)]
            is_dot(row, unit, (n - 1) as nat, prev) && is_product(row[n - 1], unit[n - 1], term)
                && is_sum(prev, term, acc);
        lemma_dot_with_unit_column(row, unit, zero, one, j, (n - 1) as nat, prev);
        if n - 1 == j {
            assert(unit[n - 1] == one);
        } else {
            assert(unit[n - 1] == zero);
        }
    }
}

/// Multiplying by the identity gives the matrix back, wherever every entry
/// comes through the dot product with its column of the identity as it is:
/// if `identity` holds `one` on its diagonal and `zero` elsewhere, and
/// `product` is a product of `a` and `identity`, then `product` is `a`.
///
/// `zero` must be the value that accumulations start from.
pub proof fn lemma_multiply_by_identity<T: Scalar, const ROWS: usize, const COLS: usize>(
    a: Matrix<T, ROWS, COLS>,
    identity: Matrix<T, COLS, COLS>,
    zero: T,
    one: T,
    product: Matrix<T, ROWS, COLS>,
)
    requires
        is_product_grid(a@, identity@, product@),
        is_identity_grid(identity@, zero, one),
        forall|z: T| #[trigger] is_zero(z) ==> z == zero,
        forall|i: int, j: int|
            0 <= i < ROWS && 0 <= j < COLS ==> #[trigger] picks_entry(a@[i], j, zero, one),
    ensures
        product == a,
{
    assert forall|i: int, j: int| 0 <= i < ROWS && 0 <= j < COLS implies product@[i][j]
        == a@[i][j] by {
        let unit = column(identity@, j);
        assert(is_dot(a@[i], unit, COLS as nat, product@[i][j]));
        assert forall|k: int| 0 <= k < unit.len() implies #[trigger] unit[k] == if k == j {
            one
        } else {
            zero
        } by {
            assert(unit[k] == identity@[k][j]);
        }
        assert(picks_entry(a@[i], j, zero, one));
        lemma_dot_with_unit_column(a@[i], unit, zero, one, j, COLS as nat, product@[i][j]);
    }
    assert(product@ =~~= a@);
    lemma_same_view(product, a);
}

/// Mapping a function over the zero matrix gives a matrix whose every entry is
/// a value of the function on zero.
pub proof fn lemma_map_of_zeros<T: Scalar, const ROWS: usize, const COLS: usize>(
    zeros: Matrix<T, ROWS, COLS>,
    f: spec_fn(T, T) -> bool,
    image: Matrix<T, ROWS, COLS>,
)
    requires
        is_zero_grid(zeros@),
        is_image_grid(zeros@, f, image@),
    ensures
        forall|i: int, j: int|
            0 <= i < ROWS && 0 <= j < COLS ==> is_value_at_zero(f, #[trigger] image@[i][j]),
{
    assert forall|i: int, j: int| 0 <= i < ROWS && 0 <= j < COLS implies is_value_at_zero(
        f,
        #[trigger] image@[i][j],
    ) by {
        assert(is_zero(zeros@[i][j]));
        assert(f(zeros@[i][j], image@[i][j]));
    }
}

/// Mapping a function that has the single value `v` on zero over the zero
/// matrix gives the matrix that holds `v` everywhere.
pub proof fn lemma_map_of_zeros_is_constant<T: Scalar, const ROWS: usize, const COLS: usize>(
    zeros: Matrix<T, ROWS, COLS>,
    f: spec_fn(T, T) -> bool,
    v: T,
    image: Matrix<T, ROWS, COLS>,
)
    requires
        is_zero_grid(zeros@),
        is_image_grid(zeros@, f, image@),
        forall|z: T, y: T| #![trigger f(z, y)] is_zero(z) && f(z, y) ==> y == v,
    ensures
        forall|i: int, j: int| 0 <= i < ROWS && 0 <= j < COLS ==> #[trigger] image@[i][j] == v,
{
    assert forall|i: int, j: int| 0 <= i < ROWS && 0 <= j < COLS implies #[trigger] image@[i][j]
        == v by {
        assert(is_zero(zeros@[i][j]));
        assert(f(zeros@[i][j], image@[i][j]));
    }
}

} // verus!
