use mynn::matrix::Matrix;
use std::num::Wrapping;

const SEED: u64 = 6_447_991_239_222_745_267;

fn close(a: f64, b: f64) -> bool {
    (a - b).abs() < 1e-12
}

#[test]
fn zeros_holds_zero_everywhere() {
    let m = Matrix::<f64, 2, 3>::zeros();
    assert_eq!(m.data, [[0.0, 0.0, 0.0], [0.0, 0.0, 0.0]]);
}

#[test]
fn zeros_of_an_empty_shape_is_empty() {
    let m = Matrix::<f64, 0, 3>::zeros();
    assert_eq!(m.data.len(), 0);
    let t = m.transpose();
    assert_eq!(t.data.len(), 3);
    assert_eq!(t.data[0].len(), 0);
}

#[test]
fn from_keeps_the_data() {
    let m = Matrix::from([[1.0, 2.0], [3.0, 4.0], [5.0, 6.0]]);
    assert_eq!(m.data, [[1.0, 2.0], [3.0, 4.0], [5.0, 6.0]]);
}

#[test]
fn random_fills_row_by_row_from_the_source() {
    let mut next = 0.0;
    let m = Matrix::<f64, 2, 3>::random(|| {
        next += 1.0;
        next
    });
    assert_eq!(m.data, [[1.0, 2.0, 3.0], [4.0, 5.0, 6.0]]);
}

#[test]
fn random_from_a_uniform_source_stays_in_range() {
    let mut rng = fastrand::Rng::with_seed(SEED);
    let m = Matrix::<f64, 8, 8>::random(|| rng.f64() * 2.0 - 1.0);
    let mut distinct = false;
    for row in m.data.iter() {
        for x in row.iter() {
            assert!(-1.0 <= *x && *x < 1.0);
            if *x != m.data[0][0] {
                distinct = true;
            }
        }
    }
    assert!(distinct);
}

#[test]
fn random_from_the_same_seed_is_the_same_matrix() {
    let mut first = fastrand::Rng::with_seed(SEED);
    let mut second = fastrand::Rng::with_seed(SEED);
    let a = Matrix::<f64, 3, 2>::random(|| first.f64() * 2.0 - 1.0);
    let b = Matrix::<f64, 3, 2>::random(|| second.f64() * 2.0 - 1.0);
    assert_eq!(a.data, b.data);
}

#[test]
fn multiply_is_the_row_by_column_product() {
    let a = Matrix::from([[1.0, 2.0, 3.0], [4.0, 5.0, 6.0]]);
    let b = Matrix::from([[7.0, 8.0], [9.0, 10.0], [11.0, 12.0]]);
    let c = a.multiply(&b);
    assert_eq!(c.data, [[58.0, 64.0], [139.0, 154.0]]);
}

#[test]
fn multiply_is_not_commutative() {
    let a = Matrix::from([[1.0, 2.0], [3.0, 4.0]]);
    let b = Matrix::from([[0.0, 1.0], [1.0, 0.0]]);
    assert_eq!(a.multiply(&b).data, [[2.0, 1.0], [4.0, 3.0]]);
    assert_eq!(b.multiply(&a).data, [[3.0, 4.0], [1.0, 2.0]]);
}

#[test]
fn multiply_a_row_by_a_column_gives_the_dot_product() {
    let a = Matrix::from([[2.0, 3.0]]);
    let b = Matrix::from([[5.0], [7.0]]);
    assert_eq!(a.multiply(&b).data, [[31.0]]);
    assert_eq!(b.multiply(&a).data, [[10.0, 15.0], [14.0, 21.0]]);
}

#[test]
fn multiply_over_an_empty_inner_dimension_gives_zeros() {
    let a = Matrix::<f64, 2, 0>::zeros();
    let b = Matrix::<f64, 0, 2>::zeros();
    assert_eq!(a.multiply(&b).data, [[0.0, 0.0], [0.0, 0.0]]);
}

#[test]
fn multiply_by_the_identity_gives_the_matrix_back() {
    let a = Matrix::from([[1.5, 2.0, 0.0], [4.0, 0.25, 6.0]]);
    let identity = Matrix::from([[1.0, 0.0, 0.0], [0.0, 1.0, 0.0], [0.0, 0.0, 1.0]]);
    assert_eq!(a.multiply(&identity).data, a.data);
}

#[test]
fn multiply_by_the_identity_keeps_negative_entries() {
    let a = Matrix::from([[-1.5, 2.0], [4.0, -0.25]]);
    let identity = Matrix::from([[1.0, 0.0], [0.0, 1.0]]);
    assert_eq!(a.multiply(&identity).data, a.data);
}

#[test]
fn multiply_by_the_identity_turns_infinity_into_nan_elsewhere_in_its_row() {
    let a = Matrix::from([[f64::INFINITY, 1.0]]);
    let identity = Matrix::from([[1.0, 0.0], [0.0, 1.0]]);
    let p = a.multiply(&identity);
    assert_eq!(p.data[0][0], f64::INFINITY);
    assert!(p.data[0][1].is_nan());
}

#[test]
fn add_adds_entry_by_entry() {
    let a = Matrix::from([[1.0, 2.0], [3.0, 4.0]]);
    let b = Matrix::from([[10.0, 20.0], [30.0, 40.0]]);
    assert_eq!(a.add(&b).data, [[11.0, 22.0], [33.0, 44.0]]);
}

#[test]
fn subtract_subtracts_entry_by_entry() {
    let a = Matrix::from([[1.0, 2.0], [3.0, 4.0]]);
    let b = Matrix::from([[10.0, 20.0], [30.0, 40.0]]);
    assert_eq!(a.subtract(&b).data, [[-9.0, -18.0], [-27.0, -36.0]]);
    assert_eq!(b.subtract(&a).data, [[9.0, 18.0], [27.0, 36.0]]);
}

#[test]
fn dot_multiply_multiplies_entry_by_entry() {
    let a = Matrix::from([[1.0, 2.0], [3.0, 4.0]]);
    let b = Matrix::from([[10.0, 20.0], [30.0, 40.0]]);
    assert_eq!(a.dot_multiply(&b).data, [[10.0, 40.0], [90.0, 160.0]]);
}

#[test]
fn operations_leave_their_operands_alone() {
    let a = Matrix::from([[1.0, 2.0], [3.0, 4.0]]);
    let b = Matrix::from([[10.0, 20.0], [30.0, 40.0]]);
    let _ = a.add(&b);
    let _ = a.subtract(&b);
    let _ = a.dot_multiply(&b);
    let _ = a.multiply(&b);
    let _ = a.transpose();
    let _ = a.map(&|x: f64| x + 1.0);
    assert_eq!(a.data, [[1.0, 2.0], [3.0, 4.0]]);
    assert_eq!(b.data, [[10.0, 20.0], [30.0, 40.0]]);
}

#[test]
fn add_then_subtract_gives_the_matrix_back_on_exact_numbers() {
    let a = Matrix::from([[1.0, -2.0], [3.5, 4.0]]);
    let b = Matrix::from([[10.0, 20.0], [-30.0, 0.25]]);
    assert_eq!(a.add(&b).subtract(&b).data, a.data);
}

#[test]
fn add_then_subtract_gives_the_matrix_back_within_rounding() {
    let a = Matrix::from([[0.1, 0.2], [0.3, 1e-3]]);
    let b = Matrix::from([[0.7, 1e3], [-0.9, 3.3]]);
    let back = a.add(&b).subtract(&b);
    for i in 0..2 {
        for j in 0..2 {
            assert!(close(back.data[i][j], a.data[i][j]));
        }
    }
}

#[test]
fn add_then_subtract_loses_what_rounding_swallowed() {
    let a = Matrix::from([[1e-20]]);
    let b = Matrix::from([[1.0]]);
    assert_eq!(a.add(&b).subtract(&b).data, [[0.0]]);
}

#[test]
fn map_applies_the_function_to_every_entry() {
    let a = Matrix::from([[1.0, 2.0], [3.0, 4.0]]);
    assert_eq!(a.map(&|x: f64| x * x + 1.0).data, [[2.0, 5.0], [10.0, 17.0]]);
}

#[test]
fn map_over_zeros_repeats_the_value_at_zero() {
    let z = Matrix::<f64, 3, 2>::zeros();
    let m = z.map(&|x: f64| (x + 2.0) * 4.0);
    assert_eq!(m.data, [[8.0, 8.0], [8.0, 8.0], [8.0, 8.0]]);
}

#[test]
fn transpose_turns_rows_into_columns() {
    let a = Matrix::from([[1.0, 2.0, 3.0], [4.0, 5.0, 6.0]]);
    assert_eq!(a.transpose().data, [[1.0, 4.0], [2.0, 5.0], [3.0, 6.0]]);
}

#[test]
fn transpose_of_a_row_is_a_column() {
    let a = Matrix::from([[1.0, 2.0, 3.0]]);
    assert_eq!(a.transpose().data, [[1.0], [2.0], [3.0]]);
}

#[test]
fn transpose_twice_gives_the_matrix_back() {
    let a = Matrix::from([[1.0, 2.0, 3.0], [4.0, 5.0, 6.0]]);
    assert_eq!(a.transpose().transpose().data, a.data);
}

#[test]
fn nan_and_infinity_pass_through_the_arithmetic() {
    let a = Matrix::from([[f64::NAN, f64::INFINITY]]);
    let b = Matrix::from([[1.0, f64::INFINITY]]);
    let sum = a.add(&b);
    assert!(sum.data[0][0].is_nan());
    assert_eq!(sum.data[0][1], f64::INFINITY);
    let difference = a.subtract(&b);
    assert!(difference.data[0][0].is_nan());
    assert!(difference.data[0][1].is_nan());
    let big = Matrix::from([[f64::MAX]]);
    assert_eq!(big.add(&big).data, [[f64::INFINITY]]);
}

#[test]
fn single_precision_numbers_work_alike() {
    let a = Matrix::<f32, 2, 2>::from([[1.0, 2.0], [3.0, 4.0]]);
    let b = Matrix::<f32, 2, 1>::from([[0.5], [0.25]]);
    assert_eq!(a.multiply(&b).data, [[1.0], [2.5]]);
    assert_eq!(Matrix::<f32, 1, 2>::zeros().data, [[0.0, 0.0]]);
}

#[test]
fn whole_numbers_that_wrap_work_alike() {
    let a = Matrix::from([[Wrapping(1u8), Wrapping(2)], [Wrapping(3), Wrapping(200)]]);
    let b = Matrix::from([[Wrapping(1u8), Wrapping(0)], [Wrapping(0), Wrapping(2)]]);
    assert_eq!(a.multiply(&b).data, [[Wrapping(1), Wrapping(4)], [Wrapping(3), Wrapping(144)]]);
}

#[test]
fn a_matrix_can_be_cloned_and_shown() {
    let a = Matrix::from([[1.0, 2.0], [3.0, 4.0]]);
    let b = a.clone();
    assert_eq!(b.data, a.data);
    assert!(format!("{:?}", a).contains("[[1.0, 2.0], [3.0, 4.0]]"));
}

#[test]
fn multiply_by_the_identity_loses_the_sign_of_negative_zero() {
    let a = Matrix::<f64, 1, 1>::from([[-0.0]]);
    let identity = Matrix::<f64, 1, 1>::from([[1.0]]);
    let p = a.multiply(&identity);
    assert_eq!(p.data, [[0.0]]);
    assert!(a.data[0][0].is_sign_negative());
    assert!(p.data[0][0].is_sign_positive());
}
