use matmul::{
    compare_mats, mul_normal, mul_transposed, mul_unrolled, mul_unrolled_by, mul_with_transposed,
    unrolled_step, Mat, MatError, Number,
};

fn from_rows<T: Number>(rows: &[Vec<T>]) -> Mat<T> {
    let cols = if rows.is_empty() { 0 } else { rows[0].len() };
    let mut m: Mat<T> = Mat::zeros(rows.len(), cols);
    for (i, row) in rows.iter().enumerate() {
        assert_eq!(row.len(), cols);
        for (j, value) in row.iter().enumerate() {
            m.set(i, j, *value).unwrap();
        }
    }
    m
}

fn to_rows<T: Number>(m: &Mat<T>) -> Vec<Vec<T>> {
    let mut out = Vec::new();
    for i in 0..m.rows() {
        let mut row = Vec::new();
        for j in 0..m.cols() {
            row.push(m.get(i, j).unwrap());
        }
        out.push(row);
    }
    out
}

fn patterned(rows: usize, cols: usize, seed: u64) -> Mat<u64> {
    let mut m: Mat<u64> = Mat::zeros(rows, cols);
    for i in 0..rows {
        for j in 0..cols {
            let v = seed
                .wrapping_mul(6364136223846793005)
                .wrapping_add((i as u64) * 1442695040888963407)
                .wrapping_add((j as u64) * 2862933555777941757);
            m.set(i, j, v).unwrap();
        }
    }
    m
}

#[test]
fn two_by_two_product_naive() {
    let a = from_rows::<u32>(&[vec![1, 2], vec![3, 4]]);
    let b = from_rows::<u32>(&[vec![5, 6], vec![7, 8]]);
    let c = mul_normal(&a, &b).unwrap();
    assert_eq!(to_rows(&c), vec![vec![19, 22], vec![43, 50]]);
}

#[test]
fn two_by_two_product_transposed_copy() {
    let a = from_rows::<i32>(&[vec![1, 2], vec![3, 4]]);
    let b = from_rows::<i32>(&[vec![5, 6], vec![7, 8]]);
    let c = mul_transposed(&a, &b).unwrap();
    assert_eq!(to_rows(&c), vec![vec![19, 22], vec![43, 50]]);
}

#[test]
fn two_by_two_product_against_transposed() {
    let a = from_rows::<u64>(&[vec![1, 2], vec![3, 4]]);
    let bt = from_rows::<u64>(&[vec![5, 7], vec![6, 8]]);
    let c = mul_with_transposed(&a, &bt).unwrap();
    assert_eq!(to_rows(&c), vec![vec![19, 22], vec![43, 50]]);
}

#[test]
fn two_by_two_product_tiled() {
    let a = from_rows::<i64>(&[vec![1, 2], vec![3, 4]]);
    let b = from_rows::<i64>(&[vec![5, 6], vec![7, 8]]);
    let c = mul_unrolled(&a, &b).unwrap();
    assert_eq!(to_rows(&c), vec![vec![19, 22], vec![43, 50]]);
}

#[test]
fn two_by_two_product_every_width() {
    let a8 = from_rows::<u8>(&[vec![1, 2], vec![3, 4]]);
    let b8 = from_rows::<u8>(&[vec![5, 6], vec![7, 8]]);
    assert_eq!(to_rows(&mul_unrolled(&a8, &b8).unwrap()), vec![vec![19, 22], vec![43, 50]]);
    let a16 = from_rows::<u16>(&[vec![1, 2], vec![3, 4]]);
    let b16 = from_rows::<u16>(&[vec![5, 6], vec![7, 8]]);
    assert_eq!(to_rows(&mul_normal(&a16, &b16).unwrap()), vec![vec![19, 22], vec![43, 50]]);
    let a128 = from_rows::<u128>(&[vec![1, 2], vec![3, 4]]);
    let b128 = from_rows::<u128>(&[vec![5, 6], vec![7, 8]]);
    assert_eq!(to_rows(&mul_unrolled(&a128, &b128).unwrap()), vec![vec![19, 22], vec![43, 50]]);
    let ai = from_rows::<i128>(&[vec![1, 2], vec![3, 4]]);
    let bi = from_rows::<i128>(&[vec![5, 6], vec![7, 8]]);
    assert_eq!(to_rows(&mul_transposed(&ai, &bi).unwrap()), vec![vec![19, 22], vec![43, 50]]);
}

#[test]
fn rectangular_product() {
    let a = from_rows::<i16>(&[vec![1, -2, 3], vec![4, 5, -6]]);
    let b = from_rows::<i16>(&[vec![7, 8], vec![9, 10], vec![11, 12]]);
    let expected = vec![vec![22, 24], vec![7, 10]];
    assert_eq!(to_rows(&mul_normal(&a, &b).unwrap()), expected);
    assert_eq!(to_rows(&mul_transposed(&a, &b).unwrap()), expected);
    assert_eq!(to_rows(&mul_unrolled(&a, &b).unwrap()), expected);
    let bt = b.get_transposed();
    assert_eq!(to_rows(&mul_with_transposed(&a, &bt).unwrap()), expected);
}

#[test]
fn naive_rejects_mismatched_dimensions() {
    let a: Mat<u32> = Mat::zeros(2, 3);
    let b: Mat<u32> = Mat::zeros(2, 2);
    let res = mul_normal(&a, &b);
    assert!(matches!(res, Err(MatError::DimensionMismatch)));
}

#[test]
fn other_strategies_reject_mismatched_dimensions() {
    let a: Mat<u32> = Mat::zeros(2, 3);
    let b: Mat<u32> = Mat::zeros(2, 2);
    assert!(matches!(mul_transposed(&a, &b), Err(MatError::DimensionMismatch)));
    assert!(matches!(mul_unrolled(&a, &b), Err(MatError::DimensionMismatch)));
    assert!(matches!(mul_unrolled_by(&a, &b, 2), Err(MatError::DimensionMismatch)));
    assert!(matches!(mul_with_transposed(&a, &b), Err(MatError::DimensionMismatch)));
}

#[test]
fn against_transposed_agrees_on_columns_not_rows() {
    let a: Mat<u32> = Mat::identity(2, 3);
    let bt: Mat<u32> = Mat::identity(4, 3);
    let c = mul_with_transposed(&a, &bt).unwrap();
    assert_eq!(c.rows(), 2);
    assert_eq!(c.cols(), 4);
    assert_eq!(to_rows(&c), vec![vec![1, 0, 0, 0], vec![0, 1, 0, 0]]);
    assert!(matches!(mul_normal(&a, &bt), Err(MatError::DimensionMismatch)));
}

#[test]
fn strategies_agree_on_patterned_matrices() {
    let a = patterned(7, 11, 3);
    let b = patterned(11, 5, 17);
    let naive = mul_normal(&a, &b).unwrap();
    assert!(compare_mats(&naive, &mul_transposed(&a, &b).unwrap()));
    assert!(compare_mats(&naive, &mul_with_transposed(&a, &b.get_transposed()).unwrap()));
    assert!(compare_mats(&naive, &mul_unrolled(&a, &b).unwrap()));
}

#[test]
fn tiled_handles_one_past_the_tile_length_u64() {
    let edge = 64 / std::mem::size_of::<u64>() + 1;
    assert_eq!(edge, 9);
    let a = patterned(edge, edge, 5);
    let b = patterned(edge, edge, 9);
    let naive = mul_normal(&a, &b).unwrap();
    let tiled = mul_unrolled(&a, &b).unwrap();
    assert!(compare_mats(&naive, &tiled));
}

#[test]
fn tiled_handles_one_past_the_tile_length_u8() {
    let edge = 64 / std::mem::size_of::<u8>() + 1;
    assert_eq!(edge, 65);
    let mut a: Mat<u8> = Mat::zeros(edge, edge);
    let mut b: Mat<u8> = Mat::zeros(edge, edge);
    for i in 0..edge {
        for j in 0..edge {
            a.set(i, j, ((3 * i + 5 * j + 1) % 251) as u8).unwrap();
            b.set(i, j, ((7 * i + 2 * j + 3) % 241) as u8).unwrap();
        }
    }
    let naive = mul_normal(&a, &b).unwrap();
    let tiled = mul_unrolled(&a, &b).unwrap();
    assert!(compare_mats(&naive, &tiled));
}

#[test]
fn tiled_handles_one_past_the_tile_length_u128() {
    let edge = 64 / std::mem::size_of::<u128>() + 1;
    assert_eq!(edge, 5);
    let mut a: Mat<u128> = Mat::zeros(edge, edge);
    let mut b: Mat<u128> = Mat::zeros(edge, edge);
    for i in 0..edge {
        for j in 0..edge {
            a.set(i, j, (i * 10 + j) as u128).unwrap();
            b.set(i, j, (j * 10 + i + 1) as u128).unwrap();
        }
    }
    let naive = mul_normal(&a, &b).unwrap();
    let tiled = mul_unrolled(&a, &b).unwrap();
    assert!(compare_mats(&naive, &tiled));
    assert_eq!(tiled.get(0, 0).unwrap(), 1 * 2 + 2 * 3 + 3 * 4 + 4 * 5);
}

#[test]
fn tiled_agrees_for_every_small_stride() {
    let a = patterned(5, 4, 1);
    let b = patterned(4, 6, 2);
    let naive = mul_normal(&a, &b).unwrap();
    for stride in 1..9 {
        let tiled = mul_unrolled_by(&a, &b, stride).unwrap();
        assert!(compare_mats(&naive, &tiled));
    }
    let tiled = mul_unrolled_by(&a, &b, usize::MAX).unwrap();
    assert!(compare_mats(&naive, &tiled));
}

#[test]
fn one_tile_pass_touches_only_its_block() {
    let a = from_rows::<u32>(&[vec![1, 2, 3], vec![4, 5, 6], vec![7, 8, 9]]);
    let b = from_rows::<u32>(&[vec![1, 0, 2], vec![0, 1, 3], vec![4, 5, 6]]);
    let mut c = from_rows::<u32>(&[vec![100, 100, 100], vec![100, 100, 100], vec![100, 100, 100]]);
    unrolled_step(&mut c, &a, &b, 1, 1, 1, 2);
    // rows 1..3, columns 1..3, shared indices 1..3
    assert_eq!(
        to_rows(&c),
        vec![
            vec![100, 100, 100],
            vec![100, 100 + 5 * 1 + 6 * 5, 100 + 5 * 3 + 6 * 6],
            vec![100, 100 + 8 * 1 + 9 * 5, 100 + 8 * 3 + 9 * 6],
        ]
    );
}

#[test]
fn one_tile_pass_past_the_edge_changes_nothing() {
    let a = from_rows::<u32>(&[vec![1, 2], vec![3, 4]]);
    let b = from_rows::<u32>(&[vec![5, 6], vec![7, 8]]);
    let mut c = from_rows::<u32>(&[vec![9, 9], vec![9, 9]]);
    unrolled_step(&mut c, &a, &b, 2, 0, 0, 4);
    unrolled_step(&mut c, &a, &b, 0, 5, 0, 4);
    unrolled_step(&mut c, &a, &b, 0, 0, 3, 4);
    unrolled_step(&mut c, &a, &b, 0, 0, 0, 0);
    assert_eq!(to_rows(&c), vec![vec![9, 9], vec![9, 9]]);
}

#[test]
fn sums_and_products_wrap() {
    let a = from_rows::<u8>(&[vec![200, 100]]);
    let b = from_rows::<u8>(&[vec![2], vec![3]]);
    // 200 * 2 = 400 wraps to 144, 100 * 3 = 300 wraps to 44, 144 + 44 = 188
    let expected = vec![vec![188u8]];
    assert_eq!(to_rows(&mul_normal(&a, &b).unwrap()), expected);
    assert_eq!(to_rows(&mul_transposed(&a, &b).unwrap()), expected);
    assert_eq!(to_rows(&mul_unrolled(&a, &b).unwrap()), expected);
    let c = from_rows::<i16>(&[vec![i16::MAX, 1]]);
    let d = from_rows::<i16>(&[vec![2], vec![1]]);
    // 32767 * 2 wraps to -2, plus 1
    assert_eq!(to_rows(&mul_normal(&c, &d).unwrap()), vec![vec![-1i16]]);
}

#[test]
fn identity_is_neutral_on_both_sides() {
    let a = patterned(4, 6, 21);
    let right: Mat<u64> = Mat::identity(6, 6);
    let left: Mat<u64> = Mat::identity(4, 4);
    assert!(compare_mats(&mul_normal(&a, &right).unwrap(), &a));
    assert!(compare_mats(&mul_normal(&left, &a).unwrap(), &a));
    assert!(compare_mats(&mul_unrolled(&a, &right).unwrap(), &a));
    assert!(compare_mats(&mul_transposed(&left, &a).unwrap(), &a));
}

#[test]
fn zero_operand_gives_zero_product() {
    let a = patterned(3, 5, 8);
    let nothing: Mat<u64> = Mat::zeros(5, 7);
    let expected: Mat<u64> = Mat::zeros(3, 7);
    assert!(compare_mats(&mul_normal(&a, &nothing).unwrap(), &expected));
    assert!(compare_mats(&mul_transposed(&a, &nothing).unwrap(), &expected));
    assert!(compare_mats(&mul_unrolled(&a, &nothing).unwrap(), &expected));
}

#[test]
fn empty_shared_dimension_gives_zeros_of_the_right_shape() {
    let a: Mat<i32> = Mat::zeros(3, 0);
    let b: Mat<i32> = Mat::zeros(0, 4);
    let expected: Mat<i32> = Mat::zeros(3, 4);
    let naive = mul_normal(&a, &b).unwrap();
    assert_eq!(naive.rows(), 3);
    assert_eq!(naive.cols(), 4);
    assert!(compare_mats(&naive, &expected));
    assert!(compare_mats(&mul_transposed(&a, &b).unwrap(), &expected));
    assert!(compare_mats(&mul_unrolled(&a, &b).unwrap(), &expected));
    let bt: Mat<i32> = Mat::zeros(4, 0);
    assert!(compare_mats(&mul_with_transposed(&a, &bt).unwrap(), &expected));
}

#[test]
fn empty_operands_give_empty_products() {
    let a: Mat<u16> = Mat::zeros(0, 3);
    let b: Mat<u16> = Mat::zeros(3, 2);
    let c = mul_normal(&a, &b).unwrap();
    assert_eq!((c.rows(), c.cols()), (0, 2));
    let d = mul_unrolled(&a, &b).unwrap();
    assert_eq!((d.rows(), d.cols()), (0, 2));
    let e: Mat<u16> = Mat::zeros(3, 0);
    let f = mul_unrolled(&b.get_transposed(), &e).unwrap();
    assert_eq!((f.rows(), f.cols()), (2, 0));
}
