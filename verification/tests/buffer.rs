use bc_trade_runtime::buffer::{Buffer, ToBuff};
use bc_trade_runtime::matrix::{rows_are_rectangular, transpose};

/// A price series of `n` rows of five columns.
fn series(n: usize) -> Vec<Vec<f64>> {
    (0..n)
        .map(|i| {
            let x = i as f64;
            vec![x, x + 0.5, x - 0.5, x + 0.25, 1000.0 + x]
        })
        .collect()
}

fn src() -> Vec<Vec<f64>> {
    series(100)
}

fn src_transpose() -> Vec<Vec<f64>> {
    let s = src();
    (0..s[0].len()).map(|j| s.iter().map(|r| r[j]).collect()).collect()
}

fn src_el() -> Vec<f64> {
    vec![7.0, 7.5, 6.5, 7.25, 1007.0]
}

fn src_buff() -> Buffer<f64> {
    src()[..].to_buff()
}

#[test]
fn from_row_res_1() {
    let bf = Buffer::from_row(src(), 50);
    assert_eq!(bf.len(), 50);
}

#[test]
fn from_column_res_1() {
    let bf = Buffer::from_column(src_transpose(), 50);
    assert_eq!(bf.len(), 50);
}

#[test]
fn transpose_res_1() {
    let mut bf = Buffer::from_column(src_transpose(), 50);
    bf.transpose_set();
    assert!(bf.is_transposed);
    bf.transpose_set();
    assert!(!bf.is_transposed);
}

#[test]
fn update_res_1() {
    let mut bf = src_buff();
    let mut res = src_buff();
    bf.update(src_el());
    res.d.rotate_left(1);
    let l = res.d.len() - 1;
    res.d[l] = src_el();
    assert_eq!(bf, res);
}

#[test]
fn update_extend_res_1() {
    let mut bf = src_buff();
    let mut res = src_buff();
    let s = src();
    bf.update_extend(&s);
    let k = s.len() % res.d.len();
    res.d.rotate_left(k);
    for _ in 0..s.len() {
        res.d.pop();
    }
    res.d.extend_from_slice(&s);
    assert_eq!(bf, res);
}

#[test]
fn from_row_keeps_newest_rows() {
    let bf = Buffer::from_row(src(), 3);
    assert_eq!(bf.d, src()[97..].to_vec());
    assert_eq!(bf.window, 3);
    assert!(!bf.is_transposed);
}

#[test]
fn from_column_takes_last_columns_as_rows() {
    let bf = Buffer::from_column(src_transpose(), 2);
    assert_eq!(bf.d, src()[98..].to_vec());
}

#[test]
fn transpose_twice_restores_rows() {
    let bf = Buffer::from_row(src(), 10);
    let once = bf.clone().transpose();
    assert_eq!(once.len(), 5);
    assert_eq!(once.window, 5);
    assert_eq!(once.d[0], (90..100).map(|i| i as f64).collect::<Vec<f64>>());
    let twice = once.transpose();
    assert_eq!(twice.d, bf.d);
    assert_eq!(twice.is_transposed, bf.is_transposed);
    assert_eq!(twice.window, bf.d.len());
}

#[test]
fn transpose_and_transpose_set_agree() {
    let bf = Buffer::from_row(src(), 4);
    let mut set = bf.clone();
    set.transpose_set();
    assert_eq!(set, bf.transpose());
}

#[test]
fn transpose_of_empty_buffer_is_empty() {
    let mut bf: Buffer<f64> = Buffer::default();
    bf.transpose_set();
    assert_eq!(bf.len(), 0);
    assert_eq!(bf.window, 0);
    assert!(bf.is_transposed);
}

#[test]
fn update_drops_oldest_and_keeps_length() {
    let mut bf = Buffer::from_row(vec![vec![1.0], vec![2.0], vec![3.0]], 3);
    bf.update(vec![4.0]);
    assert_eq!(bf.d, vec![vec![2.0], vec![3.0], vec![4.0]]);
    assert_eq!(bf.window, 3);
}

#[test]
fn update_of_single_row_buffer() {
    let mut bf = Buffer::from_row(vec![vec![1.0]], 1);
    bf.update(vec![9.0]);
    assert_eq!(bf.d, vec![vec![9.0]]);
}

#[test]
fn update_is_update_extend_with_one_row() {
    let mut a = Buffer::from_row(src(), 20);
    let mut b = a.clone();
    a.update(src_el());
    b.update_extend(&[src_el()]);
    assert_eq!(a, b);
}

#[test]
fn update_extend_fewer_rows_than_window() {
    let mut bf = Buffer::from_row(vec![vec![1.0], vec![2.0], vec![3.0], vec![4.0]], 4);
    bf.update_extend(&[vec![5.0], vec![6.0]]);
    assert_eq!(bf.d, vec![vec![3.0], vec![4.0], vec![5.0], vec![6.0]]);
    assert_eq!(bf.window, 4);
}

#[test]
fn update_extend_as_many_rows_as_window() {
    let mut bf = Buffer::from_row(vec![vec![1.0], vec![2.0]], 2);
    bf.update_extend(&[vec![5.0], vec![6.0]]);
    assert_eq!(bf.d, vec![vec![5.0], vec![6.0]]);
}

#[test]
fn update_extend_more_rows_than_window() {
    let mut bf = Buffer::from_row(vec![vec![1.0]], 1);
    bf.update_extend(&[vec![5.0], vec![6.0], vec![7.0]]);
    assert_eq!(bf.d, vec![vec![5.0], vec![6.0], vec![7.0]]);
    assert_eq!(bf.window, 1);
}

#[test]
fn update_extend_composes_while_rows_fit() {
    let start = Buffer::from_row(src(), 10);
    let a = vec![vec![1.0], vec![2.0]];
    let b = vec![vec![3.0], vec![4.0], vec![5.0]];
    let mut one = start.clone();
    one.update_extend(&a);
    one.update_extend(&b);
    let mut both = start.clone();
    let ab: Vec<Vec<f64>> = a.iter().chain(b.iter()).cloned().collect();
    both.update_extend(&ab);
    assert_eq!(one, both);
}

#[test]
fn update_extend_with_nothing_changes_nothing() {
    let mut bf = Buffer::from_row(src(), 10);
    let before = bf.clone();
    bf.update_extend(&[]);
    assert_eq!(bf, before);
}

#[test]
fn first_last_last1() {
    let bf = Buffer::from_row(vec![vec![1.0], vec![2.0], vec![3.0]], 3);
    assert_eq!(bf.first(), Some(&vec![1.0]));
    assert_eq!(bf.last(), Some(&vec![3.0]));
    assert_eq!(bf.last1(), Some(&vec![2.0]));
    let empty: Buffer<f64> = Buffer::default();
    assert_eq!(empty.first(), None);
    assert_eq!(empty.last(), None);
}

#[test]
fn index_iter_slice_and_extend() {
    let mut bf = Buffer::from_row(vec![vec![1.0], vec![2.0]], 2);
    assert_eq!(bf.index(1), &vec![2.0]);
    assert_eq!(bf.as_slice(), &[vec![1.0], vec![2.0]][..]);
    let rows: Vec<&Vec<f64>> = bf.iter().collect();
    assert_eq!(rows, vec![&vec![1.0], &vec![2.0]]);
    bf.extend(vec![vec![3.0]]);
    assert_eq!(bf.d, vec![vec![1.0], vec![2.0], vec![3.0]]);
    assert_eq!(bf.window, 2);
    assert!(!bf.is_empty());
}

#[test]
fn to_buff_copies_all_rows() {
    let rows = vec![vec![1.0, 2.0], vec![3.0, 4.0]];
    let bf = rows[..].to_buff();
    assert_eq!(bf.d, rows);
    assert_eq!(bf.window, 2);
    assert!(!bf.is_transposed);
}

#[test]
fn rectangular_rows_are_recognised() {
    assert!(rows_are_rectangular(&src()));
    assert!(rows_are_rectangular::<f64>(&vec![]));
    assert!(!rows_are_rectangular(&vec![vec![1.0, 2.0], vec![3.0]]));
    assert_eq!(transpose(&src()), src_transpose());
}
