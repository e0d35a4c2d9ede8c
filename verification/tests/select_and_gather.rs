use dfdx_core::shapes::default_strides;
use dfdx_core::tensor::{IdSource, NoneTape, Tensor, UniqueId};
use dfdx_core::tensor_ops::conv2d::cpu_kernel::Cpu;
use dfdx_core::tensor_ops::select_and_gather::cpu_kernel::{
    check_lookup, lookup_backward, lookup_forward, source_of,
};
use dfdx_core::tensor_ops::select_and_gather::{RemoveDimKernel, ReplaceDimKernel};

type Data<const N: usize> = Tensor<i64, Cpu, NoneTape, N>;
type Index<const N: usize> = Tensor<usize, Cpu, NoneTape, N>;

fn data<const N: usize>(shape: [usize; N], values: Vec<i64>) -> Data<N> {
    Tensor::from_parts(UniqueId(0), shape.to_vec(), values, Cpu)
}

fn index<const N: usize>(shape: [usize; N], values: Vec<usize>) -> Index<N> {
    Tensor::from_parts(UniqueId(1), shape.to_vec(), values, Cpu)
}

fn suits<const S: usize, const I: usize>(inp: &Data<S>, idx: &Index<I>, ax: usize) -> bool {
    check_lookup(&inp.shape, &inp.strides, inp.data.len(), &idx.data, &idx.shape, &idx.strides, ax)
}

#[test]
fn gather_from_a_vector() {
    let inp = data([3], vec![10, 20, 30]);
    let idx = index([4], vec![2, 0, 0, 1]);
    assert!(suits(&inp, &idx, 0));
    let out: Data<1> = ReplaceDimKernel::forward(&Cpu, UniqueId(7), &inp, &idx).unwrap();
    assert_eq!(out.id, UniqueId(7));
    assert_eq!(out.shape, vec![4]);
    assert_eq!(out.strides, vec![1]);
    assert_eq!(out.data, vec![30, 10, 10, 20]);
    assert!(out.is_wf());
}

#[test]
fn gather_rows_by_a_matrix_of_indices() {
    let inp = data([3, 2], vec![1, 2, 3, 4, 5, 6]);
    let idx = index([2, 2], vec![2, 0, 1, 1]);
    assert!(suits(&inp, &idx, 0));
    let out: Data<3> = ReplaceDimKernel::forward(&Cpu, UniqueId(7), &inp, &idx).unwrap();
    assert_eq!(out.shape, vec![2, 2, 2]);
    assert_eq!(out.data, vec![5, 6, 1, 2, 3, 4, 3, 4]);
}

#[test]
fn gather_along_the_second_dimension() {
    let inp = data([2, 3], vec![1, 2, 3, 4, 5, 6]);
    let idx = index([2, 2], vec![2, 0, 1, 1]);
    assert!(suits(&inp, &idx, 1));
    let out: Data<2> = ReplaceDimKernel::forward(&Cpu, UniqueId(7), &inp, &idx).unwrap();
    assert_eq!(out.shape, vec![2, 2]);
    assert_eq!(out.data, vec![3, 1, 5, 5]);
}

#[test]
fn gather_from_a_source_that_is_not_contiguous() {
    let mut inp = data([3, 2], vec![1, 2, 3, 4, 5, 6]);
    inp.strides = vec![1, 3];
    assert!(inp.is_wf());
    let idx = index([2], vec![2, 0]);
    assert!(suits(&inp, &idx, 0));
    let out: Data<2> = ReplaceDimKernel::forward(&Cpu, UniqueId(7), &inp, &idx).unwrap();
    assert_eq!(out.shape, vec![2, 2]);
    assert_eq!(out.data, vec![3, 6, 1, 4]);
    let mut idx = index([2, 2], vec![1, 0]);
    idx.strides = vec![1, 0];
    assert!(idx.is_wf());
    let inp = data([3], vec![10, 20, 30]);
    let out: Data<2> = ReplaceDimKernel::forward(&Cpu, UniqueId(7), &inp, &idx).unwrap();
    assert_eq!(out.data, vec![20, 20, 10, 10]);
}

#[test]
fn select_one_element_of_a_vector() {
    let inp = data([3], vec![10, 20, 30]);
    let idx = index([], vec![1]);
    assert!(suits(&inp, &idx, 0));
    let out: Data<0> = RemoveDimKernel::forward(&Cpu, UniqueId(7), &inp, &idx).unwrap();
    assert_eq!(out.shape, Vec::<usize>::new());
    assert_eq!(out.data, vec![20]);
}

#[test]
fn select_one_row_or_one_element_of_each_row() {
    let inp = data([2, 3], vec![1, 2, 3, 4, 5, 6]);
    let idx = index([], vec![1]);
    let out: Data<1> = RemoveDimKernel::forward(&Cpu, UniqueId(7), &inp, &idx).unwrap();
    assert_eq!(out.shape, vec![3]);
    assert_eq!(out.data, vec![4, 5, 6]);
    let idx = index([2], vec![2, 0]);
    assert!(suits(&inp, &idx, 1));
    let out: Data<1> = RemoveDimKernel::forward(&Cpu, UniqueId(7), &inp, &idx).unwrap();
    assert_eq!(out.shape, vec![2]);
    assert_eq!(out.data, vec![3, 4]);
}

#[test]
fn select_in_the_middle_of_three_dimensions() {
    let inp = data([2, 2, 3], (1..=12).collect());
    let idx = index([2], vec![1, 0]);
    assert!(suits(&inp, &idx, 1));
    let out: Data<2> = RemoveDimKernel::forward(&Cpu, UniqueId(7), &inp, &idx).unwrap();
    assert_eq!(out.shape, vec![2, 3]);
    assert_eq!(out.data, vec![4, 5, 6, 7, 8, 9]);
}

#[test]
fn gather_with_the_identity_returns_the_source() {
    let inp = data([4, 3], (1..=12).map(|v| v * v - 40).collect());
    let idx = index([4], vec![0, 1, 2, 3]);
    let out: Data<2> = ReplaceDimKernel::forward(&Cpu, UniqueId(7), &inp, &idx).unwrap();
    assert_eq!(out.shape, inp.shape);
    assert_eq!(out.data, inp.data);
    let mut grad_inp = vec![0i64; 12];
    ReplaceDimKernel::backward(&Cpu, &inp, &mut grad_inp, &idx, &out, &vec![1i64; 12]).unwrap();
    assert_eq!(grad_inp, vec![1; 12]);
    ReplaceDimKernel::backward(&Cpu, &inp, &mut grad_inp, &idx, &out, &vec![1i64; 12]).unwrap();
    assert_eq!(grad_inp, vec![2; 12]);
}

#[test]
fn gather_backward_adds_up_what_was_read_twice() {
    let inp = data([3], vec![10, 20, 30]);
    let idx = index([4], vec![2, 0, 2, 2]);
    let out: Data<1> = ReplaceDimKernel::forward(&Cpu, UniqueId(7), &inp, &idx).unwrap();
    let mut grad_inp = vec![100i64, 200, 300];
    ReplaceDimKernel::backward(&Cpu, &inp, &mut grad_inp, &idx, &out, &vec![1, 2, 4, 8]).unwrap();
    assert_eq!(grad_inp, vec![102, 200, 313]);
}

#[test]
fn select_backward_adds_to_the_selected_slot_alone() {
    let inp = data([2, 3], vec![1, 2, 3, 4, 5, 6]);
    let idx = index([2], vec![2, 0]);
    let out: Data<1> = RemoveDimKernel::forward(&Cpu, UniqueId(7), &inp, &idx).unwrap();
    let mut grad_inp = vec![10i64, 20, 30, 40, 50, 60];
    RemoveDimKernel::backward(&Cpu, &inp, &mut grad_inp, &idx, &out, &vec![7, 9]).unwrap();
    assert_eq!(grad_inp, vec![10, 20, 37, 49, 50, 60]);
    let idx = index([], vec![1]);
    let out: Data<1> = RemoveDimKernel::forward(&Cpu, UniqueId(7), &inp, &idx).unwrap();
    let mut grad_inp = vec![10i64, 20, 30, 40, 50, 60];
    RemoveDimKernel::backward(&Cpu, &inp, &mut grad_inp, &idx, &out, &vec![1, 2, 3]).unwrap();
    assert_eq!(grad_inp, vec![10, 20, 30, 41, 52, 63]);
}

#[test]
fn an_element_comes_from_where_the_index_says() {
    let shape = vec![2, 3];
    let strides = default_strides(&shape);
    let idx = vec![2, 0, 1, 1];
    let idx_shape = vec![2, 2];
    let from: Vec<usize> = (0..4)
        .map(|i| source_of(&shape, &strides, &idx, &idx_shape, &vec![2, 1], &vec![2, 2], 1, i, 6))
        .collect();
    assert_eq!(from, vec![2, 0, 4, 4]);
    let (dst, out) = lookup_forward(&vec![1i64, 2, 3, 4, 5, 6], &shape, &strides, &idx, &idx_shape, &vec![2, 1], 1);
    assert_eq!((dst, out), (vec![2, 2], vec![3, 1, 5, 5]));
    let mut grad = vec![0i64; 6];
    lookup_backward(&mut grad, &shape, &strides, &idx, &idx_shape, &vec![2, 1], &vec![2, 2], 1, &vec![1, 2, 3, 4]);
    assert_eq!(grad, vec![2, 0, 1, 0, 7, 0]);
}

#[test]
fn a_lookup_that_does_not_fit_is_refused() {
    let inp = data([2, 3], vec![1, 2, 3, 4, 5, 6]);
    assert!(suits(&inp, &index([2], vec![2, 0]), 1));
    assert!(!suits(&inp, &index([2], vec![3, 0]), 1));
    assert!(!suits(&inp, &index([3], vec![2, 0, 1]), 1));
    assert!(!suits(&inp, &index([2], vec![2, 0]), 2));
    assert!(!suits(&inp, &index([], vec![0]), 1));
    assert!(suits(&inp, &index([5], vec![1, 1, 1, 1, 1]), 0));
    assert!(!suits(&inp, &index([5], vec![1, 1, 2, 1, 1]), 0));
    let mut short = index([2], vec![1]);
    short.shape = vec![2];
    short.data = vec![1];
    assert!(!suits(&inp, &short, 1));
    let mut ids = IdSource::new();
    assert_eq!(ids.fresh(), UniqueId(0));
}
