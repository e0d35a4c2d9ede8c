use dfdx_core::gradients::Gradients;
use dfdx_core::shapes::{Const, Dim};
use dfdx_core::tape::{BackwardOp, OwnedTape};
use dfdx_core::tensor::{Error, IdSource, NoneTape, Tensor, UniqueId};
use dfdx_core::tensor_ops::conv2d::cpu_kernel::Cpu;
use dfdx_core::tape::Tape;
use dfdx_core::tensor_ops::conv2d::tensors::{can_convolve, can_convolve_one, check_operands};
use dfdx_core::tensor_ops::conv2d::{resolve_extent, Conv2DOp, TryConv2D};

type Plain4 = Tensor<i64, Cpu, NoneTape, 4>;

fn tensor4(ids: &mut IdSource, shape: [usize; 4], data: Vec<i64>) -> Plain4 {
    let t: Plain4 = Tensor::from_parts(ids.fresh(), shape.to_vec(), data, Cpu);
    assert!(t.is_wf());
    t
}

fn tensor3(ids: &mut IdSource, shape: [usize; 3], data: Vec<i64>) -> Tensor<i64, Cpu, NoneTape, 3> {
    Tensor::from_parts(ids.fresh(), shape.to_vec(), data, Cpu)
}

fn conv(x: &[i64], xs: [usize; 4], w: &[i64], ws: [usize; 4], p: [usize; 4]) -> Plain4 {
    let mut ids = IdSource::new();
    let x = tensor4(&mut ids, xs, x.to_vec());
    let w = tensor4(&mut ids, ws, w.to_vec());
    assert!(check_operands(&x, &w, p[0], p[1], p[2], p[3]));
    (&mut ids, x, w).try_conv2d(p[0], p[1], p[2], p[3]).unwrap()
}

#[test]
fn resolves_extent_at_run_time() {
    assert_eq!((28usize, 6usize).conv2d(3usize, 2usize, 1usize, 1usize), 9);
    assert_eq!((3usize, 3usize).conv2d(1usize, 1usize, 1usize, 1usize), 3);
    assert_eq!((5usize, 2usize).try_conv2d(2usize, 1usize, 2usize, 1usize), Ok(3));
    assert_eq!((1usize, 1usize).conv2d(1usize, 0usize, 1usize, 1usize), 1);
    assert_eq!((7usize, 7usize).conv2d(5usize, 0usize, 1usize, 1usize), 1);
    assert_eq!((7usize, 1usize).conv2d(1usize, 0usize, 0usize, 1usize), 7);
}

#[test]
fn resolves_extent_in_the_type() {
    let out: Const<9> = (Const::<28>, Const::<6>).conv2d(Const::<3>, Const::<2>, Const::<1>, 1usize);
    assert_eq!(out, Const::<9>);
    let out: Const<3> = (Const::<3>, Const::<3>).conv2d(Const::<1>, Const::<1>, Const::<1>, Const::<1>);
    assert_eq!(out, Const::<3>);
    let out = (Const::<5>, Const::<2>).try_conv2d(Const::<2>, Const::<1>, Const::<2>, 4usize);
    assert_eq!(out, Ok(Const::<3>));
}

#[test]
fn both_kinds_resolve_the_same_extent() {
    let table: [(usize, usize, usize, usize, usize, usize); 25] = [
        (2, 2, 1, 0, 1, 1),
        (3, 2, 1, 0, 1, 2),
        (1, 2, 1, 2, 1, 4),
        (1, 1, 1, 1, 1, 3),
        (1, 2, 1, 1, 1, 2),
        (2, 2, 1, 1, 1, 3),
        (1, 3, 1, 1, 1, 1),
        (2, 3, 1, 1, 1, 2),
        (3, 2, 1, 1, 1, 4),
        (5, 3, 1, 0, 1, 3),
        (2, 2, 2, 0, 1, 1),
        (3, 2, 2, 0, 1, 1),
        (4, 2, 2, 0, 1, 2),
        (4, 2, 1, 0, 2, 2),
        (5, 2, 1, 0, 2, 3),
        (2, 3, 3, 4, 1, 3),
        (4, 3, 3, 4, 1, 4),
        (6, 2, 4, 3, 1, 3),
        (7, 2, 4, 3, 1, 3),
        (14, 3, 1, 0, 1, 12),
        (28, 6, 3, 2, 1, 9),
        (3, 3, 1, 0, 1, 1),
        (3, 3, 1, 1, 1, 3),
        (5, 2, 2, 1, 2, 3),
        (2, 2, 1, 0, 1, 1),
    ];
    for (dim, kernel, stride, padding, dilation, out) in table {
        assert_eq!((dim, kernel).conv2d(stride, padding, dilation, 1usize), out);
        assert_eq!(resolve_extent(dim, kernel, stride, padding, dilation), Some(out));
        assert_eq!((dim + 2 * padding - dilation * (kernel - 1) - 1) / stride + 1, out);
    }
    assert_eq!((Const::<14>, Const::<3>).conv2d(Const::<1>, Const::<0>, Const::<1>, 1usize).size(), 12);
    assert_eq!((Const::<6>, Const::<2>).conv2d(Const::<4>, Const::<3>, Const::<1>, 1usize).size(), 3);
    assert_eq!((14usize, Const::<3>).conv2d(Const::<1>, 0usize, Const::<1>, 1usize), 12);
}

#[test]
fn no_extent_where_the_kernel_overhangs_the_padded_input() {
    assert_eq!(resolve_extent(1, 2, 1, 0, 1), None);
    assert_eq!(resolve_extent(3, 3, 1, 0, 2), None);
    assert_eq!(resolve_extent(0, 1, 1, 0, 1), None);
    assert_eq!(resolve_extent(3, 3, 0, 0, 1), None);
    assert_eq!(resolve_extent(3, 0, 1, 0, 1), None);
    assert_eq!(resolve_extent(usize::MAX, 1, 1, 1, 1), None);
    assert_eq!(resolve_extent(3, 2, 1, usize::MAX, 1), None);
    assert_eq!(resolve_extent(3, 3, 1, 0, usize::MAX), None);
    assert_eq!(resolve_extent(usize::MAX, 1, 1, 0, 1), Some(usize::MAX));
    assert_eq!(resolve_extent(5, 3, 1, 0, 2), Some(1));
}

#[test]
fn forward_of_a_small_convolution() {
    let mut ids = IdSource::new();
    let x = tensor4(&mut ids, [1, 1, 3, 3], vec![1, 2, 3, 4, 5, 6, 7, 8, 9]);
    let w = tensor4(&mut ids, [1, 1, 2, 2], vec![1, 0, 0, 1]);
    let y = (&mut ids, x, w).try_conv2d(1usize, 0usize, 1usize, 1usize).unwrap();
    assert_eq!(y.shape, vec![1, 1, 2, 2]);
    assert_eq!(y.strides, vec![4, 4, 2, 1]);
    assert_eq!(y.data, vec![6, 8, 12, 14]);
    assert_eq!(y.id, UniqueId(2));
    assert_eq!(ids.next, 3);
    assert!(y.is_wf());
}

#[test]
fn forward_with_constant_parameters() {
    let mut ids = IdSource::new();
    let x = tensor4(&mut ids, [1, 1, 3, 3], vec![1, 2, 3, 4, 5, 6, 7, 8, 9]);
    let w = tensor4(&mut ids, [1, 1, 2, 2], vec![1, 2, 3, 4]);
    let y = (&mut ids, x, w).conv2d(Const::<1>, Const::<0>, Const::<1>, Const::<1>);
    assert_eq!(y.data, vec![37, 47, 67, 77]);
}

#[test]
fn forward_with_padding() {
    let y = conv(&[1, 2, 3, 4], [1, 1, 2, 2], &[1, 1, 1, 1], [1, 1, 2, 2], [1, 1, 1, 1]);
    assert_eq!(y.shape, vec![1, 1, 3, 3]);
    assert_eq!(y.data, vec![1, 3, 2, 4, 10, 6, 3, 7, 4]);
}

#[test]
fn forward_with_stride() {
    let x: Vec<i64> = (1..=16).collect();
    let y = conv(&x, [1, 1, 4, 4], &[1, 0, 0, 0], [1, 1, 2, 2], [2, 0, 1, 1]);
    assert_eq!(y.shape, vec![1, 1, 2, 2]);
    assert_eq!(y.data, vec![1, 3, 9, 11]);
}

#[test]
fn forward_with_dilation() {
    let x: Vec<i64> = (1..=16).collect();
    let y = conv(&x, [1, 1, 4, 4], &[1, 10, 100, 1000], [1, 1, 2, 2], [1, 0, 2, 1]);
    assert_eq!(y.shape, vec![1, 1, 2, 2]);
    assert_eq!(y.data, vec![11931, 13042, 16375, 17486]);
}

#[test]
fn forward_with_groups() {
    let y = conv(&[1, 2, 3, 4], [1, 4, 1, 1], &[1, 1, 10, 10, 100, 100, 1000, 1000], [4, 2, 1, 1], [1, 0, 1, 2]);
    assert_eq!(y.shape, vec![1, 4, 1, 1]);
    assert_eq!(y.data, vec![3, 30, 700, 7000]);
}

#[test]
fn forward_of_a_batch_with_several_channels() {
    let x: Vec<i64> = (1..=16).collect();
    let w = [1, 0, 0, 1, 0, 1, 1, 0, 2, 0, 0, 0, 0, 0, 0, 3];
    let y = conv(&x, [2, 2, 2, 2], &w, [2, 2, 2, 2], [1, 0, 1, 1]);
    assert_eq!(y.shape, vec![2, 2, 1, 1]);
    assert_eq!(y.data, vec![1 + 4 + 6 + 7, 2 + 24, 9 + 12 + 14 + 15, 18 + 48]);
}

#[test]
fn forward_wraps_like_the_element_type() {
    let y = conv(&[i64::MAX, 1], [1, 2, 1, 1], &[1, 1], [1, 2, 1, 1], [1, 0, 1, 1]);
    assert_eq!(y.data, vec![i64::MIN]);
}

#[test]
fn forward_of_an_empty_batch() {
    let y = conv(&[], [0, 1, 3, 3], &[1, 2, 3, 4], [1, 1, 2, 2], [1, 0, 1, 1]);
    assert_eq!(y.shape, vec![0, 1, 2, 2]);
    assert_eq!(y.data, Vec::<i64>::new());
}

#[test]
fn an_operand_that_is_not_contiguous_is_refused() {
    let mut ids = IdSource::new();
    let mut x = tensor4(&mut ids, [1, 1, 3, 3], vec![1, 2, 3, 4, 5, 6, 7, 8, 9]);
    let mut w = tensor4(&mut ids, [1, 1, 2, 2], vec![1, 0, 0, 1]);
    assert!(check_operands(&x, &w, 1, 0, 1, 1));
    x.strides = vec![9, 9, 1, 3];
    assert!(x.is_wf());
    assert!(!check_operands(&x, &w, 1, 0, 1, 1));
    x.strides = vec![9, 9, 3, 1];
    w.strides = vec![4, 4, 1, 2];
    assert!(!check_operands(&x, &w, 1, 0, 1, 1));
}

#[test]
fn channels_that_do_not_suit_the_groups_are_refused() {
    let mut ids = IdSource::new();
    let x = tensor4(&mut ids, [1, 4, 2, 2], vec![0; 16]);
    let w = tensor4(&mut ids, [4, 2, 1, 1], vec![0; 8]);
    assert!(check_operands(&x, &w, 1, 0, 1, 2));
    assert!(!check_operands(&x, &w, 1, 0, 1, 1));
    assert!(!check_operands(&x, &w, 1, 0, 1, 4));
    assert!(!check_operands(&x, &w, 1, 0, 1, 0));
    let w = tensor4(&mut ids, [3, 2, 1, 1], vec![0; 6]);
    assert!(!check_operands(&x, &w, 1, 0, 1, 2));
    let w = tensor4(&mut ids, [3, 4, 1, 1], vec![0; 12]);
    assert!(check_operands(&x, &w, 1, 0, 1, 1));
}

#[test]
fn a_kernel_that_is_not_square_or_too_large_is_refused() {
    let mut ids = IdSource::new();
    let x = tensor4(&mut ids, [1, 1, 3, 3], vec![0; 9]);
    let w = tensor4(&mut ids, [1, 1, 2, 3], vec![0; 6]);
    assert!(!check_operands(&x, &w, 1, 0, 1, 1));
    let w = tensor4(&mut ids, [1, 1, 4, 4], vec![0; 16]);
    assert!(!check_operands(&x, &w, 1, 0, 1, 1));
    assert!(check_operands(&x, &w, 1, 1, 1, 1));
    assert!(!check_operands(&x, &w, 0, 1, 1, 1));
}

fn loss(x: &[i64], w: &[i64], weights_of_out: &[i64]) -> i64 {
    let y = conv(x, [1, 1, 3, 3], w, [1, 1, 2, 2], [1, 0, 1, 1]);
    y.data.iter().zip(weights_of_out).map(|(a, b)| a * b).sum()
}

#[test]
fn gradients_match_finite_differences() {
    let x = vec![1, 2, 3, 4, 5, 6, 7, 8, 9];
    let w = vec![1, -2, 3, 4];
    let grad_of_out = vec![1, 10, -3, 7];
    let mut ids = IdSource::new();
    let xt = tensor4(&mut ids, [1, 1, 3, 3], x.clone());
    let wt = tensor4(&mut ids, [1, 1, 2, 2], w.clone());
    let (x_id, w_id) = (xt.id, wt.id);
    let xt = xt.put_tape(OwnedTape::new());
    let y = (&mut ids, xt, wt).try_conv2d(1usize, 0usize, 1usize, 1usize).unwrap();
    let mut grads: Gradients<i64> = Gradients::new();
    grads.put(y.id, grad_of_out.clone());
    y.tape.execute(&mut grads).unwrap();
    let grad_x = grads.get(x_id).unwrap().clone();
    let grad_w = grads.get(w_id).unwrap().clone();
    let base = loss(&x, &w, &grad_of_out);
    for i in 0..x.len() {
        let mut moved = x.clone();
        moved[i] += 1;
        assert_eq!(loss(&moved, &w, &grad_of_out) - base, grad_x[i]);
    }
    for i in 0..w.len() {
        let mut moved = w.clone();
        moved[i] += 1;
        assert_eq!(loss(&x, &moved, &grad_of_out) - base, grad_w[i]);
    }
    assert_eq!(grad_w, vec![1 + 20 - 12 + 35, 2 + 30 - 15 + 42, 4 + 50 - 21 + 56, 5 + 60 - 24 + 63]);
    assert_eq!(grad_x, vec![1, 8, -20, 0, 47, 26, -9, 9, 28]);
}

#[test]
fn gradients_with_stride_padding_and_groups_match_finite_differences() {
    let x: Vec<i64> = (1..=32).collect();
    let w: Vec<i64> = (1..=16).map(|v| v * 3 - 20).collect();
    let params = [2usize, 1, 1, 2];
    let forward = |x: &[i64], w: &[i64]| conv(x, [1, 4, 2, 4], w, [2, 2, 2, 2], params);
    let y = forward(&x, &w);
    assert_eq!(y.shape, vec![1, 2, 2, 3]);
    let grad_of_out: Vec<i64> = (0..12).map(|v| (v * 7) % 5 - 2).collect();
    let value = |x: &[i64], w: &[i64]| -> i64 {
        forward(x, w).data.iter().zip(&grad_of_out).map(|(a, b)| a * b).sum()
    };
    let mut ids = IdSource::new();
    let xt = tensor4(&mut ids, [1, 4, 2, 4], x.clone());
    let wt = tensor4(&mut ids, [2, 2, 2, 2], w.clone());
    let (x_id, w_id) = (xt.id, wt.id);
    let xt = xt.put_tape(OwnedTape::new());
    let y = (&mut ids, xt, wt).try_conv2d(params[0], params[1], params[2], params[3]).unwrap();
    let mut grads: Gradients<i64> = Gradients::new();
    grads.put(y.id, grad_of_out.clone());
    y.tape.execute(&mut grads).unwrap();
    let base = value(&x, &w);
    for i in 0..x.len() {
        let mut moved = x.clone();
        moved[i] += 1;
        assert_eq!(value(&moved, &w) - base, grads.get(x_id).unwrap()[i]);
    }
    for i in 0..w.len() {
        let mut moved = w.clone();
        moved[i] += 1;
        assert_eq!(value(&x, &moved) - base, grads.get(w_id).unwrap()[i]);
    }
}

#[test]
fn backward_adds_into_what_the_buffers_hold() {
    let mut ids = IdSource::new();
    let x = tensor4(&mut ids, [1, 1, 3, 3], vec![1, 2, 3, 4, 5, 6, 7, 8, 9]);
    let w = tensor4(&mut ids, [1, 1, 2, 2], vec![1, 2, 3, 4]);
    let (x_id, w_id) = (x.id, w.id);
    let x = x.put_tape(OwnedTape::new());
    let y = (&mut ids, x, w).try_conv2d(1usize, 0usize, 1usize, 1usize).unwrap();
    assert_eq!(y.data, vec![37, 47, 67, 77]);
    assert_eq!(y.tape.operations.len(), 1);
    let mut grads: Gradients<i64> = Gradients::new();
    grads.put(y.id, vec![1, 1, 1, 1]);
    y.tape.execute(&mut grads).unwrap();
    assert_eq!(grads.get(x_id).unwrap(), &vec![1, 3, 2, 4, 10, 6, 3, 7, 4]);
    assert_eq!(grads.get(w_id).unwrap(), &vec![12, 16, 24, 28]);
    y.tape.execute(&mut grads).unwrap();
    assert_eq!(grads.get(x_id).unwrap(), &vec![2, 6, 4, 8, 20, 12, 6, 14, 8]);
    assert_eq!(grads.get(w_id).unwrap(), &vec![24, 32, 48, 56]);
    assert_eq!(grads.get(y.id).unwrap(), &vec![1, 1, 1, 1]);
}

#[test]
fn the_entry_keeps_the_operands_and_not_the_result() {
    let mut ids = IdSource::new();
    let x = tensor4(&mut ids, [1, 1, 3, 3], vec![1, 2, 3, 4, 5, 6, 7, 8, 9]);
    let w = tensor4(&mut ids, [1, 1, 2, 2], vec![1, 2, 3, 4]);
    let x = x.put_tape(OwnedTape::new());
    let y = (&mut ids, x, w).try_conv2d(1usize, 0usize, 1usize, 1usize).unwrap();
    match &y.tape.operations[0] {
        BackwardOp::Conv2D { op, lhs, rhs, out } => {
            assert_eq!((op.kernel, op.stride, op.padding, op.dilation, op.groups), (2, 1, 0, 1, 1));
            assert_eq!((op.batch, op.chan_in, op.chan_out), (1, 1, 1));
            assert_eq!((op.h_in, op.w_in, op.h_out, op.w_out), (3, 3, 2, 2));
            assert_eq!(lhs.id, UniqueId(0));
            assert_eq!(lhs.data, vec![1, 2, 3, 4, 5, 6, 7, 8, 9]);
            assert_eq!(rhs.id, UniqueId(1));
            assert_eq!(rhs.data, vec![1, 2, 3, 4]);
            assert_eq!(out.id, y.id);
            assert_eq!(out.shape, vec![1, 1, 2, 2]);
            assert_eq!(out.strides, vec![4, 4, 2, 1]);
        }
        other => panic!("a reshape was recorded: {:?}", matches!(other, BackwardOp::Reshape { .. })),
    }
}

#[test]
fn without_a_tape_nothing_is_recorded() {
    let mut ids = IdSource::new();
    let x = tensor4(&mut ids, [1, 1, 3, 3], vec![1, 2, 3, 4, 5, 6, 7, 8, 9]);
    let w = tensor4(&mut ids, [1, 1, 2, 2], vec![1, 2, 3, 4]);
    let y: Plain4 = (&mut ids, x, w).try_conv2d(1usize, 0usize, 1usize, 1usize).unwrap();
    assert_eq!(y.tape, NoneTape);
    assert_eq!(y.data, vec![37, 47, 67, 77]);
}

#[test]
fn one_image_is_convolved_as_a_batch_of_one() {
    let mut ids = IdSource::new();
    let x = tensor3(&mut ids, [1, 3, 3], vec![1, 2, 3, 4, 5, 6, 7, 8, 9]);
    let w = tensor4(&mut ids, [1, 1, 2, 2], vec![1, 2, 3, 4]);
    let (x_id, w_id) = (x.id, w.id);
    let x = x.put_tape(OwnedTape::new());
    let y = (&mut ids, x, w).try_conv2d(1usize, 0usize, 1usize, 1usize).unwrap();
    assert_eq!(y.shape, vec![1, 2, 2]);
    assert_eq!(y.strides, vec![4, 2, 1]);
    assert_eq!(y.data, vec![37, 47, 67, 77]);
    assert_eq!(y.id, UniqueId(4));
    assert_eq!(ids.next, 5);
    assert_eq!(y.tape.operations.len(), 3);
    assert!(matches!(y.tape.operations[0], BackwardOp::Reshape { inp_id: UniqueId(0), out_id: UniqueId(2), numel: 9 }));
    assert!(matches!(y.tape.operations[1], BackwardOp::Conv2D { .. }));
    assert!(matches!(y.tape.operations[2], BackwardOp::Reshape { inp_id: UniqueId(3), out_id: UniqueId(4), numel: 4 }));
    let mut grads: Gradients<i64> = Gradients::new();
    grads.put(y.id, vec![1, 1, 1, 1]);
    y.tape.execute(&mut grads).unwrap();
    assert_eq!(grads.get(x_id).unwrap(), &vec![1, 3, 2, 4, 10, 6, 3, 7, 4]);
    assert_eq!(grads.get(w_id).unwrap(), &vec![12, 16, 24, 28]);
}

#[test]
fn a_gradient_buffer_of_the_wrong_size_stops_the_backward_pass() {
    let mut ids = IdSource::new();
    let x = tensor4(&mut ids, [1, 1, 3, 3], vec![1, 2, 3, 4, 5, 6, 7, 8, 9]);
    let w = tensor4(&mut ids, [1, 1, 2, 2], vec![1, 2, 3, 4]);
    let x_id = x.id;
    let x = x.put_tape(OwnedTape::new());
    let y = (&mut ids, x, w).try_conv2d(1usize, 0usize, 1usize, 1usize).unwrap();
    let mut grads: Gradients<i64> = Gradients::new();
    grads.put(y.id, vec![1, 1, 1]);
    assert_eq!(y.tape.execute(&mut grads), Err(Error::WrongNumElements));
    assert_eq!(grads.get(x_id).unwrap(), &vec![0; 9]);
    let mut grads: Gradients<i64> = Gradients::new();
    grads.put(x_id, vec![5; 8]);
    assert_eq!(y.tape.operations[0].run(&mut grads), Err(Error::WrongNumElements));
    assert_eq!(grads.get(x_id).unwrap(), &vec![5; 8]);
    assert_eq!(grads.get(y.id).unwrap(), &vec![0; 4]);
}

#[test]
fn a_call_is_well_formed_only_with_identities_of_the_supply() {
    let mut ids = IdSource::new();
    let x = tensor4(&mut ids, [1, 1, 3, 3], vec![0; 9]);
    let w = tensor4(&mut ids, [1, 1, 2, 2], vec![0; 4]);
    assert!(can_convolve(&ids, &x, &w, 1, 0, 1, 1));
    assert!(!can_convolve(&ids, &x, &w, 1, 0, 1, 2));
    assert!(!can_convolve(&ids, &x, &w, 0, 0, 1, 1));
    assert!(!can_convolve(&IdSource::new(), &x, &w, 1, 0, 1, 1));
    assert!(!can_convolve(&IdSource { next: 1 }, &x, &w, 1, 0, 1, 1));
    assert!(!can_convolve(&IdSource { next: u64::MAX }, &x, &w, 1, 0, 1, 1));
    let twin: Plain4 = Tensor::from_parts(x.id, vec![1, 1, 2, 2], vec![0; 4], Cpu);
    assert!(!can_convolve(&ids, &x, &twin, 1, 0, 1, 1));
    let mut short = tensor4(&mut ids, [1, 1, 2, 2], vec![0; 4]);
    short.data = vec![0; 3];
    assert!(!short.is_wf());
    assert!(!can_convolve(&ids, &x, &short, 1, 0, 1, 1));
    let mut flat = tensor4(&mut ids, [1, 1, 2, 2], vec![0; 4]);
    flat.shape = vec![1, 4];
    assert!(!can_convolve(&ids, &x, &flat, 1, 0, 1, 1));
}

#[test]
fn one_image_needs_three_identities() {
    let mut ids = IdSource::new();
    let x = tensor3(&mut ids, [1, 3, 3], vec![0; 9]);
    let w = tensor4(&mut ids, [1, 1, 2, 2], vec![0; 4]);
    assert!(can_convolve_one(&ids, &x, &w, 1, 0, 1, 1));
    assert!(!can_convolve_one(&ids, &x, &w, 1, 0, 1, 3));
    assert!(can_convolve_one(&IdSource { next: u64::MAX - 3 }, &x, &w, 1, 0, 1, 1));
    assert!(!can_convolve_one(&IdSource { next: u64::MAX - 2 }, &x, &w, 1, 0, 1, 1));
    let mut turned = tensor3(&mut ids, [1, 3, 3], vec![0; 9]);
    turned.strides = vec![9, 1, 3];
    assert!(!can_convolve_one(&ids, &turned, &w, 1, 0, 1, 1));
}

#[test]
fn a_descriptor_is_well_formed_with_the_resolved_extents() {
    let op = Conv2DOp {
        kernel: 2,
        stride: 1,
        padding: 0,
        dilation: 1,
        groups: 1,
        batch: 1,
        chan_in: 1,
        chan_out: 1,
        h_in: 3,
        h_out: 2,
        w_in: 3,
        w_out: 2,
    };
    assert!(op.is_wf());
    assert!(!Conv2DOp { h_out: 3, ..op }.is_wf());
    assert!(!Conv2DOp { w_out: 1, ..op }.is_wf());
    assert!(!Conv2DOp { groups: 0, ..op }.is_wf());
    assert!(!Conv2DOp { groups: 2, ..op }.is_wf());
    assert!(!Conv2DOp { stride: 0, ..op }.is_wf());
    assert!(!Conv2DOp { kernel: 4, h_out: 0, w_out: 0, ..op }.is_wf());
    assert!(!Conv2DOp { batch: usize::MAX, ..op }.is_wf());
    assert!(Conv2DOp { padding: 1, h_out: 4, w_out: 4, ..op }.is_wf());
}

#[test]
fn what_a_convolution_records_is_well_formed() {
    let mut ids = IdSource::new();
    let x = tensor4(&mut ids, [1, 1, 3, 3], vec![1, 2, 3, 4, 5, 6, 7, 8, 9]);
    let w = tensor4(&mut ids, [1, 1, 2, 2], vec![1, 2, 3, 4]);
    let x = x.put_tape(OwnedTape::new());
    assert!(x.tape.is_wf());
    let mut y = (&mut ids, x, w).try_conv2d(1usize, 0usize, 1usize, 1usize).unwrap();
    assert!(y.tape.is_wf());
    assert!(y.tape.operations[0].is_wf());
    if let BackwardOp::Conv2D { out, .. } = &mut y.tape.operations[0] {
        out.id = UniqueId(0);
    }
    assert!(!y.tape.operations[0].is_wf());
    assert!(!y.tape.is_wf());
    let same: BackwardOp<i64, Cpu> = BackwardOp::Reshape { inp_id: UniqueId(3), out_id: UniqueId(3), numel: 1 };
    assert!(!same.is_wf());
    assert!(<NoneTape as Tape<i64, Cpu>>::is_wf(&NoneTape));
}
