use dfdx_core::dtypes::Dtype;
use dfdx_core::gradients::{accumulate_into, zero_buffer, Gradients};
use dfdx_core::tape::{BackwardOp, Merge, OwnedTape, Tape};
use dfdx_core::tensor::{Error, GhostTensor, IdSource, NoneTape, Tensor, UniqueId};
use dfdx_core::tensor_ops::conv2d::cpu_kernel::Cpu;
use dfdx_core::tensor_ops::conv2d::TryConv2D;
use dfdx_core::tensor_ops::reshape_to::try_reshape;

type Tape64 = OwnedTape<i64, Cpu>;

fn reshape_entry(inp: u64, out: u64, numel: usize) -> BackwardOp<i64, Cpu> {
    BackwardOp::Reshape { inp_id: UniqueId(inp), out_id: UniqueId(out), numel }
}

fn ids_of(tape: &Tape64) -> Vec<(u64, u64)> {
    tape.operations
        .iter()
        .map(|entry| match entry {
            BackwardOp::Reshape { inp_id, out_id, .. } => (inp_id.0, out_id.0),
            BackwardOp::Conv2D { lhs, out, .. } => (lhs.id.0, out.id.0),
        })
        .collect()
}

#[test]
fn wrapping_arithmetic_of_the_integers() {
    assert_eq!(<i64 as Dtype>::zero(), 0);
    assert_eq!(3i64.plus(4), 7);
    assert_eq!(3i64.times(-4), -12);
    assert_eq!(i64::MAX.plus(1), i64::MIN);
    assert_eq!(i64::MAX.times(2), -2);
    assert_eq!(<i32 as Dtype>::zero(), 0);
    assert_eq!(i32::MIN.plus(-1), i32::MAX);
    assert_eq!(65536i32.times(65536), 0);
}

#[test]
fn identities_are_handed_out_once_and_in_order() {
    let mut ids = IdSource::new();
    assert!(!ids.has_issued(UniqueId(0)));
    assert_eq!(ids.fresh(), UniqueId(0));
    assert_eq!(ids.fresh(), UniqueId(1));
    assert!(ids.has_issued(UniqueId(1)));
    assert!(!ids.has_issued(UniqueId(2)));
    assert!(ids.has_room(u64::MAX - 2));
    assert!(!ids.has_room(u64::MAX - 1));
    let full = IdSource { next: u64::MAX };
    assert!(full.has_room(0));
    assert!(!full.has_room(1));
}

#[test]
fn a_new_buffer_is_zero_and_an_old_one_is_kept() {
    let mut grads: Gradients<i64> = Gradients::new();
    let t = GhostTensor::<2> { id: UniqueId(4), shape: vec![2, 3], strides: vec![3, 1] };
    assert!(grads.get(t.id).is_none());
    assert_eq!(grads.try_alloc_for(&t), Ok(()));
    assert_eq!(grads.get(t.id).unwrap(), &vec![0; 6]);
    grads.put(t.id, vec![1, 2, 3, 4, 5, 6]);
    assert_eq!(grads.try_alloc_for(&t), Ok(()));
    assert_eq!(grads.get(t.id).unwrap(), &vec![1, 2, 3, 4, 5, 6]);
    assert_eq!(grads.try_alloc(UniqueId(9), 2), Ok(()));
    assert_eq!(grads.get(UniqueId(9)).unwrap(), &vec![0, 0]);
    assert_eq!(grads.take(t.id), Some(vec![1, 2, 3, 4, 5, 6]));
    assert_eq!(grads.take(t.id), None);
    assert!(grads.get(t.id).is_none());
    assert_eq!(zero_buffer::<i32>(3), vec![0, 0, 0]);
}

#[test]
fn accumulating_adds_element_by_element() {
    let mut dst = vec![1i64, 2, 3];
    accumulate_into(&mut dst, &vec![10, 20, 30]);
    assert_eq!(dst, vec![11, 22, 33]);
    accumulate_into(&mut dst, &vec![i64::MAX, 0, -33]);
    assert_eq!(dst, vec![i64::MIN + 10, 22, 0]);
}

#[test]
fn a_tape_keeps_its_entries_in_the_order_of_the_calls() {
    let mut tape = Tape64::new();
    tape.add_backward_op(reshape_entry(0, 1, 4));
    tape.add_backward_op(reshape_entry(1, 2, 4));
    assert_eq!(ids_of(&tape), vec![(0, 1), (1, 2)]);
    let mut none = NoneTape;
    <NoneTape as Tape<i64, Cpu>>::add_backward_op(&mut none, reshape_entry(0, 1, 4));
    assert_eq!(none, NoneTape);
}

#[test]
fn merging_appends_the_second_tape_to_the_first() {
    let mut a = Tape64::new();
    a.add_backward_op(reshape_entry(0, 1, 2));
    let mut b = Tape64::new();
    b.add_backward_op(reshape_entry(2, 3, 2));
    b.add_backward_op(reshape_entry(3, 4, 2));
    let merged = a.merge(b);
    assert_eq!(ids_of(&merged), vec![(0, 1), (2, 3), (3, 4)]);
    let merged = merged.merge(NoneTape);
    assert_eq!(ids_of(&merged), vec![(0, 1), (2, 3), (3, 4)]);
    let none = <NoneTape as Merge<i64, Cpu, NoneTape>>::merge(NoneTape, NoneTape);
    assert_eq!(none, NoneTape);
}

#[test]
fn a_merged_tape_runs_like_its_two_parts() {
    let seed = |grads: &mut Gradients<i64>| {
        grads.put(UniqueId(1), vec![1, 2]);
        grads.put(UniqueId(3), vec![10, 20]);
        grads.put(UniqueId(0), vec![100, 100]);
    };
    let mut a = Tape64::new();
    a.add_backward_op(reshape_entry(0, 1, 2));
    let mut b = Tape64::new();
    b.add_backward_op(reshape_entry(2, 3, 2));
    let mut apart: Gradients<i64> = Gradients::new();
    seed(&mut apart);
    a.execute(&mut apart).unwrap();
    b.execute(&mut apart).unwrap();
    let mut together: Gradients<i64> = Gradients::new();
    seed(&mut together);
    a.merge(b).execute(&mut together).unwrap();
    for id in 0..4 {
        assert_eq!(apart.get(UniqueId(id)), together.get(UniqueId(id)));
    }
    assert_eq!(together.get(UniqueId(0)).unwrap(), &vec![101, 102]);
    assert_eq!(together.get(UniqueId(2)).unwrap(), &vec![10, 20]);
    assert_eq!(together.buffers.len(), 4);
}

#[test]
fn the_last_entry_runs_first() {
    let mut tape = Tape64::new();
    tape.add_backward_op(reshape_entry(0, 1, 1));
    tape.add_backward_op(reshape_entry(1, 2, 1));
    let mut grads: Gradients<i64> = Gradients::new();
    grads.put(UniqueId(2), vec![5]);
    tape.execute(&mut grads).unwrap();
    assert_eq!(grads.get(UniqueId(1)).unwrap(), &vec![5]);
    assert_eq!(grads.get(UniqueId(0)).unwrap(), &vec![5]);
    let mut reversed = Tape64::new();
    reversed.add_backward_op(reshape_entry(1, 2, 1));
    reversed.add_backward_op(reshape_entry(0, 1, 1));
    let mut grads: Gradients<i64> = Gradients::new();
    grads.put(UniqueId(2), vec![5]);
    reversed.execute(&mut grads).unwrap();
    assert_eq!(grads.get(UniqueId(1)).unwrap(), &vec![5]);
    assert_eq!(grads.get(UniqueId(0)).unwrap(), &vec![0]);
}

#[test]
fn a_tensor_used_twice_collects_both_gradients() {
    let mut ids = IdSource::new();
    let x: Tensor<i64, Cpu, NoneTape, 4> =
        Tensor::from_parts(ids.fresh(), vec![1, 1, 2, 2], vec![1, 2, 3, 4], Cpu);
    let w: Tensor<i64, Cpu, NoneTape, 4> =
        Tensor::from_parts(ids.fresh(), vec![1, 1, 1, 1], vec![3], Cpu);
    let w2: Tensor<i64, Cpu, NoneTape, 4> =
        Tensor::from_parts(ids.fresh(), vec![1, 1, 1, 1], vec![5], Cpu);
    let x_id = x.id;
    let x = x.put_tape(Tape64::new());
    let y = (&mut ids, x, w).try_conv2d(1usize, 0usize, 1usize, 1usize).unwrap();
    assert_eq!(y.data, vec![3, 6, 9, 12]);
    let z = (&mut ids, y, w2).try_conv2d(1usize, 0usize, 1usize, 1usize).unwrap();
    assert_eq!(z.data, vec![15, 30, 45, 60]);
    assert_eq!(z.tape.operations.len(), 2);
    let mut grads: Gradients<i64> = Gradients::new();
    grads.put(z.id, vec![1, 1, 1, 1]);
    z.tape.execute(&mut grads).unwrap();
    assert_eq!(grads.get(x_id).unwrap(), &vec![15, 15, 15, 15]);
    assert_eq!(grads.get(UniqueId(1)).unwrap(), &vec![5 * (1 + 2 + 3 + 4)]);
    assert_eq!(grads.get(UniqueId(2)).unwrap(), &vec![3 + 6 + 9 + 12]);
}

#[test]
fn a_reshape_moves_the_buffer_and_hands_the_gradient_on() {
    let mut ids = IdSource::new();
    let x: Tensor<i64, Cpu, NoneTape, 2> =
        Tensor::from_parts(ids.fresh(), vec![2, 3], vec![1, 2, 3, 4, 5, 6], Cpu);
    let x = x.put_tape(Tape64::new());
    let y: Tensor<i64, Cpu, Tape64, 3> = try_reshape(&mut ids, x, vec![3, 1, 2]).unwrap();
    assert_eq!(y.id, UniqueId(1));
    assert_eq!(y.shape, vec![3, 1, 2]);
    assert_eq!(y.strides, vec![2, 2, 1]);
    assert_eq!(y.data, vec![1, 2, 3, 4, 5, 6]);
    assert_eq!(ids_of(&y.tape), vec![(0, 1)]);
    let mut grads: Gradients<i64> = Gradients::new();
    grads.put(UniqueId(0), vec![1; 6]);
    grads.put(UniqueId(1), vec![1, 2, 3, 4, 5, 6]);
    y.tape.execute(&mut grads).unwrap();
    assert_eq!(grads.get(UniqueId(0)).unwrap(), &vec![2, 3, 4, 5, 6, 7]);
    let mut grads: Gradients<i64> = Gradients::new();
    grads.put(UniqueId(1), vec![1, 2, 3]);
    assert_eq!(y.tape.execute(&mut grads), Err(Error::WrongNumElements));
}

#[test]
fn tensors_part_from_and_join_their_tapes() {
    let mut ids = IdSource::new();
    let x: Tensor<i64, Cpu, NoneTape, 1> = Tensor::from_parts(ids.fresh(), vec![2], vec![7, 8], Cpu);
    let ghost = x.ghost();
    assert_eq!((ghost.id, ghost.shape.clone(), ghost.strides.clone()), (UniqueId(0), vec![2], vec![1]));
    assert_eq!(ghost.num_elements(), 2);
    let mut tape = Tape64::new();
    tape.add_backward_op(reshape_entry(5, 6, 1));
    let x = x.put_tape(tape);
    let (x, tape) = x.split_tape();
    assert_eq!(x.tape, NoneTape);
    assert_eq!(x.data, vec![7, 8]);
    assert_eq!(ids_of(&tape), vec![(5, 6)]);
}

#[test]
fn a_retained_operand_can_be_used_again() {
    let mut ids = IdSource::new();
    let x: Tensor<i64, Cpu, NoneTape, 4> =
        Tensor::from_parts(ids.fresh(), vec![1, 1, 2, 2], vec![1, 2, 3, 4], Cpu);
    let w: Tensor<i64, Cpu, NoneTape, 4> =
        Tensor::from_parts(ids.fresh(), vec![1, 1, 1, 1], vec![3], Cpu);
    let kept = w.retained();
    assert_eq!((kept.id, kept.data.clone(), kept.shape.clone(), kept.strides.clone()), (w.id, vec![3], vec![1; 4], vec![1; 4]));
    let x = x.put_tape(Tape64::new());
    let y = (&mut ids, x, kept).try_conv2d(1usize, 0usize, 1usize, 1usize).unwrap();
    let z = (&mut ids, y, w).try_conv2d(1usize, 0usize, 1usize, 1usize).unwrap();
    assert_eq!(z.data, vec![9, 18, 27, 36]);
    let mut grads: Gradients<i64> = Gradients::new();
    grads.put(z.id, vec![1, 1, 1, 1]);
    z.tape.execute(&mut grads).unwrap();
    assert_eq!(grads.get(UniqueId(0)).unwrap(), &vec![9, 9, 9, 9]);
    assert_eq!(grads.get(UniqueId(1)).unwrap(), &vec![(3 + 6 + 9 + 12) + 3 * (1 + 2 + 3 + 4)]);
}
