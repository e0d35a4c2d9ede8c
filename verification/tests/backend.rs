use dfdx_core::tape::OwnedTape;
use dfdx_core::tensor::{Error, GhostTensor, IdSource, NoneTape, Tensor, UniqueId};
use dfdx_core::tensor_ops::conv2d::{Conv2DKernel, Conv2DOp, TryConv2D};

#[derive(Clone, Copy, Debug, PartialEq, Eq)]
struct Scarce {
    fails_to_allocate: bool,
}

impl Conv2DKernel<i64> for Scarce {
    fn unfailing(&self) -> bool {
        false
    }

    fn forward_spec(&self, _: Conv2DOp, _: vstd::seq::Seq<i64>, _: vstd::seq::Seq<i64>) -> vstd::seq::Seq<i64> {
        panic!("a statement about the kernel, not a part of it")
    }

    fn lhs_gradient(&self, _: Conv2DOp, _: vstd::seq::Seq<i64>, _: vstd::seq::Seq<i64>) -> vstd::seq::Seq<i64> {
        panic!("a statement about the kernel, not a part of it")
    }

    fn rhs_gradient(&self, _: Conv2DOp, _: vstd::seq::Seq<i64>, _: vstd::seq::Seq<i64>) -> vstd::seq::Seq<i64> {
        panic!("a statement about the kernel, not a part of it")
    }

    fn allocate<const N: usize>(
        &self,
        id: UniqueId,
        shape: Vec<usize>,
    ) -> Result<Tensor<i64, Self, NoneTape, N>, Error> {
        if self.fails_to_allocate {
            return Err(Error::OutOfMemory);
        }
        let n = shape.iter().product();
        Ok(Tensor::from_parts(id, shape, vec![0; n], *self))
    }

    fn forward(
        &self,
        _op: Conv2DOp,
        _lhs: &Tensor<i64, Self, NoneTape, 4>,
        _rhs: &Tensor<i64, Self, NoneTape, 4>,
        _out: &mut Tensor<i64, Self, NoneTape, 4>,
    ) -> Result<(), Error> {
        Err(Error::Driver(700))
    }

    fn backward(
        &self,
        _op: Conv2DOp,
        _lhs: &Tensor<i64, Self, NoneTape, 4>,
        _grad_lhs: &mut Vec<i64>,
        _rhs: &Tensor<i64, Self, NoneTape, 4>,
        _grad_rhs: &mut Vec<i64>,
        _out: &GhostTensor<4>,
        _grad_out: &Vec<i64>,
    ) -> Result<(), Error> {
        Err(Error::Driver(701))
    }
}

fn operands(
    ids: &mut IdSource,
    device: Scarce,
) -> (Tensor<i64, Scarce, OwnedTape<i64, Scarce>, 4>, Tensor<i64, Scarce, NoneTape, 4>) {
    let x = Tensor::from_parts(ids.fresh(), vec![1, 1, 3, 3], vec![1; 9], device);
    let w = Tensor::from_parts(ids.fresh(), vec![1, 1, 2, 2], vec![1; 4], device);
    (x.put_tape(OwnedTape::new()), w)
}

#[test]
fn a_failed_allocation_is_returned() {
    let mut ids = IdSource::new();
    let (x, w) = operands(&mut ids, Scarce { fails_to_allocate: true });
    let r = (&mut ids, x, w).try_conv2d(1usize, 0usize, 1usize, 1usize);
    assert_eq!(r.err(), Some(Error::OutOfMemory));
    assert_eq!(ids.next, 3);
}

#[test]
fn a_failed_forward_kernel_is_returned() {
    let mut ids = IdSource::new();
    let (x, w) = operands(&mut ids, Scarce { fails_to_allocate: false });
    let r = (&mut ids, x, w).try_conv2d(1usize, 0usize, 1usize, 1usize);
    assert_eq!(r.err(), Some(Error::Driver(700)));
}
