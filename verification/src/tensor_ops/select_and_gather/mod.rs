pub mod cpu_kernel;
pub mod cuda_kernel;
pub mod laws;

use crate::dtypes::Dtype;
use crate::shapes::{numel, representable, with_dim_replaced};
use crate::strided::{addressable, digits, offset_at};
use crate::tensor::{Error, NoneTape, Tensor, UniqueId};
use vstd::prelude::*;

verus! {

/// Where in the buffer of the index tensor the index for the `i`-th element of the result
/// stands: at the first `idx_shape.len()` numbers of the element's own index.
pub open spec fn index_offset(
    idx_shape: Seq<usize>,
    idx_strides: Seq<usize>,
    dst_shape: Seq<usize>,
    i: int,
) -> int {
    offset_at(digits(dst_shape, i).take(idx_shape.len() as int), idx_strides)
}

/// Where in the buffer of the source the `i`-th element of the result comes from: the
/// element's own index, with the numbers from `ax` up to the rank of the index tensor
/// replaced by the one number that the index tensor holds for it.
pub open spec fn source_offset(
    inp_strides: Seq<usize>,
    idx: Seq<usize>,
    idx_shape: Seq<usize>,
    idx_strides: Seq<usize>,
    dst_shape: Seq<usize>,
    ax: int,
    i: int,
) -> int {
    let d = digits(dst_shape, i);
    let picked = idx[index_offset(idx_shape, idx_strides, dst_shape, i)] as int;
    offset_at(d.take(ax) + seq![picked] + d.skip(idx_shape.len() as int), inp_strides)
}

/// The source and the index tensor suit a lookup along `ax`: the index tensor shares the
/// dimensions before `ax` with the source, both are addressable, the shape of the result
/// is representable, and every index that the index tensor holds lies within dimension
/// `ax` of the source.
pub open spec fn lookup_defined(
    inp_shape: Seq<usize>,
    inp_strides: Seq<usize>,
    inp_len: nat,
    idx: Seq<usize>,
    idx_shape: Seq<usize>,
    idx_strides: Seq<usize>,
    ax: int,
) -> bool {
    &&& 0 <= ax < inp_shape.len()
    &&& ax <= idx_shape.len()
    &&& idx_shape.take(ax) == inp_shape.take(ax)
    &&& representable(inp_shape)
    &&& representable(idx_shape)
    &&& representable(with_dim_replaced(inp_shape, idx_shape, ax))
    &&& addressable(inp_shape, inp_strides, inp_len)
    &&& addressable(idx_shape, idx_strides, idx.len())
    &&& forall|k: int| 0 <= k < idx.len() ==> #[trigger] idx[k] < inp_shape[ax]
}

/// The result of a lookup, in row-major order: each element is a copy of the element of
/// the source that the index tensor names for it.
pub open spec fn gathered<E>(
    inp: Seq<E>,
    inp_shape: Seq<usize>,
    inp_strides: Seq<usize>,
    idx: Seq<usize>,
    idx_shape: Seq<usize>,
    idx_strides: Seq<usize>,
    ax: int,
) -> Seq<E> {
    let dst_shape = with_dim_replaced(inp_shape, idx_shape, ax);
    Seq::new(
        numel(dst_shape),
        |i: int| inp[source_offset(inp_strides, idx, idx_shape, idx_strides, dst_shape, ax, i)],
    )
}

/// The gradient of the source after the gradients of the first `n` elements of the result
/// have been added into it, each at the place that its element was copied from. A place
/// that several elements were copied from has all their gradients added into it, in the
/// order of the elements.
pub open spec fn scattered<E: Dtype>(
    grad_inp: Seq<E>,
    grad_out: Seq<E>,
    inp_strides: Seq<usize>,
    idx: Seq<usize>,
    idx_shape: Seq<usize>,
    idx_strides: Seq<usize>,
    dst_shape: Seq<usize>,
    ax: int,
    n: int,
) -> Seq<E>
    decreases n,
{
    if n <= 0 {
        grad_inp
    } else {
        let before = scattered(
            grad_inp,
            grad_out,
            inp_strides,
            idx,
            idx_shape,
            idx_strides,
            dst_shape,
            ax,
            n - 1,
        );
        let at = source_offset(inp_strides, idx, idx_shape, idx_strides, dst_shape, ax, n - 1);
        before.update(at, before[at].sum(grad_out[n - 1]))
    }
}

/// A lookup that puts the dimensions of an index tensor in the place of one dimension of
/// the source (gather). The axis follows from the three ranks: the source and the index
/// tensor together have one dimension more than the result and the axis.
pub trait ReplaceDimKernel<E: Dtype>: Sized {
    /// No call of this backend's gather fails.
    spec fn gather_unfailing(&self) -> bool;

    /// Copies, for each element of the result, the element of `inp` that `idx` names.
    fn forward<const SRC: usize, const DST: usize, const IDX: usize>(
        &self,
        id: UniqueId,
        inp: &Tensor<E, Self, NoneTape, SRC>,
        idx: &Tensor<usize, Self, NoneTape, IDX>,
    ) -> (r: Result<Tensor<E, Self, NoneTape, DST>, Error>)
        requires
            inp.wf(),
            idx.wf(),
            SRC <= DST,
            DST < SRC + IDX,
            lookup_defined(
                inp.shape@,
                inp.strides@,
                inp.data@.len(),
                idx.data@,
                idx.shape@,
                idx.strides@,
                SRC + IDX - DST - 1,
            ),
        ensures
            self.gather_unfailing() ==> r is Ok,
            r matches Ok(out) ==> {
                &&& out.wf()
                &&& out.is_contiguous()
                &&& out.id == id
                &&& out.device == *self
                &&& out.shape@ == with_dim_replaced(inp.shape@, idx.shape@, SRC + IDX - DST - 1)
                &&& out.data@ == gathered(
                    inp.data@,
                    inp.shape@,
                    inp.strides@,
                    idx.data@,
                    idx.shape@,
                    idx.strides@,
                    SRC + IDX - DST - 1,
                )
            },
    ;

    /// Adds the gradient of each element of the result into the gradient of the element
    /// of `inp` that it was copied from.
    fn backward<const SRC: usize, const DST: usize, const IDX: usize>(
        &self,
        inp: &Tensor<E, Self, NoneTape, SRC>,
        grad_inp: &mut Vec<E>,
        idx: &Tensor<usize, Self, NoneTape, IDX>,
        out: &Tensor<E, Self, NoneTape, DST>,
        grad_out: &Vec<E>,
    ) -> (r: Result<(), Error>)
        requires
            inp.wf(),
            idx.wf(),
            SRC <= DST,
            DST < SRC + IDX,
            lookup_defined(
                inp.shape@,
                inp.strides@,
                inp.data@.len(),
                idx.data@,
                idx.shape@,
                idx.strides@,
                SRC + IDX - DST - 1,
            ),
            old(grad_inp)@.len() == inp.data@.len(),
            out.shape@ == with_dim_replaced(inp.shape@, idx.shape@, SRC + IDX - DST - 1),
            grad_out@.len() == numel(out.shape@),
        ensures
            self.gather_unfailing() ==> r is Ok,
            final(grad_inp)@.len() == old(grad_inp)@.len(),
            r is Ok ==> final(grad_inp)@ == scattered(
                old(grad_inp)@,
                grad_out@,
                inp.strides@,
                idx.data@,
                idx.shape@,
                idx.strides@,
                out.shape@,
                SRC + IDX - DST - 1,
                grad_out@.len() as int,
            ),
    ;
}

/// A lookup that removes one dimension of the source (select): the index tensor has the
/// dimensions before the axis, and holds one index along the axis for each of their
/// positions.
pub trait RemoveDimKernel<E: Dtype>: Sized {
    /// No call of this backend's select fails.
    spec fn select_unfailing(&self) -> bool;

    /// Copies, for each element of the result, the element of `inp` that `idx` selects.
    fn forward<const SRC: usize, const DST: usize, const IDX: usize>(
        &self,
        id: UniqueId,
        inp: &Tensor<E, Self, NoneTape, SRC>,
        idx: &Tensor<usize, Self, NoneTape, IDX>,
    ) -> (r: Result<Tensor<E, Self, NoneTape, DST>, Error>)
        requires
            inp.wf(),
            idx.wf(),
            DST + 1 == SRC,
            IDX < SRC,
            lookup_defined(
                inp.shape@,
                inp.strides@,
                inp.data@.len(),
                idx.data@,
                idx.shape@,
                idx.strides@,
                IDX as int,
            ),
        ensures
            self.select_unfailing() ==> r is Ok,
            r matches Ok(out) ==> {
                &&& out.wf()
                &&& out.is_contiguous()
                &&& out.id == id
                &&& out.device == *self
                &&& out.shape@ == crate::shapes::without_dim(inp.shape@, IDX as int)
                &&& out.data@ == gathered(
                    inp.data@,
                    inp.shape@,
                    inp.strides@,
                    idx.data@,
                    idx.shape@,
                    idx.strides@,
                    IDX as int,
                )
            },
    ;

    /// Adds the gradient of each element of the result into the gradient of the element
    /// of `inp` that it was selected from.
    fn backward<const SRC: usize, const DST: usize, const IDX: usize>(
        &self,
        inp: &Tensor<E, Self, NoneTape, SRC>,
        grad_inp: &mut Vec<E>,
        idx: &Tensor<usize, Self, NoneTape, IDX>,
        out: &Tensor<E, Self, NoneTape, DST>,
        grad_out: &Vec<E>,
    ) -> (r: Result<(), Error>)
        requires
            inp.wf(),
            idx.wf(),
            DST + 1 == SRC,
            IDX < SRC,
            lookup_defined(
                inp.shape@,
                inp.strides@,
                inp.data@.len(),
                idx.data@,
                idx.shape@,
                idx.strides@,
                IDX as int,
            ),
            old(grad_inp)@.len() == inp.data@.len(),
            out.shape@ == crate::shapes::without_dim(inp.shape@, IDX as int),
            grad_out@.len() == numel(out.shape@),
        ensures
            self.select_unfailing() ==> r is Ok,
            final(grad_inp)@.len() == old(grad_inp)@.len(),
            r is Ok ==> final(grad_inp)@ == scattered(
                old(grad_inp)@,
                grad_out@,
                inp.strides@,
                idx.data@,
                idx.shape@,
                idx.strides@,
                out.shape@,
                IDX as int,
                grad_out@.len() as int,
            ),
    ;
}

} // verus!
