use crate::dtypes::Dtype;
use crate::shapes::{default_strides, numel, representable};
use crate::tape::{all_wf, BackwardOp, Tape};
use crate::tensor::{Error, IdSource, Tensor, UniqueId};
use crate::tensor_ops::conv2d::Conv2DKernel;
use vstd::prelude::*;

verus! {

/// `out` is `t` read under another shape: the same buffer, a new identity, and one more
/// entry on the tape, which hands the gradient of `out` on to `t`.
pub open spec fn reshaped<E: Dtype, D: Conv2DKernel<E>, T: Tape<E, D>, const N: usize, const M: usize>(
    t: Tensor<E, D, T, N>,
    shape: Seq<usize>,
    id: UniqueId,
    out: Tensor<E, D, T, M>,
) -> bool {
    &&& out.wf()
    &&& out.is_contiguous()
    &&& out.id == id
    &&& out.shape@ == shape
    &&& out.data == t.data
    &&& out.device == t.device
    &&& out.tape.entries() == if T::records() {
        t.tape.entries().push(
            BackwardOp::Reshape { inp_id: t.id, out_id: id, numel: numel(shape) as usize },
        )
    } else {
        t.tape.entries()
    }
}

/// Reads a contiguous tensor under another shape of as many elements. No element is
/// copied: the buffer moves into the result.
pub fn try_reshape<E: Dtype, D: Conv2DKernel<E>, T: Tape<E, D>, const N: usize, const M: usize>(
    ids: &mut IdSource,
    t: Tensor<E, D, T, N>,
    shape: Vec<usize>,
) -> (r: Result<Tensor<E, D, T, M>, Error>)
    requires
        t.wf(),
        t.is_contiguous(),
        shape@.len() == M,
        representable(shape@),
        numel(shape@) == numel(t.shape@),
        old(ids).can_issue(1),
        old(ids).issued(t.id),
        all_wf(t.tape.entries()),
    ensures
        final(ids).next == old(ids).next + 1,
        r matches Ok(out) && reshaped(t, shape@, UniqueId(old(ids).next), out) && all_wf(
            out.tape.entries(),
        ),
{
    let id = ids.fresh();
    let n = t.data.len();
    let strides = default_strides(&shape);
    proof {
        crate::strided::lemma_contiguous_is_addressable(shape@, t.data@.len());
    }
    let Tensor { id: inp_id, data, shape: _, strides: _, device, tape } = t;
    let mut tape = tape;
    let entry = BackwardOp::Reshape { inp_id, out_id: id, numel: n };
    assert(entry.wf());
    tape.add_backward_op(entry);
    Ok(Tensor { id, data, shape, strides, device, tape })
}

} // verus!
