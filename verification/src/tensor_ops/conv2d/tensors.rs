use crate::dtypes::Dtype;
use crate::shapes::{contiguous, is_contiguous, is_representable, numel, representable, Dim};
use crate::tape::{all_wf, BackwardOp, Merge, Tape};
use crate::tensor::{Error, IdSource, NoneTape, Tensor, UniqueId};
use crate::tensor_ops::conv2d::{
    conv_extent, extent_defined, resolve_extent, Conv2DKernel, Conv2DOp, TryConv2D,
};
use crate::tensor_ops::reshape_to::try_reshape;
use vstd::prelude::*;

verus! {

/// The descriptor of the convolution of an image of shape `img` with filters of shape
/// `filters`: the scalars of the call, the extents of the operands, and the two resolved
/// output extents.
pub open spec fn descriptor(
    img: Seq<usize>,
    filters: Seq<usize>,
    stride: nat,
    padding: nat,
    dilation: nat,
    groups: nat,
) -> Conv2DOp {
    Conv2DOp {
        kernel: filters[2],
        stride: stride as usize,
        padding: padding as usize,
        dilation: dilation as usize,
        groups: groups as usize,
        batch: img[0],
        chan_in: img[1],
        chan_out: filters[0],
        h_in: img[2],
        h_out: conv_extent(
            img[2] as int,
            filters[2] as int,
            stride as int,
            padding as int,
            dilation as int,
        ) as usize,
        w_in: img[3],
        w_out: conv_extent(
            img[3] as int,
            filters[2] as int,
            stride as int,
            padding as int,
            dilation as int,
        ) as usize,
    }
}

/// What the convolution asks of its operands, over their shapes and strides alone.
///
/// - The image has as many channels as the filters take per group, times the groups.
/// - The groups divide the output channels.
/// - The kernel is square.
/// - Both operands are contiguous.
/// - Height and width each give an output extent, and the shape of the result is
///   representable.
pub open spec fn operands_valid(
    img_shape: Seq<usize>,
    img_strides: Seq<usize>,
    filters_shape: Seq<usize>,
    filters_strides: Seq<usize>,
    stride: nat,
    padding: nat,
    dilation: nat,
    groups: nat,
) -> bool {
    &&& img_shape.len() == 4
    &&& filters_shape.len() == 4
    &&& groups >= 1
    &&& img_shape[1] == filters_shape[1] * groups
    &&& filters_shape[0] as nat % groups == 0
    &&& filters_shape[2] == filters_shape[3]
    &&& contiguous(img_shape, img_strides)
    &&& contiguous(filters_shape, filters_strides)
    &&& extent_defined(
        img_shape[2] as int,
        filters_shape[2] as int,
        stride as int,
        padding as int,
        dilation as int,
    )
    &&& extent_defined(
        img_shape[3] as int,
        filters_shape[2] as int,
        stride as int,
        padding as int,
        dilation as int,
    )
    &&& img_shape[2] + 2 * padding <= usize::MAX
    &&& img_shape[3] + 2 * padding <= usize::MAX
    &&& representable(
        descriptor(img_shape, filters_shape, stride, padding, dilation, groups).out_shape(),
    )
}

/// The entry that the convolution of `img` and `filters` into the tensor `out_id` leaves
/// on the tape: the descriptor, both operands with their buffers, and the result without
/// its buffer.
pub open spec fn conv2d_entry<E: Dtype, D: Conv2DKernel<E>, T>(
    entry: BackwardOp<E, D>,
    op: Conv2DOp,
    img: Tensor<E, D, T, 4>,
    filters: Tensor<E, D, NoneTape, 4>,
    out_id: UniqueId,
) -> bool {
    entry matches BackwardOp::Conv2D { op: entry_op, lhs, rhs, out } && {
        &&& entry_op == op
        &&& lhs.id == img.id
        &&& lhs.data == img.data
        &&& lhs.shape == img.shape
        &&& lhs.strides == img.strides
        &&& lhs.device == img.device
        &&& rhs.id == filters.id
        &&& rhs.data == filters.data
        &&& rhs.shape == filters.shape
        &&& rhs.strides == filters.strides
        &&& rhs.device == filters.device
        &&& out.id == out_id
        &&& out.shape@ == op.out_shape()
    }
}

/// The call is well-formed: the operands are valid for the convolution, they are two
/// different tensors whose identities come from `ids`, and `ids` has one left.
pub open spec fn batched_defined<E: Dtype, D: Conv2DKernel<E>, T: Tape<E, D>>(
    ids: IdSource,
    img: Tensor<E, D, T, 4>,
    filters: Tensor<E, D, NoneTape, 4>,
    stride: nat,
    padding: nat,
    dilation: nat,
    groups: nat,
) -> bool {
    &&& img.wf()
    &&& filters.wf()
    &&& operands_valid(
        img.shape@,
        img.strides@,
        filters.shape@,
        filters.strides@,
        stride,
        padding,
        dilation,
        groups,
    )
    &&& img.id != filters.id
    &&& ids.issued(img.id)
    &&& ids.issued(filters.id)
    &&& ids.can_issue(1)
    &&& all_wf(img.tape.entries())
}

/// `out` is the convolution of `img` with `filters`: a new contiguous tensor of the
/// resolved shape, filled by the forward kernel of the image's backend, which carries the
/// tape of the image with the backward entry of this call behind it.
pub open spec fn batched_convolved<E: Dtype, D: Conv2DKernel<E>, T: Tape<E, D>>(
    ids: IdSource,
    img: Tensor<E, D, T, 4>,
    filters: Tensor<E, D, NoneTape, 4>,
    stride: nat,
    padding: nat,
    dilation: nat,
    groups: nat,
    out: Tensor<E, D, T, 4>,
) -> bool {
    let op = descriptor(img.shape@, filters.shape@, stride, padding, dilation, groups);
    &&& op.wf()
    &&& out.wf()
    &&& out.is_contiguous()
    &&& out.id == UniqueId(ids.next)
    &&& out.shape@ == op.out_shape()
    &&& out.device == img.device
    &&& out.data@ == img.device.forward_spec(op, img.data@, filters.data@)
    &&& all_wf(out.tape.entries())
    &&& if T::records() {
        &&& out.tape.entries().len() == img.tape.entries().len() + 1
        &&& out.tape.entries().drop_last() == img.tape.entries()
        &&& conv2d_entry(out.tape.entries().last(), op, img, filters, out.id)
    } else {
        out.tape.entries() == img.tape.entries()
    }
}

/// A convolution with an operand that is not contiguous is no well-formed call: it is
/// ruled out before any element is read.
pub proof fn lemma_noncontiguous_operand_is_rejected<E: Dtype, D: Conv2DKernel<E>, T: Tape<E, D>>(
    ids: IdSource,
    img: Tensor<E, D, T, 4>,
    filters: Tensor<E, D, NoneTape, 4>,
    stride: nat,
    padding: nat,
    dilation: nat,
    groups: nat,
)
    requires
        !img.is_contiguous() || !filters.is_contiguous(),
    ensures
        !batched_defined(ids, img, filters, stride, padding, dilation, groups),
{
}

/// A convolution whose channels do not suit its groups is no well-formed call: the image
/// must have the filters' channels per group times the groups, and the groups must divide
/// the output channels.
pub proof fn lemma_channel_mismatch_is_rejected<E: Dtype, D: Conv2DKernel<E>, T: Tape<E, D>>(
    ids: IdSource,
    img: Tensor<E, D, T, 4>,
    filters: Tensor<E, D, NoneTape, 4>,
    stride: nat,
    padding: nat,
    dilation: nat,
    groups: nat,
)
    requires
        img.shape@.len() == 4,
        filters.shape@.len() == 4,
        img.shape@[1] != filters.shape@[1] * groups || filters.shape@[0] as nat % groups != 0,
    ensures
        !batched_defined(ids, img, filters, stride, padding, dilation, groups),
{
}

/// Whether shapes and strides are valid for the convolution. A caller that cannot prove it
/// tests it here first.
pub fn check_shapes(
    img_shape: &Vec<usize>,
    img_strides: &Vec<usize>,
    filters_shape: &Vec<usize>,
    filters_strides: &Vec<usize>,
    stride: usize,
    padding: usize,
    dilation: usize,
    groups: usize,
) -> (ok: bool)
    requires
        representable(img_shape@),
        representable(filters_shape@),
    ensures
        ok == operands_valid(
            img_shape@,
            img_strides@,
            filters_shape@,
            filters_strides@,
            stride as nat,
            padding as nat,
            dilation as nat,
            groups as nat,
        ),
{
    let ghost op = descriptor(
        img_shape@,
        filters_shape@,
        stride as nat,
        padding as nat,
        dilation as nat,
        groups as nat,
    );
    if img_shape.len() != 4 || filters_shape.len() != 4 || groups == 0 {
        return false;
    }
    let per_group = filters_shape[1];
    match per_group.checked_mul(groups) {
        Some(chan_in) => {
            if chan_in != img_shape[1] {
                return false;
            }
        },
        None => {
            return false;
        },
    }
    if filters_shape[0] % groups != 0 || filters_shape[2] != filters_shape[3] {
        return false;
    }
    if !is_contiguous(img_shape, img_strides) || !is_contiguous(filters_shape, filters_strides) {
        return false;
    }
    let kernel = filters_shape[2];
    let h_out = match resolve_extent(img_shape[2], kernel, stride, padding, dilation) {
        Some(n) => n,
        None => {
            return false;
        },
    };
    let w_out = match resolve_extent(img_shape[3], kernel, stride, padding, dilation) {
        Some(n) => n,
        None => {
            return false;
        },
    };
    let mut out_shape: Vec<usize> = Vec::new();
    out_shape.push(img_shape[0]);
    out_shape.push(filters_shape[0]);
    out_shape.push(h_out);
    out_shape.push(w_out);
    assert(out_shape@ =~= op.out_shape());
    is_representable(&out_shape)
}

/// Whether the operands are valid for the convolution.
pub fn check_operands<E, D, T>(
    img: &Tensor<E, D, T, 4>,
    filters: &Tensor<E, D, NoneTape, 4>,
    stride: usize,
    padding: usize,
    dilation: usize,
    groups: usize,
) -> (ok: bool)
    requires
        img.wf(),
        filters.wf(),
    ensures
        ok == operands_valid(
            img.shape@,
            img.strides@,
            filters.shape@,
            filters.strides@,
            stride as nat,
            padding as nat,
            dilation as nat,
            groups as nat,
        ),
{
    check_shapes(
        &img.shape,
        &img.strides,
        &filters.shape,
        &filters.strides,
        stride,
        padding,
        dilation,
        groups,
    )
}

/// Whether a batch of images can be convolved with the filters: whether the call is
/// well-formed. A caller that cannot prove it tests it here first.
pub fn can_convolve<E: Dtype, D: Conv2DKernel<E>, T: Tape<E, D>>(
    ids: &IdSource,
    img: &Tensor<E, D, T, 4>,
    filters: &Tensor<E, D, NoneTape, 4>,
    stride: usize,
    padding: usize,
    dilation: usize,
    groups: usize,
) -> (ok: bool)
    ensures
        ok == batched_defined(
            *ids,
            *img,
            *filters,
            stride as nat,
            padding as nat,
            dilation as nat,
            groups as nat,
        ),
{
    img.is_wf() && filters.is_wf() && check_operands(
        img,
        filters,
        stride,
        padding,
        dilation,
        groups,
    ) && img.id.0 != filters.id.0 && ids.has_issued(img.id) && ids.has_issued(filters.id)
        && ids.has_room(1) && img.tape.is_wf()
}

/// Whether one image can be convolved with the filters: whether the call is well-formed.
pub fn can_convolve_one<E: Dtype, D: Conv2DKernel<E>, T: Tape<E, D>>(
    ids: &IdSource,
    img: &Tensor<E, D, T, 3>,
    filters: &Tensor<E, D, NoneTape, 4>,
    stride: usize,
    padding: usize,
    dilation: usize,
    groups: usize,
) -> (ok: bool)
    ensures
        ok == unbatched_defined(
            *ids,
            *img,
            *filters,
            stride as nat,
            padding as nat,
            dilation as nat,
            groups as nat,
        ),
{
    if !img.is_wf() || !filters.is_wf() || !is_contiguous(&img.shape, &img.strides) {
        return false;
    }
    let mut as_batch: Vec<usize> = Vec::new();
    as_batch.push(1);
    as_batch.push(img.shape[0]);
    as_batch.push(img.shape[1]);
    as_batch.push(img.shape[2]);
    proof {
        assert(as_batch@ =~= seq![1usize, img.shape@[0], img.shape@[1], img.shape@[2]]);
        lemma_batch_of_one(img.shape@);
    }
    let strides = crate::shapes::default_strides(&as_batch);
    check_shapes(
        &as_batch,
        &strides,
        &filters.shape,
        &filters.strides,
        stride,
        padding,
        dilation,
        groups,
    ) && img.id.0 != filters.id.0 && ids.has_issued(img.id) && ids.has_issued(filters.id)
        && ids.has_room(3) && img.tape.is_wf()
}

/// The convolution of a batch of images with a bank of filters. The identity of the
/// result is drawn from the supply that comes first in the tuple.
impl<
    'a,
    Stride: Dim,
    Padding: Dim,
    Dilation: Dim,
    Groups: Dim,
    E: Dtype,
    D: Conv2DKernel<E>,
    T: Tape<E, D> + Merge<E, D, NoneTape>,
> TryConv2D<Stride, Padding, Dilation, Groups> for (
    &'a mut IdSource,
    Tensor<E, D, T, 4>,
    Tensor<E, D, NoneTape, 4>,
) {
    type Convolved = Tensor<E, D, T, 4>;

    open spec fn conv_defined(
        self,
        stride: Stride,
        padding: Padding,
        dilation: Dilation,
        groups: Groups,
    ) -> bool {
        batched_defined(
            *self.0,
            self.1,
            self.2,
            stride.extent(),
            padding.extent(),
            dilation.extent(),
            groups.extent(),
        )
    }

    open spec fn conv_unfailing(
        self,
        stride: Stride,
        padding: Padding,
        dilation: Dilation,
        groups: Groups,
    ) -> bool {
        self.1.device.unfailing()
    }

    open spec fn convolved(
        self,
        stride: Stride,
        padding: Padding,
        dilation: Dilation,
        groups: Groups,
        out: Tensor<E, D, T, 4>,
    ) -> bool {
        batched_convolved(
            *self.0,
            self.1,
            self.2,
            stride.extent(),
            padding.extent(),
            dilation.extent(),
            groups.extent(),
            out,
        )
    }

    fn conv2d(self, stride: Stride, padding: Padding, dilation: Dilation, groups: Groups) -> (out:
        Tensor<E, D, T, 4>)
        ensures
            final(self.0).next == old(self.0).next + 1,
    {
        match self.try_conv2d(stride, padding, dilation, groups) {
            Ok(out) => out,
            Err(_) => vstd::pervasive::unreached(),
        }
    }

    fn try_conv2d(self, stride: Stride, padding: Padding, dilation: Dilation, groups: Groups) -> (r:
        Result<Tensor<E, D, T, 4>, Error>)
        ensures
            final(self.0).next == old(self.0).next + 1,
    {
        let (ids, img, filters) = self;
        let batch = img.shape[0];
        let inp_chan = img.shape[1];
        let h = img.shape[2];
        let w = img.shape[3];
        let out_chan = filters.shape[0];
        let kernel = filters.shape[2];
        let h_out = (h, kernel).conv2d(stride, padding, dilation, groups);
        let w_out = (w, kernel).conv2d(stride, padding, dilation, groups);
        let op = Conv2DOp {
            stride: stride.size(),
            padding: padding.size(),
            kernel,
            dilation: dilation.size(),
            groups: groups.size(),
            batch,
            chan_in: inp_chan,
            chan_out: out_chan,
            h_in: h,
            h_out,
            w_in: w,
            w_out,
        };
        proof {
            assert(op == descriptor(
                img.shape@,
                filters.shape@,
                stride.extent(),
                padding.extent(),
                dilation.extent(),
                groups.extent(),
            ));
            vstd::arithmetic::div_mod::lemma_fundamental_div_mod_converse(
                inp_chan as int,
                op.groups as int,
                filters.shape@[1] as int,
                0,
            );
            assert(op.lhs_shape() =~= img.shape@);
            assert(op.rhs_shape() =~= filters.shape@);
            assert(op.wf());
        }
        let (lhs, ltape) = img.split_tape();
        let (rhs, rtape) = filters.split_tape();
        let id = ids.fresh();
        let mut out_shape: Vec<usize> = Vec::new();
        out_shape.push(batch);
        out_shape.push(out_chan);
        out_shape.push(h_out);
        out_shape.push(w_out);
        assert(out_shape@ =~= op.out_shape());
        let mut out = match lhs.device.allocate::<4>(id, out_shape) {
            Ok(out) => out,
            Err(e) => {
                return Err(e);
            },
        };
        let tape = ltape.merge(rtape);
        assert(tape.entries() =~= self.1.tape.entries());
        let forwarded = lhs.device.forward(op, &lhs, &rhs, &mut out);
        record(op, lhs, rhs, out, tape, forwarded)
    }
}

/// What the convolution returns for each outcome of the forward kernel. After a failure
/// it is the failure, and nothing of the result is handed on. After a success it is the
/// result, which carries the tape with the backward entry of the call behind the entries
/// that were there.
pub fn record<E: Dtype, D: Conv2DKernel<E>, T: Tape<E, D>>(
    op: Conv2DOp,
    lhs: Tensor<E, D, NoneTape, 4>,
    rhs: Tensor<E, D, NoneTape, 4>,
    out: Tensor<E, D, NoneTape, 4>,
    tape: T,
    forwarded: Result<(), Error>,
) -> (r: Result<Tensor<E, D, T, 4>, Error>)
    requires
        op.wf(),
        lhs.shape@ == op.lhs_shape(),
        rhs.shape@ == op.rhs_shape(),
        out.shape@ == op.out_shape(),
        lhs.strides@.len() == 4,
        rhs.strides@.len() == 4,
        out.strides@.len() == 4,
        lhs.data@.len() == numel(op.lhs_shape()),
        rhs.data@.len() == numel(op.rhs_shape()),
        lhs.id != rhs.id,
        lhs.id != out.id,
        rhs.id != out.id,
        all_wf(tape.entries()),
    ensures
        forwarded matches Err(e) ==> r == Err::<Tensor<E, D, T, 4>, Error>(e),
        forwarded is Ok ==> (r matches Ok(t) && {
            &&& t.id == out.id
            &&& t.data == out.data
            &&& t.shape == out.shape
            &&& t.strides == out.strides
            &&& t.device == out.device
            &&& all_wf(t.tape.entries())
            &&& if T::records() {
                &&& t.tape.entries().len() == tape.entries().len() + 1
                &&& t.tape.entries().drop_last() == tape.entries()
                &&& conv2d_entry(t.tape.entries().last(), op, lhs, rhs, out.id)
            } else {
                t.tape.entries() == tape.entries()
            }
        }),
{
    match forwarded {
        Err(e) => Err(e),
        Ok(()) => {
            let mut tape = tape;
            let out_ghost = out.ghost();
            let entry = BackwardOp::Conv2D { op, lhs, rhs, out: out_ghost };
            assert(entry.wf());
            assert(conv2d_entry(entry, op, lhs, rhs, out.id));
            let ghost before = tape.entries();
            tape.add_backward_op(entry);
            proof {
                if T::records() {
                    assert(tape.entries().drop_last() =~= before);
                }
            }
            Ok(out.put_tape(tape))
        },
    }
}

/// The image has three dimensions and the filters suit it once it is read as a batch of
/// one; `ids` has three identities left, for the batch of one, for its convolution, and
/// for the result read without the batch.
pub open spec fn unbatched_defined<E: Dtype, D: Conv2DKernel<E>, T: Tape<E, D>>(
    ids: IdSource,
    img: Tensor<E, D, T, 3>,
    filters: Tensor<E, D, NoneTape, 4>,
    stride: nat,
    padding: nat,
    dilation: nat,
    groups: nat,
) -> bool {
    let as_batch = seq![1usize, img.shape@[0], img.shape@[1], img.shape@[2]];
    &&& img.wf()
    &&& img.is_contiguous()
    &&& filters.wf()
    &&& operands_valid(
        as_batch,
        crate::shapes::row_major_strides(as_batch),
        filters.shape@,
        filters.strides@,
        stride,
        padding,
        dilation,
        groups,
    )
    &&& img.id != filters.id
    &&& ids.issued(img.id)
    &&& ids.issued(filters.id)
    &&& ids.can_issue(3)
    &&& all_wf(img.tape.entries())
}

/// `out` is the convolution of the one image `img` with `filters`: what the batched
/// convolution gives for the batch of one, read without the batch. The tape has three
/// entries more: the reshape into the batch, the convolution, and the reshape out of it.
pub open spec fn unbatched_convolved<E: Dtype, D: Conv2DKernel<E>, T: Tape<E, D>>(
    ids: IdSource,
    img: Tensor<E, D, T, 3>,
    filters: Tensor<E, D, NoneTape, 4>,
    stride: nat,
    padding: nat,
    dilation: nat,
    groups: nat,
    out: Tensor<E, D, T, 3>,
) -> bool {
    let as_batch = seq![1usize, img.shape@[0], img.shape@[1], img.shape@[2]];
    let op = descriptor(as_batch, filters.shape@, stride, padding, dilation, groups);
    &&& op.wf()
    &&& out.wf()
    &&& out.is_contiguous()
    &&& out.id == UniqueId((ids.next + 2) as u64)
    &&& out.shape@ == seq![op.chan_out, op.h_out, op.w_out]
    &&& out.device == img.device
    &&& out.data@ == img.device.forward_spec(op, img.data@, filters.data@)
    &&& all_wf(out.tape.entries())
    &&& if T::records() {
        let recorded = out.tape.entries();
        let n = img.tape.entries().len() as int;
        &&& recorded.len() == n + 3
        &&& recorded.take(n) == img.tape.entries()
        &&& recorded[n] == BackwardOp::<E, D>::Reshape {
            inp_id: img.id,
            out_id: UniqueId(ids.next),
            numel: numel(img.shape@) as usize,
        }
        &&& recorded[n + 1] matches BackwardOp::Conv2D { op: entry_op, lhs, rhs, out: entry_out }
        &&& entry_op == op
        &&& lhs.id == UniqueId(ids.next)
        &&& lhs.data == img.data
        &&& lhs.shape@ == as_batch
        &&& rhs.id == filters.id
        &&& rhs.data == filters.data
        &&& rhs.shape == filters.shape
        &&& entry_out.id == UniqueId((ids.next + 1) as u64)
        &&& recorded[n + 2] == BackwardOp::<E, D>::Reshape {
            inp_id: UniqueId((ids.next + 1) as u64),
            out_id: out.id,
            numel: numel(op.out_shape()) as usize,
        }
    } else {
        out.tape.entries() == img.tape.entries()
    }
}

/// The convolution of one image, without a batch dimension, with a bank of filters.
impl<
    'a,
    Stride: Dim,
    Padding: Dim,
    Dilation: Dim,
    Groups: Dim,
    E: Dtype,
    D: Conv2DKernel<E>,
    T: Tape<E, D> + Merge<E, D, NoneTape>,
> TryConv2D<Stride, Padding, Dilation, Groups> for (
    &'a mut IdSource,
    Tensor<E, D, T, 3>,
    Tensor<E, D, NoneTape, 4>,
) {
    type Convolved = Tensor<E, D, T, 3>;

    open spec fn conv_defined(
        self,
        stride: Stride,
        padding: Padding,
        dilation: Dilation,
        groups: Groups,
    ) -> bool {
        unbatched_defined(
            *self.0,
            self.1,
            self.2,
            stride.extent(),
            padding.extent(),
            dilation.extent(),
            groups.extent(),
        )
    }

    open spec fn conv_unfailing(
        self,
        stride: Stride,
        padding: Padding,
        dilation: Dilation,
        groups: Groups,
    ) -> bool {
        self.1.device.unfailing()
    }

    open spec fn convolved(
        self,
        stride: Stride,
        padding: Padding,
        dilation: Dilation,
        groups: Groups,
        out: Tensor<E, D, T, 3>,
    ) -> bool {
        unbatched_convolved(
            *self.0,
            self.1,
            self.2,
            stride.extent(),
            padding.extent(),
            dilation.extent(),
            groups.extent(),
            out,
        )
    }

    fn conv2d(self, stride: Stride, padding: Padding, dilation: Dilation, groups: Groups) -> (out:
        Tensor<E, D, T, 3>)
        ensures
            final(self.0).next == old(self.0).next + 3,
    {
        match self.try_conv2d(stride, padding, dilation, groups) {
            Ok(out) => out,
            Err(_) => vstd::pervasive::unreached(),
        }
    }

    fn try_conv2d(self, stride: Stride, padding: Padding, dilation: Dilation, groups: Groups) -> (r:
        Result<Tensor<E, D, T, 3>, Error>)
        ensures
            old(self.0).next + 1 <= final(self.0).next <= old(self.0).next + 3,
            r is Ok ==> final(self.0).next == old(self.0).next + 3,
    {
        let (ids, img, filters) = self;
        let inp_chan = img.shape[0];
        let h = img.shape[1];
        let w = img.shape[2];
        let ghost as_batch = seq![1usize, inp_chan, h, w];
        let mut batch_shape: Vec<usize> = Vec::new();
        batch_shape.push(1);
        batch_shape.push(inp_chan);
        batch_shape.push(h);
        batch_shape.push(w);
        proof {
            assert(batch_shape@ =~= as_batch);
            lemma_batch_of_one(img.shape@);
        }
        let img = match try_reshape::<E, D, T, 3, 4>(ids, img, batch_shape) {
            Ok(t) => t,
            Err(e) => {
                return Err(e);
            },
        };
        let ghost batched = img;
        let ghost mid = *ids;
        let out = (&mut *ids, img, filters).try_conv2d(stride, padding, dilation, groups)?;
        let ghost op = descriptor(
            as_batch,
            filters.shape@,
            stride.extent(),
            padding.extent(),
            dilation.extent(),
            groups.extent(),
        );
        let out_chan = out.shape[1];
        let out_h = out.shape[2];
        let out_w = out.shape[3];
        let mut out_shape: Vec<usize> = Vec::new();
        out_shape.push(out_chan);
        out_shape.push(out_h);
        out_shape.push(out_w);
        proof {
            assert(out_shape@ =~= seq![op.chan_out, op.h_out, op.w_out]);
            assert(out.shape@ =~= seq![1usize, out_chan, out_h, out_w]);
            lemma_without_batch_of_one(out.shape@);
        }
        let ghost convolved = out;
        let r = try_reshape::<E, D, T, 4, 3>(ids, out, out_shape);
        proof {
            if T::records() {
                let res = r->Ok_0;
                let recorded = res.tape.entries();
                let n = self.1.tape.entries().len() as int;
                assert(batched.tape.entries() == self.1.tape.entries().push(
                    BackwardOp::<E, D>::Reshape {
                        inp_id: self.1.id,
                        out_id: UniqueId(old(self.0).next),
                        numel: numel(as_batch) as usize,
                    },
                ));
                assert(convolved.tape.entries().drop_last() == batched.tape.entries());
                assert(recorded == convolved.tape.entries().push(recorded[n + 2]));
                let c = convolved.tape.entries();
                let b = batched.tape.entries();
                let a = self.1.tape.entries();
                assert(b.len() == n + 1);
                assert(c.len() == n + 2);
                assert forall|i: int| 0 <= i < n + 1 implies recorded[i] == b[i] by {
                    assert(recorded[i] == c[i]);
                    assert(c[i] == c.drop_last()[i]);
                }
                assert(recorded.take(n) =~= a);
                assert(recorded[n] == batched.tape.entries()[n]);
                assert(recorded[n + 1] == convolved.tape.entries().last());
            }
        }
        r
    }
}

/// A batch of one read without its batch dimension has the same elements, and is
/// representable if the batch is.
pub proof fn lemma_without_batch_of_one(shape: Seq<usize>)
    requires
        shape.len() == 4,
        shape[0] == 1,
        representable(shape),
    ensures
        numel(seq![shape[1], shape[2], shape[3]]) == numel(shape),
        representable(seq![shape[1], shape[2], shape[3]]),
{
    let s = seq![shape[1], shape[2], shape[3]];
    reveal_with_fuel(crate::shapes::suffix_product, 6);
    assert(crate::shapes::suffix_product(shape, 4) == 1);
    assert(crate::shapes::suffix_product(s, 3) == 1);
    assert(crate::shapes::suffix_product(s, 2) == crate::shapes::suffix_product(shape, 3));
    assert(crate::shapes::suffix_product(s, 1) == crate::shapes::suffix_product(shape, 2));
    assert(crate::shapes::suffix_product(s, 0) == crate::shapes::suffix_product(shape, 1));
    assert(crate::shapes::suffix_product(shape, 0) == 1 * crate::shapes::suffix_product(shape, 1));
    assert forall|i: int| 0 <= i <= s.len() implies #[trigger] crate::shapes::suffix_product(s, i)
        <= usize::MAX by {
        if i == 0 {
            assert(crate::shapes::suffix_product(shape, 1) <= usize::MAX);
        } else if i == 1 {
            assert(crate::shapes::suffix_product(shape, 2) <= usize::MAX);
        } else if i == 2 {
            assert(crate::shapes::suffix_product(shape, 3) <= usize::MAX);
        } else {
        }
    }
}

/// A shape read as a batch of one has the same elements, and is representable if the
/// shape is.
pub proof fn lemma_batch_of_one(shape: Seq<usize>)
    requires
        shape.len() == 3,
        representable(shape),
    ensures
        numel(seq![1usize, shape[0], shape[1], shape[2]]) == numel(shape),
        representable(seq![1usize, shape[0], shape[1], shape[2]]),
{
    let b = seq![1usize, shape[0], shape[1], shape[2]];
    reveal_with_fuel(crate::shapes::suffix_product, 6);
    assert(crate::shapes::suffix_product(shape, 3) == 1);
    assert(crate::shapes::suffix_product(b, 4) == 1);
    assert(crate::shapes::suffix_product(b, 3) == crate::shapes::suffix_product(shape, 2));
    assert(crate::shapes::suffix_product(b, 2) == crate::shapes::suffix_product(shape, 1));
    assert(crate::shapes::suffix_product(b, 1) == crate::shapes::suffix_product(shape, 0));
    assert(crate::shapes::suffix_product(b, 0) == 1 * crate::shapes::suffix_product(b, 1));
    assert forall|i: int| 0 <= i <= b.len() implies #[trigger] crate::shapes::suffix_product(b, i)
        <= usize::MAX by {
        if i == 0 {
        } else if i == 1 {
            assert(crate::shapes::suffix_product(shape, 0) <= usize::MAX);
        } else if i == 2 {
            assert(crate::shapes::suffix_product(shape, 1) <= usize::MAX);
        } else if i == 3 {
            assert(crate::shapes::suffix_product(shape, 2) <= usize::MAX);
        } else {
        }
    }
}

} // verus!
