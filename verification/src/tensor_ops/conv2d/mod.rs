pub mod const_dims;
pub mod cpu_kernel;
pub mod tensors;

use crate::dtypes::Dtype;
use crate::gradients::accumulated;
use crate::shapes::{is_representable, numel, representable, Dim};
use crate::tensor::{Error, GhostTensor, NoneTape, Tensor, UniqueId};
use vstd::prelude::*;

verus! {

/// The extent that a convolution produces along one axis:
/// `floor((dim + 2 * padding - dilation * (kernel - 1) - 1) / stride) + 1`.
pub open spec fn conv_extent(dim: int, kernel: int, stride: int, padding: int, dilation: int) -> int {
    (dim + 2 * padding - dilation * (kernel - 1) - 1) / stride + 1
}

/// The parameters give an extent: the stride and the kernel are at least 1, and the
/// dilated kernel is no wider than the padded input.
pub open spec fn extent_defined(dim: int, kernel: int, stride: int, padding: int, dilation: int) -> bool {
    &&& stride >= 1
    &&& kernel >= 1
    &&& dilation * (kernel - 1) + 1 <= dim + 2 * padding
}

/// Every scalar of one convolution: what the forward and the backward kernel need to know
/// of it, without going back to the shapes of the operands.
#[derive(Debug, Clone, Copy, PartialEq, Eq)]
pub struct Conv2DOp {
    pub kernel: usize,
    pub stride: usize,
    pub padding: usize,
    pub dilation: usize,
    pub groups: usize,
    pub batch: usize,
    pub chan_in: usize,
    pub chan_out: usize,
    pub h_in: usize,
    pub h_out: usize,
    pub w_in: usize,
    pub w_out: usize,
}

impl Conv2DOp {
    /// The shape of the image: batch, input channels, height, width.
    pub open spec fn lhs_shape(&self) -> Seq<usize> {
        seq![self.batch, self.chan_in, self.h_in, self.w_in]
    }

    /// The shape of the filters: output channels, input channels of one group, and the
    /// square kernel.
    pub open spec fn rhs_shape(&self) -> Seq<usize> {
        seq![self.chan_out, (self.chan_in / self.groups) as usize, self.kernel, self.kernel]
    }

    /// The shape of the result: batch, output channels, and the resolved extents.
    pub open spec fn out_shape(&self) -> Seq<usize> {
        seq![self.batch, self.chan_out, self.h_out, self.w_out]
    }

    /// The descriptor is one that the dispatch can have built: the groups divide both
    /// channel counts, both output extents are the resolved ones, and the three shapes
    /// are representable.
    pub open spec fn wf(&self) -> bool {
        &&& self.groups >= 1
        &&& self.chan_in % self.groups == 0
        &&& self.chan_out % self.groups == 0
        &&& extent_defined(
            self.h_in as int,
            self.kernel as int,
            self.stride as int,
            self.padding as int,
            self.dilation as int,
        )
        &&& extent_defined(
            self.w_in as int,
            self.kernel as int,
            self.stride as int,
            self.padding as int,
            self.dilation as int,
        )
        &&& self.h_in + 2 * self.padding <= usize::MAX
        &&& self.w_in + 2 * self.padding <= usize::MAX
        &&& self.h_out == conv_extent(
            self.h_in as int,
            self.kernel as int,
            self.stride as int,
            self.padding as int,
            self.dilation as int,
        )
        &&& self.w_out == conv_extent(
            self.w_in as int,
            self.kernel as int,
            self.stride as int,
            self.padding as int,
            self.dilation as int,
        )
        &&& representable(self.lhs_shape())
        &&& representable(self.rhs_shape())
        &&& representable(self.out_shape())
    }
}

/// What a backend offers to the convolution: a buffer for the result, the forward kernel
/// and the backward kernel.
///
/// A backend is deterministic: what its kernels compute is a function of their inputs,
/// given by the three spec functions. Whether a call succeeds is the backend's affair,
/// unless it is [`Conv2DKernel::unfailing`].
pub trait Conv2DKernel<E: Dtype>: Sized {
    /// No call of this backend fails.
    spec fn unfailing(&self) -> bool;

    /// The elements of the result, in row-major order.
    spec fn forward_spec(&self, op: Conv2DOp, lhs: Seq<E>, rhs: Seq<E>) -> Seq<E>;

    /// What the gradient of the result contributes to the gradient of the image.
    spec fn lhs_gradient(&self, op: Conv2DOp, rhs: Seq<E>, grad_out: Seq<E>) -> Seq<E>;

    /// What the gradient of the result contributes to the gradient of the filters.
    spec fn rhs_gradient(&self, op: Conv2DOp, lhs: Seq<E>, grad_out: Seq<E>) -> Seq<E>;

    /// A contiguous tensor of the given shape under the given identity. Nothing is
    /// promised of its elements.
    fn allocate<const N: usize>(&self, id: UniqueId, shape: Vec<usize>) -> (r: Result<
        Tensor<E, Self, NoneTape, N>,
        Error,
    >)
        requires
            shape@.len() == N,
            representable(shape@),
        ensures
            self.unfailing() ==> r is Ok,
            r matches Ok(t) ==> {
                &&& t.wf()
                &&& t.is_contiguous()
                &&& t.id == id
                &&& t.shape@ == shape@
                &&& t.device == *self
                &&& t.data@.len() == numel(shape@)
            },
    ;

    /// Writes the convolution of `lhs` and `rhs` over every element of `out`.
    fn forward(
        &self,
        op: Conv2DOp,
        lhs: &Tensor<E, Self, NoneTape, 4>,
        rhs: &Tensor<E, Self, NoneTape, 4>,
        out: &mut Tensor<E, Self, NoneTape, 4>,
    ) -> (r: Result<(), Error>)
        requires
            op.wf(),
            lhs.data@.len() == numel(op.lhs_shape()),
            rhs.data@.len() == numel(op.rhs_shape()),
            old(out).data@.len() == numel(op.out_shape()),
        ensures
            self.unfailing() ==> r is Ok,
            final(out).id == old(out).id,
            final(out).shape == old(out).shape,
            final(out).strides == old(out).strides,
            final(out).device == old(out).device,
            final(out).data@.len() == old(out).data@.len(),
            r is Ok ==> final(out).data@ == self.forward_spec(op, lhs.data@, rhs.data@),
    ;

    /// Adds into `grad_lhs` and `grad_rhs` what `grad_out` contributes to them. Neither
    /// is overwritten.
    fn backward(
        &self,
        op: Conv2DOp,
        lhs: &Tensor<E, Self, NoneTape, 4>,
        grad_lhs: &mut Vec<E>,
        rhs: &Tensor<E, Self, NoneTape, 4>,
        grad_rhs: &mut Vec<E>,
        out: &GhostTensor<4>,
        grad_out: &Vec<E>,
    ) -> (r: Result<(), Error>)
        requires
            op.wf(),
            lhs.data@.len() == numel(op.lhs_shape()),
            rhs.data@.len() == numel(op.rhs_shape()),
            old(grad_lhs)@.len() == numel(op.lhs_shape()),
            old(grad_rhs)@.len() == numel(op.rhs_shape()),
            grad_out@.len() == numel(op.out_shape()),
        ensures
            self.unfailing() ==> r is Ok,
            final(grad_lhs)@.len() == old(grad_lhs)@.len(),
            final(grad_rhs)@.len() == old(grad_rhs)@.len(),
            r is Ok ==> final(grad_lhs)@ == accumulated(
                old(grad_lhs)@,
                self.lhs_gradient(op, rhs.data@, grad_out@),
            ),
            r is Ok ==> final(grad_rhs)@ == accumulated(
                old(grad_rhs)@,
                self.rhs_gradient(op, lhs.data@, grad_out@),
            ),
    ;
}

/// A convolution of two operands, which are two dimensions (an input extent and a kernel
/// extent) or two tensors (an image and a bank of filters).
///
/// On dimensions it resolves the output extent and cannot fail. On tensors it validates
/// the operands, runs the backend's forward kernel and records the backward computation.
pub trait TryConv2D<Stride, Padding, Dilation, Groups>: Sized {
    type Convolved;

    /// The operands and parameters are well-formed. A call outside this is a mistake of
    /// the caller, not a failure of the backend.
    spec fn conv_defined(
        self,
        stride: Stride,
        padding: Padding,
        dilation: Dilation,
        groups: Groups,
    ) -> bool;

    /// Nothing that the operation relies on can fail.
    spec fn conv_unfailing(
        self,
        stride: Stride,
        padding: Padding,
        dilation: Dilation,
        groups: Groups,
    ) -> bool;

    /// `out` is the convolution of the operands.
    spec fn convolved(
        self,
        stride: Stride,
        padding: Padding,
        dilation: Dilation,
        groups: Groups,
        out: Self::Convolved,
    ) -> bool;

    /// Applies a 2D convolution, where nothing can fail.
    fn conv2d(self, stride: Stride, padding: Padding, dilation: Dilation, groups: Groups) -> (out:
        Self::Convolved)
        requires
            self.conv_defined(stride, padding, dilation, groups),
            self.conv_unfailing(stride, padding, dilation, groups),
        ensures
            self.convolved(stride, padding, dilation, groups, out),
    {
        match self.try_conv2d(stride, padding, dilation, groups) {
            Ok(out) => out,
            Err(_) => vstd::pervasive::unreached(),
        }
    }

    /// Applies a 2D convolution, or returns the backend's failure.
    fn try_conv2d(
        self,
        stride: Stride,
        padding: Padding,
        dilation: Dilation,
        groups: Groups,
    ) -> (r: Result<Self::Convolved, Error>)
        requires
            self.conv_defined(stride, padding, dilation, groups),
        ensures
            self.conv_unfailing(stride, padding, dilation, groups) ==> r is Ok,
            r matches Ok(out) ==> self.convolved(stride, padding, dilation, groups, out),
    ;
}

/// The output extent for an input extent known at run time.
impl<Kernel: Dim, Stride: Dim, Padding: Dim, Dilation: Dim, Groups: Dim> TryConv2D<
    Stride,
    Padding,
    Dilation,
    Groups,
> for (usize, Kernel) {
    type Convolved = usize;

    open spec fn conv_defined(
        self,
        stride: Stride,
        padding: Padding,
        dilation: Dilation,
        groups: Groups,
    ) -> bool {
        &&& extent_defined(
            self.0 as int,
            self.1.extent() as int,
            stride.extent() as int,
            padding.extent() as int,
            dilation.extent() as int,
        )
        &&& self.0 + 2 * padding.extent() <= usize::MAX
    }

    open spec fn conv_unfailing(
        self,
        stride: Stride,
        padding: Padding,
        dilation: Dilation,
        groups: Groups,
    ) -> bool {
        true
    }

    open spec fn convolved(
        self,
        stride: Stride,
        padding: Padding,
        dilation: Dilation,
        groups: Groups,
        out: usize,
    ) -> bool {
        out == conv_extent(
            self.0 as int,
            self.1.extent() as int,
            stride.extent() as int,
            padding.extent() as int,
            dilation.extent() as int,
        )
    }

    fn try_conv2d(self, stride: Stride, padding: Padding, dilation: Dilation, groups: Groups) -> (r:
        Result<usize, Error>) {
        let (dim, kernel) = self;
        let reach: usize = dilation.size() * (kernel.size() - 1);
        let padded: usize = dim + 2 * padding.size();
        let steps: usize = (padded - 1 - reach) / stride.size();
        assert(steps <= padded);
        Ok(steps + 1)
    }
}

/// The output extent, or `None` where the parameters give none or the padded input does
/// not fit in `usize`.
pub fn resolve_extent(dim: usize, kernel: usize, stride: usize, padding: usize, dilation: usize) -> (r:
    Option<usize>)
    ensures
        r is Some <==> extent_defined(
            dim as int,
            kernel as int,
            stride as int,
            padding as int,
            dilation as int,
        ) && dim + 2 * padding <= usize::MAX,
        r matches Some(n) ==> n == conv_extent(
            dim as int,
            kernel as int,
            stride as int,
            padding as int,
            dilation as int,
        ),
{
    if stride == 0 || kernel == 0 {
        return None;
    }
    let padded = match padding.checked_mul(2) {
        Some(twice) => match dim.checked_add(twice) {
            Some(padded) => padded,
            None => {
                return None;
            },
        },
        None => {
            return None;
        },
    };
    match dilation.checked_mul(kernel - 1) {
        Some(reach) => {
            if reach >= padded {
                return None;
            }
            Some((dim, kernel).conv2d(stride, padding, dilation, 1usize))
        },
        None => None,
    }
}

impl Conv2DOp {
    /// Whether the descriptor is well-formed.
    pub fn is_wf(&self) -> (ok: bool)
        ensures
            ok == self.wf(),
    {
        if self.groups == 0 || self.chan_in % self.groups != 0 || self.chan_out % self.groups != 0 {
            return false;
        }
        match resolve_extent(self.h_in, self.kernel, self.stride, self.padding, self.dilation) {
            Some(n) => {
                if n != self.h_out {
                    return false;
                }
            },
            None => {
                return false;
            },
        }
        match resolve_extent(self.w_in, self.kernel, self.stride, self.padding, self.dilation) {
            Some(n) => {
                if n != self.w_out {
                    return false;
                }
            },
            None => {
                return false;
            },
        }
        let mut lhs: Vec<usize> = Vec::new();
        lhs.push(self.batch);
        lhs.push(self.chan_in);
        lhs.push(self.h_in);
        lhs.push(self.w_in);
        assert(lhs@ =~= self.lhs_shape());
        let mut rhs: Vec<usize> = Vec::new();
        rhs.push(self.chan_out);
        rhs.push(self.chan_in / self.groups);
        rhs.push(self.kernel);
        rhs.push(self.kernel);
        assert(rhs@ =~= self.rhs_shape());
        let mut out: Vec<usize> = Vec::new();
        out.push(self.batch);
        out.push(self.chan_out);
        out.push(self.h_out);
        out.push(self.w_out);
        assert(out@ =~= self.out_shape());
        is_representable(&lhs) && is_representable(&rhs) && is_representable(&out)
    }
}

/// The resolved extent depends on the sizes alone, not on whether a size is fixed in the
/// type or known at run time: two calls whose kernel, stride, padding and dilation have
/// the same sizes are well-formed together and resolve the same extent.
pub proof fn lemma_extent_same_for_every_kind<
    KernelA: Dim,
    StrideA: Dim,
    PaddingA: Dim,
    DilationA: Dim,
    GroupsA: Dim,
    KernelB: Dim,
    StrideB: Dim,
    PaddingB: Dim,
    DilationB: Dim,
    GroupsB: Dim,
>(
    dim: usize,
    a: (KernelA, StrideA, PaddingA, DilationA, GroupsA),
    b: (KernelB, StrideB, PaddingB, DilationB, GroupsB),
    out_a: usize,
    out_b: usize,
)
    requires
        a.0.extent() == b.0.extent(),
        a.1.extent() == b.1.extent(),
        a.2.extent() == b.2.extent(),
        a.3.extent() == b.3.extent(),
        (dim, a.0).convolved(a.1, a.2, a.3, a.4, out_a),
        (dim, b.0).convolved(b.1, b.2, b.3, b.4, out_b),
    ensures
        out_a == out_b,
        (dim, a.0).conv_defined(a.1, a.2, a.3, a.4) == (dim, b.0).conv_defined(b.1, b.2, b.3, b.4),
{
}

/// Where the parameters give an extent, it is at least 1 and, times the stride, stays
/// within the padded input: the last window ends inside it.
pub proof fn lemma_extent_bounds(dim: int, kernel: int, stride: int, padding: int, dilation: int)
    requires
        extent_defined(dim, kernel, stride, padding, dilation),
    ensures
        conv_extent(dim, kernel, stride, padding, dilation) >= 1,
        (conv_extent(dim, kernel, stride, padding, dilation) - 1) * stride + dilation * (kernel - 1)
            + 1 <= dim + 2 * padding,
        conv_extent(dim, kernel, stride, padding, dilation) * stride + dilation * (kernel - 1) + 1
            > dim + 2 * padding,
{
    let n = dim + 2 * padding - dilation * (kernel - 1) - 1;
    assert(n >= 0);
    vstd::arithmetic::div_mod::lemma_fundamental_div_mod(n, stride);
    vstd::arithmetic::div_mod::lemma_div_pos_is_pos(n, stride);
    vstd::arithmetic::div_mod::lemma_mod_bound(n, stride);
    let q = n / stride;
    assert(n == stride * q + n % stride);
    assert((q + 1 - 1) * stride == stride * q) by (nonlinear_arith);
    assert((q + 1) * stride == stride * q + stride) by (nonlinear_arith);
}

} // verus!
