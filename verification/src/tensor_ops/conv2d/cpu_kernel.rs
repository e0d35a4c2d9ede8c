use crate::dtypes::Dtype;
use crate::shapes::{default_strides, lemma_numel_rank4, num_elements, numel};
use crate::tensor::{Error, GhostTensor, NoneTape, Tensor, UniqueId};
use crate::tensor_ops::conv2d::{lemma_extent_bounds, Conv2DKernel, Conv2DOp};
use vstd::prelude::*;

verus! {

/// The position of element `(a, b, c, d)` in the row-major buffer of a tensor whose last
/// three dimensions are `d1`, `d2` and `d3`.
pub open spec fn offset4(d1: int, d2: int, d3: int, a: int, b: int, c: int, d: int) -> int {
    ((a * d1 + b) * d2 + c) * d3 + d
}

impl Conv2DOp {
    /// The input channels that one group of filters reads.
    pub open spec fn chans_per_group(&self) -> int {
        self.chan_in as int / self.groups as int
    }

    /// The output channels that one group of filters writes.
    pub open spec fn outs_per_group(&self) -> int {
        self.chan_out as int / self.groups as int
    }

    /// The position of `img[b, ci, y, x]` in the buffer of the image.
    pub open spec fn lhs_index(&self, b: int, ci: int, y: int, x: int) -> int {
        offset4(self.chan_in as int, self.h_in as int, self.w_in as int, b, ci, y, x)
    }

    /// The position of `filters[o, c, k1, k2]` in the buffer of the filters.
    pub open spec fn rhs_index(&self, o: int, c: int, k1: int, k2: int) -> int {
        offset4(self.chans_per_group(), self.kernel as int, self.kernel as int, o, c, k1, k2)
    }

    /// The position of `out[b, o, oy, ox]` in the buffer of the result.
    pub open spec fn out_index(&self, b: int, o: int, oy: int, ox: int) -> int {
        offset4(self.chan_out as int, self.h_out as int, self.w_out as int, b, o, oy, ox)
    }

    /// The input channel that output channel `o` reads as the `c`-th of its group.
    pub open spec fn in_channel(&self, o: int, c: int) -> int {
        (o / self.outs_per_group()) * self.chans_per_group() + c
    }

    /// Where, along one axis of the unpadded input, the `k`-th tap of the kernel lands
    /// when the window stands at output position `pos`. Outside `0..dim` it lands in the
    /// padding.
    pub open spec fn source(&self, pos: int, k: int) -> int {
        pos * self.stride + self.dilation * k - self.padding
    }
}

/// With `a < d0` and `b < d1`, the row-major position of `(a, b)` is below `d0 * d1`.
pub proof fn lemma_offset2(d0: int, d1: int, a: int, b: int)
    requires
        0 <= a < d0,
        0 <= b < d1,
    ensures
        0 <= a * d1 + b < d0 * d1,
        0 <= a * d1,
{
    assert(a * d1 + b < d0 * d1) by (nonlinear_arith)
        requires
            0 <= a < d0,
            0 <= b < d1,
    ;
    assert(0 <= a * d1) by (nonlinear_arith)
        requires
            0 <= a,
            0 <= d1,
    ;
}

/// Every index within the shape has its row-major position within the buffer, and so has
/// each partial position on the way.
pub proof fn lemma_offset4(d0: int, d1: int, d2: int, d3: int, a: int, b: int, c: int, d: int)
    requires
        0 <= a < d0,
        0 <= b < d1,
        0 <= c < d2,
        0 <= d < d3,
    ensures
        0 <= a * d1 + b < d0 * d1,
        0 <= (a * d1 + b) * d2 + c < d0 * d1 * d2,
        0 <= offset4(d1, d2, d3, a, b, c, d) < d0 * (d1 * (d2 * d3)),
        0 <= a * d1 <= a * d1 + b < d0 * (d1 * (d2 * d3)),
        0 <= (a * d1 + b) * d2 <= (a * d1 + b) * d2 + c < d0 * (d1 * (d2 * d3)),
        0 <= ((a * d1 + b) * d2 + c) * d3 <= d0 * (d1 * (d2 * d3)),
{
    lemma_offset2(d0, d1, a, b);
    lemma_offset2(d0 * d1, d2, a * d1 + b, c);
    lemma_offset2(d0 * d1 * d2, d3, (a * d1 + b) * d2 + c, d);
    assert(d0 * d1 * d2 * d3 == d0 * (d1 * (d2 * d3))) by (nonlinear_arith);
    assert(d0 * d1 * d2 <= d0 * d1 * d2 * d3) by (nonlinear_arith)
        requires
            0 <= d0 * d1 * d2,
            1 <= d3,
    ;
    assert(d0 * d1 <= d0 * d1 * d2) by (nonlinear_arith)
        requires
            0 <= d0 * d1,
            1 <= d2,
    ;
}

/// The position of element `(a, b, c, d)` in a row-major buffer.
pub fn offset_of(
    d0: usize,
    d1: usize,
    d2: usize,
    d3: usize,
    a: usize,
    b: usize,
    c: usize,
    d: usize,
) -> (i: usize)
    requires
        a < d0,
        b < d1,
        c < d2,
        d < d3,
        d0 * (d1 * (d2 * d3)) <= usize::MAX,
    ensures
        i == offset4(d1 as int, d2 as int, d3 as int, a as int, b as int, c as int, d as int),
        i < d0 * (d1 * (d2 * d3)),
{
    proof {
        lemma_offset4(
            d0 as int,
            d1 as int,
            d2 as int,
            d3 as int,
            a as int,
            b as int,
            c as int,
            d as int,
        );
    }
    ((a * d1 + b) * d2 + c) * d3 + d
}

/// What a well-formed descriptor says of its channels: both counts are whole groups, an
/// output channel lies in one group, and the input channels of that group lie within the
/// image.
pub proof fn lemma_group_channels(op: Conv2DOp, o: int, c: int)
    requires
        op.wf(),
        0 <= o < op.chan_out,
        0 <= c < op.chans_per_group(),
    ensures
        op.chan_in == op.chans_per_group() * op.groups,
        op.chan_out == op.outs_per_group() * op.groups,
        op.outs_per_group() >= 1,
        0 <= o / op.outs_per_group() < op.groups,
        0 <= (o / op.outs_per_group()) * op.chans_per_group(),
        0 <= op.in_channel(o, c) < op.chan_in,
{
    let g = op.groups as int;
    vstd::arithmetic::div_mod::lemma_fundamental_div_mod(op.chan_in as int, g);
    vstd::arithmetic::div_mod::lemma_fundamental_div_mod(op.chan_out as int, g);
    let cpg = op.chans_per_group();
    let opg = op.outs_per_group();
    assert(op.chan_in == g * cpg);
    assert(op.chan_out == g * opg);
    assert(g * cpg == cpg * g) by (nonlinear_arith);
    assert(g * opg == opg * g) by (nonlinear_arith);
    assert(opg >= 1) by (nonlinear_arith)
        requires
            g * opg > 0,
            g >= 1,
    ;
    vstd::arithmetic::div_mod::lemma_multiply_divide_lt(o, opg, g);
    vstd::arithmetic::div_mod::lemma_div_pos_is_pos(o, opg);
    lemma_offset2(g, cpg, o / opg, c);
}

/// The taps of a window that stands within the output land within the padded input, so
/// their positions fit in `usize`.
pub proof fn lemma_window(
    dim: int,
    kernel: int,
    stride: int,
    padding: int,
    dilation: int,
    pos: int,
    k: int,
)
    requires
        crate::tensor_ops::conv2d::extent_defined(dim, kernel, stride, padding, dilation),
        0 <= dilation,
        0 <= pos < crate::tensor_ops::conv2d::conv_extent(dim, kernel, stride, padding, dilation),
        0 <= k < kernel,
    ensures
        0 <= pos * stride,
        0 <= dilation * k,
        pos * stride + dilation * k < dim + 2 * padding,
{
    lemma_extent_bounds(dim, kernel, stride, padding, dilation);
    let n = crate::tensor_ops::conv2d::conv_extent(dim, kernel, stride, padding, dilation);
    assert(pos * stride <= (n - 1) * stride) by (nonlinear_arith)
        requires
            0 <= pos <= n - 1,
            stride >= 1,
    ;
    assert(dilation * k <= dilation * (kernel - 1)) by (nonlinear_arith)
        requires
            0 <= k <= kernel - 1,
            0 <= dilation,
    ;
    assert(0 <= pos * stride) by (nonlinear_arith)
        requires
            0 <= pos,
            stride >= 1,
    ;
    assert(0 <= dilation * k) by (nonlinear_arith)
        requires
            0 <= k,
            0 <= dilation,
    ;
}

/// The sum, over the first `n` columns of the kernel, of the products of an input element
/// and the filter element laid over it. A tap that lands in the padding adds nothing.
pub open spec fn fwd_cols<E: Dtype>(
    op: Conv2DOp,
    lhs: Seq<E>,
    rhs: Seq<E>,
    b: int,
    o: int,
    oy: int,
    ox: int,
    c: int,
    k1: int,
    n: int,
) -> E
    decreases n,
{
    if n <= 0 {
        E::zero_value()
    } else {
        let before = fwd_cols(op, lhs, rhs, b, o, oy, ox, c, k1, n - 1);
        let x = op.source(ox, n - 1);
        if 0 <= x < op.w_in {
            before.sum(
                lhs[op.lhs_index(b, op.in_channel(o, c), op.source(oy, k1), x)].product(
                    rhs[op.rhs_index(o, c, k1, n - 1)],
                ),
            )
        } else {
            before
        }
    }
}

/// The sum of [`fwd_cols`] over the first `n` rows of the kernel. A row that lands in the
/// padding adds nothing.
pub open spec fn fwd_rows<E: Dtype>(
    op: Conv2DOp,
    lhs: Seq<E>,
    rhs: Seq<E>,
    b: int,
    o: int,
    oy: int,
    ox: int,
    c: int,
    n: int,
) -> E
    decreases n,
{
    if n <= 0 {
        E::zero_value()
    } else {
        let before = fwd_rows(op, lhs, rhs, b, o, oy, ox, c, n - 1);
        let y = op.source(oy, n - 1);
        if 0 <= y < op.h_in {
            before.sum(fwd_cols(op, lhs, rhs, b, o, oy, ox, c, n - 1, op.kernel as int))
        } else {
            before
        }
    }
}

/// The sum of [`fwd_rows`] over the first `n` input channels of the group.
pub open spec fn fwd_chans<E: Dtype>(
    op: Conv2DOp,
    lhs: Seq<E>,
    rhs: Seq<E>,
    b: int,
    o: int,
    oy: int,
    ox: int,
    n: int,
) -> E
    decreases n,
{
    if n <= 0 {
        E::zero_value()
    } else {
        fwd_chans(op, lhs, rhs, b, o, oy, ox, n - 1).sum(
            fwd_rows(op, lhs, rhs, b, o, oy, ox, n - 1, op.kernel as int),
        )
    }
}

/// The element `out[b, o, oy, ox]` of the convolution: the cross-correlation of the
/// kernel window at `(oy, ox)` with the input channels of the group of `o`.
pub open spec fn forward_at<E: Dtype>(
    op: Conv2DOp,
    lhs: Seq<E>,
    rhs: Seq<E>,
    b: int,
    o: int,
    oy: int,
    ox: int,
) -> E {
    fwd_chans(op, lhs, rhs, b, o, oy, ox, op.chans_per_group())
}

/// The convolution of `lhs` with `rhs`, in row-major order.
pub open spec fn conv2d_forward<E: Dtype>(op: Conv2DOp, lhs: Seq<E>, rhs: Seq<E>) -> Seq<E> {
    Seq::new(
        numel(op.out_shape()),
        |i: int|
            forward_at(
                op,
                lhs,
                rhs,
                i / (op.w_out as int) / (op.h_out as int) / (op.chan_out as int),
                i / (op.w_out as int) / (op.h_out as int) % (op.chan_out as int),
                i / (op.w_out as int) % (op.h_out as int),
                i % (op.w_out as int),
            ),
    )
}

/// The operands are those of the descriptor, and `(b, o, oy, ox)` is a position of the
/// result.
pub open spec fn at_output<E>(
    op: Conv2DOp,
    lhs: Seq<E>,
    rhs: Seq<E>,
    b: int,
    o: int,
    oy: int,
    ox: int,
) -> bool {
    &&& op.wf()
    &&& lhs.len() == numel(op.lhs_shape())
    &&& rhs.len() == numel(op.rhs_shape())
    &&& 0 <= b < op.batch
    &&& 0 <= o < op.chan_out
    &&& 0 <= oy < op.h_out
    &&& 0 <= ox < op.w_out
}

fn forward_cols<E: Dtype>(
    op: &Conv2DOp,
    lhs: &Vec<E>,
    rhs: &Vec<E>,
    b: usize,
    o: usize,
    oy: usize,
    ox: usize,
    c: usize,
    k1: usize,
) -> (v: E)
    requires
        at_output(*op, lhs@, rhs@, b as int, o as int, oy as int, ox as int),
        c < op.chans_per_group(),
        k1 < op.kernel,
        0 <= op.source(oy as int, k1 as int) < op.h_in,
    ensures
        v == fwd_cols(
            *op,
            lhs@,
            rhs@,
            b as int,
            o as int,
            oy as int,
            ox as int,
            c as int,
            k1 as int,
            op.kernel as int,
        ),
{
    let cpg = op.chan_in / op.groups;
    proof {
        lemma_group_channels(*op, o as int, c as int);
        lemma_window(
            op.h_in as int,
            op.kernel as int,
            op.stride as int,
            op.padding as int,
            op.dilation as int,
            oy as int,
            k1 as int,
        );
        lemma_numel_rank4(op.lhs_shape());
        lemma_numel_rank4(op.rhs_shape());
    }
    let opg = op.chan_out / op.groups;
    let ci = (o / opg) * cpg + c;
    let y = oy * op.stride + op.dilation * k1 - op.padding;
    let mut acc = E::zero();
    let mut k2: usize = 0;
    while k2 < op.kernel
        invariant
            k2 <= op.kernel,
            at_output(*op, lhs@, rhs@, b as int, o as int, oy as int, ox as int),
            c < cpg,
            cpg == op.chans_per_group(),
            k1 < op.kernel,
            ci == op.in_channel(o as int, c as int),
            ci < op.chan_in,
            y == op.source(oy as int, k1 as int),
            y < op.h_in,
            lhs@.len() == op.batch * (op.chan_in * (op.h_in * op.w_in)),
            rhs@.len() == op.chan_out * (cpg * (op.kernel * op.kernel)),
            acc == fwd_cols(
                *op,
                lhs@,
                rhs@,
                b as int,
                o as int,
                oy as int,
                ox as int,
                c as int,
                k1 as int,
                k2 as int,
            ),
        decreases op.kernel - k2,
    {
        proof {
            lemma_window(
                op.w_in as int,
                op.kernel as int,
                op.stride as int,
                op.padding as int,
                op.dilation as int,
                ox as int,
                k2 as int,
            );
        }
        let reach = ox * op.stride + op.dilation * k2;
        if reach >= op.padding && reach - op.padding < op.w_in {
            let x = reach - op.padding;
            let l = lhs[offset_of(op.batch, op.chan_in, op.h_in, op.w_in, b, ci, y, x)];
            let r = rhs[offset_of(op.chan_out, cpg, op.kernel, op.kernel, o, c, k1, k2)];
            acc = acc.plus(l.times(r));
        }
        k2 = k2 + 1;
    }
    acc
}

fn forward_rows<E: Dtype>(
    op: &Conv2DOp,
    lhs: &Vec<E>,
    rhs: &Vec<E>,
    b: usize,
    o: usize,
    oy: usize,
    ox: usize,
    c: usize,
) -> (v: E)
    requires
        at_output(*op, lhs@, rhs@, b as int, o as int, oy as int, ox as int),
        c < op.chans_per_group(),
    ensures
        v == fwd_rows(
            *op,
            lhs@,
            rhs@,
            b as int,
            o as int,
            oy as int,
            ox as int,
            c as int,
            op.kernel as int,
        ),
{
    let mut acc = E::zero();
    let mut k1: usize = 0;
    while k1 < op.kernel
        invariant
            k1 <= op.kernel,
            at_output(*op, lhs@, rhs@, b as int, o as int, oy as int, ox as int),
            c < op.chans_per_group(),
            acc == fwd_rows(
                *op,
                lhs@,
                rhs@,
                b as int,
                o as int,
                oy as int,
                ox as int,
                c as int,
                k1 as int,
            ),
        decreases op.kernel - k1,
    {
        proof {
            lemma_window(
                op.h_in as int,
                op.kernel as int,
                op.stride as int,
                op.padding as int,
                op.dilation as int,
                oy as int,
                k1 as int,
            );
        }
        let reach = oy * op.stride + op.dilation * k1;
        if reach >= op.padding && reach - op.padding < op.h_in {
            let cols = forward_cols(op, lhs, rhs, b, o, oy, ox, c, k1);
            acc = acc.plus(cols);
        }
        k1 = k1 + 1;
    }
    acc
}

/// The element `out[b, o, oy, ox]` of the convolution.
pub fn forward_element<E: Dtype>(
    op: &Conv2DOp,
    lhs: &Vec<E>,
    rhs: &Vec<E>,
    b: usize,
    o: usize,
    oy: usize,
    ox: usize,
) -> (v: E)
    requires
        at_output(*op, lhs@, rhs@, b as int, o as int, oy as int, ox as int),
    ensures
        v == forward_at(*op, lhs@, rhs@, b as int, o as int, oy as int, ox as int),
{
    let cpg = op.chan_in / op.groups;
    let mut acc = E::zero();
    let mut c: usize = 0;
    while c < cpg
        invariant
            c <= cpg,
            cpg == op.chans_per_group(),
            at_output(*op, lhs@, rhs@, b as int, o as int, oy as int, ox as int),
            acc == fwd_chans(*op, lhs@, rhs@, b as int, o as int, oy as int, ox as int, c as int),
        decreases cpg - c,
    {
        let rows = forward_rows(op, lhs, rhs, b, o, oy, ox, c);
        acc = acc.plus(rows);
        c = c + 1;
    }
    acc
}

/// An index below the number of elements of a shape of four dimensions splits into one
/// index for each dimension, by dividing from the last dimension on.
pub proof fn lemma_unravel4(d0: int, d1: int, d2: int, d3: int, i: int)
    requires
        0 <= d0,
        0 <= d1,
        0 <= d2,
        0 <= d3,
        0 <= i < d0 * (d1 * (d2 * d3)),
    ensures
        d1 > 0 && d2 > 0 && d3 > 0,
        0 <= i % d3 < d3,
        0 <= i / d3 % d2 < d2,
        0 <= i / d3 / d2 % d1 < d1,
        0 <= i / d3 / d2 / d1 < d0,
{
    assert(d1 > 0 && d2 > 0 && d3 > 0 && d0 > 0) by (nonlinear_arith)
        requires
            0 <= d0,
            0 <= d1,
            0 <= d2,
            0 <= d3,
            0 < d0 * (d1 * (d2 * d3)),
    ;
    assert(d0 * (d1 * (d2 * d3)) == d3 * (d2 * (d1 * d0))) by (nonlinear_arith);
    vstd::arithmetic::div_mod::lemma_multiply_divide_lt(i, d3, d2 * (d1 * d0));
    vstd::arithmetic::div_mod::lemma_div_pos_is_pos(i, d3);
    vstd::arithmetic::div_mod::lemma_mod_bound(i, d3);
    let t = i / d3;
    vstd::arithmetic::div_mod::lemma_multiply_divide_lt(t, d2, d1 * d0);
    vstd::arithmetic::div_mod::lemma_div_pos_is_pos(t, d2);
    vstd::arithmetic::div_mod::lemma_mod_bound(t, d2);
    let u = t / d2;
    vstd::arithmetic::div_mod::lemma_multiply_divide_lt(u, d1, d0);
    vstd::arithmetic::div_mod::lemma_div_pos_is_pos(u, d1);
    vstd::arithmetic::div_mod::lemma_mod_bound(u, d1);
}

/// Writes the convolution of `lhs` with `rhs` over every element of `out`.
pub fn forward_into<E: Dtype>(op: &Conv2DOp, lhs: &Vec<E>, rhs: &Vec<E>, out: &mut Vec<E>)
    requires
        op.wf(),
        lhs@.len() == numel(op.lhs_shape()),
        rhs@.len() == numel(op.rhs_shape()),
        old(out)@.len() == numel(op.out_shape()),
    ensures
        final(out)@ == conv2d_forward(*op, lhs@, rhs@),
{
    let n = out.len();
    proof {
        lemma_numel_rank4(op.out_shape());
    }
    let mut i: usize = 0;
    while i < n
        invariant
            i <= n,
            op.wf(),
            lhs@.len() == numel(op.lhs_shape()),
            rhs@.len() == numel(op.rhs_shape()),
            out@.len() == n,
            n == numel(op.out_shape()),
            n == op.batch * (op.chan_out * (op.h_out * op.w_out)),
            forall|j: int| 0 <= j < i ==> out@[j] == conv2d_forward(*op, lhs@, rhs@)[j],
        decreases n - i,
    {
        proof {
            lemma_unravel4(
                op.batch as int,
                op.chan_out as int,
                op.h_out as int,
                op.w_out as int,
                i as int,
            );
        }
        let ox = i % op.w_out;
        let oy = i / op.w_out % op.h_out;
        let o = i / op.w_out / op.h_out % op.chan_out;
        let b = i / op.w_out / op.h_out / op.chan_out;
        let v = forward_element(op, lhs, rhs, b, o, oy, ox);
        out.set(i, v);
        i = i + 1;
    }
    assert(out@ =~= conv2d_forward(*op, lhs@, rhs@));
}

impl Conv2DOp {
    /// The output position whose window has its `k`-th tap at input position `pos`, where
    /// there is one.
    pub open spec fn window(&self, pos: int, k: int) -> int {
        (pos + self.padding - self.dilation * k) / (self.stride as int)
    }

    /// Some window among the first `extent` output positions has its `k`-th tap at input
    /// position `pos`.
    pub open spec fn hits(&self, pos: int, k: int, extent: int) -> bool {
        let t = pos + self.padding - self.dilation * k;
        &&& t >= 0
        &&& t % (self.stride as int) == 0
        &&& t / (self.stride as int) < extent
    }

    /// The output channel that is the `oc`-th of the group of input channel `ci`.
    pub open spec fn out_channel(&self, ci: int, oc: int) -> int {
        (ci / self.chans_per_group()) * self.outs_per_group() + oc
    }
}

/// What a well-formed descriptor says of an input channel: it lies in one group, and the
/// output channels of that group lie within the result.
pub proof fn lemma_group_outputs(op: Conv2DOp, ci: int, oc: int)
    requires
        op.wf(),
        0 <= ci < op.chan_in,
        0 <= oc < op.outs_per_group(),
    ensures
        op.chans_per_group() >= 1,
        0 <= ci / op.chans_per_group() < op.groups,
        0 <= ci % op.chans_per_group() < op.chans_per_group(),
        0 <= (ci / op.chans_per_group()) * op.outs_per_group(),
        0 <= op.out_channel(ci, oc) < op.chan_out,
        op.out_channel(ci, oc) / op.outs_per_group() == ci / op.chans_per_group(),
{
    let g = op.groups as int;
    vstd::arithmetic::div_mod::lemma_fundamental_div_mod(op.chan_in as int, g);
    vstd::arithmetic::div_mod::lemma_fundamental_div_mod(op.chan_out as int, g);
    let cpg = op.chans_per_group();
    let opg = op.outs_per_group();
    assert(g * cpg == cpg * g) by (nonlinear_arith);
    assert(g * opg == opg * g) by (nonlinear_arith);
    assert(cpg >= 1) by (nonlinear_arith)
        requires
            g * cpg > 0,
            g >= 1,
    ;
    vstd::arithmetic::div_mod::lemma_multiply_divide_lt(ci, cpg, g);
    vstd::arithmetic::div_mod::lemma_div_pos_is_pos(ci, cpg);
    vstd::arithmetic::div_mod::lemma_mod_bound(ci, cpg);
    lemma_offset2(g, opg, ci / cpg, oc);
    vstd::arithmetic::div_mod::lemma_fundamental_div_mod_converse(
        op.out_channel(ci, oc),
        opg,
        ci / cpg,
        oc,
    );
}

/// The sum, over the first `n` columns of the kernel, of the products of a filter element
/// and the gradient of the output element that it was laid over `img[b, ci, y, x]` for.
pub open spec fn lgrad_cols<E: Dtype>(
    op: Conv2DOp,
    rhs: Seq<E>,
    grad_out: Seq<E>,
    b: int,
    ci: int,
    y: int,
    x: int,
    oc: int,
    k1: int,
    n: int,
) -> E
    decreases n,
{
    if n <= 0 {
        E::zero_value()
    } else {
        let before = lgrad_cols(op, rhs, grad_out, b, ci, y, x, oc, k1, n - 1);
        if op.hits(x, n - 1, op.w_out as int) {
            before.sum(
                rhs[op.rhs_index(
                    op.out_channel(ci, oc),
                    ci % op.chans_per_group(),
                    k1,
                    n - 1,
                )].product(
                    grad_out[op.out_index(
                        b,
                        op.out_channel(ci, oc),
                        op.window(y, k1),
                        op.window(x, n - 1),
                    )],
                ),
            )
        } else {
            before
        }
    }
}

/// The sum of [`lgrad_cols`] over the first `n` rows of the kernel.
pub open spec fn lgrad_rows<E: Dtype>(
    op: Conv2DOp,
    rhs: Seq<E>,
    grad_out: Seq<E>,
    b: int,
    ci: int,
    y: int,
    x: int,
    oc: int,
    n: int,
) -> E
    decreases n,
{
    if n <= 0 {
        E::zero_value()
    } else {
        let before = lgrad_rows(op, rhs, grad_out, b, ci, y, x, oc, n - 1);
        if op.hits(y, n - 1, op.h_out as int) {
            before.sum(lgrad_cols(op, rhs, grad_out, b, ci, y, x, oc, n - 1, op.kernel as int))
        } else {
            before
        }
    }
}

/// The sum of [`lgrad_rows`] over the first `n` output channels of the group.
pub open spec fn lgrad_outs<E: Dtype>(
    op: Conv2DOp,
    rhs: Seq<E>,
    grad_out: Seq<E>,
    b: int,
    ci: int,
    y: int,
    x: int,
    n: int,
) -> E
    decreases n,
{
    if n <= 0 {
        E::zero_value()
    } else {
        lgrad_outs(op, rhs, grad_out, b, ci, y, x, n - 1).sum(
            lgrad_rows(op, rhs, grad_out, b, ci, y, x, n - 1, op.kernel as int),
        )
    }
}

/// What the gradient of the result contributes to the gradient of `img[b, ci, y, x]`:
/// for every output element whose window reads this input element, the filter element
/// that it was read through times the gradient of that output element.
pub open spec fn lhs_gradient_at<E: Dtype>(
    op: Conv2DOp,
    rhs: Seq<E>,
    grad_out: Seq<E>,
    b: int,
    ci: int,
    y: int,
    x: int,
) -> E {
    lgrad_outs(op, rhs, grad_out, b, ci, y, x, op.outs_per_group())
}

/// What the gradient of the result contributes to the gradient of the image, in row-major
/// order.
pub open spec fn conv2d_lhs_gradient<E: Dtype>(op: Conv2DOp, rhs: Seq<E>, grad_out: Seq<E>) -> Seq<
    E,
> {
    Seq::new(
        numel(op.lhs_shape()),
        |i: int|
            lhs_gradient_at(
                op,
                rhs,
                grad_out,
                i / (op.w_in as int) / (op.h_in as int) / (op.chan_in as int),
                i / (op.w_in as int) / (op.h_in as int) % (op.chan_in as int),
                i / (op.w_in as int) % (op.h_in as int),
                i % (op.w_in as int),
            ),
    )
}

/// The filters and the gradient of the result are those of the descriptor, and
/// `(b, ci, y, x)` is a position of the image.
pub open spec fn at_input<E>(
    op: Conv2DOp,
    rhs: Seq<E>,
    grad_out: Seq<E>,
    b: int,
    ci: int,
    y: int,
    x: int,
) -> bool {
    &&& op.wf()
    &&& rhs.len() == numel(op.rhs_shape())
    &&& grad_out.len() == numel(op.out_shape())
    &&& 0 <= b < op.batch
    &&& 0 <= ci < op.chan_in
    &&& 0 <= y < op.h_in
    &&& 0 <= x < op.w_in
}

/// The tap `k` of the kernel reaches no further than the padded input.
pub proof fn lemma_tap(dim: int, kernel: int, stride: int, padding: int, dilation: int, k: int)
    requires
        crate::tensor_ops::conv2d::extent_defined(dim, kernel, stride, padding, dilation),
        0 <= dilation,
        0 <= k < kernel,
    ensures
        0 <= dilation * k < dim + 2 * padding,
{
    assert(dilation * k <= dilation * (kernel - 1)) by (nonlinear_arith)
        requires
            0 <= k <= kernel - 1,
            0 <= dilation,
    ;
    assert(0 <= dilation * k) by (nonlinear_arith)
        requires
            0 <= k,
            0 <= dilation,
    ;
}

/// The output position whose window has its `k`-th tap at input position `pos`, if one
/// of the first `extent` has.
fn window_of(op: &Conv2DOp, dim: usize, pos: usize, k: usize, extent: usize) -> (r: Option<usize>)
    requires
        op.stride >= 1,
        pos < dim,
        dim + 2 * op.padding <= usize::MAX,
        op.dilation * k < dim + 2 * op.padding,
    ensures
        r is Some <==> op.hits(pos as int, k as int, extent as int),
        r matches Some(w) ==> w == op.window(pos as int, k as int) && w < extent,
{
    let shifted = pos + op.padding;
    let reach = op.dilation * k;
    if reach > shifted {
        return None;
    }
    let t = shifted - reach;
    if t % op.stride != 0 {
        return None;
    }
    let w = t / op.stride;
    if w < extent {
        Some(w)
    } else {
        None
    }
}

fn lhs_gradient_cols<E: Dtype>(
    op: &Conv2DOp,
    rhs: &Vec<E>,
    grad_out: &Vec<E>,
    b: usize,
    ci: usize,
    y: usize,
    x: usize,
    oc: usize,
    k1: usize,
    oy: usize,
) -> (v: E)
    requires
        at_input(*op, rhs@, grad_out@, b as int, ci as int, y as int, x as int),
        oc < op.outs_per_group(),
        k1 < op.kernel,
        op.hits(y as int, k1 as int, op.h_out as int),
        oy == op.window(y as int, k1 as int),
    ensures
        v == lgrad_cols(
            *op,
            rhs@,
            grad_out@,
            b as int,
            ci as int,
            y as int,
            x as int,
            oc as int,
            k1 as int,
            op.kernel as int,
        ),
{
    let cpg = op.chan_in / op.groups;
    let opg = op.chan_out / op.groups;
    proof {
        lemma_group_outputs(*op, ci as int, oc as int);
        lemma_numel_rank4(op.rhs_shape());
        lemma_numel_rank4(op.out_shape());
    }
    let o = (ci / cpg) * opg + oc;
    let c = ci % cpg;
    let mut acc = E::zero();
    let mut k2: usize = 0;
    while k2 < op.kernel
        invariant
            k2 <= op.kernel,
            at_input(*op, rhs@, grad_out@, b as int, ci as int, y as int, x as int),
            cpg == op.chans_per_group(),
            oc < op.outs_per_group(),
            k1 < op.kernel,
            oy == op.window(y as int, k1 as int),
            oy < op.h_out,
            o == op.out_channel(ci as int, oc as int),
            o < op.chan_out,
            c == ci % cpg,
            c < cpg,
            rhs@.len() == op.chan_out * (cpg * (op.kernel * op.kernel)),
            grad_out@.len() == op.batch * (op.chan_out * (op.h_out * op.w_out)),
            acc == lgrad_cols(
                *op,
                rhs@,
                grad_out@,
                b as int,
                ci as int,
                y as int,
                x as int,
                oc as int,
                k1 as int,
                k2 as int,
            ),
        decreases op.kernel - k2,
    {
        proof {
            lemma_tap(
                op.w_in as int,
                op.kernel as int,
                op.stride as int,
                op.padding as int,
                op.dilation as int,
                k2 as int,
            );
        }
        match window_of(op, op.w_in, x, k2, op.w_out) {
            Some(ox) => {
                let r = rhs[offset_of(op.chan_out, cpg, op.kernel, op.kernel, o, c, k1, k2)];
                let g = grad_out[offset_of(
                    op.batch,
                    op.chan_out,
                    op.h_out,
                    op.w_out,
                    b,
                    o,
                    oy,
                    ox,
                )];
                acc = acc.plus(r.times(g));
            },
            None => {},
        }
        k2 = k2 + 1;
    }
    acc
}

fn lhs_gradient_rows<E: Dtype>(
    op: &Conv2DOp,
    rhs: &Vec<E>,
    grad_out: &Vec<E>,
    b: usize,
    ci: usize,
    y: usize,
    x: usize,
    oc: usize,
) -> (v: E)
    requires
        at_input(*op, rhs@, grad_out@, b as int, ci as int, y as int, x as int),
        oc < op.outs_per_group(),
    ensures
        v == lgrad_rows(
            *op,
            rhs@,
            grad_out@,
            b as int,
            ci as int,
            y as int,
            x as int,
            oc as int,
            op.kernel as int,
        ),
{
    let mut acc = E::zero();
    let mut k1: usize = 0;
    while k1 < op.kernel
        invariant
            k1 <= op.kernel,
            at_input(*op, rhs@, grad_out@, b as int, ci as int, y as int, x as int),
            oc < op.outs_per_group(),
            acc == lgrad_rows(
                *op,
                rhs@,
                grad_out@,
                b as int,
                ci as int,
                y as int,
                x as int,
                oc as int,
                k1 as int,
            ),
        decreases op.kernel - k1,
    {
        proof {
            lemma_tap(
                op.h_in as int,
                op.kernel as int,
                op.stride as int,
                op.padding as int,
                op.dilation as int,
                k1 as int,
            );
        }
        match window_of(op, op.h_in, y, k1, op.h_out) {
            Some(oy) => {
                let cols = lhs_gradient_cols(op, rhs, grad_out, b, ci, y, x, oc, k1, oy);
                acc = acc.plus(cols);
            },
            None => {},
        }
        k1 = k1 + 1;
    }
    acc
}

/// What the gradient of the result contributes to the gradient of `img[b, ci, y, x]`.
pub fn lhs_gradient_element<E: Dtype>(
    op: &Conv2DOp,
    rhs: &Vec<E>,
    grad_out: &Vec<E>,
    b: usize,
    ci: usize,
    y: usize,
    x: usize,
) -> (v: E)
    requires
        at_input(*op, rhs@, grad_out@, b as int, ci as int, y as int, x as int),
    ensures
        v == lhs_gradient_at(*op, rhs@, grad_out@, b as int, ci as int, y as int, x as int),
{
    let opg = op.chan_out / op.groups;
    let mut acc = E::zero();
    let mut oc: usize = 0;
    while oc < opg
        invariant
            oc <= opg,
            opg == op.outs_per_group(),
            at_input(*op, rhs@, grad_out@, b as int, ci as int, y as int, x as int),
            acc == lgrad_outs(
                *op,
                rhs@,
                grad_out@,
                b as int,
                ci as int,
                y as int,
                x as int,
                oc as int,
            ),
        decreases opg - oc,
    {
        let rows = lhs_gradient_rows(op, rhs, grad_out, b, ci, y, x, oc);
        acc = acc.plus(rows);
        oc = oc + 1;
    }
    acc
}

/// Adds into `grad_lhs` what the gradient of the result contributes to the gradient of
/// the image.
pub fn lhs_gradient_into<E: Dtype>(
    op: &Conv2DOp,
    rhs: &Vec<E>,
    grad_out: &Vec<E>,
    grad_lhs: &mut Vec<E>,
)
    requires
        op.wf(),
        rhs@.len() == numel(op.rhs_shape()),
        grad_out@.len() == numel(op.out_shape()),
        old(grad_lhs)@.len() == numel(op.lhs_shape()),
    ensures
        final(grad_lhs)@ == crate::gradients::accumulated(
            old(grad_lhs)@,
            conv2d_lhs_gradient(*op, rhs@, grad_out@),
        ),
{
    let n = grad_lhs.len();
    proof {
        lemma_numel_rank4(op.lhs_shape());
    }
    let mut i: usize = 0;
    while i < n
        invariant
            i <= n,
            op.wf(),
            rhs@.len() == numel(op.rhs_shape()),
            grad_out@.len() == numel(op.out_shape()),
            grad_lhs@.len() == n,
            n == numel(op.lhs_shape()),
            n == op.batch * (op.chan_in * (op.h_in * op.w_in)),
            forall|j: int|
                0 <= j < i ==> grad_lhs@[j] == old(grad_lhs)@[j].sum(
                    conv2d_lhs_gradient(*op, rhs@, grad_out@)[j],
                ),
            forall|j: int| i <= j < n ==> grad_lhs@[j] == old(grad_lhs)@[j],
        decreases n - i,
    {
        proof {
            lemma_unravel4(
                op.batch as int,
                op.chan_in as int,
                op.h_in as int,
                op.w_in as int,
                i as int,
            );
        }
        let x = i % op.w_in;
        let y = i / op.w_in % op.h_in;
        let ci = i / op.w_in / op.h_in % op.chan_in;
        let b = i / op.w_in / op.h_in / op.chan_in;
        let delta = lhs_gradient_element(op, rhs, grad_out, b, ci, y, x);
        let v = grad_lhs[i].plus(delta);
        grad_lhs.set(i, v);
        i = i + 1;
    }
    assert(grad_lhs@ =~= crate::gradients::accumulated(
        old(grad_lhs)@,
        conv2d_lhs_gradient(*op, rhs@, grad_out@),
    ));
}

/// The sum, over the first `n` columns of the result, of the products of the input
/// element under `filters[o, c, k1, k2]` and the gradient of the output element.
pub open spec fn rgrad_cols<E: Dtype>(
    op: Conv2DOp,
    lhs: Seq<E>,
    grad_out: Seq<E>,
    o: int,
    c: int,
    k1: int,
    k2: int,
    b: int,
    oy: int,
    n: int,
) -> E
    decreases n,
{
    if n <= 0 {
        E::zero_value()
    } else {
        let before = rgrad_cols(op, lhs, grad_out, o, c, k1, k2, b, oy, n - 1);
        let x = op.source(n - 1, k2);
        if 0 <= x < op.w_in {
            before.sum(
                lhs[op.lhs_index(b, op.in_channel(o, c), op.source(oy, k1), x)].product(
                    grad_out[op.out_index(b, o, oy, n - 1)],
                ),
            )
        } else {
            before
        }
    }
}

/// The sum of [`rgrad_cols`] over the first `n` rows of the result.
pub open spec fn rgrad_rows<E: Dtype>(
    op: Conv2DOp,
    lhs: Seq<E>,
    grad_out: Seq<E>,
    o: int,
    c: int,
    k1: int,
    k2: int,
    b: int,
    n: int,
) -> E
    decreases n,
{
    if n <= 0 {
        E::zero_value()
    } else {
        let before = rgrad_rows(op, lhs, grad_out, o, c, k1, k2, b, n - 1);
        let y = op.source(n - 1, k1);
        if 0 <= y < op.h_in {
            before.sum(rgrad_cols(op, lhs, grad_out, o, c, k1, k2, b, n - 1, op.w_out as int))
        } else {
            before
        }
    }
}

/// The sum of [`rgrad_rows`] over the first `n` images of the batch.
pub open spec fn rgrad_batch<E: Dtype>(
    op: Conv2DOp,
    lhs: Seq<E>,
    grad_out: Seq<E>,
    o: int,
    c: int,
    k1: int,
    k2: int,
    n: int,
) -> E
    decreases n,
{
    if n <= 0 {
        E::zero_value()
    } else {
        rgrad_batch(op, lhs, grad_out, o, c, k1, k2, n - 1).sum(
            rgrad_rows(op, lhs, grad_out, o, c, k1, k2, n - 1, op.h_out as int),
        )
    }
}

/// What the gradient of the result contributes to the gradient of
/// `filters[o, c, k1, k2]`: for every output element of channel `o`, the input element
/// that this filter element was laid over times the gradient of the output element.
pub open spec fn rhs_gradient_at<E: Dtype>(
    op: Conv2DOp,
    lhs: Seq<E>,
    grad_out: Seq<E>,
    o: int,
    c: int,
    k1: int,
    k2: int,
) -> E {
    rgrad_batch(op, lhs, grad_out, o, c, k1, k2, op.batch as int)
}

/// What the gradient of the result contributes to the gradient of the filters, in
/// row-major order.
pub open spec fn conv2d_rhs_gradient<E: Dtype>(op: Conv2DOp, lhs: Seq<E>, grad_out: Seq<E>) -> Seq<
    E,
> {
    Seq::new(
        numel(op.rhs_shape()),
        |i: int|
            rhs_gradient_at(
                op,
                lhs,
                grad_out,
                i / (op.kernel as int) / (op.kernel as int) / op.chans_per_group(),
                i / (op.kernel as int) / (op.kernel as int) % op.chans_per_group(),
                i / (op.kernel as int) % (op.kernel as int),
                i % (op.kernel as int),
            ),
    )
}

/// The image and the gradient of the result are those of the descriptor, and
/// `(o, c, k1, k2)` is a position of the filters.
pub open spec fn at_filter<E>(
    op: Conv2DOp,
    lhs: Seq<E>,
    grad_out: Seq<E>,
    o: int,
    c: int,
    k1: int,
    k2: int,
) -> bool {
    &&& op.wf()
    &&& lhs.len() == numel(op.lhs_shape())
    &&& grad_out.len() == numel(op.out_shape())
    &&& 0 <= o < op.chan_out
    &&& 0 <= c < op.chans_per_group()
    &&& 0 <= k1 < op.kernel
    &&& 0 <= k2 < op.kernel
}

fn rhs_gradient_cols<E: Dtype>(
    op: &Conv2DOp,
    lhs: &Vec<E>,
    grad_out: &Vec<E>,
    o: usize,
    c: usize,
    k1: usize,
    k2: usize,
    b: usize,
    oy: usize,
) -> (v: E)
    requires
        at_filter(*op, lhs@, grad_out@, o as int, c as int, k1 as int, k2 as int),
        b < op.batch,
        oy < op.h_out,
        0 <= op.source(oy as int, k1 as int) < op.h_in,
    ensures
        v == rgrad_cols(
            *op,
            lhs@,
            grad_out@,
            o as int,
            c as int,
            k1 as int,
            k2 as int,
            b as int,
            oy as int,
            op.w_out as int,
        ),
{
    let cpg = op.chan_in / op.groups;
    proof {
        lemma_group_channels(*op, o as int, c as int);
        lemma_window(
            op.h_in as int,
            op.kernel as int,
            op.stride as int,
            op.padding as int,
            op.dilation as int,
            oy as int,
            k1 as int,
        );
        lemma_numel_rank4(op.lhs_shape());
        lemma_numel_rank4(op.out_shape());
    }
    let opg = op.chan_out / op.groups;
    let ci = (o / opg) * cpg + c;
    let y = oy * op.stride + op.dilation * k1 - op.padding;
    let mut acc = E::zero();
    let mut ox: usize = 0;
    while ox < op.w_out
        invariant
            ox <= op.w_out,
            at_filter(*op, lhs@, grad_out@, o as int, c as int, k1 as int, k2 as int),
            b < op.batch,
            oy < op.h_out,
            ci == op.in_channel(o as int, c as int),
            ci < op.chan_in,
            y == op.source(oy as int, k1 as int),
            y < op.h_in,
            lhs@.len() == op.batch * (op.chan_in * (op.h_in * op.w_in)),
            grad_out@.len() == op.batch * (op.chan_out * (op.h_out * op.w_out)),
            acc == rgrad_cols(
                *op,
                lhs@,
                grad_out@,
                o as int,
                c as int,
                k1 as int,
                k2 as int,
                b as int,
                oy as int,
                ox as int,
            ),
        decreases op.w_out - ox,
    {
        proof {
            lemma_window(
                op.w_in as int,
                op.kernel as int,
                op.stride as int,
                op.padding as int,
                op.dilation as int,
                ox as int,
                k2 as int,
            );
        }
        let reach = ox * op.stride + op.dilation * k2;
        if reach >= op.padding && reach - op.padding < op.w_in {
            let x = reach - op.padding;
            let l = lhs[offset_of(op.batch, op.chan_in, op.h_in, op.w_in, b, ci, y, x)];
            let g = grad_out[offset_of(
                op.batch,
                op.chan_out,
                op.h_out,
                op.w_out,
                b,
                o,
                oy,
                ox,
            )];
            acc = acc.plus(l.times(g));
        }
        ox = ox + 1;
    }
    acc
}

fn rhs_gradient_rows<E: Dtype>(
    op: &Conv2DOp,
    lhs: &Vec<E>,
    grad_out: &Vec<E>,
    o: usize,
    c: usize,
    k1: usize,
    k2: usize,
    b: usize,
) -> (v: E)
    requires
        at_filter(*op, lhs@, grad_out@, o as int, c as int, k1 as int, k2 as int),
        b < op.batch,
    ensures
        v == rgrad_rows(
            *op,
            lhs@,
            grad_out@,
            o as int,
            c as int,
            k1 as int,
            k2 as int,
            b as int,
            op.h_out as int,
        ),
{
    let mut acc = E::zero();
    let mut oy: usize = 0;
    while oy < op.h_out
        invariant
            oy <= op.h_out,
            at_filter(*op, lhs@, grad_out@, o as int, c as int, k1 as int, k2 as int),
            b < op.batch,
            acc == rgrad_rows(
                *op,
                lhs@,
                grad_out@,
                o as int,
                c as int,
                k1 as int,
                k2 as int,
                b as int,
                oy as int,
            ),
        decreases op.h_out - oy,
    {
        proof {
            lemma_window(
                op.h_in as int,
                op.kernel as int,
                op.stride as int,
                op.padding as int,
                op.dilation as int,
                oy as int,
                k1 as int,
            );
        }
        let reach = oy * op.stride + op.dilation * k1;
        if reach >= op.padding && reach - op.padding < op.h_in {
            let cols = rhs_gradient_cols(op, lhs, grad_out, o, c, k1, k2, b, oy);
            acc = acc.plus(cols);
        }
        oy = oy + 1;
    }
    acc
}

/// What the gradient of the result contributes to the gradient of
/// `filters[o, c, k1, k2]`.
pub fn rhs_gradient_element<E: Dtype>(
    op: &Conv2DOp,
    lhs: &Vec<E>,
    grad_out: &Vec<E>,
    o: usize,
    c: usize,
    k1: usize,
    k2: usize,
) -> (v: E)
    requires
        at_filter(*op, lhs@, grad_out@, o as int, c as int, k1 as int, k2 as int),
    ensures
        v == rhs_gradient_at(*op, lhs@, grad_out@, o as int, c as int, k1 as int, k2 as int),
{
    let mut acc = E::zero();
    let mut b: usize = 0;
    while b < op.batch
        invariant
            b <= op.batch,
            at_filter(*op, lhs@, grad_out@, o as int, c as int, k1 as int, k2 as int),
            acc == rgrad_batch(
                *op,
                lhs@,
                grad_out@,
                o as int,
                c as int,
                k1 as int,
                k2 as int,
                b as int,
            ),
        decreases op.batch - b,
    {
        let rows = rhs_gradient_rows(op, lhs, grad_out, o, c, k1, k2, b);
        acc = acc.plus(rows);
        b = b + 1;
    }
    acc
}

/// Adds into `grad_rhs` what the gradient of the result contributes to the gradient of
/// the filters.
pub fn rhs_gradient_into<E: Dtype>(
    op: &Conv2DOp,
    lhs: &Vec<E>,
    grad_out: &Vec<E>,
    grad_rhs: &mut Vec<E>,
)
    requires
        op.wf(),
        lhs@.len() == numel(op.lhs_shape()),
        grad_out@.len() == numel(op.out_shape()),
        old(grad_rhs)@.len() == numel(op.rhs_shape()),
    ensures
        final(grad_rhs)@ == crate::gradients::accumulated(
            old(grad_rhs)@,
            conv2d_rhs_gradient(*op, lhs@, grad_out@),
        ),
{
    let n = grad_rhs.len();
    let cpg = op.chan_in / op.groups;
    proof {
        lemma_numel_rank4(op.rhs_shape());
    }
    let mut i: usize = 0;
    while i < n
        invariant
            i <= n,
            op.wf(),
            cpg == op.chans_per_group(),
            lhs@.len() == numel(op.lhs_shape()),
            grad_out@.len() == numel(op.out_shape()),
            grad_rhs@.len() == n,
            n == numel(op.rhs_shape()),
            n == op.chan_out * (cpg * (op.kernel * op.kernel)),
            forall|j: int|
                0 <= j < i ==> grad_rhs@[j] == old(grad_rhs)@[j].sum(
                    conv2d_rhs_gradient(*op, lhs@, grad_out@)[j],
                ),
            forall|j: int| i <= j < n ==> grad_rhs@[j] == old(grad_rhs)@[j],
        decreases n - i,
    {
        proof {
            lemma_unravel4(
                op.chan_out as int,
                cpg as int,
                op.kernel as int,
                op.kernel as int,
                i as int,
            );
        }
        let k2 = i % op.kernel;
        let k1 = i / op.kernel % op.kernel;
        let c = i / op.kernel / op.kernel % cpg;
        let o = i / op.kernel / op.kernel / cpg;
        let delta = rhs_gradient_element(op, lhs, grad_out, o, c, k1, k2);
        let v = grad_rhs[i].plus(delta);
        grad_rhs.set(i, v);
        i = i + 1;
    }
    assert(grad_rhs@ =~= crate::gradients::accumulated(
        old(grad_rhs)@,
        conv2d_rhs_gradient(*op, lhs@, grad_out@),
    ));
}

/// The tensor of an allocation holds `n` zeros.
pub open spec fn zeroed<E: Dtype, const N: usize>(
    r: Result<Tensor<E, Cpu, NoneTape, N>, Error>,
    n: nat,
) -> bool {
    r matches Ok(t) && t.data@ == crate::gradients::zeros::<E>(n)
}

/// The host backend: every buffer is a `Vec`, and the kernels are loops of this crate.
/// None of its calls fails.
#[derive(Clone, Copy, Debug, Default, PartialEq, Eq)]
pub struct Cpu;

impl<E: Dtype> Conv2DKernel<E> for Cpu {
    open spec fn unfailing(&self) -> bool {
        true
    }

    open spec fn forward_spec(&self, op: Conv2DOp, lhs: Seq<E>, rhs: Seq<E>) -> Seq<E> {
        conv2d_forward(op, lhs, rhs)
    }

    open spec fn lhs_gradient(&self, op: Conv2DOp, rhs: Seq<E>, grad_out: Seq<E>) -> Seq<E> {
        conv2d_lhs_gradient(op, rhs, grad_out)
    }

    open spec fn rhs_gradient(&self, op: Conv2DOp, lhs: Seq<E>, grad_out: Seq<E>) -> Seq<E> {
        conv2d_rhs_gradient(op, lhs, grad_out)
    }

    /// The buffer of the new tensor holds zeros.
    fn allocate<const N: usize>(&self, id: UniqueId, shape: Vec<usize>) -> (r: Result<
        Tensor<E, Cpu, NoneTape, N>,
        Error,
    >)
        ensures
            r is Ok,
            zeroed::<E, N>(r, numel(shape@)),
    {
        let data = crate::gradients::zero_buffer::<E>(num_elements(&shape));
        let strides = default_strides(&shape);
        proof {
            crate::strided::lemma_contiguous_is_addressable(shape@, data@.len());
        }
        Ok(Tensor { id, data, shape, strides, device: Cpu, tape: NoneTape })
    }

    fn forward(
        &self,
        op: Conv2DOp,
        lhs: &Tensor<E, Cpu, NoneTape, 4>,
        rhs: &Tensor<E, Cpu, NoneTape, 4>,
        out: &mut Tensor<E, Cpu, NoneTape, 4>,
    ) -> (r: Result<(), Error>) {
        forward_into(&op, &lhs.data, &rhs.data, &mut out.data);
        Ok(())
    }

    fn backward(
        &self,
        op: Conv2DOp,
        lhs: &Tensor<E, Cpu, NoneTape, 4>,
        grad_lhs: &mut Vec<E>,
        rhs: &Tensor<E, Cpu, NoneTape, 4>,
        grad_rhs: &mut Vec<E>,
        out: &GhostTensor<4>,
        grad_out: &Vec<E>,
    ) -> (r: Result<(), Error>) {
        lhs_gradient_into(&op, &rhs.data, grad_out, grad_lhs);
        rhs_gradient_into(&op, &lhs.data, grad_out, grad_rhs);
        Ok(())
    }
}

} // verus!
