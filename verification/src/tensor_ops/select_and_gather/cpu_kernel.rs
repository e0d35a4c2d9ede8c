use crate::dtypes::Dtype;
use crate::shapes::{
    default_strides, num_elements, numel, replace_dim, with_dim_replaced, without_dim,
};
use crate::strided::{
    digits, lemma_contiguous_is_addressable, lemma_digits_within, lemma_within_has_elements, span,
    strided_offset, unravel,
};
use crate::tensor::{Error, NoneTape, Tensor, UniqueId};
use crate::tensor_ops::conv2d::cpu_kernel::Cpu;
use crate::tensor_ops::select_and_gather::{
    gathered, lookup_defined, scattered, source_offset, RemoveDimKernel, ReplaceDimKernel,
};
use vstd::prelude::*;

verus! {

/// The numbers of `v` from position `from` up to position `to`.
fn slice_of(v: &Vec<usize>, from: usize, to: usize) -> (part: Vec<usize>)
    requires
        from <= to <= v@.len(),
    ensures
        part@ == v@.subrange(from as int, to as int),
{
    let mut part: Vec<usize> = Vec::new();
    let mut k: usize = from;
    while k < to
        invariant
            from <= k <= to <= v@.len(),
            part@ == v@.subrange(from as int, k as int),
        decreases to - k,
    {
        part.push(v[k]);
        assert(v@.subrange(from as int, k + 1) =~= v@.subrange(from as int, k as int).push(
            v@[k as int],
        ));
        k = k + 1;
    }
    part
}

/// Whether the source and the index tensor suit a lookup along `ax`. A caller that cannot
/// prove it tests it here: the kernels themselves check no index.
pub fn check_lookup(
    inp_shape: &Vec<usize>,
    inp_strides: &Vec<usize>,
    inp_len: usize,
    idx: &Vec<usize>,
    idx_shape: &Vec<usize>,
    idx_strides: &Vec<usize>,
    ax: usize,
) -> (ok: bool)
    ensures
        ok == lookup_defined(
            inp_shape@,
            inp_strides@,
            inp_len as nat,
            idx@,
            idx_shape@,
            idx_strides@,
            ax as int,
        ),
{
    if ax >= inp_shape.len() || ax > idx_shape.len() {
        return false;
    }
    let mut j: usize = 0;
    while j < ax
        invariant
            j <= ax,
            ax < inp_shape@.len(),
            ax <= idx_shape@.len(),
            forall|k: int| 0 <= k < j ==> idx_shape@[k] == inp_shape@[k],
        decreases ax - j,
    {
        if idx_shape[j] != inp_shape[j] {
            assert(idx_shape@.take(ax as int)[j as int] != inp_shape@.take(ax as int)[j as int]);
            return false;
        }
        j = j + 1;
    }
    assert(idx_shape@.take(ax as int) =~= inp_shape@.take(ax as int));
    if !crate::shapes::is_representable(inp_shape) || !crate::shapes::is_representable(idx_shape) {
        return false;
    }
    let dst_shape = replace_dim(inp_shape, idx_shape, ax);
    if !crate::shapes::is_representable(&dst_shape) {
        return false;
    }
    if !crate::strided::is_addressable(inp_shape, inp_strides, inp_len)
        || !crate::strided::is_addressable(idx_shape, idx_strides, idx.len()) {
        return false;
    }
    let bound = inp_shape[ax];
    let mut k: usize = 0;
    while k < idx.len()
        invariant
            k <= idx@.len(),
            bound == inp_shape@[ax as int],
            forall|q: int| 0 <= q < k ==> #[trigger] idx@[q] < bound,
        decreases idx@.len() - k,
    {
        if idx[k] >= bound {
            return false;
        }
        k = k + 1;
    }
    true
}

/// Where in the buffer of the source the `i`-th element of the result comes from.
pub fn source_of(
    inp_shape: &Vec<usize>,
    inp_strides: &Vec<usize>,
    idx: &Vec<usize>,
    idx_shape: &Vec<usize>,
    idx_strides: &Vec<usize>,
    dst_shape: &Vec<usize>,
    ax: usize,
    i: usize,
    inp_len: usize,
) -> (at: usize)
    requires
        lookup_defined(
            inp_shape@,
            inp_strides@,
            inp_len as nat,
            idx@,
            idx_shape@,
            idx_strides@,
            ax as int,
        ),
        dst_shape@ == with_dim_replaced(inp_shape@, idx_shape@, ax as int),
        i < numel(dst_shape@),
    ensures
        at == source_offset(
            inp_strides@,
            idx@,
            idx_shape@,
            idx_strides@,
            dst_shape@,
            ax as int,
            i as int,
        ),
        at < inp_len,
{
    let m = idx_shape.len();
    let d = unravel(dst_shape, i);
    let ghost dd = digits(dst_shape@, i as int);
    proof {
        lemma_digits_within(dst_shape@, i as int);
        assert(dd == d@.map_values(|x: usize| x as int));
        assert(forall|j: int| 0 <= j < ax ==> idx_shape@[j] == idx_shape@.take(ax as int)[j]);
        assert(forall|j: int| 0 <= j < ax ==> inp_shape@[j] == inp_shape@.take(ax as int)[j]);
    }
    let q = slice_of(&d, 0, m);
    let ghost qq = q@.map_values(|x: usize| x as int);
    proof {
        assert(qq =~= dd.take(m as int));
        assert forall|j: int| 0 <= j < qq.len() implies 0 <= #[trigger] qq[j]
            < idx_shape@[j] by {
            assert(qq[j] == dd[j]);
            assert(dst_shape@[j] == idx_shape@[j]);
        }
        lemma_within_has_elements(qq, idx_shape@, 0);
    }
    let idx_len = idx.len();
    assert(span(idx_shape@, idx_strides@, 0) < idx_len);
    let at_idx = strided_offset(&q, idx_shape, idx_strides);
    let picked = idx[at_idx];
    let mut e = slice_of(&d, 0, ax);
    e.push(picked);
    let n = d.len();
    let mut r: usize = m;
    while r < n
        invariant
            m <= r <= n,
            n == d@.len(),
            ax <= m,
            e@ == d@.subrange(0, ax as int).push(picked) + d@.subrange(m as int, r as int),
        decreases n - r,
    {
        e.push(d[r]);
        assert(d@.subrange(m as int, r + 1) =~= d@.subrange(m as int, r as int).push(
            d@[r as int],
        ));
        assert(e@ =~= d@.subrange(0, ax as int).push(picked) + d@.subrange(m as int, r + 1));
        r = r + 1;
    }
    let ghost ee = e@.map_values(|x: usize| x as int);
    proof {
        assert(ee =~= dd.take(ax as int) + seq![picked as int] + dd.skip(m as int));
        assert(ee.len() == inp_shape@.len());
        assert forall|j: int| 0 <= j < ee.len() implies 0 <= #[trigger] ee[j]
            < inp_shape@[j] by {
            if j < ax {
                assert(ee[j] == dd[j]);
                assert(dst_shape@[j] == inp_shape@[j]);
            } else if j == ax {
            } else {
                assert(ee[j] == dd[m + j - ax - 1]);
                assert(dst_shape@[m + j - ax - 1] == inp_shape@[j]);
            }
        }
        lemma_within_has_elements(ee, inp_shape@, 0);
    }
    strided_offset(&e, inp_shape, inp_strides)
}

/// The result of a lookup along `ax`: its shape, and its elements in row-major order.
pub fn lookup_forward<E: Copy>(
    inp: &Vec<E>,
    inp_shape: &Vec<usize>,
    inp_strides: &Vec<usize>,
    idx: &Vec<usize>,
    idx_shape: &Vec<usize>,
    idx_strides: &Vec<usize>,
    ax: usize,
) -> (out: (Vec<usize>, Vec<E>))
    requires
        lookup_defined(
            inp_shape@,
            inp_strides@,
            inp@.len(),
            idx@,
            idx_shape@,
            idx_strides@,
            ax as int,
        ),
    ensures
        out.0@ == with_dim_replaced(inp_shape@, idx_shape@, ax as int),
        out.1@ == gathered(
            inp@,
            inp_shape@,
            inp_strides@,
            idx@,
            idx_shape@,
            idx_strides@,
            ax as int,
        ),
{
    let dst_shape = replace_dim(inp_shape, idx_shape, ax);
    let n = num_elements(&dst_shape);
    let mut data: Vec<E> = Vec::new();
    let mut i: usize = 0;
    while i < n
        invariant
            i <= n,
            n == numel(dst_shape@),
            dst_shape@ == with_dim_replaced(inp_shape@, idx_shape@, ax as int),
            lookup_defined(
                inp_shape@,
                inp_strides@,
                inp@.len(),
                idx@,
                idx_shape@,
                idx_strides@,
                ax as int,
            ),
            data@.len() == i,
            forall|j: int|
                0 <= j < i ==> data@[j] == inp@[source_offset(
                    inp_strides@,
                    idx@,
                    idx_shape@,
                    idx_strides@,
                    dst_shape@,
                    ax as int,
                    j,
                )],
        decreases n - i,
    {
        let at = source_of(
            inp_shape,
            inp_strides,
            idx,
            idx_shape,
            idx_strides,
            &dst_shape,
            ax,
            i,
            inp.len(),
        );
        data.push(inp[at]);
        i = i + 1;
    }
    assert(data@ =~= gathered(
        inp@,
        inp_shape@,
        inp_strides@,
        idx@,
        idx_shape@,
        idx_strides@,
        ax as int,
    ));
    (dst_shape, data)
}

/// Adds the gradient of each element of the result of a lookup into the gradient of the
/// element of the source that it was copied from.
pub fn lookup_backward<E: Dtype>(
    grad_inp: &mut Vec<E>,
    inp_shape: &Vec<usize>,
    inp_strides: &Vec<usize>,
    idx: &Vec<usize>,
    idx_shape: &Vec<usize>,
    idx_strides: &Vec<usize>,
    dst_shape: &Vec<usize>,
    ax: usize,
    grad_out: &Vec<E>,
)
    requires
        lookup_defined(
            inp_shape@,
            inp_strides@,
            old(grad_inp)@.len(),
            idx@,
            idx_shape@,
            idx_strides@,
            ax as int,
        ),
        dst_shape@ == with_dim_replaced(inp_shape@, idx_shape@, ax as int),
        grad_out@.len() == numel(dst_shape@),
    ensures
        final(grad_inp)@.len() == old(grad_inp)@.len(),
        final(grad_inp)@ == scattered(
            old(grad_inp)@,
            grad_out@,
            inp_strides@,
            idx@,
            idx_shape@,
            idx_strides@,
            dst_shape@,
            ax as int,
            grad_out@.len() as int,
        ),
{
    let n = grad_out.len();
    let len = grad_inp.len();
    let mut i: usize = 0;
    while i < n
        invariant
            i <= n,
            n == grad_out@.len(),
            n == numel(dst_shape@),
            len == old(grad_inp)@.len(),
            grad_inp@.len() == len,
            dst_shape@ == with_dim_replaced(inp_shape@, idx_shape@, ax as int),
            lookup_defined(
                inp_shape@,
                inp_strides@,
                len as nat,
                idx@,
                idx_shape@,
                idx_strides@,
                ax as int,
            ),
            grad_inp@ == scattered(
                old(grad_inp)@,
                grad_out@,
                inp_strides@,
                idx@,
                idx_shape@,
                idx_strides@,
                dst_shape@,
                ax as int,
                i as int,
            ),
        decreases n - i,
    {
        let at = source_of(
            inp_shape,
            inp_strides,
            idx,
            idx_shape,
            idx_strides,
            dst_shape,
            ax,
            i,
            len,
        );
        let v = grad_inp[at].plus(grad_out[i]);
        grad_inp.set(at, v);
        i = i + 1;
    }
}

impl<E: Dtype> ReplaceDimKernel<E> for Cpu {
    open spec fn gather_unfailing(&self) -> bool {
        true
    }

    fn forward<const SRC: usize, const DST: usize, const IDX: usize>(
        &self,
        id: UniqueId,
        inp: &Tensor<E, Cpu, NoneTape, SRC>,
        idx: &Tensor<usize, Cpu, NoneTape, IDX>,
    ) -> (r: Result<Tensor<E, Cpu, NoneTape, DST>, Error>) {
        let ax = IDX - 1 - (DST - SRC);
        let (shape, data) = lookup_forward(
            &inp.data,
            &inp.shape,
            &inp.strides,
            &idx.data,
            &idx.shape,
            &idx.strides,
            ax,
        );
        let strides = default_strides(&shape);
        proof {
            lemma_contiguous_is_addressable(shape@, data@.len());
        }
        Ok(Tensor { id, data, shape, strides, device: Cpu, tape: NoneTape })
    }

    fn backward<const SRC: usize, const DST: usize, const IDX: usize>(
        &self,
        inp: &Tensor<E, Cpu, NoneTape, SRC>,
        grad_inp: &mut Vec<E>,
        idx: &Tensor<usize, Cpu, NoneTape, IDX>,
        out: &Tensor<E, Cpu, NoneTape, DST>,
        grad_out: &Vec<E>,
    ) -> (r: Result<(), Error>) {
        let ax = IDX - 1 - (DST - SRC);
        lookup_backward(
            grad_inp,
            &inp.shape,
            &inp.strides,
            &idx.data,
            &idx.shape,
            &idx.strides,
            &out.shape,
            ax,
            grad_out,
        );
        Ok(())
    }
}

impl<E: Dtype> RemoveDimKernel<E> for Cpu {
    open spec fn select_unfailing(&self) -> bool {
        true
    }

    fn forward<const SRC: usize, const DST: usize, const IDX: usize>(
        &self,
        id: UniqueId,
        inp: &Tensor<E, Cpu, NoneTape, SRC>,
        idx: &Tensor<usize, Cpu, NoneTape, IDX>,
    ) -> (r: Result<Tensor<E, Cpu, NoneTape, DST>, Error>) {
        let (shape, data) = lookup_forward(
            &inp.data,
            &inp.shape,
            &inp.strides,
            &idx.data,
            &idx.shape,
            &idx.strides,
            IDX,
        );
        let strides = default_strides(&shape);
        proof {
            lemma_contiguous_is_addressable(shape@, data@.len());
            lemma_select_shape(inp.shape@, idx.shape@, IDX as int);
        }
        Ok(Tensor { id, data, shape, strides, device: Cpu, tape: NoneTape })
    }

    fn backward<const SRC: usize, const DST: usize, const IDX: usize>(
        &self,
        inp: &Tensor<E, Cpu, NoneTape, SRC>,
        grad_inp: &mut Vec<E>,
        idx: &Tensor<usize, Cpu, NoneTape, IDX>,
        out: &Tensor<E, Cpu, NoneTape, DST>,
        grad_out: &Vec<E>,
    ) -> (r: Result<(), Error>) {
        proof {
            lemma_select_shape(inp.shape@, idx.shape@, IDX as int);
        }
        lookup_backward(
            grad_inp,
            &inp.shape,
            &inp.strides,
            &idx.data,
            &idx.shape,
            &idx.strides,
            &out.shape,
            IDX,
            grad_out,
        );
        Ok(())
    }
}

/// Where the index tensor has the dimensions before the axis and no more, the lookup
/// removes the axis.
pub proof fn lemma_select_shape(inp_shape: Seq<usize>, idx_shape: Seq<usize>, ax: int)
    requires
        0 <= ax < inp_shape.len(),
        idx_shape.len() == ax,
    ensures
        with_dim_replaced(inp_shape, idx_shape, ax) == without_dim(inp_shape, ax),
{
    assert(idx_shape.skip(ax) =~= Seq::<usize>::empty());
    assert(with_dim_replaced(inp_shape, idx_shape, ax) =~= without_dim(inp_shape, ax));
}

} // verus!
