use crate::dtypes::Dtype;
use crate::gradients::accumulated;
use crate::shapes::{numel, representable, row_major_strides, with_dim_replaced};
use crate::shapes::without_dim;
use crate::strided::{
    digits, lemma_digits_within, lemma_dot_within_span, lemma_row_major_is_injective,
    lemma_row_major_offset, lemma_within_has_elements, offset_at, within,
};
use crate::tensor_ops::select_and_gather::{
    gathered, index_offset, lookup_defined, scattered, source_offset,
};
use vstd::prelude::*;

verus! {

/// Every element of the result of a lookup comes from within the buffer of the source,
/// and its index from within the buffer of the index tensor.
pub proof fn lemma_source_in_bounds(
    inp_shape: Seq<usize>,
    inp_strides: Seq<usize>,
    inp_len: nat,
    idx: Seq<usize>,
    idx_shape: Seq<usize>,
    idx_strides: Seq<usize>,
    ax: int,
    i: int,
)
    requires
        lookup_defined(inp_shape, inp_strides, inp_len, idx, idx_shape, idx_strides, ax),
        0 <= i < numel(with_dim_replaced(inp_shape, idx_shape, ax)),
    ensures
        0 <= index_offset(
            idx_shape,
            idx_strides,
            with_dim_replaced(inp_shape, idx_shape, ax),
            i,
        ) < idx.len(),
        0 <= source_offset(
            inp_strides,
            idx,
            idx_shape,
            idx_strides,
            with_dim_replaced(inp_shape, idx_shape, ax),
            ax,
            i,
        ) < inp_len,
{
    let dst = with_dim_replaced(inp_shape, idx_shape, ax);
    let m = idx_shape.len() as int;
    let d = digits(dst, i);
    lemma_digits_within(dst, i);
    assert(forall|j: int| 0 <= j < ax ==> idx_shape[j] == idx_shape.take(ax)[j]);
    assert(forall|j: int| 0 <= j < ax ==> inp_shape[j] == inp_shape.take(ax)[j]);
    let q = d.take(m);
    assert forall|j: int| 0 <= j < q.len() implies 0 <= #[trigger] q[j] < idx_shape[j] by {
        assert(q[j] == d[j]);
        assert(dst[j] == idx_shape[j]);
    }
    lemma_within_has_elements(q, idx_shape, 0);
    lemma_dot_within_span(q, idx_shape, idx_strides, 0);
    let picked = idx[offset_at(q, idx_strides)] as int;
    let e = d.take(ax) + seq![picked] + d.skip(m);
    assert(e.len() == inp_shape.len());
    assert forall|j: int| 0 <= j < e.len() implies 0 <= #[trigger] e[j] < inp_shape[j] by {
        if j < ax {
            assert(e[j] == d[j]);
            assert(dst[j] == inp_shape[j]);
        } else if j == ax {
        } else {
            assert(e[j] == d[m + j - ax - 1]);
            assert(dst[m + j - ax - 1] == inp_shape[j]);
        }
    }
    lemma_within_has_elements(e, inp_shape, 0);
    lemma_dot_within_span(e, inp_shape, inp_strides, 0);
}

/// The index within the source that the `i`-th element of the result of a lookup comes
/// from lies within the shape of the source.
pub proof fn lemma_source_index_within(
    inp_shape: Seq<usize>,
    inp_strides: Seq<usize>,
    inp_len: nat,
    idx: Seq<usize>,
    idx_shape: Seq<usize>,
    idx_strides: Seq<usize>,
    ax: int,
    i: int,
)
    requires
        lookup_defined(inp_shape, inp_strides, inp_len, idx, idx_shape, idx_strides, ax),
        0 <= i < numel(with_dim_replaced(inp_shape, idx_shape, ax)),
    ensures
        within(
            source_index(inp_shape, idx, idx_shape, idx_strides, ax, i),
            inp_shape,
        ),
        source_offset(
            inp_strides,
            idx,
            idx_shape,
            idx_strides,
            with_dim_replaced(inp_shape, idx_shape, ax),
            ax,
            i,
        ) == offset_at(source_index(inp_shape, idx, idx_shape, idx_strides, ax, i), inp_strides),
{
    let dst = with_dim_replaced(inp_shape, idx_shape, ax);
    let m = idx_shape.len() as int;
    let d = digits(dst, i);
    lemma_digits_within(dst, i);
    lemma_source_in_bounds(inp_shape, inp_strides, inp_len, idx, idx_shape, idx_strides, ax, i);
    assert(forall|j: int| 0 <= j < ax ==> idx_shape[j] == idx_shape.take(ax)[j]);
    assert(forall|j: int| 0 <= j < ax ==> inp_shape[j] == inp_shape.take(ax)[j]);
    let e = source_index(inp_shape, idx, idx_shape, idx_strides, ax, i);
    assert(e.len() == inp_shape.len());
    assert forall|j: int| 0 <= j < e.len() implies 0 <= #[trigger] e[j] < inp_shape[j] by {
        if j < ax {
            assert(e[j] == d[j]);
            assert(dst[j] == inp_shape[j]);
        } else if j == ax {
        } else {
            assert(e[j] == d[m + j - ax - 1]);
            assert(dst[m + j - ax - 1] == inp_shape[j]);
        }
    }
}

/// The index within the source that the `i`-th element of the result of a lookup comes
/// from.
pub open spec fn source_index(
    inp_shape: Seq<usize>,
    idx: Seq<usize>,
    idx_shape: Seq<usize>,
    idx_strides: Seq<usize>,
    ax: int,
    i: int,
) -> Seq<int> {
    let dst = with_dim_replaced(inp_shape, idx_shape, ax);
    let d = digits(dst, i);
    let picked = idx[index_offset(idx_shape, idx_strides, dst, i)] as int;
    d.take(ax) + seq![picked] + d.skip(idx_shape.len() as int)
}

/// A select from a contiguous source reads no element of the source twice: two elements
/// of the result come from two places.
pub proof fn lemma_select_reads_each_source_once(
    inp_shape: Seq<usize>,
    inp_len: nat,
    idx: Seq<usize>,
    idx_shape: Seq<usize>,
    idx_strides: Seq<usize>,
    i: int,
    j: int,
)
    requires
        lookup_defined(
            inp_shape,
            row_major_strides(inp_shape),
            inp_len,
            idx,
            idx_shape,
            idx_strides,
            idx_shape.len() as int,
        ),
        0 <= i < numel(without_dim(inp_shape, idx_shape.len() as int)),
        0 <= j < numel(without_dim(inp_shape, idx_shape.len() as int)),
        i != j,
    ensures
        with_dim_replaced(inp_shape, idx_shape, idx_shape.len() as int) == without_dim(
            inp_shape,
            idx_shape.len() as int,
        ),
        source_offset(
            row_major_strides(inp_shape),
            idx,
            idx_shape,
            idx_strides,
            without_dim(inp_shape, idx_shape.len() as int),
            idx_shape.len() as int,
            i,
        ) != source_offset(
            row_major_strides(inp_shape),
            idx,
            idx_shape,
            idx_strides,
            without_dim(inp_shape, idx_shape.len() as int),
            idx_shape.len() as int,
            j,
        ),
{
    let ax = idx_shape.len() as int;
    let strides = row_major_strides(inp_shape);
    let dst = with_dim_replaced(inp_shape, idx_shape, ax);
    assert(idx_shape.skip(ax) =~= Seq::<usize>::empty());
    assert(dst =~= without_dim(inp_shape, ax));
    lemma_source_index_within(inp_shape, strides, inp_len, idx, idx_shape, idx_strides, ax, i);
    lemma_source_index_within(inp_shape, strides, inp_len, idx, idx_shape, idx_strides, ax, j);
    let ei = source_index(inp_shape, idx, idx_shape, idx_strides, ax, i);
    let ej = source_index(inp_shape, idx, idx_shape, idx_strides, ax, j);
    if offset_at(ei, strides) == offset_at(ej, strides) {
        lemma_row_major_is_injective(inp_shape, ei, ej, 0);
        let di = digits(dst, i);
        let dj = digits(dst, j);
        assert forall|k: int| 0 <= k < dst.len() implies di[k] == dj[k] by {
            if k < ax {
                assert(ei[k] == di[k]);
                assert(ej[k] == dj[k]);
            } else {
                assert(ei[k + 1] == di[k]);
                assert(ej[k + 1] == dj[k]);
            }
        }
        assert(di =~= dj);
        lemma_row_major_offset(dst, i, 0);
        lemma_row_major_offset(dst, j, 0);
    }
}

/// The backward pass of a select from a contiguous source adds the gradient of each
/// element of the result into the slot that the element was selected from, and into no
/// other: the slot holds what it held before plus that one gradient.
pub proof fn lemma_select_backward_adds_to_selected_slot<E: Dtype>(
    grad_inp: Seq<E>,
    grad_out: Seq<E>,
    inp_shape: Seq<usize>,
    idx: Seq<usize>,
    idx_shape: Seq<usize>,
    idx_strides: Seq<usize>,
    chosen: int,
)
    requires
        lookup_defined(
            inp_shape,
            row_major_strides(inp_shape),
            grad_inp.len(),
            idx,
            idx_shape,
            idx_strides,
            idx_shape.len() as int,
        ),
        0 <= chosen < numel(without_dim(inp_shape, idx_shape.len() as int)),
    ensures
        scattered(
            grad_inp,
            grad_out,
            row_major_strides(inp_shape),
            idx,
            idx_shape,
            idx_strides,
            without_dim(inp_shape, idx_shape.len() as int),
            idx_shape.len() as int,
            numel(without_dim(inp_shape, idx_shape.len() as int)) as int,
        )[source_offset(
            row_major_strides(inp_shape),
            idx,
            idx_shape,
            idx_strides,
            without_dim(inp_shape, idx_shape.len() as int),
            idx_shape.len() as int,
            chosen,
        )] == grad_inp[source_offset(
            row_major_strides(inp_shape),
            idx,
            idx_shape,
            idx_strides,
            without_dim(inp_shape, idx_shape.len() as int),
            idx_shape.len() as int,
            chosen,
        )].sum(grad_out[chosen]),
{
    let ax = idx_shape.len() as int;
    let strides = row_major_strides(inp_shape);
    let dst = without_dim(inp_shape, ax);
    let n = numel(dst) as int;
    assert(idx_shape.skip(ax) =~= Seq::<usize>::empty());
    assert(with_dim_replaced(inp_shape, idx_shape, ax) =~= dst);
    assert forall|i: int| 0 <= i < n && i != chosen implies #[trigger] source_offset(
        strides,
        idx,
        idx_shape,
        idx_strides,
        with_dim_replaced(inp_shape, idx_shape, ax),
        ax,
        i,
    ) != source_offset(
        strides,
        idx,
        idx_shape,
        idx_strides,
        with_dim_replaced(inp_shape, idx_shape, ax),
        ax,
        chosen,
    ) by {
        lemma_select_reads_each_source_once(
            inp_shape,
            grad_inp.len(),
            idx,
            idx_shape,
            idx_strides,
            i,
            chosen,
        );
    }
    lemma_scatter_adds_to_selected_slot(
        grad_inp,
        grad_out,
        inp_shape,
        strides,
        idx,
        idx_shape,
        idx_strides,
        ax,
        n,
        chosen,
    );
}

/// The index tensor that holds `0, 1, 2, ...` along the first dimension of a contiguous
/// source suits a lookup along that dimension.
pub open spec fn identity_lookup(shape: Seq<usize>, len: nat, idx: Seq<usize>) -> bool {
    &&& shape.len() >= 1
    &&& representable(shape)
    &&& len == numel(shape)
    &&& idx.len() == shape[0]
    &&& forall|k: int| 0 <= k < idx.len() ==> #[trigger] idx[k] == k
}

/// What an identity lookup reads for the `i`-th element of the result is the `i`-th
/// element of the source.
pub proof fn lemma_identity_source(shape: Seq<usize>, idx: Seq<usize>, i: int)
    requires
        identity_lookup(shape, numel(shape), idx),
        0 <= i < numel(shape),
    ensures
        with_dim_replaced(shape, seq![shape[0]], 0) == shape,
        source_offset(
            row_major_strides(shape),
            idx,
            seq![shape[0]],
            seq![1usize],
            shape,
            0,
            i,
        ) == i,
{
    let idx_shape = seq![shape[0]];
    let idx_strides = seq![1usize];
    assert(with_dim_replaced(shape, idx_shape, 0) =~= shape);
    let d = digits(shape, i);
    lemma_digits_within(shape, i);
    let q = d.take(1);
    assert(q.len() == 1);
    assert(q[0] == d[0]);
    assert(idx_strides[0] == 1);
    assert(crate::strided::dot(q, idx_strides, 1) == 0);
    assert(crate::strided::dot(q, idx_strides, 0) == q[0] * idx_strides[0] + crate::strided::dot(
        q,
        idx_strides,
        1,
    ));
    assert(offset_at(q, idx_strides) == d[0]);
    assert(idx[d[0]] == d[0]);
    assert(d.take(0) + seq![d[0]] + d.skip(1) =~= d);
    lemma_row_major_offset(shape, i, 0);
}

/// A gather with the identity as its index tensor returns the source: every element of
/// the result is the element of the source at the same place.
pub proof fn lemma_identity_gather_returns_source<E>(
    inp: Seq<E>,
    shape: Seq<usize>,
    idx: Seq<usize>,
)
    requires
        identity_lookup(shape, inp.len(), idx),
    ensures
        gathered(inp, shape, row_major_strides(shape), idx, seq![shape[0]], seq![1usize], 0)
            == inp,
{
    let out = gathered(
        inp,
        shape,
        row_major_strides(shape),
        idx,
        seq![shape[0]],
        seq![1usize],
        0,
    );
    assert(with_dim_replaced(shape, seq![shape[0]], 0) =~= shape);
    assert forall|i: int| 0 <= i < out.len() implies out[i] == inp[i] by {
        lemma_identity_source(shape, idx, i);
    }
    assert(out =~= inp);
}

/// The backward pass of a gather with the identity as its index tensor adds the gradient
/// of each element of the result into the gradient of the same element of the source,
/// once. After the first `n` elements, those `n` have been added and the others are as
/// they were.
pub proof fn lemma_identity_scatter_prefix<E: Dtype>(
    grad_inp: Seq<E>,
    grad_out: Seq<E>,
    shape: Seq<usize>,
    idx: Seq<usize>,
    n: int,
)
    requires
        identity_lookup(shape, grad_inp.len(), idx),
        grad_out.len() == numel(shape),
        0 <= n <= numel(shape),
    ensures
        scattered(
            grad_inp,
            grad_out,
            row_major_strides(shape),
            idx,
            seq![shape[0]],
            seq![1usize],
            shape,
            0,
            n,
        ) == Seq::new(
            grad_inp.len(),
            |j: int| if j < n { grad_inp[j].sum(grad_out[j]) } else { grad_inp[j] },
        ),
    decreases n,
{
    let after = scattered(
        grad_inp,
        grad_out,
        row_major_strides(shape),
        idx,
        seq![shape[0]],
        seq![1usize],
        shape,
        0,
        n,
    );
    let expected = Seq::new(
        grad_inp.len(),
        |j: int| if j < n { grad_inp[j].sum(grad_out[j]) } else { grad_inp[j] },
    );
    if n > 0 {
        lemma_identity_scatter_prefix(grad_inp, grad_out, shape, idx, n - 1);
        lemma_identity_source(shape, idx, n - 1);
    }
    assert(after =~= expected);
}

/// The backward pass of a gather with the identity as its index tensor adds the gradient
/// of the result into the gradient of the source, element by element: with a gradient of
/// all ones, every element of the source receives exactly one unit.
pub proof fn lemma_identity_gather_backward_adds_once<E: Dtype>(
    grad_inp: Seq<E>,
    grad_out: Seq<E>,
    shape: Seq<usize>,
    idx: Seq<usize>,
)
    requires
        identity_lookup(shape, grad_inp.len(), idx),
        grad_out.len() == numel(shape),
    ensures
        scattered(
            grad_inp,
            grad_out,
            row_major_strides(shape),
            idx,
            seq![shape[0]],
            seq![1usize],
            shape,
            0,
            numel(shape) as int,
        ) == accumulated(grad_inp, grad_out),
{
    lemma_identity_scatter_prefix(grad_inp, grad_out, shape, idx, numel(shape) as int);
    assert(Seq::new(
        grad_inp.len(),
        |j: int| if j < numel(shape) { grad_inp[j].sum(grad_out[j]) } else { grad_inp[j] },
    ) =~= accumulated(grad_inp, grad_out));
}

/// The backward pass of a lookup keeps the size of the gradient of the source, and leaves
/// every slot as it was that no element of the result was copied from.
pub proof fn lemma_scatter_keeps_other_slots<E: Dtype>(
    grad_inp: Seq<E>,
    grad_out: Seq<E>,
    inp_shape: Seq<usize>,
    inp_strides: Seq<usize>,
    idx: Seq<usize>,
    idx_shape: Seq<usize>,
    idx_strides: Seq<usize>,
    ax: int,
    n: int,
    slot: int,
)
    requires
        lookup_defined(inp_shape, inp_strides, grad_inp.len(), idx, idx_shape, idx_strides, ax),
        0 <= n <= numel(with_dim_replaced(inp_shape, idx_shape, ax)),
        0 <= slot < grad_inp.len(),
        forall|i: int|
            0 <= i < n ==> #[trigger] source_offset(
                inp_strides,
                idx,
                idx_shape,
                idx_strides,
                with_dim_replaced(inp_shape, idx_shape, ax),
                ax,
                i,
            ) != slot,
    ensures
        scattered(
            grad_inp,
            grad_out,
            inp_strides,
            idx,
            idx_shape,
            idx_strides,
            with_dim_replaced(inp_shape, idx_shape, ax),
            ax,
            n,
        ).len() == grad_inp.len(),
        scattered(
            grad_inp,
            grad_out,
            inp_strides,
            idx,
            idx_shape,
            idx_strides,
            with_dim_replaced(inp_shape, idx_shape, ax),
            ax,
            n,
        )[slot] == grad_inp[slot],
    decreases n,
{
    if n > 0 {
        let dst = with_dim_replaced(inp_shape, idx_shape, ax);
        lemma_scatter_keeps_other_slots(
            grad_inp,
            grad_out,
            inp_shape,
            inp_strides,
            idx,
            idx_shape,
            idx_strides,
            ax,
            n - 1,
            slot,
        );
        lemma_source_in_bounds(
            inp_shape,
            inp_strides,
            grad_inp.len(),
            idx,
            idx_shape,
            idx_strides,
            ax,
            n - 1,
        );
        assert(source_offset(inp_strides, idx, idx_shape, idx_strides, dst, ax, n - 1) != slot);
    }
}

/// The backward pass of a lookup adds the gradient of an element of the result into the
/// slot that the element was copied from. Where no other element was copied from that
/// slot, the slot holds what it held before plus that one gradient.
pub proof fn lemma_scatter_adds_to_selected_slot<E: Dtype>(
    grad_inp: Seq<E>,
    grad_out: Seq<E>,
    inp_shape: Seq<usize>,
    inp_strides: Seq<usize>,
    idx: Seq<usize>,
    idx_shape: Seq<usize>,
    idx_strides: Seq<usize>,
    ax: int,
    n: int,
    chosen: int,
)
    requires
        lookup_defined(inp_shape, inp_strides, grad_inp.len(), idx, idx_shape, idx_strides, ax),
        0 <= chosen < n <= numel(with_dim_replaced(inp_shape, idx_shape, ax)),
        forall|i: int|
            0 <= i < n && i != chosen ==> #[trigger] source_offset(
                inp_strides,
                idx,
                idx_shape,
                idx_strides,
                with_dim_replaced(inp_shape, idx_shape, ax),
                ax,
                i,
            ) != source_offset(
                inp_strides,
                idx,
                idx_shape,
                idx_strides,
                with_dim_replaced(inp_shape, idx_shape, ax),
                ax,
                chosen,
            ),
    ensures
        scattered(
            grad_inp,
            grad_out,
            inp_strides,
            idx,
            idx_shape,
            idx_strides,
            with_dim_replaced(inp_shape, idx_shape, ax),
            ax,
            n,
        )[source_offset(
            inp_strides,
            idx,
            idx_shape,
            idx_strides,
            with_dim_replaced(inp_shape, idx_shape, ax),
            ax,
            chosen,
        )] == grad_inp[source_offset(
            inp_strides,
            idx,
            idx_shape,
            idx_strides,
            with_dim_replaced(inp_shape, idx_shape, ax),
            ax,
            chosen,
        )].sum(grad_out[chosen]),
    decreases n,
{
    let dst = with_dim_replaced(inp_shape, idx_shape, ax);
    let slot = source_offset(inp_strides, idx, idx_shape, idx_strides, dst, ax, chosen);
    lemma_source_in_bounds(
        inp_shape,
        inp_strides,
        grad_inp.len(),
        idx,
        idx_shape,
        idx_strides,
        ax,
        chosen,
    );
    lemma_source_in_bounds(
        inp_shape,
        inp_strides,
        grad_inp.len(),
        idx,
        idx_shape,
        idx_strides,
        ax,
        n - 1,
    );
    if chosen == n - 1 {
        lemma_scatter_keeps_other_slots(
            grad_inp,
            grad_out,
            inp_shape,
            inp_strides,
            idx,
            idx_shape,
            idx_strides,
            ax,
            n - 1,
            slot,
        );
    } else {
        lemma_scatter_adds_to_selected_slot(
            grad_inp,
            grad_out,
            inp_shape,
            inp_strides,
            idx,
            idx_shape,
            idx_strides,
            ax,
            n - 1,
            chosen,
        );
        lemma_scatter_size(
            grad_inp,
            grad_out,
            inp_shape,
            inp_strides,
            idx,
            idx_shape,
            idx_strides,
            ax,
            n - 1,
        );
        assert(source_offset(inp_strides, idx, idx_shape, idx_strides, dst, ax, n - 1) != slot);
    }
}

/// The backward pass of a lookup keeps the size of the gradient of the source.
pub proof fn lemma_scatter_size<E: Dtype>(
    grad_inp: Seq<E>,
    grad_out: Seq<E>,
    inp_shape: Seq<usize>,
    inp_strides: Seq<usize>,
    idx: Seq<usize>,
    idx_shape: Seq<usize>,
    idx_strides: Seq<usize>,
    ax: int,
    n: int,
)
    requires
        lookup_defined(inp_shape, inp_strides, grad_inp.len(), idx, idx_shape, idx_strides, ax),
        0 <= n <= numel(with_dim_replaced(inp_shape, idx_shape, ax)),
    ensures
        scattered(
            grad_inp,
            grad_out,
            inp_strides,
            idx,
            idx_shape,
            idx_strides,
            with_dim_replaced(inp_shape, idx_shape, ax),
            ax,
            n,
        ).len() == grad_inp.len(),
    decreases n,
{
    if n > 0 {
        lemma_scatter_size(
            grad_inp,
            grad_out,
            inp_shape,
            inp_strides,
            idx,
            idx_shape,
            idx_strides,
            ax,
            n - 1,
        );
        lemma_source_in_bounds(
            inp_shape,
            inp_strides,
            grad_inp.len(),
            idx,
            idx_shape,
            idx_strides,
            ax,
            n - 1,
        );
    }
}

} // verus!
