use vstd::prelude::*;

verus! {

/// One dimension of a shape: a size that is fixed either in the type or at run time.
///
/// Every formula of this crate reads a dimension through [`Dim::size`] alone, so it is the
/// same formula for both kinds.
pub trait Dim: Copy {
    /// The size of the dimension.
    spec fn extent(&self) -> nat;

    fn size(&self) -> (n: usize)
        ensures
            n == self.extent(),
    ;
}

/// A dimension known at run time.
impl Dim for usize {
    open spec fn extent(&self) -> nat {
        *self as nat
    }

    fn size(&self) -> (n: usize) {
        *self
    }
}

/// A dimension fixed in the type.
#[derive(Clone, Copy, Debug, PartialEq, Eq)]
pub struct Const<const N: usize>;

impl<const N: usize> Dim for Const<N> {
    open spec fn extent(&self) -> nat {
        N as nat
    }

    fn size(&self) -> (n: usize) {
        N
    }
}

/// The product of the dimensions of `shape` from position `from` on; 1 past the end.
pub open spec fn suffix_product(shape: Seq<usize>, from: int) -> nat
    decreases shape.len() - from,
{
    if from < 0 || from >= shape.len() {
        1
    } else {
        shape[from] as nat * suffix_product(shape, from + 1)
    }
}

/// The number of elements of a tensor of this shape.
pub open spec fn numel(shape: Seq<usize>) -> nat {
    suffix_product(shape, 0)
}

/// Every stride of the shape, and its number of elements, fits in `usize`.
pub open spec fn representable(shape: Seq<usize>) -> bool {
    forall|i: int| 0 <= i <= shape.len() ==> #[trigger] suffix_product(shape, i) <= usize::MAX
}

/// The strides of a contiguous, row-major tensor of this shape: each dimension steps over
/// all the dimensions behind it.
pub open spec fn row_major_strides(shape: Seq<usize>) -> Seq<usize> {
    Seq::new(shape.len(), |i: int| suffix_product(shape, i + 1) as usize)
}

/// The strides are those of a contiguous tensor of this shape.
pub open spec fn contiguous(shape: Seq<usize>, strides: Seq<usize>) -> bool {
    strides == row_major_strides(shape)
}

/// `shape` without the dimension at `ax`.
pub open spec fn without_dim(shape: Seq<usize>, ax: int) -> Seq<usize> {
    shape.take(ax) + shape.skip(ax + 1)
}

/// `shape` with the dimension at `ax` replaced by the dimensions of `idx` from `ax` on.
///
/// The dimensions of `idx` before `ax` are those that it shares with `shape`.
pub open spec fn with_dim_replaced(shape: Seq<usize>, idx: Seq<usize>, ax: int) -> Seq<usize> {
    shape.take(ax) + idx.skip(ax) + shape.skip(ax + 1)
}

/// `shape` without the dimension at `ax`.
pub fn remove_dim(shape: &Vec<usize>, ax: usize) -> (out: Vec<usize>)
    requires
        ax < shape@.len(),
    ensures
        out@ == without_dim(shape@, ax as int),
{
    let mut out: Vec<usize> = Vec::new();
    let mut i: usize = 0;
    while i < shape.len()
        invariant
            i <= shape@.len(),
            ax < shape@.len(),
            out@.len() == if i <= ax { i as int } else { i - 1 },
            forall|j: int| 0 <= j < out@.len() && j < ax ==> out@[j] == shape@[j],
            forall|j: int| ax <= j < out@.len() ==> out@[j] == shape@[j + 1],
        decreases shape@.len() - i,
    {
        if i != ax {
            out.push(shape[i]);
        }
        i = i + 1;
    }
    assert(out@ =~= without_dim(shape@, ax as int));
    out
}

/// `shape` with the dimension at `ax` replaced by the dimensions of `idx` from `ax` on.
pub fn replace_dim(shape: &Vec<usize>, idx: &Vec<usize>, ax: usize) -> (out: Vec<usize>)
    requires
        ax < shape@.len(),
        ax <= idx@.len(),
    ensures
        out@ == with_dim_replaced(shape@, idx@, ax as int),
{
    let mut out: Vec<usize> = Vec::new();
    let mut i: usize = 0;
    while i < ax
        invariant
            i <= ax,
            ax < shape@.len(),
            out@ == shape@.take(i as int),
        decreases ax - i,
    {
        out.push(shape[i]);
        assert(shape@.take(i + 1) =~= shape@.take(i as int).push(shape@[i as int]));
        i = i + 1;
    }
    let mut k: usize = ax;
    while k < idx.len()
        invariant
            ax <= k <= idx@.len(),
            out@ == shape@.take(ax as int) + idx@.subrange(ax as int, k as int),
        decreases idx@.len() - k,
    {
        out.push(idx[k]);
        assert(idx@.subrange(ax as int, k + 1) =~= idx@.subrange(ax as int, k as int).push(
            idx@[k as int],
        ));
        assert(out@ =~= shape@.take(ax as int) + idx@.subrange(ax as int, k + 1));
        k = k + 1;
    }
    assert(idx@.subrange(ax as int, idx@.len() as int) =~= idx@.skip(ax as int));
    let n = shape.len();
    let mut r: usize = ax + 1;
    while r < n
        invariant
            ax < r <= shape@.len(),
            n == shape@.len(),
            out@ == shape@.take(ax as int) + idx@.skip(ax as int) + shape@.subrange(
                ax + 1,
                r as int,
            ),
        decreases shape@.len() - r,
    {
        out.push(shape[r]);
        assert(shape@.subrange(ax + 1, r + 1) =~= shape@.subrange(ax + 1, r as int).push(
            shape@[r as int],
        ));
        assert(out@ =~= shape@.take(ax as int) + idx@.skip(ax as int) + shape@.subrange(
            ax + 1,
            r + 1,
        ));
        r = r + 1;
    }
    assert(shape@.subrange(ax + 1, shape@.len() as int) =~= shape@.skip(ax + 1));
    out
}

/// The number of elements of a shape of four dimensions.
pub proof fn lemma_numel_rank4(shape: Seq<usize>)
    requires
        shape.len() == 4,
    ensures
        suffix_product(shape, 4) == 1,
        suffix_product(shape, 3) == shape[3] as nat,
        suffix_product(shape, 2) == shape[2] as nat * shape[3] as nat,
        suffix_product(shape, 1) == shape[1] as nat * (shape[2] as nat * shape[3] as nat),
        numel(shape) == shape[0] as nat * (shape[1] as nat * (shape[2] as nat * shape[3] as nat)),
{
    reveal_with_fuel(suffix_product, 6);
    assert(suffix_product(shape, 3) == shape[3] as nat * 1nat);
}

/// Whether every stride of the shape, and its number of elements, fits in `usize`.
pub fn is_representable(shape: &Vec<usize>) -> (b: bool)
    ensures
        b == representable(shape@),
{
    let mut n: usize = 1;
    let mut i: usize = shape.len();
    assert(suffix_product(shape@, shape@.len() as int) == 1);
    while i > 0
        invariant
            i <= shape.len(),
            n == suffix_product(shape@, i as int),
            forall|j: int| i <= j <= shape.len() ==> #[trigger] suffix_product(shape@, j) <= usize::MAX,
        decreases i,
    {
        i = i - 1;
        match shape[i].checked_mul(n) {
            Some(m) => {
                n = m;
            },
            None => {
                assert(suffix_product(shape@, i as int) > usize::MAX);
                return false;
            },
        }
    }
    true
}

/// The number of elements of a tensor of this shape.
pub fn num_elements(shape: &Vec<usize>) -> (n: usize)
    requires
        representable(shape@),
    ensures
        n == numel(shape@),
{
    let mut n: usize = 1;
    let mut i: usize = shape.len();
    while i > 0
        invariant
            i <= shape.len(),
            representable(shape@),
            n == suffix_product(shape@, i as int),
        decreases i,
    {
        i = i - 1;
        assert(suffix_product(shape@, i as int) <= usize::MAX);
        n = shape[i] * n;
    }
    n
}

/// The strides of a contiguous tensor of this shape.
pub fn default_strides(shape: &Vec<usize>) -> (strides: Vec<usize>)
    requires
        representable(shape@),
    ensures
        strides@ == row_major_strides(shape@),
{
    let mut backwards: Vec<usize> = Vec::new();
    let mut step: usize = 1;
    let mut i: usize = shape.len();
    while i > 0
        invariant
            i <= shape.len(),
            representable(shape@),
            step == suffix_product(shape@, i as int),
            backwards.len() == shape.len() - i,
            forall|j: int|
                0 <= j < backwards.len() ==> backwards[j] == suffix_product(
                    shape@,
                    shape.len() - j,
                ),
        decreases i,
    {
        backwards.push(step);
        i = i - 1;
        assert(suffix_product(shape@, i as int) <= usize::MAX);
        step = shape[i] * step;
    }
    let mut strides: Vec<usize> = Vec::new();
    let mut k: usize = backwards.len();
    while k > 0
        invariant
            k <= backwards.len(),
            backwards.len() == shape.len(),
            strides.len() == backwards.len() - k,
            forall|j: int|
                0 <= j < backwards.len() ==> backwards[j] == suffix_product(
                    shape@,
                    shape.len() - j,
                ),
            forall|j: int|
                0 <= j < strides.len() ==> strides[j] == suffix_product(shape@, j + 1),
        decreases k,
    {
        k = k - 1;
        strides.push(backwards[k]);
    }
    assert(strides@ =~= row_major_strides(shape@));
    strides
}

/// Whether the strides are those of a contiguous tensor of this shape.
pub fn is_contiguous(shape: &Vec<usize>, strides: &Vec<usize>) -> (b: bool)
    requires
        representable(shape@),
    ensures
        b == contiguous(shape@, strides@),
{
    let expected = default_strides(shape);
    if strides.len() != expected.len() {
        return false;
    }
    let mut i: usize = 0;
    while i < strides.len()
        invariant
            i <= strides.len(),
            strides.len() == expected.len(),
            expected@ == row_major_strides(shape@),
            forall|j: int| 0 <= j < i ==> strides[j] == expected[j],
        decreases strides.len() - i,
    {
        if strides[i] != expected[i] {
            assert(strides@[i as int] != row_major_strides(shape@)[i as int]);
            return false;
        }
        i = i + 1;
    }
    assert(strides@ =~= expected@);
    true
}

} // verus!
