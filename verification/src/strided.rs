use crate::shapes::{num_elements, numel, representable, row_major_strides, suffix_product};
use vstd::prelude::*;

verus! {

/// The index along dimension `j` of the `i`-th element, in row-major order, of a tensor of
/// this shape.
pub open spec fn digit(shape: Seq<usize>, i: int, j: int) -> int {
    (i / (suffix_product(shape, j + 1) as int)) % (shape[j] as int)
}

/// The index, one number for each dimension, of the `i`-th element in row-major order.
pub open spec fn digits(shape: Seq<usize>, i: int) -> Seq<int> {
    Seq::new(shape.len(), |j: int| digit(shape, i, j))
}

/// The index lies within the shape.
pub open spec fn within(index: Seq<int>, shape: Seq<usize>) -> bool {
    &&& index.len() == shape.len()
    &&& forall|j: int| 0 <= j < index.len() ==> 0 <= #[trigger] index[j] < shape[j]
}

/// The sum of `index[j] * strides[j]` over the dimensions from `from` on.
pub open spec fn dot(index: Seq<int>, strides: Seq<usize>, from: int) -> int
    decreases index.len() - from,
{
    if from < 0 || from >= index.len() {
        0
    } else {
        index[from] * strides[from] + dot(index, strides, from + 1)
    }
}

/// The position in the buffer of the element at `index`, under these strides.
pub open spec fn offset_at(index: Seq<int>, strides: Seq<usize>) -> int {
    dot(index, strides, 0)
}

/// The sum of `(shape[j] - 1) * strides[j]` over the dimensions from `from` on: the
/// position furthest into the buffer that an index within the shape can have.
pub open spec fn span(shape: Seq<usize>, strides: Seq<usize>, from: int) -> int
    decreases shape.len() - from,
{
    if from < 0 || from >= shape.len() {
        0
    } else {
        (shape[from] - 1) * strides[from] + span(shape, strides, from + 1)
    }
}

/// Every element that the shape and the strides address lies in a buffer of `len`
/// elements.
pub open spec fn addressable(shape: Seq<usize>, strides: Seq<usize>, len: nat) -> bool {
    &&& strides.len() == shape.len()
    &&& numel(shape) > 0 ==> span(shape, strides, 0) < len
}

/// A shape with an element has no dimension of size 0.
pub proof fn lemma_positive_dims(shape: Seq<usize>, from: int)
    requires
        0 <= from <= shape.len(),
        suffix_product(shape, from) > 0,
    ensures
        forall|j: int| from <= j < shape.len() ==> #[trigger] shape[j] > 0,
        forall|k: int| from <= k <= shape.len() ==> #[trigger] suffix_product(shape, k) > 0,
    decreases shape.len() - from,
{
    if from < shape.len() {
        let rest = suffix_product(shape, from + 1);
        assert(shape[from] > 0 && rest > 0) by (nonlinear_arith)
            requires
                shape[from] as nat * rest > 0,
        ;
        lemma_positive_dims(shape, from + 1);
    }
}

/// A shape that has an index within it has an element.
pub proof fn lemma_within_has_elements(index: Seq<int>, shape: Seq<usize>, from: int)
    requires
        within(index, shape),
        0 <= from <= shape.len(),
    ensures
        suffix_product(shape, from) > 0,
    decreases shape.len() - from,
{
    if from < shape.len() {
        lemma_within_has_elements(index, shape, from + 1);
        let rest = suffix_product(shape, from + 1);
        assert(index[from] < shape[from]);
        assert(shape[from] as nat * rest > 0) by (nonlinear_arith)
            requires
                shape[from] > 0,
                rest > 0,
        ;
    }
}

/// The index of an element of the shape lies within the shape.
pub proof fn lemma_digits_within(shape: Seq<usize>, i: int)
    requires
        0 <= i < numel(shape),
    ensures
        within(digits(shape, i), shape),
{
    lemma_positive_dims(shape, 0);
    assert forall|j: int| 0 <= j < shape.len() implies 0 <= #[trigger] digits(shape, i)[j]
        < shape[j] by {
        let below = suffix_product(shape, j + 1) as int;
        assert(below > 0);
        vstd::arithmetic::div_mod::lemma_div_pos_is_pos(i, below);
        vstd::arithmetic::div_mod::lemma_mod_bound(i / below, shape[j] as int);
    }
}

/// An index within the shape has its position between 0 and the span, and so has each
/// sum of the terms behind a dimension.
pub proof fn lemma_dot_within_span(
    index: Seq<int>,
    shape: Seq<usize>,
    strides: Seq<usize>,
    from: int,
)
    requires
        within(index, shape),
        strides.len() == shape.len(),
        0 <= from <= shape.len(),
    ensures
        0 <= dot(index, strides, from) <= span(shape, strides, from),
        from < shape.len() ==> 0 <= index[from] * strides[from] <= dot(index, strides, from),
        from < shape.len() ==> dot(index, strides, from + 1) <= dot(index, strides, from),
        dot(index, strides, from) <= dot(index, strides, 0),
    decreases shape.len() - from,
{
    if from < shape.len() {
        lemma_dot_within_span(index, shape, strides, from + 1);
        let e = index[from];
        let n = shape[from] as int;
        let s = strides[from] as int;
        assert(0 <= e * s <= (n - 1) * s) by (nonlinear_arith)
            requires
                0 <= e <= n - 1,
                0 <= s,
        ;
    }
    lemma_dot_decreasing(index, shape, strides, 0, from);
}

/// The sums of the terms behind a dimension fall from dimension to dimension.
pub proof fn lemma_dot_decreasing(
    index: Seq<int>,
    shape: Seq<usize>,
    strides: Seq<usize>,
    lo: int,
    hi: int,
)
    requires
        within(index, shape),
        strides.len() == shape.len(),
        0 <= lo <= hi <= shape.len(),
    ensures
        0 <= dot(index, strides, hi) <= dot(index, strides, lo),
    decreases hi - lo,
{
    if lo < hi {
        lemma_dot_decreasing(index, shape, strides, lo + 1, hi);
        let e = index[lo];
        let s = strides[lo] as int;
        assert(0 <= e * s) by (nonlinear_arith)
            requires
                0 <= e,
                0 <= s,
        ;
    } else {
        lemma_dot_nonnegative(index, shape, strides, hi);
    }
}

/// No sum of the terms behind a dimension is negative.
pub proof fn lemma_dot_nonnegative(
    index: Seq<int>,
    shape: Seq<usize>,
    strides: Seq<usize>,
    from: int,
)
    requires
        within(index, shape),
        strides.len() == shape.len(),
        0 <= from <= shape.len(),
    ensures
        0 <= dot(index, strides, from),
    decreases shape.len() - from,
{
    if from < shape.len() {
        lemma_dot_nonnegative(index, shape, strides, from + 1);
        let e = index[from];
        let s = strides[from] as int;
        assert(0 <= e * s) by (nonlinear_arith)
            requires
                0 <= e,
                0 <= s,
        ;
    }
}

/// Under row-major strides the span behind a dimension is one less than the number of
/// elements behind it.
pub proof fn lemma_row_major_span(shape: Seq<usize>, from: int)
    requires
        representable(shape),
        numel(shape) > 0,
        0 <= from <= shape.len(),
    ensures
        span(shape, row_major_strides(shape), from) == suffix_product(shape, from) - 1,
    decreases shape.len() - from,
{
    lemma_positive_dims(shape, 0);
    if from < shape.len() {
        lemma_row_major_span(shape, from + 1);
        let n = shape[from] as int;
        let rest = suffix_product(shape, from + 1) as int;
        assert(rest <= usize::MAX);
        assert(row_major_strides(shape)[from] == rest);
        assert((n - 1) * rest + (rest - 1) == n * rest - 1) by (nonlinear_arith);
    }
}

/// A contiguous tensor whose buffer has as many elements as its shape is addressable.
pub proof fn lemma_contiguous_is_addressable(shape: Seq<usize>, len: nat)
    requires
        representable(shape),
        len == numel(shape),
    ensures
        addressable(shape, row_major_strides(shape), len),
{
    if numel(shape) > 0 {
        lemma_row_major_span(shape, 0);
    }
}

/// Under row-major strides the position of the `i`-th element is `i`: the terms behind
/// a dimension sum to the remainder of `i` by the number of elements behind it.
pub proof fn lemma_row_major_offset(shape: Seq<usize>, i: int, from: int)
    requires
        representable(shape),
        0 <= i < numel(shape),
        0 <= from <= shape.len(),
    ensures
        dot(digits(shape, i), row_major_strides(shape), from) == i % (suffix_product(
            shape,
            from,
        ) as int),
        from == 0 ==> offset_at(digits(shape, i), row_major_strides(shape)) == i,
    decreases shape.len() - from,
{
    lemma_positive_dims(shape, 0);
    if from < shape.len() {
        lemma_row_major_offset(shape, i, from + 1);
        let n = shape[from] as int;
        let rest = suffix_product(shape, from + 1) as int;
        assert(rest <= usize::MAX);
        assert(row_major_strides(shape)[from] == rest);
        assert(digits(shape, i)[from] == (i / rest) % n);
        vstd::arithmetic::div_mod::lemma_mod_breakdown(i, rest, n);
        assert(suffix_product(shape, from) == n * rest);
        assert(rest * n == n * rest) by (nonlinear_arith);
        assert(((i / rest) % n) * rest == rest * ((i / rest) % n)) by (nonlinear_arith);
    } else {
        assert(suffix_product(shape, from) == 1);
    }
    if from == 0 {
        vstd::arithmetic::div_mod::lemma_small_mod(i as nat, numel(shape));
    }
}

/// Under row-major strides no two indices within the shape have the same position: where
/// the terms behind a dimension sum to the same for both, the indices agree from that
/// dimension on.
pub proof fn lemma_row_major_is_injective(shape: Seq<usize>, a: Seq<int>, b: Seq<int>, from: int)
    requires
        representable(shape),
        within(a, shape),
        within(b, shape),
        0 <= from <= shape.len(),
        dot(a, row_major_strides(shape), from) == dot(b, row_major_strides(shape), from),
    ensures
        forall|j: int| from <= j < shape.len() ==> a[j] == b[j],
        from == 0 ==> a == b,
    decreases shape.len() - from,
{
    let strides = row_major_strides(shape);
    lemma_within_has_elements(a, shape, 0);
    lemma_positive_dims(shape, 0);
    if from < shape.len() {
        let rest = suffix_product(shape, from + 1) as int;
        assert(rest <= usize::MAX);
        assert(strides[from] == rest);
        lemma_dot_within_span(a, shape, strides, from + 1);
        lemma_dot_within_span(b, shape, strides, from + 1);
        lemma_row_major_span(shape, from + 1);
        let ra = dot(a, strides, from + 1);
        let rb = dot(b, strides, from + 1);
        let whole = dot(a, strides, from);
        assert(whole == a[from] * rest + ra);
        assert(whole == b[from] * rest + rb);
        vstd::arithmetic::div_mod::lemma_fundamental_div_mod_converse(whole, rest, a[from], ra);
        vstd::arithmetic::div_mod::lemma_fundamental_div_mod_converse(whole, rest, b[from], rb);
        lemma_row_major_is_injective(shape, a, b, from + 1);
    }
    if from == 0 {
        assert(a =~= b);
    }
}

/// In a shape without a dimension of size 0, the spans behind a dimension fall from
/// dimension to dimension, and none is negative.
pub proof fn lemma_span_decreasing(shape: Seq<usize>, strides: Seq<usize>, lo: int, hi: int)
    requires
        strides.len() == shape.len(),
        forall|j: int| 0 <= j < shape.len() ==> #[trigger] shape[j] > 0,
        0 <= lo <= hi <= shape.len(),
    ensures
        0 <= span(shape, strides, hi) <= span(shape, strides, lo),
        lo < shape.len() ==> 0 <= (shape[lo] - 1) * strides[lo] <= span(shape, strides, lo),
    decreases shape.len() - lo,
{
    if lo < shape.len() {
        let n = shape[lo] as int;
        let s = strides[lo] as int;
        assert(0 <= (n - 1) * s) by (nonlinear_arith)
            requires
                n >= 1,
                s >= 0,
        ;
        if lo < hi {
            lemma_span_decreasing(shape, strides, lo + 1, hi);
        } else {
            lemma_span_decreasing(shape, strides, lo + 1, lo + 1);
        }
    }
}

/// Whether every element that the shape and the strides address lies in a buffer of `len`
/// elements.
pub fn is_addressable(shape: &Vec<usize>, strides: &Vec<usize>, len: usize) -> (b: bool)
    requires
        representable(shape@),
    ensures
        b == addressable(shape@, strides@, len as nat),
{
    if strides.len() != shape.len() {
        return false;
    }
    if num_elements(shape) == 0 {
        return true;
    }
    proof {
        lemma_positive_dims(shape@, 0);
    }
    let n = shape.len();
    let mut reach: usize = 0;
    let mut j: usize = n;
    while j > 0
        invariant
            j <= n,
            n == shape@.len(),
            strides@.len() == shape@.len(),
            forall|q: int| 0 <= q < shape@.len() ==> #[trigger] shape@[q] > 0,
            numel(shape@) > 0,
            reach == span(shape@, strides@, j as int),
        decreases j,
    {
        j = j - 1;
        proof {
            lemma_span_decreasing(shape@, strides@, 0, j as int);
            lemma_span_decreasing(shape@, strides@, j as int, j + 1);
            assert(span(shape@, strides@, j as int) == (shape@[j as int] - 1) * strides@[j as int]
                + span(shape@, strides@, j + 1));
        }
        match (shape[j] - 1).checked_mul(strides[j]) {
            Some(term) => match term.checked_add(reach) {
                Some(sum) => {
                    reach = sum;
                },
                None => {
                    return false;
                },
            },
            None => {
                return false;
            },
        }
    }
    reach < len
}

/// The index, one number for each dimension, of the `i`-th element in row-major order.
pub fn unravel(shape: &Vec<usize>, i: usize) -> (index: Vec<usize>)
    requires
        representable(shape@),
        i < numel(shape@),
    ensures
        index@.len() == shape@.len(),
        index@.map_values(|d: usize| d as int) == digits(shape@, i as int),
{
    proof {
        lemma_positive_dims(shape@, 0);
    }
    let n = shape.len();
    let mut index: Vec<usize> = Vec::new();
    let mut k: usize = 0;
    while k < n
        invariant
            k <= n,
            n == shape@.len(),
            index@.len() == k,
        decreases n - k,
    {
        index.push(0);
        k = k + 1;
    }
    let mut rest: usize = i;
    let mut j: usize = n;
    assert(suffix_product(shape@, n as int) == 1);
    while j > 0
        invariant
            j <= n,
            n == shape@.len(),
            index@.len() == n,
            representable(shape@),
            i < numel(shape@),
            forall|q: int| 0 <= q < n ==> #[trigger] shape@[q] > 0,
            forall|q: int| 0 <= q <= n ==> #[trigger] suffix_product(shape@, q) > 0,
            rest == i as int / (suffix_product(shape@, j as int) as int),
            forall|q: int| j <= q < n ==> index@[q] == digit(shape@, i as int, q),
        decreases j,
    {
        j = j - 1;
        let ghost below = suffix_product(shape@, j + 1) as int;
        proof {
            vstd::arithmetic::div_mod::lemma_div_denominator(i as int, below, shape@[j as int] as int);
            assert(suffix_product(shape@, j as int) == shape@[j as int] as int * below);
            assert(below * shape@[j as int] as int == shape@[j as int] as int * below)
                by (nonlinear_arith);
        }
        index.set(j, rest % shape[j]);
        rest = rest / shape[j];
    }
    assert(index@.map_values(|d: usize| d as int) =~= digits(shape@, i as int));
    index
}

/// The position in the buffer of the element at `index`, under these strides.
pub fn strided_offset(index: &Vec<usize>, shape: &Vec<usize>, strides: &Vec<usize>) -> (at: usize)
    requires
        within(index@.map_values(|d: usize| d as int), shape@),
        strides@.len() == shape@.len(),
        span(shape@, strides@, 0) <= usize::MAX,
    ensures
        at == offset_at(index@.map_values(|d: usize| d as int), strides@),
        at <= span(shape@, strides@, 0),
{
    let ghost e = index@.map_values(|d: usize| d as int);
    let n = index.len();
    let mut at: usize = 0;
    let mut j: usize = n;
    proof {
        lemma_dot_within_span(e, shape@, strides@, 0);
    }
    while j > 0
        invariant
            j <= n,
            n == index@.len(),
            n == strides@.len(),
            e == index@.map_values(|d: usize| d as int),
            within(e, shape@),
            strides@.len() == shape@.len(),
            dot(e, strides@, 0) <= span(shape@, strides@, 0) <= usize::MAX,
            at == dot(e, strides@, j as int),
        decreases j,
    {
        j = j - 1;
        proof {
            lemma_dot_within_span(e, shape@, strides@, j as int);
            assert(e[j as int] == index@[j as int]);
        }
        at = index[j] * strides[j] + at;
    }
    at
}

} // verus!
