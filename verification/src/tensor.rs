use crate::shapes::{
    contiguous, default_strides, is_contiguous, is_representable, num_elements, numel,
    representable,
};
use crate::strided::{addressable, is_addressable, lemma_contiguous_is_addressable};
use vstd::prelude::*;

verus! {

/// What a backend can fail with. A malformed call is no such failure: it is ruled out by
/// the `requires` of the operation.
#[derive(Clone, Copy, Debug, PartialEq, Eq, Structural)]
pub enum Error {
    /// The backend could not allocate a buffer.
    OutOfMemory,
    /// A gradient buffer does not hold as many elements as the tensor that it belongs to.
    WrongNumElements,
    /// The device refused to load a kernel image, to copy or to launch; the code is the
    /// driver's own.
    Driver(u32),
}

/// The identity of one logical tensor value. Gradients are looked up by it.
#[derive(Clone, Copy, Debug, PartialEq, Eq, Hash, Structural)]
pub struct UniqueId(pub u64);

/// The supply of identities. Each one is handed out once, in rising order.
#[derive(Debug)]
pub struct IdSource {
    pub next: u64,
}

impl IdSource {
    /// The identity has been handed out by this supply.
    pub open spec fn issued(&self, id: UniqueId) -> bool {
        id.0 < self.next
    }

    /// The supply can still hand out `n` identities.
    pub open spec fn can_issue(&self, n: nat) -> bool {
        self.next + n <= u64::MAX
    }

    /// A supply that has handed out nothing.
    pub fn new() -> (ids: IdSource)
        ensures
            ids.next == 0,
    {
        IdSource { next: 0 }
    }

    /// Hands out an identity that this supply has not handed out before.
    pub fn fresh(&mut self) -> (id: UniqueId)
        requires
            old(self).can_issue(1),
        ensures
            id.0 == old(self).next,
            !old(self).issued(id),
            final(self).next == old(self).next + 1,
    {
        let id = UniqueId(self.next);
        self.next = self.next + 1;
        id
    }

    /// Whether the identity has been handed out by this supply.
    pub fn has_issued(&self, id: UniqueId) -> (b: bool)
        ensures
            b == self.issued(id),
    {
        id.0 < self.next
    }

    /// Whether the supply can still hand out `n` identities.
    pub fn has_room(&self, n: u64) -> (b: bool)
        ensures
            b == self.can_issue(n as nat),
    {
        n <= u64::MAX - self.next
    }
}

/// A tensor that records no gradient computation.
#[derive(Clone, Copy, Debug, PartialEq, Eq)]
pub struct NoneTape;

/// A tensor of `N` dimensions: a buffer of elements on a device, with the shape and the
/// strides under which the buffer is read, the identity of the value, and the tape that
/// has recorded how the value came about.
#[derive(Debug)]
pub struct Tensor<E, D, T, const N: usize> {
    pub id: UniqueId,
    pub data: Vec<E>,
    pub shape: Vec<usize>,
    pub strides: Vec<usize>,
    pub device: D,
    pub tape: T,
}

/// The identity, shape and strides of a tensor without its buffer: what a backward
/// computation keeps of a tensor whose gradient it names.
#[derive(Debug)]
pub struct GhostTensor<const N: usize> {
    pub id: UniqueId,
    pub shape: Vec<usize>,
    pub strides: Vec<usize>,
}

impl<const N: usize> GhostTensor<N> {
    /// The tensor has `N` dimensions and strides, and sizes that fit.
    pub open spec fn wf(&self) -> bool {
        &&& self.shape@.len() == N
        &&& self.strides@.len() == N
        &&& representable(self.shape@)
    }

    /// The number of elements of the tensor, and so of its gradient buffer.
    pub fn num_elements(&self) -> (n: usize)
        requires
            self.wf(),
        ensures
            n == numel(self.shape@),
    {
        num_elements(&self.shape)
    }
}

impl<E, D, T, const N: usize> Tensor<E, D, T, N> {
    /// The tensor has `N` dimensions and strides, and sizes that fit. Every element that
    /// its shape and strides address lies in its buffer, and where it is contiguous the
    /// buffer has exactly as many elements as the shape.
    pub open spec fn wf(&self) -> bool {
        &&& self.shape@.len() == N
        &&& self.strides@.len() == N
        &&& representable(self.shape@)
        &&& addressable(self.shape@, self.strides@, self.data@.len())
        &&& contiguous(self.shape@, self.strides@) ==> self.data@.len() == numel(self.shape@)
    }

    /// The strides are those of the shape: the buffer is read in row-major order without
    /// gaps.
    pub open spec fn is_contiguous(&self) -> bool {
        contiguous(self.shape@, self.strides@)
    }

    /// Whether the tensor is well-formed. A caller that cannot prove it tests it here.
    pub fn is_wf(&self) -> (ok: bool)
        ensures
            ok == self.wf(),
    {
        if self.shape.len() != N || self.strides.len() != N {
            return false;
        }
        if !is_representable(&self.shape) {
            return false;
        }
        if !is_addressable(&self.shape, &self.strides, self.data.len()) {
            return false;
        }
        !is_contiguous(&self.shape, &self.strides) || self.data.len() == num_elements(&self.shape)
    }

    /// The tensor without its buffer.
    pub fn ghost(&self) -> (g: GhostTensor<N>)
        ensures
            g.id == self.id,
            g.shape@ == self.shape@,
            g.strides@ == self.strides@,
    {
        GhostTensor { id: self.id, shape: self.shape.clone(), strides: self.strides.clone() }
    }

    /// Parts the value from what has been recorded about it.
    pub fn split_tape(self) -> (parts: (Tensor<E, D, NoneTape, N>, T))
        ensures
            parts.0.id == self.id,
            parts.0.data == self.data,
            parts.0.shape == self.shape,
            parts.0.strides == self.strides,
            parts.0.device == self.device,
            parts.0.tape == NoneTape,
            parts.1 == self.tape,
    {
        let Tensor { id, data, shape, strides, device, tape } = self;
        (Tensor { id, data, shape, strides, device, tape: NoneTape }, tape)
    }

    /// Binds a tape to the value, in place of the one it has.
    pub fn put_tape<T2>(self, tape: T2) -> (t: Tensor<E, D, T2, N>)
        ensures
            t.id == self.id,
            t.data == self.data,
            t.shape == self.shape,
            t.strides == self.strides,
            t.device == self.device,
            t.tape == tape,
    {
        let Tensor { id, data, shape, strides, device, tape: _ } = self;
        Tensor { id, data, shape, strides, device, tape }
    }
}

impl<E: Copy, D: Copy, T, const N: usize> Tensor<E, D, T, N> {
    /// The same value once more, without the tape: a tensor of the same identity over a
    /// copy of the buffer. An operation consumes its operands; an operand that is needed
    /// again goes into the operation as such a copy.
    pub fn retained(&self) -> (t: Tensor<E, D, NoneTape, N>)
        ensures
            t.id == self.id,
            t.data@ == self.data@,
            t.shape@ == self.shape@,
            t.strides@ == self.strides@,
            t.device == self.device,
            t.wf() == self.wf(),
            t.is_contiguous() == self.is_contiguous(),
    {
        let mut data: Vec<E> = Vec::new();
        let mut i: usize = 0;
        while i < self.data.len()
            invariant
                i <= self.data@.len(),
                data@ == self.data@.take(i as int),
            decreases self.data@.len() - i,
        {
            data.push(self.data[i]);
            assert(self.data@.take(i + 1) =~= self.data@.take(i as int).push(self.data@[i as int]));
            i = i + 1;
        }
        assert(self.data@.take(self.data@.len() as int) =~= self.data@);
        Tensor {
            id: self.id,
            data,
            shape: self.shape.clone(),
            strides: self.strides.clone(),
            device: self.device,
            tape: NoneTape,
        }
    }
}

impl<E, D, const N: usize> Tensor<E, D, NoneTape, N> {
    /// A contiguous tensor of the given shape over the given buffer.
    pub fn from_parts(id: UniqueId, shape: Vec<usize>, data: Vec<E>, device: D) -> (t: Tensor<
        E,
        D,
        NoneTape,
        N,
    >)
        requires
            shape@.len() == N,
            representable(shape@),
            data@.len() == numel(shape@),
        ensures
            t.wf(),
            t.is_contiguous(),
            t.id == id,
            t.shape == shape,
            t.data == data,
            t.device == device,
    {
        let strides = default_strides(&shape);
        proof {
            lemma_contiguous_is_addressable(shape@, data@.len());
        }
        Tensor { id, data, shape, strides, device, tape: NoneTape }
    }
}

} // verus!
