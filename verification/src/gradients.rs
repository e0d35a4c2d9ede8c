use crate::dtypes::Dtype;
use crate::shapes::numel;
use crate::tensor::{Error, GhostTensor, UniqueId};
use std::collections::HashMap;
use vstd::prelude::*;

verus! {

broadcast use vstd::std_specs::hash::group_hash_axioms;

/// The gradient buffers of one backward pass, by the identity of the tensor that each
/// belongs to. A buffer comes into being, filled with zeros, when it is first asked for,
/// and is added into from then on.
#[derive(Debug)]
pub struct Gradients<E> {
    pub buffers: HashMap<u64, Vec<E>>,
}

/// A buffer of `n` zeros.
pub open spec fn zeros<E: Dtype>(n: nat) -> Seq<E> {
    Seq::new(n, |i: int| E::zero_value())
}

/// `old` with `delta` added into it, element by element.
pub open spec fn accumulated<E: Dtype>(old: Seq<E>, delta: Seq<E>) -> Seq<E> {
    Seq::new(old.len(), |i: int| old[i].sum(delta[i]))
}

/// The store once a buffer of `n` elements has been asked for under `id`: unchanged where
/// it holds one, and with a buffer of zeros added where it does not.
pub open spec fn with_buffer_for<E: Dtype>(g: Map<UniqueId, Seq<E>>, id: UniqueId, n: nat) -> Map<
    UniqueId,
    Seq<E>,
> {
    if g.contains_key(id) {
        g
    } else {
        g.insert(id, zeros::<E>(n))
    }
}

impl<E> View for Gradients<E> {
    type V = Map<UniqueId, Seq<E>>;

    open spec fn view(&self) -> Map<UniqueId, Seq<E>> {
        Map::new(
            |id: UniqueId| self.buffers@.contains_key(id.0),
            |id: UniqueId| self.buffers@[id.0]@,
        )
    }
}

/// A buffer of `n` zeros.
pub fn zero_buffer<E: Dtype>(n: usize) -> (buf: Vec<E>)
    ensures
        buf@ == zeros::<E>(n as nat),
{
    let mut buf: Vec<E> = Vec::new();
    let mut i: usize = 0;
    while i < n
        invariant
            i <= n,
            buf@.len() == i,
            forall|j: int| 0 <= j < i ==> buf@[j] == E::zero_value(),
        decreases n - i,
    {
        buf.push(E::zero());
        i = i + 1;
    }
    assert(buf@ =~= zeros::<E>(n as nat));
    buf
}

/// Adds `src` into `dst`, element by element.
pub fn accumulate_into<E: Dtype>(dst: &mut Vec<E>, src: &Vec<E>)
    requires
        old(dst)@.len() == src@.len(),
    ensures
        final(dst)@ == accumulated(old(dst)@, src@),
{
    let n = dst.len();
    let mut i: usize = 0;
    while i < n
        invariant
            i <= n,
            n == src@.len(),
            dst@.len() == n,
            forall|j: int| 0 <= j < i ==> dst@[j] == old(dst)@[j].sum(src@[j]),
            forall|j: int| i <= j < n ==> dst@[j] == old(dst)@[j],
        decreases n - i,
    {
        let v = dst[i].plus(src[i]);
        dst.set(i, v);
        i = i + 1;
    }
    assert(dst@ =~= accumulated(old(dst)@, src@));
}

impl<E: Dtype> Gradients<E> {
    /// A store without buffers.
    pub fn new() -> (g: Gradients<E>)
        ensures
            g@ == Map::<UniqueId, Seq<E>>::empty(),
    {
        let g = Gradients { buffers: HashMap::new() };
        assert(g@ =~= Map::<UniqueId, Seq<E>>::empty());
        g
    }

    /// Makes sure that a buffer stands under `id`: one that exists is kept as it is, a new
    /// one has `n` zeros.
    pub fn try_alloc(&mut self, id: UniqueId, n: usize) -> (r: Result<(), Error>)
        ensures
            r is Ok,
            final(self)@ == with_buffer_for(old(self)@, id, n as nat),
    {
        if !self.buffers.contains_key(&id.0) {
            let buf = zero_buffer::<E>(n);
            self.buffers.insert(id.0, buf);
            assert(self@ =~= old(self)@.insert(id, zeros::<E>(n as nat)));
        } else {
            assert(self@ =~= old(self)@);
        }
        Ok(())
    }

    /// Makes sure that the tensor has a gradient buffer: one that exists is kept as it is,
    /// a new one is filled with zeros.
    pub fn try_alloc_for<const N: usize>(&mut self, t: &GhostTensor<N>) -> (r: Result<(), Error>)
        requires
            t.wf(),
        ensures
            r is Ok,
            final(self)@ == with_buffer_for(old(self)@, t.id, numel(t.shape@)),
    {
        self.try_alloc(t.id, t.num_elements())
    }

    /// The gradient buffer of the tensor, if it has one.
    pub fn get(&self, id: UniqueId) -> (r: Option<&Vec<E>>)
        ensures
            r matches Some(buf) ==> self@.contains_key(id) && buf@ == self@[id],
            r is None ==> !self@.contains_key(id),
    {
        self.buffers.get(&id.0)
    }

    /// Takes the gradient buffer of the tensor out of the store.
    pub fn take(&mut self, id: UniqueId) -> (r: Option<Vec<E>>)
        ensures
            final(self)@ == old(self)@.remove(id),
            r matches Some(buf) ==> old(self)@.contains_key(id) && buf@ == old(self)@[id],
            r is None ==> !old(self)@.contains_key(id),
    {
        let r = self.buffers.remove(&id.0);
        assert(self@ =~= old(self)@.remove(id));
        r
    }

    /// Puts a gradient buffer into the store, in place of the one that the tensor has.
    pub fn put(&mut self, id: UniqueId, buf: Vec<E>)
        ensures
            final(self)@ == old(self)@.insert(id, buf@),
    {
        self.buffers.insert(id.0, buf);
        assert(self@ =~= old(self)@.insert(id, buf@));
    }
}

} // verus!
