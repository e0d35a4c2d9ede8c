use crate::dtypes::Dtype;
use crate::gradients::{accumulate_into, accumulated, with_buffer_for, Gradients};
use crate::shapes::numel;
use crate::tensor::{Error, GhostTensor, NoneTape, Tensor, UniqueId};
use crate::tensor_ops::conv2d::{Conv2DKernel, Conv2DOp};
use vstd::prelude::*;

verus! {

/// One deferred backward computation. It holds what the forward call has left for it:
/// the descriptor of the operation, the operands without their tapes, and the identity of
/// the result, whose buffer it does not keep alive.
#[derive(Debug)]
pub enum BackwardOp<E, D> {
    /// The backward computation of a convolution.
    Conv2D {
        op: Conv2DOp,
        lhs: Tensor<E, D, NoneTape, 4>,
        rhs: Tensor<E, D, NoneTape, 4>,
        out: GhostTensor<4>,
    },
    /// The backward computation of a reshape: the gradient of the result is the gradient
    /// of the operand, element by element.
    Reshape { inp_id: UniqueId, out_id: UniqueId, numel: usize },
}

impl<E: Dtype, D: Conv2DKernel<E>> BackwardOp<E, D> {
    /// The entry is one that a forward call can have recorded: its tensors have the
    /// shapes of its descriptor, and their identities differ.
    pub open spec fn wf(&self) -> bool {
        match self {
            BackwardOp::Conv2D { op, lhs, rhs, out } => {
                &&& op.wf()
                &&& lhs.shape@ == op.lhs_shape()
                &&& rhs.shape@ == op.rhs_shape()
                &&& out.shape@ == op.out_shape()
                &&& lhs.strides@.len() == 4
                &&& rhs.strides@.len() == 4
                &&& out.strides@.len() == 4
                &&& lhs.data@.len() == numel(op.lhs_shape())
                &&& rhs.data@.len() == numel(op.rhs_shape())
                &&& lhs.id != rhs.id
                &&& lhs.id != out.id
                &&& rhs.id != out.id
            },
            BackwardOp::Reshape { inp_id, out_id, numel } => inp_id != out_id,
        }
    }

    /// The backend of the entry cannot fail.
    pub open spec fn unfailing(&self) -> bool {
        match self {
            BackwardOp::Conv2D { op, lhs, rhs, out } => lhs.device.unfailing(),
            BackwardOp::Reshape { inp_id, out_id, numel } => true,
        }
    }

    /// The store once the entry has made sure of its buffers.
    pub open spec fn allocated(&self, g: Map<UniqueId, Seq<E>>) -> Map<UniqueId, Seq<E>> {
        match self {
            BackwardOp::Conv2D { op, lhs, rhs, out } => with_buffer_for(
                with_buffer_for(
                    with_buffer_for(g, rhs.id, numel(op.rhs_shape())),
                    lhs.id,
                    numel(op.lhs_shape()),
                ),
                out.id,
                numel(op.out_shape()),
            ),
            BackwardOp::Reshape { inp_id, out_id, numel } => with_buffer_for(
                with_buffer_for(g, *inp_id, *numel as nat),
                *out_id,
                *numel as nat,
            ),
        }
    }

    /// Every buffer of the entry, once made sure of, has as many elements as its tensor.
    pub open spec fn applies(&self, g: Map<UniqueId, Seq<E>>) -> bool {
        let a = self.allocated(g);
        match self {
            BackwardOp::Conv2D { op, lhs, rhs, out } => {
                &&& a[lhs.id].len() == numel(op.lhs_shape())
                &&& a[rhs.id].len() == numel(op.rhs_shape())
                &&& a[out.id].len() == numel(op.out_shape())
            },
            BackwardOp::Reshape { inp_id, out_id, numel } => {
                &&& a[*inp_id].len() == *numel
                &&& a[*out_id].len() == *numel
            },
        }
    }

    /// The store after the entry has run: the buffers of its operands have the
    /// contributions of the result's gradient added into them; every other buffer is as it
    /// was.
    pub open spec fn apply(&self, g: Map<UniqueId, Seq<E>>) -> Map<UniqueId, Seq<E>> {
        let a = self.allocated(g);
        match self {
            BackwardOp::Conv2D { op, lhs, rhs, out } => a.insert(
                lhs.id,
                accumulated(a[lhs.id], lhs.device.lhs_gradient(*op, rhs.data@, a[out.id])),
            ).insert(
                rhs.id,
                accumulated(a[rhs.id], lhs.device.rhs_gradient(*op, lhs.data@, a[out.id])),
            ),
            BackwardOp::Reshape { inp_id, out_id, numel } => a.insert(
                *inp_id,
                accumulated(a[*inp_id], a[*out_id]),
            ),
        }
    }

    /// Whether the entry is well-formed.
    pub fn is_wf(&self) -> (ok: bool)
        ensures
            ok == self.wf(),
    {
        match self {
            BackwardOp::Conv2D { op, lhs, rhs, out } => {
                if !op.is_wf() {
                    return false;
                }
                if lhs.shape.len() != 4 || rhs.shape.len() != 4 || out.shape.len() != 4 {
                    return false;
                }
                if lhs.strides.len() != 4 || rhs.strides.len() != 4 || out.strides.len() != 4 {
                    return false;
                }
                let same_lhs = lhs.shape[0] == op.batch && lhs.shape[1] == op.chan_in
                    && lhs.shape[2] == op.h_in && lhs.shape[3] == op.w_in;
                let same_rhs = rhs.shape[0] == op.chan_out && rhs.shape[1] == op.chan_in
                    / op.groups && rhs.shape[2] == op.kernel && rhs.shape[3] == op.kernel;
                let same_out = out.shape[0] == op.batch && out.shape[1] == op.chan_out
                    && out.shape[2] == op.h_out && out.shape[3] == op.w_out;
                proof {
                    if same_lhs {
                        assert(lhs.shape@ =~= op.lhs_shape());
                    } else {
                        assert(lhs.shape@[0] != op.lhs_shape()[0] || lhs.shape@[1]
                            != op.lhs_shape()[1] || lhs.shape@[2] != op.lhs_shape()[2]
                            || lhs.shape@[3] != op.lhs_shape()[3]);
                    }
                    if same_rhs {
                        assert(rhs.shape@ =~= op.rhs_shape());
                    } else {
                        assert(rhs.shape@[0] != op.rhs_shape()[0] || rhs.shape@[1]
                            != op.rhs_shape()[1] || rhs.shape@[2] != op.rhs_shape()[2]
                            || rhs.shape@[3] != op.rhs_shape()[3]);
                    }
                    if same_out {
                        assert(out.shape@ =~= op.out_shape());
                    } else {
                        assert(out.shape@[0] != op.out_shape()[0] || out.shape@[1]
                            != op.out_shape()[1] || out.shape@[2] != op.out_shape()[2]
                            || out.shape@[3] != op.out_shape()[3]);
                    }
                }
                if !same_lhs || !same_rhs || !same_out {
                    return false;
                }
                let ghost_lhs = lhs.ghost();
                let ghost_rhs = rhs.ghost();
                lhs.data.len() == ghost_lhs.num_elements() && rhs.data.len()
                    == ghost_rhs.num_elements() && lhs.id.0 != rhs.id.0 && lhs.id.0 != out.id.0
                    && rhs.id.0 != out.id.0
            },
            BackwardOp::Reshape { inp_id, out_id, numel } => inp_id.0 != out_id.0,
        }
    }

    /// The identities whose buffers the entry adds into: those of its operands.
    pub open spec fn writes(&self) -> Set<UniqueId> {
        match self {
            BackwardOp::Conv2D { op, lhs, rhs, out } => set![lhs.id, rhs.id],
            BackwardOp::Reshape { inp_id, out_id, numel } => set![*inp_id],
        }
    }

    /// Runs the entry on the store: makes sure of the buffers of its tensors, then adds
    /// into those of the operands.
    ///
    /// Where a buffer has not the size of its tensor, the entry fails before it has added
    /// anything. Where the backend fails, the buffers of the operands hold what the
    /// backend has left in them. Whatever the outcome, the store holds the buffers that it
    /// held and those of the entry, each of its size, and every buffer but those of the
    /// operands is as it was.
    pub fn run(&self, grads: &mut Gradients<E>) -> (r: Result<(), Error>)
        requires
            self.wf(),
        ensures
            r is Ok ==> self.applies(old(grads)@) && final(grads)@ == self.apply(old(grads)@),
            self.applies(old(grads)@) && self.unfailing() ==> r is Ok,
            !self.applies(old(grads)@) ==> r == Err::<(), Error>(Error::WrongNumElements)
                && final(grads)@ == self.allocated(old(grads)@),
            final(grads)@.dom() == self.allocated(old(grads)@).dom(),
            forall|id: UniqueId| #[trigger]
                final(grads)@.contains_key(id) ==> final(grads)@[id].len() == self.allocated(
                    old(grads)@,
                )[id].len(),
            forall|id: UniqueId| #[trigger]
                final(grads)@.contains_key(id) && !self.writes().contains(id) ==> final(grads)@[id]
                    == self.allocated(old(grads)@)[id],
    {
        match self {
            BackwardOp::Conv2D { op, lhs, rhs, out } => {
                let lhs_ghost = lhs.ghost();
                let rhs_ghost = rhs.ghost();
                grads.try_alloc_for(&rhs_ghost)?;
                grads.try_alloc_for(&lhs_ghost)?;
                grads.try_alloc_for(out)?;
                let ghost a = grads@;
                assert(a == self.allocated(old(grads)@));
                let n_lhs = lhs_ghost.num_elements();
                let n_rhs = rhs_ghost.num_elements();
                let n_out = out.num_elements();
                let mut grad_lhs = match grads.take(lhs.id) {
                    Some(buf) => buf,
                    None => vstd::pervasive::unreached(),
                };
                let mut grad_rhs = match grads.take(rhs.id) {
                    Some(buf) => buf,
                    None => vstd::pervasive::unreached(),
                };
                let r = match grads.get(out.id) {
                    Some(grad_out) => {
                        if grad_lhs.len() != n_lhs || grad_rhs.len() != n_rhs || grad_out.len()
                            != n_out {
                            Err(Error::WrongNumElements)
                        } else {
                            lhs.device.backward(
                                *op,
                                lhs,
                                &mut grad_lhs,
                                rhs,
                                &mut grad_rhs,
                                out,
                                grad_out,
                            )
                        }
                    },
                    None => vstd::pervasive::unreached(),
                };
                grads.put(lhs.id, grad_lhs);
                grads.put(rhs.id, grad_rhs);
                proof {
                    assert(grads@.dom() =~= a.dom());
                    if self.applies(old(grads)@) {
                        if r is Ok {
                            assert(grads@ =~= self.apply(old(grads)@));
                        }
                    } else {
                        assert(grads@ =~= a);
                    }
                }
                r
            },
            BackwardOp::Reshape { inp_id, out_id, numel } => {
                grads.try_alloc(*inp_id, *numel)?;
                grads.try_alloc(*out_id, *numel)?;
                let ghost a = grads@;
                let mut grad_inp = match grads.take(*inp_id) {
                    Some(buf) => buf,
                    None => vstd::pervasive::unreached(),
                };
                let r = match grads.get(*out_id) {
                    Some(grad_out) => {
                        if grad_inp.len() != *numel || grad_out.len() != *numel {
                            Err(Error::WrongNumElements)
                        } else {
                            accumulate_into(&mut grad_inp, grad_out);
                            Ok(())
                        }
                    },
                    None => vstd::pervasive::unreached(),
                };
                grads.put(*inp_id, grad_inp);
                proof {
                    assert(grads@.dom() =~= a.dom());
                    if self.applies(old(grads)@) {
                        assert(grads@ =~= self.apply(old(grads)@));
                    } else {
                        assert(grads@ =~= a);
                    }
                }
                r
            },
        }
    }
}

impl<E: Dtype, D: Conv2DKernel<E>> BackwardOp<E, D> {
    /// The identities whose buffers the entry reads or adds into.
    pub open spec fn touches(&self) -> Set<UniqueId> {
        match self {
            BackwardOp::Conv2D { op, lhs, rhs, out } => set![lhs.id, rhs.id, out.id],
            BackwardOp::Reshape { inp_id, out_id, numel } => set![*inp_id, *out_id],
        }
    }
}

/// An entry leaves every buffer that it does not touch as it was, and makes none but its
/// own.
pub proof fn lemma_entry_keeps_other_buffers<E: Dtype, D: Conv2DKernel<E>>(
    entry: BackwardOp<E, D>,
    g: Map<UniqueId, Seq<E>>,
    id: UniqueId,
)
    requires
        !entry.touches().contains(id),
    ensures
        entry.apply(g).contains_key(id) == g.contains_key(id),
        g.contains_key(id) ==> entry.apply(g)[id] == g[id],
{
}

/// Two entries that touch no buffer in common can run in either order: the store is the
/// same after both. So where the tapes of two tensors share no tensor, running the merged
/// tape gives what running the first tape and then the second gives.
pub proof fn lemma_independent_entries_commute<E: Dtype, D: Conv2DKernel<E>>(
    a: BackwardOp<E, D>,
    b: BackwardOp<E, D>,
    g: Map<UniqueId, Seq<E>>,
)
    requires
        a.wf(),
        b.wf(),
        a.touches().disjoint(b.touches()),
    ensures
        a.apply(b.apply(g)) == b.apply(a.apply(g)),
        run_back(seq![a] + seq![b], g) == run_back(seq![b], run_back(seq![a], g)),
{
    assert(a.apply(b.apply(g)) =~= b.apply(a.apply(g))) by {
        lemma_commute(a, b, g);
    }
    lemma_merged_tape_runs_in_order(seq![a], seq![b], g);
    assert(run_back(seq![b], g) == b.apply(g)) by {
        assert(seq![b].drop_last() =~= Seq::<BackwardOp<E, D>>::empty());
        reveal_with_fuel(run_back, 2);
    }
    assert(run_back(seq![a], b.apply(g)) == a.apply(b.apply(g))) by {
        assert(seq![a].drop_last() =~= Seq::<BackwardOp<E, D>>::empty());
        reveal_with_fuel(run_back, 2);
    }
    assert(run_back(seq![a], g) == a.apply(g)) by {
        assert(seq![a].drop_last() =~= Seq::<BackwardOp<E, D>>::empty());
        reveal_with_fuel(run_back, 2);
    }
    assert(run_back(seq![b], a.apply(g)) == b.apply(a.apply(g))) by {
        assert(seq![b].drop_last() =~= Seq::<BackwardOp<E, D>>::empty());
        reveal_with_fuel(run_back, 2);
    }
}

/// No entry of the one sequence touches a buffer that an entry of the other touches.
pub open spec fn independent<E: Dtype, D: Conv2DKernel<E>>(
    first: Seq<BackwardOp<E, D>>,
    second: Seq<BackwardOp<E, D>>,
) -> bool {
    forall|i: int, j: int|
        0 <= i < first.len() && 0 <= j < second.len() ==> (#[trigger] first[i]).touches().disjoint(
            (#[trigger] second[j]).touches(),
        )
}

/// An entry can run before or after a sequence of entries that it shares no buffer with.
proof fn lemma_entry_passes_tape<E: Dtype, D: Conv2DKernel<E>>(
    entry: BackwardOp<E, D>,
    tape: Seq<BackwardOp<E, D>>,
    g: Map<UniqueId, Seq<E>>,
)
    requires
        entry.wf(),
        all_wf(tape),
        independent(seq![entry], tape),
    ensures
        entry.apply(run_back(tape, g)) == run_back(tape, entry.apply(g)),
    decreases tape.len(),
{
    if tape.len() > 0 {
        let last = tape.last();
        let rest = tape.drop_last();
        assert(seq![entry][0] == entry);
        assert(entry.touches().disjoint(last.touches())) by {
            assert(tape[tape.len() - 1] == last);
        }
        assert(independent(seq![entry], rest)) by {
            assert forall|i: int, j: int| 0 <= i < 1 && 0 <= j < rest.len() implies (
            #[trigger] seq![entry][i]).touches().disjoint((#[trigger] rest[j]).touches()) by {
                assert(rest[j] == tape[j]);
            }
        }
        assert(all_wf(rest)) by {
            assert forall|j: int| 0 <= j < rest.len() implies (#[trigger] rest[j]).wf() by {
                assert(rest[j] == tape[j]);
            }
        }
        assert(last.wf());
        lemma_commute(entry, last, g);
        lemma_entry_passes_tape(entry, rest, last.apply(g));
    }
}

/// Where the tapes of two tensors share no buffer, running the merged tape gives what
/// running the first tape and then the second gives: the order of the merge does not show
/// in the gradients.
pub proof fn lemma_independent_tapes_commute<E: Dtype, D: Conv2DKernel<E>>(
    first: Seq<BackwardOp<E, D>>,
    second: Seq<BackwardOp<E, D>>,
    g: Map<UniqueId, Seq<E>>,
)
    requires
        all_wf(first),
        all_wf(second),
        independent(first, second),
    ensures
        run_back(first + second, g) == run_back(second, run_back(first, g)),
    decreases first.len(),
{
    lemma_merged_tape_runs_in_order(first, second, g);
    if first.len() > 0 {
        let last = first.last();
        let rest = first.drop_last();
        assert(last.wf());
        assert(independent(seq![last], second)) by {
            assert forall|i: int, j: int| 0 <= i < 1 && 0 <= j < second.len() implies (
            #[trigger] seq![last][i]).touches().disjoint((#[trigger] second[j]).touches()) by {
                assert(seq![last][i] == first[first.len() - 1]);
            }
        }
        assert(independent(rest, second)) by {
            assert forall|i: int, j: int| 0 <= i < rest.len() && 0 <= j < second.len() implies (
            #[trigger] rest[i]).touches().disjoint((#[trigger] second[j]).touches()) by {
                assert(rest[i] == first[i]);
            }
        }
        assert(all_wf(rest)) by {
            assert forall|j: int| 0 <= j < rest.len() implies (#[trigger] rest[j]).wf() by {
                assert(rest[j] == first[j]);
            }
        }
        lemma_entry_passes_tape(last, second, g);
        lemma_independent_tapes_commute(rest, second, last.apply(g));
        lemma_merged_tape_runs_in_order(rest, second, last.apply(g));
    }
}

proof fn lemma_commute<E: Dtype, D: Conv2DKernel<E>>(
    a: BackwardOp<E, D>,
    b: BackwardOp<E, D>,
    g: Map<UniqueId, Seq<E>>,
)
    requires
        a.wf(),
        b.wf(),
        a.touches().disjoint(b.touches()),
    ensures
        a.apply(b.apply(g)) =~= b.apply(a.apply(g)),
{
    let ab = a.apply(b.apply(g));
    let ba = b.apply(a.apply(g));
    assert forall|id: UniqueId| #[trigger] a.touches().contains(id) implies !b.touches().contains(
        id,
    ) by {}
    assert forall|id: UniqueId| #[trigger] b.touches().contains(id) implies !a.touches().contains(
        id,
    ) by {}
    assert forall|id: UniqueId| ab.contains_key(id) == ba.contains_key(id) by {
        lemma_domains(a, b, g, id);
        lemma_domains(b, a, g, id);
    }
    assert forall|id: UniqueId| ab.contains_key(id) implies ab[id] == ba[id] by {
        lemma_domains(a, b, g, id);
        lemma_domains(b, a, g, id);
        if a.touches().contains(id) {
            lemma_entry_keeps_other_buffers(b, a.apply(g), id);
            lemma_own_buffers(a, b, g, id);
        } else if b.touches().contains(id) {
            lemma_entry_keeps_other_buffers(a, b.apply(g), id);
            lemma_own_buffers(b, a, g, id);
        } else {
            lemma_entry_keeps_other_buffers(a, b.apply(g), id);
            lemma_entry_keeps_other_buffers(b, g, id);
            lemma_entry_keeps_other_buffers(b, a.apply(g), id);
            lemma_entry_keeps_other_buffers(a, g, id);
        }
    }
}

/// After an entry has run, the store holds a buffer exactly where it held one before or the
/// entry touches.
proof fn lemma_domains<E: Dtype, D: Conv2DKernel<E>>(
    a: BackwardOp<E, D>,
    b: BackwardOp<E, D>,
    g: Map<UniqueId, Seq<E>>,
    id: UniqueId,
)
    ensures
        a.apply(b.apply(g)).contains_key(id) == (g.contains_key(id) || a.touches().contains(id)
            || b.touches().contains(id)),
{
}

/// What an entry leaves in one of its own buffers does not depend on an entry that
/// touches none of them and has run before.
proof fn lemma_own_buffers<E: Dtype, D: Conv2DKernel<E>>(
    a: BackwardOp<E, D>,
    b: BackwardOp<E, D>,
    g: Map<UniqueId, Seq<E>>,
    id: UniqueId,
)
    requires
        a.wf(),
        a.touches().disjoint(b.touches()),
        a.touches().contains(id),
    ensures
        a.apply(b.apply(g))[id] == a.apply(g)[id],
{
    let h = b.apply(g);
    assert forall|k: UniqueId| #[trigger] a.touches().contains(k) implies h.contains_key(k)
        == g.contains_key(k) && (g.contains_key(k) ==> h[k] == g[k]) by {
        lemma_entry_keeps_other_buffers(b, g, k);
    }
    match a {
        BackwardOp::Conv2D { op, lhs, rhs, out } => {
            assert(a.touches().contains(lhs.id));
            assert(a.touches().contains(rhs.id));
            assert(a.touches().contains(out.id));
            assert(a.allocated(h)[lhs.id] == a.allocated(g)[lhs.id]);
            assert(a.allocated(h)[rhs.id] == a.allocated(g)[rhs.id]);
            assert(a.allocated(h)[out.id] == a.allocated(g)[out.id]);
        },
        BackwardOp::Reshape { inp_id, out_id, numel } => {
            assert(a.touches().contains(inp_id));
            assert(a.touches().contains(out_id));
            assert(a.allocated(h)[inp_id] == a.allocated(g)[inp_id]);
            assert(a.allocated(h)[out_id] == a.allocated(g)[out_id]);
        },
    }
}

/// Every entry is one that a forward call can have recorded.
pub open spec fn all_wf<E: Dtype, D: Conv2DKernel<E>>(entries: Seq<BackwardOp<E, D>>) -> bool {
    forall|i: int| 0 <= i < entries.len() ==> (#[trigger] entries[i]).wf()
}

/// No backend of any entry can fail.
pub open spec fn all_unfailing<E: Dtype, D: Conv2DKernel<E>>(
    entries: Seq<BackwardOp<E, D>>,
) -> bool {
    forall|i: int| 0 <= i < entries.len() ==> (#[trigger] entries[i]).unfailing()
}

/// The store after the entries have run on it, the last one first.
pub open spec fn run_back<E: Dtype, D: Conv2DKernel<E>>(
    entries: Seq<BackwardOp<E, D>>,
    g: Map<UniqueId, Seq<E>>,
) -> Map<UniqueId, Seq<E>>
    decreases entries.len(),
{
    if entries.len() == 0 {
        g
    } else {
        run_back(entries.drop_last(), entries.last().apply(g))
    }
}

/// Each entry, run in its turn with the last one first, finds buffers of the right sizes.
pub open spec fn all_apply<E: Dtype, D: Conv2DKernel<E>>(
    entries: Seq<BackwardOp<E, D>>,
    g: Map<UniqueId, Seq<E>>,
) -> bool
    decreases entries.len(),
{
    entries.len() == 0 || (entries.last().applies(g) && all_apply(
        entries.drop_last(),
        entries.last().apply(g),
    ))
}

/// The store after the entries have run on it, the last one first, up to the first one
/// that finds a buffer of the wrong size; that one has made sure of its buffers and added
/// nothing.
pub open spec fn run_back_until_misfit<E: Dtype, D: Conv2DKernel<E>>(
    entries: Seq<BackwardOp<E, D>>,
    g: Map<UniqueId, Seq<E>>,
) -> Map<UniqueId, Seq<E>>
    decreases entries.len(),
{
    if entries.len() == 0 {
        g
    } else if !entries.last().applies(g) {
        entries.last().allocated(g)
    } else {
        run_back_until_misfit(entries.drop_last(), entries.last().apply(g))
    }
}

/// What a tensor carries of the computations that led to it.
pub trait Tape<E: Dtype, D: Conv2DKernel<E>>: Sized {
    /// Whether this kind of tape keeps what it is given.
    spec fn records() -> bool;

    /// The recorded entries, in the order in which they were added.
    spec fn entries(&self) -> Seq<BackwardOp<E, D>>;

    /// Adds an entry behind those that are there.
    fn add_backward_op(&mut self, entry: BackwardOp<E, D>)
        ensures
            final(self).entries() == if Self::records() {
                old(self).entries().push(entry)
            } else {
                old(self).entries()
            },
    ;

    /// Whether every recorded entry is well-formed.
    fn is_wf(&self) -> (ok: bool)
        ensures
            ok == all_wf(self.entries()),
    ;
}

/// Two tapes become one when their tensors meet in an operation: the entries of the
/// first, then those of the second.
pub trait Merge<E: Dtype, D: Conv2DKernel<E>, T: Tape<E, D>>: Tape<E, D> {
    fn merge(self, other: T) -> (merged: Self)
        ensures
            merged.entries() == self.entries() + other.entries(),
    ;
}

/// A tape that keeps its entries.
#[derive(Debug)]
pub struct OwnedTape<E, D> {
    pub operations: Vec<BackwardOp<E, D>>,
}

impl<E: Dtype, D: Conv2DKernel<E>> Tape<E, D> for NoneTape {
    open spec fn records() -> bool {
        false
    }

    open spec fn entries(&self) -> Seq<BackwardOp<E, D>> {
        Seq::empty()
    }

    fn add_backward_op(&mut self, entry: BackwardOp<E, D>) {
    }

    fn is_wf(&self) -> (ok: bool) {
        true
    }
}

impl<E: Dtype, D: Conv2DKernel<E>> Tape<E, D> for OwnedTape<E, D> {
    open spec fn records() -> bool {
        true
    }

    open spec fn entries(&self) -> Seq<BackwardOp<E, D>> {
        self.operations@
    }

    fn add_backward_op(&mut self, entry: BackwardOp<E, D>) {
        self.operations.push(entry);
    }

    fn is_wf(&self) -> (ok: bool) {
        let mut i: usize = 0;
        while i < self.operations.len()
            invariant
                i <= self.operations@.len(),
                forall|j: int| 0 <= j < i ==> (#[trigger] self.operations@[j]).wf(),
            decreases self.operations@.len() - i,
        {
            if !self.operations[i].is_wf() {
                return false;
            }
            i = i + 1;
        }
        true
    }
}

impl<E: Dtype, D: Conv2DKernel<E>> Merge<E, D, NoneTape> for NoneTape {
    fn merge(self, other: NoneTape) -> (merged: NoneTape) {
        assert(Seq::<BackwardOp<E, D>>::empty() + Seq::<BackwardOp<E, D>>::empty()
            =~= Seq::<BackwardOp<E, D>>::empty());
        self
    }
}

impl<E: Dtype, D: Conv2DKernel<E>> Merge<E, D, NoneTape> for OwnedTape<E, D> {
    fn merge(self, other: NoneTape) -> (merged: OwnedTape<E, D>) {
        assert(self.operations@ + Seq::<BackwardOp<E, D>>::empty() =~= self.operations@);
        self
    }
}

impl<E: Dtype, D: Conv2DKernel<E>> Merge<E, D, OwnedTape<E, D>> for OwnedTape<E, D> {
    fn merge(self, other: OwnedTape<E, D>) -> (merged: OwnedTape<E, D>) {
        let mut merged = self;
        let mut other = other;
        merged.operations.append(&mut other.operations);
        merged
    }
}

impl<E: Dtype, D: Conv2DKernel<E>> OwnedTape<E, D> {
    /// A tape without entries.
    pub fn new() -> (tape: OwnedTape<E, D>)
        ensures
            tape.operations@.len() == 0,
    {
        OwnedTape { operations: Vec::new() }
    }

    /// Runs the entries on the store, the last one first, and stops at the first that
    /// fails. With backends that cannot fail, that is the first entry to find a buffer of
    /// the wrong size, and the store is then as the entries before it have left it, with
    /// the buffers of that entry made sure of.
    pub fn execute(&self, grads: &mut Gradients<E>) -> (r: Result<(), Error>)
        requires
            all_wf(self.operations@),
        ensures
            r is Ok ==> all_apply(self.operations@, old(grads)@) && final(grads)@ == run_back(
                self.operations@,
                old(grads)@,
            ),
            all_apply(self.operations@, old(grads)@) && all_unfailing(self.operations@) ==> r is Ok,
            !all_apply(self.operations@, old(grads)@) ==> r is Err,
            all_unfailing(self.operations@) && r is Err ==> r == Err::<(), Error>(
                Error::WrongNumElements,
            ),
            all_unfailing(self.operations@) ==> final(grads)@ == run_back_until_misfit(
                self.operations@,
                old(grads)@,
            ),
    {
        let mut i: usize = self.operations.len();
        assert(self.operations@.take(i as int) =~= self.operations@);
        while i > 0
            invariant
                i <= self.operations@.len(),
                all_wf(self.operations@),
                run_back(self.operations@, old(grads)@) == run_back(
                    self.operations@.take(i as int),
                    grads@,
                ),
                all_apply(self.operations@, old(grads)@) == all_apply(
                    self.operations@.take(i as int),
                    grads@,
                ),
                run_back_until_misfit(self.operations@, old(grads)@) == run_back_until_misfit(
                    self.operations@.take(i as int),
                    grads@,
                ),
            decreases i,
        {
            i = i - 1;
            let ghost before = grads@;
            let ghost prefix = self.operations@.take(i + 1);
            assert(prefix.last() == self.operations@[i as int]);
            assert(prefix.drop_last() =~= self.operations@.take(i as int));
            let r = self.operations[i].run(grads);
            match r {
                Ok(()) => {},
                Err(e) => {
                    proof {
                        if all_apply(self.operations@, old(grads)@) {
                            assert(all_apply(prefix, before));
                            assert(self.operations@[i as int].applies(before));
                            assert(!self.operations@[i as int].unfailing());
                        }
                    }
                    return Err(e);
                },
            }
        }
        proof {
            assert(self.operations@.take(0) =~= Seq::<BackwardOp<E, D>>::empty());
        }
        Ok(())
    }
}

/// The entries of a merged tape run in the order of the merge, which is that of the
/// forward calls: running `first + second` is running `second` and then `first`, each
/// with its last entry first. Nothing is reordered.
pub proof fn lemma_merged_tape_runs_in_order<E: Dtype, D: Conv2DKernel<E>>(
    first: Seq<BackwardOp<E, D>>,
    second: Seq<BackwardOp<E, D>>,
    g: Map<UniqueId, Seq<E>>,
)
    ensures
        run_back(first + second, g) == run_back(first, run_back(second, g)),
        all_apply(first + second, g) == (all_apply(second, g) && all_apply(
            first,
            run_back(second, g),
        )),
    decreases second.len(),
{
    if second.len() == 0 {
        assert(first + second =~= first);
    } else {
        let whole = first + second;
        assert(whole.last() == second.last());
        assert(whole.drop_last() =~= first + second.drop_last());
        lemma_merged_tape_runs_in_order(first, second.drop_last(), second.last().apply(g));
    }
}

} // verus!
