use vstd::prelude::*;
use crate::id_map::IdMap;
use crate::recursive_load::ModuleLoadId;
use crate::shared_queue::{OpId, SharedQueue};

verus! {

/// The responses of one poll cycle that reach script: those the shared queue
/// took, delivered together, and at most one that did not fit, delivered on
/// its own afterwards.
pub struct ResponseBatch {
    pub overflow: Option<(OpId, Vec<u8>)>,
}

impl ResponseBatch {
    pub fn new() -> (b: ResponseBatch)
        ensures
            b.overflow is None,
    {
        ResponseBatch { overflow: None }
    }

    /// Whether the batch takes no more responses this cycle: once one went
    /// to the overflow slot, the rest wait for the next cycle.
    pub fn is_full(&self) -> (r: bool)
        ensures
            r == self.overflow is Some,
    {
        self.overflow.is_some()
    }

    /// Takes the response of a completed op: into the shared queue when it
    /// fits there, else into the overflow slot.
    pub fn accept(&mut self, queue: &mut SharedQueue, op_id: OpId, buf: Vec<u8>)
        requires
            old(self).overflow is None,
            old(queue).wf(),
        ensures
            final(queue).wf(),
            final(queue).capacity() == old(queue).capacity(),
            old(queue).can_push(buf@.len() as int) ==> final(queue)@ == old(queue)@.push(
                (op_id, buf@),
            ) && final(self).overflow is None,
            !old(queue).can_push(buf@.len() as int) ==> *final(queue) == *old(queue)
                && final(self).overflow == Some((op_id, buf)),
    {
        if !queue.push(op_id, buf.as_slice()) {
            self.overflow = Some((op_id, buf));
        }
    }

    /// Hands out the overflow response, if any, leaving the slot empty.
    pub fn take_overflow(&mut self) -> (r: Option<(OpId, Vec<u8>)>)
        ensures
            r == old(self).overflow,
            final(self).overflow is None,
    {
        self.overflow.take()
    }
}

/// What a poll cycle reports when it ends.
#[derive(Clone, Copy, Debug, PartialEq, Eq, Structural)]
pub enum PollOutcome {
    /// Nothing that keeps the runtime alive is outstanding.
    Ready,
    /// Work is outstanding; with `wake`, the task asks to be polled again at
    /// once because ops were started that nobody polled yet.
    Pending { wake: bool },
}

/// The end of a poll cycle: ready exactly when no reffed op, no dynamic
/// import being prepared and none being loaded is outstanding. Unreffed ops
/// do not count.
pub fn poll_outcome(
    has_pending_ops: bool,
    has_pending_dyn_imports: bool,
    has_preparing_dyn_imports: bool,
    have_unpolled_ops: bool,
) -> (r: PollOutcome)
    ensures
        r == if !has_pending_ops && !has_pending_dyn_imports && !has_preparing_dyn_imports {
            PollOutcome::Ready
        } else {
            PollOutcome::Pending { wake: have_unpolled_ops }
        },
{
    if !has_pending_ops && !has_pending_dyn_imports && !has_preparing_dyn_imports {
        PollOutcome::Ready
    } else {
        PollOutcome::Pending { wake: have_unpolled_ops }
    }
}

/// The steps that turn an engine exception into an error while a
/// termination may be under way: a termination is cancelled so that the
/// error can be built, an empty exception is replaced by a fresh
/// "execution terminated" error, and the termination is requested again
/// afterwards, so that it stays in effect.
#[derive(Clone, Copy, Debug, PartialEq, Eq, Structural)]
pub struct TerminationSteps {
    pub cancel_first: bool,
    pub synthesize_error: bool,
    pub terminate_again: bool,
}

pub fn termination_steps(is_terminating: bool, exception_is_null_or_undefined: bool) -> (r:
    TerminationSteps)
    ensures
        r.cancel_first == is_terminating,
        r.synthesize_error == (is_terminating && exception_is_null_or_undefined),
        r.terminate_again == is_terminating,
{
    TerminationSteps {
        cancel_first: is_terminating,
        synthesize_error: is_terminating && exception_is_null_or_undefined,
        terminate_again: is_terminating,
    }
}

/// Dynamic imports in flight: the resolver of each one's promise, keyed by
/// the id of its load, and the next load id to hand out.
pub struct DynImports<R> {
    pub resolvers: IdMap<R>,
    pub next_load_id: ModuleLoadId,
}

impl<R> DynImports<R> {
    pub open spec fn wf(&self) -> bool {
        &&& self.resolvers.wf()
        &&& 0 <= self.next_load_id
        &&& forall|k: i32| #[trigger] self.resolvers.map().contains_key(k) ==> k < self.next_load_id
    }

    pub fn new() -> (d: DynImports<R>)
        ensures
            d.wf(),
            d.resolvers.map() == Map::<i32, R>::empty(),
            d.next_load_id == 0,
    {
        DynImports { resolvers: IdMap::new(), next_load_id: 0 }
    }

    /// A load id never handed out before; none once all are used up.
    pub fn mint_load_id(&mut self) -> (r: Option<ModuleLoadId>)
        requires
            old(self).wf(),
        ensures
            final(self).wf(),
            final(self).resolvers.map() == old(self).resolvers.map(),
            old(self).next_load_id < i32::MAX ==> r == Some(old(self).next_load_id)
                && final(self).next_load_id == old(self).next_load_id + 1,
            old(self).next_load_id == i32::MAX ==> r is None && final(self).next_load_id
                == old(self).next_load_id,
    {
        if self.next_load_id == i32::MAX {
            return None;
        }
        let id = self.next_load_id;
        self.next_load_id = id + 1;
        Some(id)
    }

    /// Keeps the resolver of a new dynamic import under a fresh load id and
    /// returns that id; hands the resolver back when ids are used up.
    pub fn begin(&mut self, resolver: R) -> (r: Result<ModuleLoadId, R>)
        requires
            old(self).wf(),
        ensures
            final(self).wf(),
            match r {
                Ok(id) => {
                    &&& id == old(self).next_load_id
                    &&& !old(self).resolvers.map().contains_key(id)
                    &&& final(self).resolvers.map() == old(self).resolvers.map().insert(id, resolver)
                },
                Err(back) => back == resolver && old(self).next_load_id == i32::MAX
                    && final(self).resolvers.map() == old(self).resolvers.map(),
            },
    {
        match self.mint_load_id() {
            Some(id) => {
                self.resolvers.insert(id, resolver);
                Ok(id)
            },
            None => Err(resolver),
        }
    }

    /// Removes the resolver of load `id` once the import settled, either way.
    pub fn finish(&mut self, id: ModuleLoadId) -> (r: Option<R>)
        requires
            old(self).wf(),
        ensures
            final(self).wf(),
            final(self).next_load_id == old(self).next_load_id,
            final(self).resolvers.map() == old(self).resolvers.map().remove(id),
            r == if old(self).resolvers.map().contains_key(id) {
                Some(old(self).resolvers.map()[id])
            } else {
                None
            },
    {
        self.resolvers.remove(id)
    }
}

} // verus!
