//! The arbitration context: the uniform entry point front-ends call,
//! polymorphic over the two persistence strategies. The strategy is
//! chosen once at startup and is immutable afterwards.

use vstd::prelude::*;

use crate::cache::spec_decision;
use crate::context_batching::{ContextBatching, RequestOutcome};
use crate::context_naive::ContextNaive;
use crate::database::{spec_apply_tasks, spec_batch_applicable, spec_lookup, LeaseView};
use crate::errors::LldResult;

verus! {

/// What a caller is told about its lease request.
#[derive(Debug, PartialEq, Eq, Structural)]
pub enum LeasingResponse {
    Granted { validity: u64 },
    Rejected,
}

/// What the context reports synchronously for one request: a final
/// answer (direct strategy, or an outright rejection), or a queued grant
/// whose final answer the next batch commit delivers.
#[derive(Debug, PartialEq, Eq, Structural)]
pub enum ContextOutcome {
    Done(LeasingResponse),
    Pending { validity: u64 },
}

/// The strategy chosen at startup, behind the one entry point all
/// front-ends share.
pub enum Context {
    Naive(ContextNaive),
    Batching(ContextBatching),
}

impl Context {
    /// Structural well-formedness of the active strategy.
    pub open spec fn wf(&self) -> bool {
        match self {
            Context::Naive(c) => c.wf(),
            Context::Batching(c) => c.wf(),
        }
    }

    /// The table requests are arbitrated against.
    pub open spec fn decision_table(&self) -> Seq<LeaseView> {
        match self {
            Context::Naive(c) => c.decision_table(),
            Context::Batching(c) => c.cache.table(),
        }
    }

    /// The strategy's agreement invariant: cache in lockstep with
    /// storage (direct), or with storage-plus-pending-writes (batching).
    pub open spec fn consistent(&self) -> bool {
        match self {
            Context::Naive(c) => c.synced(),
            Context::Batching(c) => c.consistent(),
        }
    }

    /// Whether the simulated storage fault is armed.
    pub open spec fn spec_fault(&self) -> bool {
        match self {
            Context::Naive(c) => c.db.spec_fault(),
            Context::Batching(c) => c.db.spec_fault(),
        }
    }

    /// The batching strategy inside, for contracts about that variant.
    pub open spec fn as_batching(&self) -> ContextBatching
        recommends
            self is Batching,
    {
        match self {
            Context::Batching(c) => *c,
            Context::Naive(_) => vstd::pervasive::arbitrary(),
        }
    }

    /// Arbitrate one request with the active strategy. Either way the
    /// decision is the arbitration rule applied to the decision table;
    /// the strategies differ only in when the write becomes durable and
    /// hence in the shape of the synchronous report.
    pub fn request_leasing(
        &mut self,
        application_id: String,
        instance_id: String,
        duration: u64,
        now: u64,
    ) -> (r: LldResult<ContextOutcome>)
        requires
            old(self).wf(),
            now + duration <= u64::MAX,
        ensures
            final(self).wf(),
            ((*final(self)) is Naive) == ((*old(self)) is Naive),
            ({
                let d = spec_decision(
                    application_id@,
                    instance_id@,
                    duration,
                    now,
                    spec_lookup(old(self).decision_table(), application_id@),
                );
                let v = (now + duration) as u64;
                &&& ((*old(self)) is Batching ==> (r matches Ok(o) && o == (if d is Rejected {
                    ContextOutcome::Done(LeasingResponse::Rejected)
                } else {
                    ContextOutcome::Pending { validity: v }
                })))
                &&& (((*old(self)) is Naive && old(self).consistent() && !old(self).spec_fault())
                    ==> (r matches Ok(o) && o == (if d is Rejected {
                    ContextOutcome::Done(LeasingResponse::Rejected)
                } else {
                    ContextOutcome::Done(LeasingResponse::Granted { validity: v })
                })))
            }),
            (old(self).consistent() && !old(self).spec_fault() && r is Ok)
                ==> final(self).consistent(),
    {
        match self {
            Context::Naive(context) => {
                match context.request_leasing(application_id, instance_id, duration, now) {
                    Ok(resp) => Ok(ContextOutcome::Done(resp)),
                    Err(e) => Err(e),
                }
            },
            Context::Batching(context) => {
                match context.request_leasing(application_id, instance_id, duration, now) {
                    RequestOutcome::Rejected => Ok(ContextOutcome::Done(LeasingResponse::Rejected)),
                    RequestOutcome::Pending { validity } => Ok(ContextOutcome::Pending { validity }),
                }
            },
        }
    }

    /// One turn of the background work the strategy owes: nothing for
    /// the direct strategy, one drain-and-commit for the batching one
    /// (see [`ContextBatching::run_step`]). On a committed batch every
    /// drained caller is owed its own expiry and storage agrees with the
    /// cache; on a failed commit storage is untouched and every drained
    /// caller is answered `Rejected`.
    pub fn run_step(&mut self) -> (r: Option<(bool, Vec<LeasingResponse>)>)
        requires
            old(self).wf(),
        ensures
            final(self).wf(),
            ((*final(self)) is Naive) == ((*old(self)) is Naive),
            (*old(self)) is Naive ==> r is None && *final(self) == *old(self),
            (*old(self)) is Batching ==> ({
                let c0 = old(self).as_batching();
                let c1 = final(self).as_batching();
                match r {
                None => c0.queue@.len() == 0 && c1 == c0,
                Some((committed, responses)) => {
                    &&& responses@.len() == c0.queue@.len()
                    &&& committed == (!c0.db.spec_fault() && spec_batch_applicable(
                        c0.db.table(),
                        c0.queue_view(),
                    ))
                    &&& (committed ==> c1.db.table() == spec_apply_tasks(
                        c0.db.table(),
                        c0.queue_view(),
                    ) && (forall|i: int|
                        0 <= i < responses@.len() ==> responses@[i] == (LeasingResponse::Granted {
                            validity: c0.queue_view()[i].validity,
                        })))
                    &&& (!committed ==> c1.db.table() == c0.db.table() && (forall|i: int|
                        0 <= i < responses@.len() ==> responses@[i] is Rejected))
                },
                }
            }),
            (old(self).consistent() && !old(self).spec_fault()) ==> final(self).consistent(),
    {
        match self {
            Context::Naive(_) => None,
            Context::Batching(context) => context.run_step(),
        }
    }
}

} // verus!
