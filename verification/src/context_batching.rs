//! The batching strategy: every request is decided against the cache at
//! once, and the grants are coalesced into a pending queue that a single
//! background worker drains — everything queued between two drains is
//! committed as one atomic storage transaction, and each caller is then
//! answered with its own decided expiry.
//!
//! Because the cache is mutated in the same exclusive section that makes
//! the decision, two conflicting requests for one resource can never both
//! be queued: the second arbitrates against the first's cache entry. The
//! queued batch therefore only carries non-conflicting writes, which is
//! what makes the single multi-row transaction safe.

use vstd::prelude::*;

use crate::cache::{spec_decision, CacheResult, ContextCache};
use crate::context::LeasingResponse;
use crate::database::{
    lemma_apply_task_properties, lemma_apply_tasks_snoc, lemma_batch_applicable_snoc,
    lemma_tasks_view_push, spec_apply_tasks, spec_batch_applicable, spec_lookup,
    spec_set, tasks_view, Database, DatabaseTask, TaskView,
};
use crate::errors::LldResult;

verus! {

/// What the caller of the batching strategy learns synchronously: the
/// request was rejected outright, or its grant is queued and the final
/// answer arrives once the worker commits the batch (the caller then
/// waits on its completion signal).
#[derive(Debug, PartialEq, Eq, Structural)]
pub enum RequestOutcome {
    Rejected,
    Pending { validity: u64 },
}

/// The batching strategy: the cache that arbitrates, the queue of
/// decided-but-not-yet-durable writes, and the storage handle owned by
/// the background worker.
pub struct ContextBatching {
    pub db: Database,
    pub cache: ContextCache,
    pub queue: Vec<DatabaseTask>,
}

impl ContextBatching {
    /// Structural well-formedness: the table invariants of storage and
    /// cache.
    pub open spec fn wf(&self) -> bool {
        &&& self.db.wf()
        &&& self.cache.wf()
    }

    /// The pending writes, in arrival order.
    pub open spec fn queue_view(&self) -> Seq<TaskView> {
        tasks_view(self.queue@)
    }

    /// The write-back invariant: the cache equals storage with every
    /// pending write applied, and the pending batch can commit without a
    /// key violation. It holds from startup on and every request and
    /// every committed batch preserves it; only a failed commit breaks
    /// it, since the dropped writes stay visible in the cache.
    pub open spec fn consistent(&self) -> bool {
        &&& self.cache.table() == spec_apply_tasks(self.db.table(), self.queue_view())
        &&& spec_batch_applicable(self.db.table(), self.queue_view())
    }

    /// Build the batching strategy; the cache is seeded from a full
    /// storage scan and the queue starts empty.
    pub fn new(db: Database) -> (r: LldResult<ContextBatching>)
        requires
            db.wf(),
        ensures
            r matches Ok(c) && c.wf() && c.consistent() && c.db == db && c.queue@.len() == 0,
    {
        let cache = match ContextCache::new(&db) {
            Ok(cache) => cache,
            Err(e) => return Err(e),
        };
        let c = ContextBatching { db, cache, queue: Vec::new() };
        proof {
            assert(c.queue_view() =~= Seq::<TaskView>::empty());
            assert(spec_apply_tasks(c.db.table(), c.queue_view()) == c.db.table());
            assert(spec_batch_applicable(c.db.table(), c.queue_view()));
        }
        Ok(c)
    }

    /// Arbitrate one request against the cache; a rejection is answered
    /// at once and queues nothing, a grant is recorded in the cache and
    /// enqueued for the next batch commit.
    pub fn request_leasing(
        &mut self,
        application_id: String,
        instance_id: String,
        duration: u64,
        now: u64,
    ) -> (r: RequestOutcome)
        requires
            old(self).wf(),
            now + duration <= u64::MAX,
        ensures
            final(self).wf(),
            final(self).db == old(self).db,
            ({
                let d = spec_decision(
                    application_id@,
                    instance_id@,
                    duration,
                    now,
                    spec_lookup(old(self).cache.table(), application_id@),
                );
                let v = (now + duration) as u64;
                &&& (d is Rejected ==> r == RequestOutcome::Rejected && *final(self) == *old(self))
                &&& (!(d is Rejected) ==> {
                    let task = TaskView {
                        is_insert: spec_lookup(old(self).cache.table(), application_id@) is None,
                        application_id: application_id@,
                        instance_id: instance_id@,
                        validity: v,
                    };
                    &&& r == (RequestOutcome::Pending { validity: v })
                    &&& final(self).cache.table() == spec_set(
                        old(self).cache.table(),
                        application_id@,
                        instance_id@,
                        v,
                    )
                    &&& final(self).queue_view() == old(self).queue_view().push(task)
                })
            }),
            old(self).consistent() ==> final(self).consistent(),
    {
        let ghost cache0 = self.cache.table();
        let cache_result = match self.cache.request_leasing(
            application_id,
            instance_id,
            duration,
            now,
        ) {
            Ok(cr) => cr,
            Err(_) => {
                // the cache contract reports every decision with Ok
                proof {
                    assert(false);
                }
                return RequestOutcome::Rejected;
            },
        };
        let task = match cache_result {
            CacheResult::Rejected => {
                return RequestOutcome::Rejected;
            },
            CacheResult::GrantedInsert { application_id, instance_id, validity } =>
                DatabaseTask::Insert { application_id, instance_id, validity },
            CacheResult::GrantedUpdate { application_id, instance_id, validity } =>
                DatabaseTask::Update { application_id, instance_id, validity },
        };
        let validity = task.get_validity();
        proof {
            lemma_tasks_view_push(self.queue@, task);
            lemma_apply_tasks_snoc(self.db.table(), tasks_view(self.queue@), task@);
            lemma_batch_applicable_snoc(self.db.table(), tasks_view(self.queue@), task@);
            if old(self).consistent() {
                lemma_apply_task_properties(cache0, task@);
            }
        }
        self.queue.push(task);
        RequestOutcome::Pending { validity }
    }

    /// Atomically drain everything currently queued — the batching
    /// boundary. `None` when nothing is pending (the worker then blocks
    /// on its wake notification).
    fn check_tasks(&mut self) -> (r: Option<Vec<DatabaseTask>>)
        ensures
            final(self).db == old(self).db,
            final(self).cache == old(self).cache,
            match r {
                Some(tasks) => old(self).queue@.len() > 0 && tasks@ == old(self).queue@
                    && final(self).queue@.len() == 0,
                None => old(self).queue@.len() == 0 && *final(self) == *old(self),
            },
    {
        if self.queue.len() > 0 {
            let mut drained: Vec<DatabaseTask> = Vec::new();
            core::mem::swap(&mut drained, &mut self.queue);
            Some(drained)
        } else {
            None
        }
    }

    /// One turn of the background worker: drain the whole queue, commit
    /// it as one transaction, and report the answer owed to each drained
    /// caller, in queue order.
    ///
    /// The batch is all-or-nothing: on a committed batch every caller is
    /// owed its own decided expiry, while on a failed commit the table is
    /// untouched and every caller of the batch is answered `Rejected` —
    /// none is told a false grant. `None` means the queue was empty and
    /// there is nothing to do until the next wake-up.
    pub fn run_step(&mut self) -> (r: Option<(bool, Vec<LeasingResponse>)>)
        requires
            old(self).wf(),
        ensures
            final(self).wf(),
            final(self).cache == old(self).cache,
            final(self).db.spec_fault() == old(self).db.spec_fault(),
            final(self).queue@.len() == 0,
            match r {
                None => old(self).queue@.len() == 0 && *final(self) == *old(self),
                Some((committed, responses)) => {
                    &&& old(self).queue@.len() > 0
                    &&& responses@.len() == old(self).queue@.len()
                    &&& committed == (!old(self).db.spec_fault() && spec_batch_applicable(
                        old(self).db.table(),
                        old(self).queue_view(),
                    ))
                    &&& (committed ==> final(self).db.table() == spec_apply_tasks(
                        old(self).db.table(),
                        old(self).queue_view(),
                    ) && (forall|i: int|
                        0 <= i < responses@.len() ==> responses@[i] == (LeasingResponse::Granted {
                            validity: old(self).queue_view()[i].validity,
                        })))
                    &&& (!committed ==> final(self).db.table() == old(self).db.table() && (
                    forall|i: int| 0 <= i < responses@.len() ==> responses@[i] is Rejected))
                },
            },
            (old(self).consistent() && !old(self).db.spec_fault()) ==> final(self).consistent()
                && final(self).db.table() == final(self).cache.table(),
    {
        let ghost q0 = self.queue_view();
        let tasks = match self.check_tasks() {
            Some(tasks) => tasks,
            None => {
                proof {
                    assert(q0 =~= Seq::<TaskView>::empty());
                    if old(self).consistent() {
                        assert(spec_apply_tasks(self.db.table(), q0) == self.db.table());
                    }
                }
                return None;
            },
        };
        let committed = match self.db.execute_tasks(&tasks) {
            Ok(b) => b,
            Err(_) => {
                // the commit contract reports even a failed batch with Ok
                proof {
                    assert(false);
                }
                false
            },
        };
        let mut responses: Vec<LeasingResponse> = Vec::new();
        let n = tasks.len();
        let mut i: usize = 0;
        while i < n
            invariant
                n == tasks@.len(),
                i <= n,
                responses@.len() == i,
                forall|j: int|
                    0 <= j < i ==> responses@[j] == (if committed {
                        LeasingResponse::Granted { validity: tasks@[j]@.validity }
                    } else {
                        LeasingResponse::Rejected
                    }),
            decreases n - i,
        {
            if committed {
                let validity = tasks[i].get_validity();
                responses.push(LeasingResponse::Granted { validity });
            } else {
                responses.push(LeasingResponse::Rejected);
            }
            i = i + 1;
        }
        proof {
            let ghost empty_q = self.queue_view();
            assert(empty_q =~= Seq::<TaskView>::empty());
            if old(self).consistent() && !old(self).db.spec_fault() {
                assert(committed);
                assert(spec_apply_tasks(self.db.table(), empty_q) == self.db.table());
                assert(spec_batch_applicable(self.db.table(), empty_q));
            }
        }
        Some((committed, responses))
    }

    /// Arm or clear the simulated storage fault of the underlying store.
    pub fn set_fault(&mut self, fault: bool)
        ensures
            final(self).db.table() == old(self).db.table(),
            final(self).db.spec_fault() == fault,
            final(self).cache == old(self).cache,
            final(self).queue == old(self).queue,
    {
        self.db.set_fault(fault);
    }

    /// The `(holder, expiry)` pair the cache holds for `application_id`.
    pub fn cache_entry(&self, application_id: &str) -> (r: Option<(String, u64)>)
        requires
            self.wf(),
        ensures
            crate::database::lease_opt_view(r) == spec_lookup(self.cache.table(), application_id@),
    {
        self.cache.get(application_id)
    }

    /// The `(holder, expiry)` pair storage holds for `application_id`.
    pub fn storage_entry(&self, application_id: &str) -> (r: LldResult<Option<(String, u64)>>)
        requires
            self.wf(),
        ensures
            r matches Ok(o) && crate::database::lease_opt_view(o) == spec_lookup(
                self.db.table(),
                application_id@,
            ),
    {
        self.db.query_leasing(application_id)
    }
}

} // verus!
