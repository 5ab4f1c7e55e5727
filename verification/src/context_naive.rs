//! The direct strategy: decide, then persist synchronously, one request
//! at a time. Optionally cache-accelerated; without the cache it queries
//! storage for the current record and feeds it through the same
//! arbitration rule, so both modes decide identically whenever cache and
//! storage agree.

use vstd::prelude::*;

use crate::cache::{spec_decision, CacheResult, ContextCache};
use crate::context::LeasingResponse;
use crate::database::{spec_lookup, spec_set, Database, LeaseView};
use crate::errors::LldResult;

verus! {

/// The direct (naive) strategy: one synchronous query-decide-write per
/// request against the exclusively borrowed storage handle.
pub struct ContextNaive {
    pub db: Database,
    pub cache: Option<ContextCache>,
}

impl ContextNaive {
    /// Structural well-formedness: the table invariants of storage and,
    /// when present, of the cache.
    pub open spec fn wf(&self) -> bool {
        &&& self.db.wf()
        &&& (self.cache matches Some(c) ==> c.wf())
    }

    /// Whether the cache (when present) agrees exactly with storage. It
    /// does from startup on, and every successful request keeps it so; a
    /// storage failure after a grant may break it, as the grant is
    /// already decided in the cache.
    pub open spec fn synced(&self) -> bool {
        self.cache matches Some(c) ==> c.table() == self.db.table()
    }

    /// The table decisions are made against: the cache when enabled,
    /// storage otherwise.
    pub open spec fn decision_table(&self) -> Seq<LeaseView> {
        match self.cache {
            Some(c) => c.table(),
            None => self.db.table(),
        }
    }

    /// Build the cache-accelerated direct strategy; the cache is seeded
    /// from a full scan, so it starts in exact agreement with storage.
    pub fn new(db: Database) -> (r: LldResult<ContextNaive>)
        requires
            db.wf(),
        ensures
            r matches Ok(c) && c.wf() && c.synced() && c.cache is Some && c.db == db,
    {
        let cache = match ContextCache::new(&db) {
            Ok(cache) => cache,
            Err(e) => return Err(e),
        };
        Ok(ContextNaive { db, cache: Some(cache) })
    }

    /// Build the pure fallback mode that always asks storage.
    pub fn new_without_cache(db: Database) -> (r: LldResult<ContextNaive>)
        requires
            db.wf(),
        ensures
            r matches Ok(c) && c.wf() && c.synced() && c.cache is None && c.db == db,
    {
        Ok(ContextNaive { db, cache: None })
    }

    /// The direct strategy has no background work.
    pub fn run(&self) -> (r: LldResult<()>)
        ensures
            r is Ok,
    {
        Ok(())
    }

    /// Arbitrate one request and persist the outcome synchronously:
    /// exactly one storage write per grant, none per rejection. A storage
    /// failure surfaces as an error, never as a rejection.
    pub fn request_leasing(
        &mut self,
        application_id: String,
        instance_id: String,
        duration: u64,
        now: u64,
    ) -> (r: LldResult<LeasingResponse>)
        requires
            old(self).wf(),
            now + duration <= u64::MAX,
        ensures
            final(self).wf(),
            final(self).cache is Some <==> old(self).cache is Some,
            final(self).db.spec_fault() == old(self).db.spec_fault(),
            (old(self).synced() && !old(self).db.spec_fault()) ==> ({
                let d = spec_decision(
                    application_id@,
                    instance_id@,
                    duration,
                    now,
                    spec_lookup(old(self).decision_table(), application_id@),
                );
                let t1 = final(self).db.table();
                &&& final(self).synced()
                &&& (d is Rejected ==> (r matches Ok(resp) && resp is Rejected) && t1 == old(
                    self,
                ).db.table())
                &&& (!(d is Rejected) ==> (r matches Ok(resp) && resp == (
                LeasingResponse::Granted { validity: (now + duration) as u64 })) && t1 == spec_set(
                    old(self).db.table(),
                    application_id@,
                    instance_id@,
                    (now + duration) as u64,
                ))
            }),
            old(self).db.spec_fault() ==> ({
                let d = spec_decision(
                    application_id@,
                    instance_id@,
                    duration,
                    now,
                    spec_lookup(old(self).decision_table(), application_id@),
                );
                let t1 = final(self).db.table();
                &&& (!(d is Rejected) ==> r is Err)
                &&& (d is Rejected ==> (r matches Ok(resp) && resp is Rejected) && t1 == old(
                    self,
                ).db.table())
            }),
    {
        let cache_result: Option<CacheResult> = match &mut self.cache {
            Some(cache) => {
                match cache.request_leasing(
                    application_id.clone(),
                    instance_id.clone(),
                    duration,
                    now,
                ) {
                    Ok(cr) => Some(cr),
                    Err(e) => return Err(e),
                }
            },
            None => None,
        };
        match &cache_result {
            Some(CacheResult::Rejected) => {
                return Ok(LeasingResponse::Rejected);
            },
            _ => {},
        }
        let cache_result = match cache_result {
            Some(cr) => cr,
            None => {
                let result = match self.db.query_leasing(application_id.as_str()) {
                    Ok(result) => result,
                    Err(e) => return Err(e),
                };
                ContextCache::to_cache_result(application_id, instance_id, duration, now, result)
            },
        };
        match cache_result {
            CacheResult::Rejected => Ok(LeasingResponse::Rejected),
            CacheResult::GrantedInsert { application_id, instance_id, validity } => {
                match self.db.insert_leasing(
                    application_id.as_str(),
                    instance_id.as_str(),
                    validity,
                ) {
                    Ok(_) => Ok(LeasingResponse::Granted { validity }),
                    Err(e) => Err(e),
                }
            },
            CacheResult::GrantedUpdate { application_id, instance_id, validity } => {
                match self.db.update_leasing(
                    application_id.as_str(),
                    instance_id.as_str(),
                    validity,
                ) {
                    Ok(_) => Ok(LeasingResponse::Granted { validity }),
                    Err(e) => Err(e),
                }
            },
        }
    }

    /// Arm or clear the simulated storage fault of the underlying store.
    pub fn set_fault(&mut self, fault: bool)
        ensures
            final(self).db.table() == old(self).db.table(),
            final(self).db.spec_fault() == fault,
            final(self).cache == old(self).cache,
    {
        self.db.set_fault(fault);
    }
}

/// The cached and the uncached direct mode decide identically: while the
/// cache agrees with storage, both arbitrate any request against the
/// same table, so the arbitration rule yields the same decision.
pub proof fn lemma_direct_modes_agree(
    with_cache: ContextNaive,
    without_cache: ContextNaive,
    application_id: Seq<char>,
    instance_id: Seq<char>,
    duration: u64,
    now: u64,
)
    requires
        with_cache.synced(),
        with_cache.cache is Some,
        without_cache.cache is None,
        with_cache.db.table() == without_cache.db.table(),
    ensures
        spec_decision(
            application_id,
            instance_id,
            duration,
            now,
            spec_lookup(with_cache.decision_table(), application_id),
        ) == spec_decision(
            application_id,
            instance_id,
            duration,
            now,
            spec_lookup(without_cache.decision_table(), application_id),
        ),
{
}

} // verus!
