//! The lease cache and the arbitration rule.
//!
//! The cache is the authoritative in-memory map from application id to
//! `(holder, expiry)`. It is seeded from a full storage scan at startup
//! and mutated together with every decision, so it reflects the most
//! recent decision even while that decision is still waiting for its
//! durable commit. The exclusive borrow taken by every deciding call
//! makes the read-check-write sequence atomic, so two raced first-time
//! requests can never both see an empty slot.

use vstd::prelude::*;

use crate::database::{
    lease_opt_view, lemma_set_properties, lemma_table_view_push, lemma_table_view_update,
    key_index, spec_lookup, spec_set, table_find, table_get, table_view, unique_keys, Database,
    LeaseRecord, LeaseView,
};
use crate::errors::LldResult;

verus! {

/// The cache contents: one entry per application id.
pub type CacheMap = Vec<LeaseRecord>;

/// The outcome of arbitrating one lease request, as a mathematical value.
pub enum Decision {
    Rejected,
    GrantedInsert { application_id: Seq<char>, instance_id: Seq<char>, validity: u64 },
    GrantedUpdate { application_id: Seq<char>, instance_id: Seq<char>, validity: u64 },
}

/// The outcome of arbitrating one lease request: rejected outright, or
/// granted together with the write (row creation or overwrite) that has
/// to be persisted.
#[derive(Debug)]
pub enum CacheResult {
    Rejected,
    GrantedInsert { application_id: String, instance_id: String, validity: u64 },
    GrantedUpdate { application_id: String, instance_id: String, validity: u64 },
}

impl View for CacheResult {
    type V = Decision;

    open spec fn view(&self) -> Decision {
        match self {
            CacheResult::Rejected => Decision::Rejected,
            CacheResult::GrantedInsert { application_id, instance_id, validity } =>
                Decision::GrantedInsert {
                application_id: application_id@,
                instance_id: instance_id@,
                validity: *validity,
            },
            CacheResult::GrantedUpdate { application_id, instance_id, validity } =>
                Decision::GrantedUpdate {
                application_id: application_id@,
                instance_id: instance_id@,
                validity: *validity,
            },
        }
    }
}

/// The arbitration rule, given the entry currently associated with the
/// requested resource (or its absence):
///
/// - no entry: first grant, as a row creation, expiring at `now +
///   duration`;
/// - entry lapsed (`expiry <= now`): any holder takes over, as an
///   overwrite;
/// - entry live and held by the requester: self-renewal, as an overwrite;
/// - entry live and held by someone else: rejected.
pub open spec fn spec_decision(
    application_id: Seq<char>,
    instance_id: Seq<char>,
    duration: u64,
    now: u64,
    current: Option<(Seq<char>, u64)>,
) -> Decision {
    match current {
        None => Decision::GrantedInsert {
            application_id,
            instance_id,
            validity: (now + duration) as u64,
        },
        Some((holder, validity)) => if validity > now && holder != instance_id {
            Decision::Rejected
        } else {
            Decision::GrantedUpdate {
                application_id,
                instance_id,
                validity: (now + duration) as u64,
            }
        },
    }
}

/// The lease cache. Owned and mutated by the arbitration engine only;
/// front-ends never touch it.
#[derive(Debug)]
pub struct ContextCache {
    pub entries: CacheMap,
}

impl ContextCache {
    /// The current cache contents.
    pub open spec fn table(&self) -> Seq<LeaseView> {
        table_view(self.entries@)
    }

    /// One entry per application id.
    pub open spec fn wf(&self) -> bool {
        unique_keys(self.table())
    }

    /// The `(holder, expiry)` pair cached for `application_id`, if any.
    pub open spec fn contents_of(&self, application_id: Seq<char>) -> Option<(Seq<char>, u64)> {
        spec_lookup(self.table(), application_id)
    }

    /// Build the cache from a full scan of storage, so that it starts in
    /// exact agreement with the durable table.
    pub fn new(db: &Database) -> (r: LldResult<ContextCache>)
        requires
            db.wf(),
        ensures
            r matches Ok(c) && c.wf() && c.table() == db.table(),
    {
        match db.build_cache() {
            Ok(entries) => Ok(ContextCache { entries }),
            Err(e) => Err(e),
        }
    }

    /// The cached `(holder, expiry)` pair for `application_id`, cloned
    /// out.
    pub fn get(&self, application_id: &str) -> (r: Option<(String, u64)>)
        requires
            self.wf(),
        ensures
            lease_opt_view(r) == self.contents_of(application_id@),
    {
        table_get(&self.entries, application_id)
    }

    /// Store `(instance_id, validity)` under `application_id`,
    /// overwriting the entry if present and appending it otherwise.
    fn set(&mut self, application_id: String, instance_id: String, validity: u64)
        requires
            old(self).wf(),
        ensures
            final(self).wf(),
            final(self).table() == spec_set(
                old(self).table(),
                application_id@,
                instance_id@,
                validity,
            ),
    {
        let ghost t0 = self.table();
        proof {
            lemma_set_properties(t0, application_id@, instance_id@, validity);
        }
        match table_find(&self.entries, application_id.as_str()) {
            Some(k) => {
                let rec = LeaseRecord { application_id, instance_id, validity };
                proof {
                    let ki = key_index(t0, rec.application_id@);
                    let kk = k as int;
                    assert(0 <= ki < t0.len() && t0[ki].application_id == rec.application_id@);
                    assert(ki == kk) by {
                        if ki < kk {
                            assert(t0[ki].application_id != t0[kk].application_id);
                        } else if kk < ki {
                            assert(t0[kk].application_id != t0[ki].application_id);
                        }
                    }
                    lemma_table_view_update(self.entries@, kk, rec);
                }
                let slot = &mut self.entries[k];
                *slot = rec;
            },
            None => {
                let rec = LeaseRecord { application_id, instance_id, validity };
                proof {
                    lemma_table_view_push(self.entries@, rec);
                }
                self.entries.push(rec);
            },
        }
    }

    /// The arbitration rule as a function of an explicitly supplied
    /// current record, so the same logic serves when storage rather than
    /// the cache is the source of truth.
    pub fn to_cache_result(
        application_id: String,
        instance_id: String,
        duration: u64,
        now: u64,
        result: Option<(String, u64)>,
    ) -> (r: CacheResult)
        requires
            now + duration <= u64::MAX,
        ensures
            r@ == spec_decision(
                application_id@,
                instance_id@,
                duration,
                now,
                lease_opt_view(result),
            ),
    {
        match result {
            Some((leased_instance_id, validity)) => {
                if validity > now && !(leased_instance_id == instance_id) {
                    CacheResult::Rejected
                } else {
                    CacheResult::GrantedUpdate {
                        application_id,
                        instance_id,
                        validity: now + duration,
                    }
                }
            },
            None => CacheResult::GrantedInsert {
                application_id,
                instance_id,
                validity: now + duration,
            },
        }
    }

    /// Decide one lease request against the cache and record the decision
    /// in the same exclusive critical section: the returned grant (if
    /// any) is already reflected in the cache when the call returns, so a
    /// second caller for the same resource arbitrates against it.
    pub fn request_leasing(
        &mut self,
        application_id: String,
        instance_id: String,
        duration: u64,
        now: u64,
    ) -> (r: LldResult<CacheResult>)
        requires
            old(self).wf(),
            now + duration <= u64::MAX,
        ensures
            final(self).wf(),
            r matches Ok(cr) && cr@ == spec_decision(
                application_id@,
                instance_id@,
                duration,
                now,
                old(self).contents_of(application_id@),
            ),
            (r matches Ok(cr) && cr is Rejected) ==> *final(self) == *old(self),
            (r matches Ok(cr) && !(cr is Rejected)) ==> final(self).table() == spec_set(
                old(self).table(),
                application_id@,
                instance_id@,
                (now + duration) as u64,
            ),
    {
        let current = self.get(application_id.as_str());
        match current {
            Some((leased_instance_id, validity)) => {
                if validity > now && !(leased_instance_id == instance_id) {
                    Ok(CacheResult::Rejected)
                } else {
                    self.set(application_id.clone(), instance_id.clone(), now + duration);
                    Ok(CacheResult::GrantedUpdate {
                        application_id,
                        instance_id,
                        validity: now + duration,
                    })
                }
            },
            None => {
                self.set(application_id.clone(), instance_id.clone(), now + duration);
                Ok(CacheResult::GrantedInsert {
                    application_id,
                    instance_id,
                    validity: now + duration,
                })
            },
        }
    }
}

/// Whether, according to table `t`, `instance_id` holds a live lease on
/// `application_id` at instant `now`.
pub open spec fn holds_lease_at(
    t: Seq<LeaseView>,
    application_id: Seq<char>,
    instance_id: Seq<char>,
    now: u64,
) -> bool {
    match spec_lookup(t, application_id) {
        Some((holder, validity)) => holder == instance_id && validity > now,
        None => false,
    }
}

/// Mutual exclusion: at any instant, at most one holder has a live lease
/// on a resource.
pub proof fn lemma_mutual_exclusion(
    t: Seq<LeaseView>,
    application_id: Seq<char>,
    first: Seq<char>,
    second: Seq<char>,
    now: u64,
)
    requires
        unique_keys(t),
        holds_lease_at(t, application_id, first, now),
        holds_lease_at(t, application_id, second, now),
    ensures
        first == second,
{
}

/// Self-renewal: the current holder, re-requesting before its expiry, is
/// always granted, and — whenever the requested duration is at least the
/// remaining term — the new expiry is no earlier than the old one.
pub proof fn lemma_self_renewal(
    t: Seq<LeaseView>,
    application_id: Seq<char>,
    instance_id: Seq<char>,
    duration: u64,
    now: u64,
    validity: u64,
)
    requires
        unique_keys(t),
        spec_lookup(t, application_id) == Some((instance_id, validity)),
        validity > now,
        now + duration <= u64::MAX,
    ensures
        spec_decision(application_id, instance_id, duration, now, spec_lookup(t, application_id))
            == (Decision::GrantedUpdate {
            application_id,
            instance_id,
            validity: (now + duration) as u64,
        }),
        validity <= now + duration ==> (now + duration) as u64 >= validity,
{
}

/// Exclusion before expiry: a holder other than the current one,
/// requesting before the expiry, is always rejected.
pub proof fn lemma_live_lease_excludes(
    t: Seq<LeaseView>,
    application_id: Seq<char>,
    instance_id: Seq<char>,
    duration: u64,
    now: u64,
    holder: Seq<char>,
    validity: u64,
)
    requires
        unique_keys(t),
        spec_lookup(t, application_id) == Some((holder, validity)),
        holder != instance_id,
        validity > now,
    ensures
        spec_decision(application_id, instance_id, duration, now, spec_lookup(t, application_id))
            is Rejected,
{
}

/// Lapse takeover: once `now` has reached the expiry, any holder
/// requesting the resource is granted.
pub proof fn lemma_lapse_takeover(
    t: Seq<LeaseView>,
    application_id: Seq<char>,
    instance_id: Seq<char>,
    duration: u64,
    now: u64,
    holder: Seq<char>,
    validity: u64,
)
    requires
        unique_keys(t),
        spec_lookup(t, application_id) == Some((holder, validity)),
        validity <= now,
        now + duration <= u64::MAX,
    ensures
        spec_decision(application_id, instance_id, duration, now, spec_lookup(t, application_id))
            == (Decision::GrantedUpdate {
            application_id,
            instance_id,
            validity: (now + duration) as u64,
        }),
{
}

/// The cache state after one deciding call: unchanged on a rejection,
/// updated with the decided `(holder, expiry)` pair on a grant.
pub open spec fn spec_request_next(
    t: Seq<LeaseView>,
    application_id: Seq<char>,
    instance_id: Seq<char>,
    duration: u64,
    now: u64,
) -> Seq<LeaseView> {
    if spec_decision(application_id, instance_id, duration, now, spec_lookup(t, application_id))
        is Rejected {
        t
    } else {
        spec_set(t, application_id, instance_id, (now + duration) as u64)
    }
}

/// How many of the given requests — each a `(holder, duration)` pair for
/// the same resource, arbitrated in order at the same instant — are
/// granted.
pub open spec fn spec_granted_count(
    t: Seq<LeaseView>,
    application_id: Seq<char>,
    requests: Seq<(Seq<char>, u64)>,
    now: u64,
) -> int
    decreases requests.len(),
{
    if requests.len() == 0 {
        0
    } else {
        let head = requests[0];
        let d = spec_decision(
            application_id,
            head.0,
            head.1,
            now,
            spec_lookup(t, application_id),
        );
        (if d is Rejected {
            0int
        } else {
            1int
        }) + spec_granted_count(
            spec_request_next(t, application_id, head.0, head.1, now),
            application_id,
            requests.drop_first(),
            now,
        )
    }
}

/// While some holder's live lease is in the table, requests by any other
/// holders are all rejected and leave the table as it is.
proof fn lemma_race_rest_rejected(
    t: Seq<LeaseView>,
    application_id: Seq<char>,
    requests: Seq<(Seq<char>, u64)>,
    now: u64,
    holder: Seq<char>,
    validity: u64,
)
    requires
        unique_keys(t),
        spec_lookup(t, application_id) == Some((holder, validity)),
        validity > now,
        forall|i: int| 0 <= i < requests.len() ==> (#[trigger] requests[i]).0 != holder,
    ensures
        spec_granted_count(t, application_id, requests, now) == 0,
    decreases requests.len(),
{
    if requests.len() > 0 {
        let head = requests[0];
        assert(spec_decision(application_id, head.0, head.1, now, spec_lookup(t, application_id))
            is Rejected);
        assert(spec_request_next(t, application_id, head.0, head.1, now) == t);
        assert(forall|i: int|
            0 <= i < requests.drop_first().len() ==> (#[trigger] requests.drop_first()[i]).0
                != holder);
        lemma_race_rest_rejected(t, application_id, requests.drop_first(), now, holder, validity);
    }
}

/// Concurrent first-grant race: starting from a table with no entry for
/// the resource, a series of requests by pairwise distinct holders with
/// positive durations, arbitrated in some order at one instant, grants
/// exactly one of them — the one arbitrated first.
pub proof fn lemma_concurrent_insert_race(
    t: Seq<LeaseView>,
    application_id: Seq<char>,
    requests: Seq<(Seq<char>, u64)>,
    now: u64,
)
    requires
        unique_keys(t),
        spec_lookup(t, application_id) is None,
        requests.len() > 0,
        forall|i: int|
            0 <= i < requests.len() ==> (#[trigger] requests[i]).1 > 0 && now + requests[i].1
                <= u64::MAX,
        forall|i: int, j: int|
            0 <= i < j < requests.len() ==> (#[trigger] requests[i]).0 != (#[trigger] requests[j]).0,
    ensures
        spec_granted_count(t, application_id, requests, now) == 1,
        !(spec_decision(
            application_id,
            requests[0].0,
            requests[0].1,
            now,
            spec_lookup(t, application_id),
        ) is Rejected),
{
    let head = requests[0];
    let t1 = spec_request_next(t, application_id, head.0, head.1, now);
    assert(t1 == spec_set(t, application_id, head.0, (now + head.1) as u64));
    lemma_set_properties(t, application_id, head.0, (now + head.1) as u64);
    let granted_validity = (now + head.1) as u64;
    assert(granted_validity > now);
    assert(forall|i: int|
        0 <= i < requests.drop_first().len() ==> (#[trigger] requests.drop_first()[i]).0
            != head.0);
    lemma_race_rest_rejected(
        t1,
        application_id,
        requests.drop_first(),
        now,
        head.0,
        granted_validity,
    );
}

} // verus!
