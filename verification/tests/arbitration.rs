use lld_leasing::cache::{CacheResult, ContextCache};
use lld_leasing::context::{Context, ContextOutcome, LeasingResponse};
use lld_leasing::context_batching::{ContextBatching, RequestOutcome};
use lld_leasing::context_naive::ContextNaive;
use lld_leasing::database::Database;
use lld_leasing::LldError;

#[test]
fn first_grant_creates_the_lease() {
    let db = Database::open().unwrap();
    let mut ctx = ContextNaive::new(db).unwrap();
    let r = ctx
        .request_leasing("app".to_string(), "alice".to_string(), 5000, 1000)
        .unwrap();
    assert_eq!(r, LeasingResponse::Granted { validity: 6000 });
    let row = ctx.db.query_leasing("app").unwrap();
    let (holder, validity) = row.unwrap();
    assert_eq!(holder, "alice".to_string());
    assert_eq!(validity, 6000);
}

#[test]
fn live_lease_excludes_other_holders() {
    let db = Database::open().unwrap();
    let mut ctx = ContextNaive::new(db).unwrap();
    let r1 = ctx
        .request_leasing("app".to_string(), "alice".to_string(), 5000, 1000)
        .unwrap();
    assert_eq!(r1, LeasingResponse::Granted { validity: 6000 });
    let r2 = ctx
        .request_leasing("app".to_string(), "bob".to_string(), 5000, 2000)
        .unwrap();
    assert_eq!(r2, LeasingResponse::Rejected);
    // the rejected request wrote nothing
    let (holder, validity) = ctx.db.query_leasing("app").unwrap().unwrap();
    assert_eq!(holder, "alice".to_string());
    assert_eq!(validity, 6000);
}

#[test]
fn self_renewal_extends_the_lease() {
    let db = Database::open().unwrap();
    let mut ctx = ContextNaive::new(db).unwrap();
    ctx.request_leasing("app".to_string(), "alice".to_string(), 5000, 1000)
        .unwrap();
    let r = ctx
        .request_leasing("app".to_string(), "alice".to_string(), 5000, 3000)
        .unwrap();
    assert_eq!(r, LeasingResponse::Granted { validity: 8000 });
    let (_, validity) = ctx.db.query_leasing("app").unwrap().unwrap();
    assert_eq!(validity, 8000);
}

#[test]
fn lapsed_lease_can_be_taken_over() {
    let db = Database::open().unwrap();
    let mut ctx = ContextNaive::new(db).unwrap();
    ctx.request_leasing("app".to_string(), "alice".to_string(), 5000, 1000)
        .unwrap();
    // expiry is 6000; at now == 6000 the lease has lapsed
    let r = ctx
        .request_leasing("app".to_string(), "bob".to_string(), 4000, 6000)
        .unwrap();
    assert_eq!(r, LeasingResponse::Granted { validity: 10000 });
    let (holder, validity) = ctx.db.query_leasing("app").unwrap().unwrap();
    assert_eq!(holder, "bob".to_string());
    assert_eq!(validity, 10000);
}

#[test]
fn cached_and_uncached_direct_modes_decide_identically() {
    let db_a = Database::open().unwrap();
    let db_b = Database::open().unwrap();
    let mut with_cache = ContextNaive::new(db_a).unwrap();
    let mut without_cache = ContextNaive::new_without_cache(db_b).unwrap();
    let script: [(&str, &str, u64, u64); 5] = [
        ("app", "alice", 5000, 1000),
        ("app", "bob", 5000, 2000),
        ("app", "alice", 5000, 3000),
        ("app", "carol", 1000, 9000),
        ("other", "bob", 2000, 9000),
    ];
    for (application_id, instance_id, duration, now) in script {
        let ra = with_cache
            .request_leasing(application_id.to_string(), instance_id.to_string(), duration, now)
            .unwrap();
        let rb = without_cache
            .request_leasing(application_id.to_string(), instance_id.to_string(), duration, now)
            .unwrap();
        assert_eq!(ra, rb);
    }
}

#[test]
fn to_cache_result_classifies_all_four_cases() {
    let fresh = ContextCache::to_cache_result("a".to_string(), "i".to_string(), 500, 100, None);
    assert!(matches!(
        fresh,
        CacheResult::GrantedInsert { validity: 600, .. }
    ));
    let lapsed = ContextCache::to_cache_result(
        "a".to_string(),
        "i".to_string(),
        500,
        100,
        Some(("other".to_string(), 100)),
    );
    assert!(matches!(
        lapsed,
        CacheResult::GrantedUpdate { validity: 600, .. }
    ));
    let renewal = ContextCache::to_cache_result(
        "a".to_string(),
        "i".to_string(),
        500,
        100,
        Some(("i".to_string(), 300)),
    );
    assert!(matches!(
        renewal,
        CacheResult::GrantedUpdate { validity: 600, .. }
    ));
    let blocked = ContextCache::to_cache_result(
        "a".to_string(),
        "i".to_string(),
        500,
        100,
        Some(("other".to_string(), 300)),
    );
    assert!(matches!(blocked, CacheResult::Rejected));
}

#[test]
fn batching_commits_a_whole_batch_and_answers_each_caller() {
    let db = Database::open().unwrap();
    let mut ctx = ContextBatching::new(db).unwrap();
    let r1 = ctx.request_leasing("app1".to_string(), "alice".to_string(), 5000, 1000);
    let r2 = ctx.request_leasing("app2".to_string(), "bob".to_string(), 3000, 1000);
    assert_eq!(r1, RequestOutcome::Pending { validity: 6000 });
    assert_eq!(r2, RequestOutcome::Pending { validity: 4000 });
    let (committed, responses) = ctx.run_step().unwrap();
    assert!(committed);
    assert_eq!(responses.len(), 2);
    assert_eq!(responses[0], LeasingResponse::Granted { validity: 6000 });
    assert_eq!(responses[1], LeasingResponse::Granted { validity: 4000 });
    // an empty queue means nothing to do
    assert!(ctx.run_step().is_none());
}

#[test]
fn storage_failure_rejects_every_caller_of_the_batch() {
    let db = Database::open().unwrap();
    let mut ctx = ContextBatching::new(db).unwrap();
    let r1 = ctx.request_leasing("app1".to_string(), "alice".to_string(), 5000, 1000);
    let r2 = ctx.request_leasing("app2".to_string(), "bob".to_string(), 3000, 1000);
    assert!(matches!(r1, RequestOutcome::Pending { .. }));
    assert!(matches!(r2, RequestOutcome::Pending { .. }));
    ctx.set_fault(true);
    let (committed, responses) = ctx.run_step().unwrap();
    assert!(!committed);
    assert_eq!(responses.len(), 2);
    assert_eq!(responses[0], LeasingResponse::Rejected);
    assert_eq!(responses[1], LeasingResponse::Rejected);
    // the failed batch wrote nothing
    assert!(ctx.storage_entry("app1").unwrap().is_none());
    assert!(ctx.storage_entry("app2").unwrap().is_none());
}

#[test]
fn committed_batch_brings_storage_into_agreement_with_the_cache() {
    let db = Database::open().unwrap();
    let mut ctx = ContextBatching::new(db).unwrap();
    ctx.request_leasing("app1".to_string(), "alice".to_string(), 5000, 1000);
    ctx.request_leasing("app2".to_string(), "bob".to_string(), 3000, 1000);
    ctx.request_leasing("app1".to_string(), "alice".to_string(), 5000, 2000);
    let (committed, _) = ctx.run_step().unwrap();
    assert!(committed);
    for application_id in ["app1", "app2"] {
        let cached = ctx.cache_entry(application_id);
        let stored = ctx.storage_entry(application_id).unwrap();
        assert_eq!(cached, stored);
    }
    assert_eq!(
        ctx.storage_entry("app1").unwrap(),
        Some(("alice".to_string(), 7000))
    );
}

#[test]
fn concurrent_first_requests_grant_exactly_one() {
    let db = Database::open().unwrap();
    let mut ctx = ContextBatching::new(db).unwrap();
    let holders = ["alice", "bob", "carol", "dave"];
    let mut granted = 0;
    let mut rejected = 0;
    for holder in holders {
        match ctx.request_leasing("app".to_string(), holder.to_string(), 5000, 1000) {
            RequestOutcome::Pending { validity } => {
                assert_eq!(validity, 6000);
                granted += 1;
            }
            RequestOutcome::Rejected => rejected += 1,
        }
    }
    assert_eq!(granted, 1);
    assert_eq!(rejected, holders.len() - 1);
}

#[test]
fn expiry_may_reach_the_clock_maximum() {
    let db = Database::open().unwrap();
    let mut ctx = ContextNaive::new(db).unwrap();
    let now = u64::MAX - 5000;
    let r = ctx
        .request_leasing("app".to_string(), "alice".to_string(), 5000, now)
        .unwrap();
    assert_eq!(r, LeasingResponse::Granted { validity: u64::MAX });
}

#[test]
fn rejection_queues_nothing() {
    let db = Database::open().unwrap();
    let mut ctx = ContextBatching::new(db).unwrap();
    ctx.request_leasing("app".to_string(), "alice".to_string(), 5000, 1000);
    let (committed, _) = ctx.run_step().unwrap();
    assert!(committed);
    let r = ctx.request_leasing("app".to_string(), "bob".to_string(), 5000, 2000);
    assert_eq!(r, RequestOutcome::Rejected);
    // nothing pending: the worker has nothing to commit
    assert!(ctx.run_step().is_none());
}

#[test]
fn direct_mode_surfaces_storage_failure_as_an_error() {
    let db = Database::open().unwrap();
    let mut ctx = ContextNaive::new(db).unwrap();
    ctx.set_fault(true);
    let r = ctx.request_leasing("app".to_string(), "alice".to_string(), 5000, 1000);
    assert!(matches!(r, Err(LldError::DatabaseError { .. })));
}

#[test]
fn duplicate_insert_is_a_storage_error() {
    let mut db = Database::open().unwrap();
    assert_eq!(db.insert_leasing("app", "alice", 6000).unwrap(), true);
    let again = db.insert_leasing("app", "bob", 7000);
    assert!(matches!(again, Err(LldError::DatabaseError { .. })));
    // the failed insert changed nothing
    assert_eq!(
        db.query_leasing("app").unwrap(),
        Some(("alice".to_string(), 6000))
    );
}

#[test]
fn init_resets_the_table_and_build_cache_mirrors_it() {
    let mut db = Database::open().unwrap();
    db.insert_leasing("app", "alice", 6000).unwrap();
    db.update_leasing("app", "bob", 9000).unwrap();
    let cache = ContextCache::new(&db).unwrap();
    assert_eq!(cache.get("app"), Some(("bob".to_string(), 9000)));
    assert_eq!(cache.get("missing"), None);
    db.init().unwrap();
    assert_eq!(db.query_leasing("app").unwrap(), None);
}

#[test]
fn context_dispatch_is_strategy_agnostic() {
    let db = Database::open().unwrap();
    let mut naive = Context::Naive(ContextNaive::new(db).unwrap());
    let db = Database::open().unwrap();
    let mut batching = Context::Batching(ContextBatching::new(db).unwrap());

    let r = naive
        .request_leasing("app".to_string(), "alice".to_string(), 5000, 1000)
        .unwrap();
    assert_eq!(r, ContextOutcome::Done(LeasingResponse::Granted { validity: 6000 }));
    assert!(naive.run_step().is_none());

    let r = batching
        .request_leasing("app".to_string(), "alice".to_string(), 5000, 1000)
        .unwrap();
    assert_eq!(r, ContextOutcome::Pending { validity: 6000 });
    let (committed, responses) = batching.run_step().unwrap();
    assert!(committed);
    assert_eq!(responses, vec![LeasingResponse::Granted { validity: 6000 }]);

    // both strategies deny a second holder the live lease
    let r = naive
        .request_leasing("app".to_string(), "bob".to_string(), 5000, 2000)
        .unwrap();
    assert_eq!(r, ContextOutcome::Done(LeasingResponse::Rejected));
    let r = batching
        .request_leasing("app".to_string(), "bob".to_string(), 5000, 2000)
        .unwrap();
    assert_eq!(r, ContextOutcome::Done(LeasingResponse::Rejected));
}
