//! The storage side of the engine: lease rows, the write statements that
//! mutate them, and the transactional table they live in.
//!
//! The durable backend behind the service is an external collaborator and
//! is only relied on through the transactional interface modelled here: a
//! point query, a point insert/update, and a multi-statement atomic
//! execute. The table semantics (one row per application id, all-or-nothing
//! batches) is the part the engine depends on, and it is verified.

use vstd::prelude::*;

use crate::cache::CacheMap;
use crate::errors::{LldError, LldResult};

verus! {

/// One lease row: the current holder (`instance_id`) of a resource
/// (`application_id`) and the epoch-millisecond expiry of its claim.
#[derive(Debug)]
pub struct LeaseRecord {
    pub application_id: String,
    pub instance_id: String,
    pub validity: u64,
}

/// The mathematical content of one lease row.
pub struct LeaseView {
    pub application_id: Seq<char>,
    pub instance_id: Seq<char>,
    pub validity: u64,
}

impl View for LeaseRecord {
    type V = LeaseView;

    open spec fn view(&self) -> LeaseView {
        LeaseView {
            application_id: self.application_id@,
            instance_id: self.instance_id@,
            validity: self.validity,
        }
    }
}

impl LeaseRecord {
    /// Field-by-field copy whose contract keeps the contents.
    pub fn duplicate(&self) -> (r: LeaseRecord)
        ensures
            r@ == self@,
    {
        LeaseRecord {
            application_id: self.application_id.clone(),
            instance_id: self.instance_id.clone(),
            validity: self.validity,
        }
    }
}

/// The contents of a sequence of rows, row by row.
pub open spec fn table_view(rows: Seq<LeaseRecord>) -> Seq<LeaseView> {
    rows.map_values(|r: LeaseRecord| r@)
}

/// Whether some row of `t` is keyed by `application_id`.
pub open spec fn has_key(t: Seq<LeaseView>, application_id: Seq<char>) -> bool {
    exists|i: int| 0 <= i < t.len() && t[i].application_id == application_id
}

/// An index of a row of `t` keyed by `application_id` (unique when the
/// keys of `t` are).
pub open spec fn key_index(t: Seq<LeaseView>, application_id: Seq<char>) -> int {
    choose|i: int| 0 <= i < t.len() && t[i].application_id == application_id
}

/// The point query: the holder and expiry stored for `application_id`,
/// if any row carries it.
pub open spec fn spec_lookup(t: Seq<LeaseView>, application_id: Seq<char>) -> Option<
    (Seq<char>, u64),
> {
    if has_key(t, application_id) {
        let e = t[key_index(t, application_id)];
        Some((e.instance_id, e.validity))
    } else {
        None
    }
}

/// At most one row per application id: the primary-key invariant of the
/// lease table, and of the cache mirroring it.
pub open spec fn unique_keys(t: Seq<LeaseView>) -> bool {
    forall|i: int, j: int|
        0 <= i < j < t.len() ==> t[i].application_id != t[j].application_id
}

/// The table after storing `(instance_id, validity)` under
/// `application_id`: the keyed row is overwritten if present, appended
/// otherwise.
pub open spec fn spec_set(
    t: Seq<LeaseView>,
    application_id: Seq<char>,
    instance_id: Seq<char>,
    validity: u64,
) -> Seq<LeaseView> {
    let e = LeaseView { application_id, instance_id, validity };
    if has_key(t, application_id) {
        t.update(key_index(t, application_id), e)
    } else {
        t.push(e)
    }
}

/// How one store step reads back: `spec_set` keeps the key invariant,
/// lands the new pair under its own key, and leaves every other key
/// untouched.
pub proof fn lemma_set_properties(
    t: Seq<LeaseView>,
    application_id: Seq<char>,
    instance_id: Seq<char>,
    validity: u64,
)
    requires
        unique_keys(t),
    ensures
        unique_keys(spec_set(t, application_id, instance_id, validity)),
        spec_lookup(spec_set(t, application_id, instance_id, validity), application_id)
            == Some((instance_id, validity)),
        forall|other: Seq<char>|
            other != application_id ==> spec_lookup(
                spec_set(t, application_id, instance_id, validity),
                other,
            ) == spec_lookup(t, other),
{
    let e = LeaseView { application_id, instance_id, validity };
    let t2 = spec_set(t, application_id, instance_id, validity);
    if has_key(t, application_id) {
        let k = key_index(t, application_id);
        assert(0 <= k < t.len() && t[k].application_id == application_id);
        assert(t2 == t.update(k, e));
        assert forall|i: int, j: int| 0 <= i < j < t2.len() implies t2[i].application_id
            != t2[j].application_id by {
            assert(t[i].application_id != t[j].application_id);
        }
        assert(has_key(t2, application_id)) by {
            assert(t2[k] == e);
        }
        let k2 = key_index(t2, application_id);
        assert(0 <= k2 < t2.len() && t2[k2].application_id == application_id);
        assert(k2 == k);
        assert forall|other: Seq<char>| other != application_id implies spec_lookup(t2, other)
            == spec_lookup(t, other) by {
            lemma_other_key_update(t, k, e, other);
        }
    } else {
        assert(t2 == t.push(e));
        assert forall|i: int, j: int| 0 <= i < j < t2.len() implies t2[i].application_id
            != t2[j].application_id by {
            if j < t.len() {
                assert(t[i].application_id != t[j].application_id);
            } else {
                assert(t2[j] == e);
                assert(t[i].application_id != application_id);
            }
        }
        assert(has_key(t2, application_id)) by {
            assert(t2[t.len() as int] == e);
        }
        let k2 = key_index(t2, application_id);
        assert(0 <= k2 < t2.len() && t2[k2].application_id == application_id);
        assert(k2 == t.len()) by {
            if k2 < t.len() {
                assert(t[k2].application_id == application_id);
            }
        }
        assert forall|other: Seq<char>| other != application_id implies spec_lookup(t2, other)
            == spec_lookup(t, other) by {
            lemma_other_key_push(t, e, other);
        }
    }
}

/// Overwriting row `k` changes no other key of a well-keyed table.
proof fn lemma_other_key_update(t: Seq<LeaseView>, k: int, e: LeaseView, other: Seq<char>)
    requires
        unique_keys(t),
        0 <= k < t.len(),
        other != e.application_id,
        t[k].application_id == e.application_id,
    ensures
        spec_lookup(t.update(k, e), other) == spec_lookup(t, other),
{
    let t2 = t.update(k, e);
    if has_key(t, other) {
        let i = key_index(t, other);
        assert(0 <= i < t.len() && t[i].application_id == other);
        assert(i != k);
        assert(t2[i].application_id == other);
        assert(has_key(t2, other));
        let i2 = key_index(t2, other);
        assert(0 <= i2 < t2.len() && t2[i2].application_id == other);
        assert(i2 != k);
        assert(t[i2].application_id == other);
        assert(i2 == i) by {
            if i < i2 {
                assert(t[i].application_id != t[i2].application_id);
            } else if i2 < i {
                assert(t[i2].application_id != t[i].application_id);
            }
        }
    } else {
        assert(!has_key(t2, other)) by {
            if has_key(t2, other) {
                let i2 = key_index(t2, other);
                assert(0 <= i2 < t2.len() && t2[i2].application_id == other);
                assert(i2 != k);
                assert(t[i2].application_id == other);
            }
        }
    }
}

/// Appending a fresh key changes no other key.
proof fn lemma_other_key_push(t: Seq<LeaseView>, e: LeaseView, other: Seq<char>)
    requires
        unique_keys(t),
        other != e.application_id,
    ensures
        spec_lookup(t.push(e), other) == spec_lookup(t, other),
{
    let t2 = t.push(e);
    if has_key(t, other) {
        let i = key_index(t, other);
        assert(0 <= i < t.len() && t[i].application_id == other);
        assert(t2[i].application_id == other);
        assert(has_key(t2, other));
        let i2 = key_index(t2, other);
        assert(0 <= i2 < t2.len() && t2[i2].application_id == other);
        assert(i2 != t.len());
        assert(i2 == i) by {
            if i < i2 {
                assert(t[i].application_id != t[i2].application_id);
            } else if i2 < i {
                assert(t[i2].application_id != t[i].application_id);
            }
        }
    } else {
        assert(!has_key(t2, other)) by {
            if has_key(t2, other) {
                let i2 = key_index(t2, other);
                assert(0 <= i2 < t2.len() && t2[i2].application_id == other);
                assert(i2 != t.len());
                assert(t[i2].application_id == other);
            }
        }
    }
}

/// Linear scan for the row keyed by `application_id`.
pub fn table_find(rows: &Vec<LeaseRecord>, application_id: &str) -> (r: Option<usize>)
    ensures
        match r {
            Some(k) => k < rows@.len() && table_view(rows@)[k as int].application_id
                == application_id@ && has_key(table_view(rows@), application_id@),
            None => !has_key(table_view(rows@), application_id@),
        },
{
    let key: String = application_id.to_owned();
    let n = rows.len();
    let mut i: usize = 0;
    while i < n
        invariant
            n == rows@.len(),
            key@ == application_id@,
            i <= n,
            forall|j: int| 0 <= j < i ==> table_view(rows@)[j].application_id != application_id@,
        decreases n - i,
    {
        if rows[i].application_id == key {
            assert(table_view(rows@)[i as int].application_id == application_id@);
            return Some(i);
        }
        assert(table_view(rows@)[i as int].application_id != application_id@);
        i = i + 1;
    }
    assert forall|j: int| 0 <= j < table_view(rows@).len() implies table_view(
        rows@,
    )[j].application_id != application_id@ by {}
    None
}

/// The point query over a row vector: the stored holder and expiry for
/// `application_id`, cloned out.
pub fn table_get(rows: &Vec<LeaseRecord>, application_id: &str) -> (r: Option<(String, u64)>)
    requires
        unique_keys(table_view(rows@)),
    ensures
        lease_opt_view(r) == spec_lookup(table_view(rows@), application_id@),
{
    let t = Ghost(table_view(rows@));
    match table_find(rows, application_id) {
        Some(k) => {
            let row = &rows[k];
            proof {
                let ki = key_index(t@, application_id@);
                let kk = k as int;
                assert(0 <= ki < t@.len() && t@[ki].application_id == application_id@);
                assert(ki == kk) by {
                    if ki < kk {
                        assert(t@[ki].application_id != t@[kk].application_id);
                    } else if kk < ki {
                        assert(t@[kk].application_id != t@[ki].application_id);
                    }
                }
            }
            Some((row.instance_id.clone(), row.validity))
        },
        None => None,
    }
}

/// The contents of an optional `(holder, expiry)` pair.
pub open spec fn lease_opt_view(o: Option<(String, u64)>) -> Option<(Seq<char>, u64)> {
    match o {
        Some((instance_id, validity)) => Some((instance_id@, validity)),
        None => None,
    }
}

/// A decided-but-not-yet-durable mutation: create the row for a first
/// grant, or overwrite holder and expiry for a renewal or takeover.
#[derive(Debug)]
pub enum DatabaseTask {
    Insert { application_id: String, instance_id: String, validity: u64 },
    Update { application_id: String, instance_id: String, validity: u64 },
}

/// The mathematical content of one task.
pub struct TaskView {
    pub is_insert: bool,
    pub application_id: Seq<char>,
    pub instance_id: Seq<char>,
    pub validity: u64,
}

impl View for DatabaseTask {
    type V = TaskView;

    open spec fn view(&self) -> TaskView {
        match self {
            DatabaseTask::Insert { application_id, instance_id, validity } => TaskView {
                is_insert: true,
                application_id: application_id@,
                instance_id: instance_id@,
                validity: *validity,
            },
            DatabaseTask::Update { application_id, instance_id, validity } => TaskView {
                is_insert: false,
                application_id: application_id@,
                instance_id: instance_id@,
                validity: *validity,
            },
        }
    }
}

impl DatabaseTask {
    /// The expiry the task will persist, promised back to the caller once
    /// the batch holding the task commits.
    pub fn get_validity(&self) -> (r: u64)
        ensures
            r == self@.validity,
    {
        match self {
            DatabaseTask::Insert { application_id: _, instance_id: _, validity } => *validity,
            DatabaseTask::Update { application_id: _, instance_id: _, validity } => *validity,
        }
    }
}

/// The row a task writes.
pub open spec fn task_lease(t: TaskView) -> LeaseView {
    LeaseView {
        application_id: t.application_id,
        instance_id: t.instance_id,
        validity: t.validity,
    }
}

/// The contents of a sequence of tasks, task by task.
pub open spec fn tasks_view(tasks: Seq<DatabaseTask>) -> Seq<TaskView> {
    tasks.map_values(|t: DatabaseTask| t@)
}

/// The table after one statement: an insert appends its row, an update
/// overwrites the keyed row and is a no-op when the key is absent.
pub open spec fn spec_apply_task(tbl: Seq<LeaseView>, task: TaskView) -> Seq<LeaseView> {
    if task.is_insert {
        tbl.push(task_lease(task))
    } else if has_key(tbl, task.application_id) {
        tbl.update(key_index(tbl, task.application_id), task_lease(task))
    } else {
        tbl
    }
}

/// Whether one statement can run against `tbl` without violating the
/// primary key: an insert demands a fresh key.
pub open spec fn spec_task_applicable(tbl: Seq<LeaseView>, task: TaskView) -> bool {
    task.is_insert ==> !has_key(tbl, task.application_id)
}

/// The table after a whole batch, statement by statement in order.
pub open spec fn spec_apply_tasks(tbl: Seq<LeaseView>, tasks: Seq<TaskView>) -> Seq<LeaseView>
    decreases tasks.len(),
{
    if tasks.len() == 0 {
        tbl
    } else {
        spec_apply_tasks(spec_apply_task(tbl, tasks[0]), tasks.drop_first())
    }
}

/// Whether a whole batch runs without a key violation, each statement
/// judged against the table its predecessors produced.
pub open spec fn spec_batch_applicable(tbl: Seq<LeaseView>, tasks: Seq<TaskView>) -> bool
    decreases tasks.len(),
{
    if tasks.len() == 0 {
        true
    } else {
        spec_task_applicable(tbl, tasks[0]) && spec_batch_applicable(
            spec_apply_task(tbl, tasks[0]),
            tasks.drop_first(),
        )
    }
}

/// An applicable statement behaves as one keyed store (or, for an update
/// of an absent key, as a no-op), so it keeps the key invariant and its
/// read-back follows [`lemma_set_properties`].
pub proof fn lemma_apply_task_properties(tbl: Seq<LeaseView>, task: TaskView)
    requires
        unique_keys(tbl),
        spec_task_applicable(tbl, task),
    ensures
        unique_keys(spec_apply_task(tbl, task)),
        (task.is_insert || has_key(tbl, task.application_id)) ==> spec_apply_task(tbl, task)
            == spec_set(tbl, task.application_id, task.instance_id, task.validity),
        !(task.is_insert || has_key(tbl, task.application_id)) ==> spec_apply_task(tbl, task)
            == tbl,
{
    if task.is_insert || has_key(tbl, task.application_id) {
        assert(spec_apply_task(tbl, task) == spec_set(
            tbl,
            task.application_id,
            task.instance_id,
            task.validity,
        ));
        lemma_set_properties(tbl, task.application_id, task.instance_id, task.validity);
    }
}

/// Appending one statement to a batch applies it after the rest.
pub proof fn lemma_apply_tasks_snoc(tbl: Seq<LeaseView>, tasks: Seq<TaskView>, task: TaskView)
    ensures
        spec_apply_tasks(tbl, tasks.push(task)) == spec_apply_task(
            spec_apply_tasks(tbl, tasks),
            task,
        ),
    decreases tasks.len(),
{
    if tasks.len() == 0 {
        assert(tasks.push(task)[0] == task);
        assert(tasks.push(task).drop_first() =~= tasks);
        assert(spec_apply_tasks(spec_apply_task(tbl, task), tasks) == spec_apply_task(tbl, task));
        assert(spec_apply_tasks(tbl, tasks) == tbl);
    } else {
        assert(tasks.push(task)[0] == tasks[0]);
        assert(tasks.push(task).drop_first() =~= tasks.drop_first().push(task));
        lemma_apply_tasks_snoc(spec_apply_task(tbl, tasks[0]), tasks.drop_first(), task);
    }
}

/// Appending one statement to a batch adds exactly one applicability
/// condition, judged against the table the batch produced.
pub proof fn lemma_batch_applicable_snoc(tbl: Seq<LeaseView>, tasks: Seq<TaskView>, task: TaskView)
    ensures
        spec_batch_applicable(tbl, tasks.push(task)) == (spec_batch_applicable(tbl, tasks)
            && spec_task_applicable(spec_apply_tasks(tbl, tasks), task)),
    decreases tasks.len(),
{
    if tasks.len() == 0 {
        assert(tasks.push(task)[0] == task);
        assert(tasks.push(task).drop_first() =~= tasks);
        assert(spec_batch_applicable(spec_apply_task(tbl, task), tasks));
        assert(spec_apply_tasks(tbl, tasks) == tbl);
        assert(spec_batch_applicable(tbl, tasks));
    } else {
        assert(tasks.push(task)[0] == tasks[0]);
        assert(tasks.push(task).drop_first() =~= tasks.drop_first().push(task));
        lemma_batch_applicable_snoc(spec_apply_task(tbl, tasks[0]), tasks.drop_first(), task);
    }
}

/// Inside an applicable batch, every statement is applicable to the table
/// its predecessors produced.
pub proof fn lemma_batch_applicable_prefix(tbl: Seq<LeaseView>, tasks: Seq<TaskView>, i: int)
    requires
        spec_batch_applicable(tbl, tasks),
        0 <= i < tasks.len(),
    ensures
        spec_task_applicable(spec_apply_tasks(tbl, tasks.take(i)), tasks[i]),
    decreases i,
{
    if i == 0 {
        assert(tasks.take(0) =~= Seq::<TaskView>::empty());
    } else {
        lemma_batch_applicable_prefix(spec_apply_task(tbl, tasks[0]), tasks.drop_first(), i - 1);
        assert(tasks.take(i)[0] == tasks[0]);
        assert(tasks.take(i).drop_first() =~= tasks.drop_first().take(i - 1));
        assert(tasks.drop_first()[i - 1] == tasks[i]);
    }
}

/// Mapping the row contents commutes with appending a row.
pub proof fn lemma_table_view_push(rows: Seq<LeaseRecord>, rec: LeaseRecord)
    ensures
        table_view(rows.push(rec)) =~= table_view(rows).push(rec@),
{
}

/// Mapping the task contents commutes with enqueueing a task.
pub proof fn lemma_tasks_view_push(tasks: Seq<DatabaseTask>, task: DatabaseTask)
    ensures
        tasks_view(tasks.push(task)) =~= tasks_view(tasks).push(task@),
{
}

/// Mapping the row contents commutes with overwriting a row.
pub proof fn lemma_table_view_update(rows: Seq<LeaseRecord>, k: int, rec: LeaseRecord)
    requires
        0 <= k < rows.len(),
    ensures
        table_view(rows.update(k, rec)) =~= table_view(rows).update(k, rec@),
{
}

/// A connection to the lease table, with the transactional behaviour the
/// engine relies on: point statements and all-or-nothing batches over a
/// table with one row per application id.
///
/// A durable backend sits behind this interface in a deployment; here the
/// table itself is held as plain rows so every statement's effect is
/// verified. The `fault` switch simulates a storage-layer failure: while
/// set, every write fails and leaves the table untouched.
pub struct Connection {
    pub rows: Vec<LeaseRecord>,
    pub fault: bool,
}

impl Connection {
    /// The current table contents.
    pub open spec fn table(&self) -> Seq<LeaseView> {
        table_view(self.rows@)
    }

    /// The primary-key invariant, established by `open` and preserved by
    /// every statement.
    pub open spec fn wf(&self) -> bool {
        unique_keys(self.table())
    }

    /// Whether the simulated storage fault is armed.
    pub open spec fn spec_fault(&self) -> bool {
        self.fault
    }

    /// Open a connection to a fresh, empty table.
    pub fn open() -> (r: LldResult<Connection>)
        ensures
            r matches Ok(c) && c.table().len() == 0 && c.wf() && !c.spec_fault(),
    {
        Ok(Connection { rows: Vec::new(), fault: false })
    }

    /// Arm or clear the simulated storage fault. The table is untouched.
    pub fn set_fault(&mut self, fault: bool)
        ensures
            final(self).table() == old(self).table(),
            final(self).spec_fault() == fault,
    {
        self.fault = fault;
    }

    /// Drop every row: the fresh-table statement run at startup.
    pub fn clear(&mut self) -> (r: LldResult<()>)
        requires
            old(self).wf(),
        ensures
            final(self).spec_fault() == old(self).spec_fault(),
            old(self).spec_fault() ==> r is Err && final(self).table() == old(self).table(),
            !old(self).spec_fault() ==> r is Ok && final(self).table().len() == 0,
            final(self).wf(),
    {
        if self.fault {
            return Err(LldError::DatabaseError { code: None, message: None });
        }
        self.rows.clear();
        Ok(())
    }

    /// Run one statement. An insert whose key is already present is a
    /// primary-key violation and fails; an update of an absent key
    /// matches no row and succeeds as a no-op; an armed fault fails every
    /// statement. A failed statement leaves the table untouched.
    pub fn execute(&mut self, task: &DatabaseTask) -> (r: LldResult<()>)
        requires
            old(self).wf(),
        ensures
            final(self).wf(),
            final(self).spec_fault() == old(self).spec_fault(),
            old(self).spec_fault() ==> r is Err && final(self).table() == old(self).table(),
            !old(self).spec_fault() ==> (if task@.is_insert && has_key(
                old(self).table(),
                task@.application_id,
            ) {
                r is Err && final(self).table() == old(self).table()
            } else {
                r is Ok && final(self).table() == spec_apply_task(old(self).table(), task@)
            }),
    {
        if self.fault {
            return Err(LldError::DatabaseError { code: None, message: None });
        }
        let ghost t0 = self.table();
        match task {
            DatabaseTask::Insert { application_id, instance_id, validity } => {
                match table_find(&self.rows, application_id.as_str()) {
                    Some(_) => Err(LldError::DatabaseError { code: None, message: None }),
                    None => {
                        let rec = LeaseRecord {
                            application_id: application_id.clone(),
                            instance_id: instance_id.clone(),
                            validity: *validity,
                        };
                        proof {
                            lemma_table_view_push(self.rows@, rec);
                            lemma_apply_task_properties(t0, task@);
                        }
                        self.rows.push(rec);
                        Ok(())
                    },
                }
            },
            DatabaseTask::Update { application_id, instance_id, validity } => {
                match table_find(&self.rows, application_id.as_str()) {
                    Some(k) => {
                        let rec = LeaseRecord {
                            application_id: application_id.clone(),
                            instance_id: instance_id.clone(),
                            validity: *validity,
                        };
                        proof {
                            let ki = key_index(t0, task@.application_id);
                            let kk = k as int;
                            assert(0 <= ki < t0.len() && t0[ki].application_id
                                == task@.application_id);
                            assert(ki == kk) by {
                                if ki < kk {
                                    assert(t0[ki].application_id != t0[kk].application_id);
                                } else if kk < ki {
                                    assert(t0[kk].application_id != t0[ki].application_id);
                                }
                            }
                            lemma_table_view_update(self.rows@, kk, rec);
                            lemma_apply_task_properties(t0, task@);
                        }
                        let slot = &mut self.rows[k];
                        *slot = rec;
                        Ok(())
                    },
                    None => {
                        proof {
                            lemma_apply_task_properties(t0, task@);
                        }
                        Ok(())
                    },
                }
            },
        }
    }

    /// Run a whole batch as one transaction: either every statement
    /// applies, in order, or — on an armed fault or a primary-key
    /// violation anywhere in the batch — the table is left exactly as it
    /// was and the transaction reports failure.
    pub fn execute_batch(&mut self, tasks: &Vec<DatabaseTask>) -> (r: LldResult<bool>)
        requires
            old(self).wf(),
        ensures
            final(self).wf(),
            final(self).spec_fault() == old(self).spec_fault(),
            r matches Ok(b) && (b == (!old(self).spec_fault() && spec_batch_applicable(
                old(self).table(),
                tasks_view(tasks@),
            ))),
            (r matches Ok(b) && b) ==> final(self).table() == spec_apply_tasks(
                old(self).table(),
                tasks_view(tasks@),
            ),
            !(r matches Ok(b) && b) ==> final(self).table() == old(self).table(),
    {
        let ghost t0 = self.table();
        let ghost all = tasks_view(tasks@);
        if self.fault {
            return Ok(false);
        }
        let mut scratch: Vec<LeaseRecord> = Vec::new();
        let n = self.rows.len();
        let mut i: usize = 0;
        while i < n
            invariant
                n == self.rows@.len(),
                i <= n,
                scratch@.len() == i,
                forall|j: int| 0 <= j < i ==> scratch@[j]@ == self.rows@[j]@,
            decreases n - i,
        {
            scratch.push(self.rows[i].duplicate());
            i = i + 1;
        }
        assert(table_view(scratch@) =~= t0);
        let m = tasks.len();
        let mut idx: usize = 0;
        while idx < m
            invariant
                m == tasks@.len(),
                idx <= m,
                all == tasks_view(tasks@),
                t0 == table_view(self.rows@),
                unique_keys(t0),
                unique_keys(table_view(scratch@)),
                spec_batch_applicable(t0, all.take(idx as int)),
                table_view(scratch@) == spec_apply_tasks(t0, all.take(idx as int)),
            decreases m - idx,
        {
            let ghost prefix = all.take(idx as int);
            let ghost cur = table_view(scratch@);
            let task = &tasks[idx];
            proof {
                assert(all[idx as int] == task@);
                assert(all.take(idx as int + 1) =~= prefix.push(task@));
                lemma_apply_tasks_snoc(t0, prefix, task@);
                lemma_batch_applicable_snoc(t0, prefix, task@);
            }
            match task {
                DatabaseTask::Insert { application_id, instance_id, validity } => {
                    match table_find(&scratch, application_id.as_str()) {
                        Some(_) => {
                            proof {
                                if spec_batch_applicable(t0, all) {
                                    lemma_batch_applicable_prefix(t0, all, idx as int);
                                    assert(false);
                                }
                            }
                            return Ok(false);
                        },
                        None => {
                            let rec = LeaseRecord {
                                application_id: application_id.clone(),
                                instance_id: instance_id.clone(),
                                validity: *validity,
                            };
                            proof {
                                lemma_table_view_push(scratch@, rec);
                                lemma_apply_task_properties(cur, task@);
                            }
                            scratch.push(rec);
                        },
                    }
                },
                DatabaseTask::Update { application_id, instance_id, validity } => {
                    match table_find(&scratch, application_id.as_str()) {
                        Some(k) => {
                            let rec = LeaseRecord {
                                application_id: application_id.clone(),
                                instance_id: instance_id.clone(),
                                validity: *validity,
                            };
                            proof {
                                let ki = key_index(cur, task@.application_id);
                                let kk = k as int;
                                assert(0 <= ki < cur.len() && cur[ki].application_id
                                    == task@.application_id);
                                assert(ki == kk) by {
                                    if ki < kk {
                                        assert(cur[ki].application_id != cur[kk].application_id);
                                    } else if kk < ki {
                                        assert(cur[kk].application_id != cur[ki].application_id);
                                    }
                                }
                                lemma_table_view_update(scratch@, kk, rec);
                                lemma_apply_task_properties(cur, task@);
                            }
                            let slot = &mut scratch[k];
                            *slot = rec;
                        },
                        None => {
                            proof {
                                lemma_apply_task_properties(cur, task@);
                            }
                        },
                    }
                },
            }
            idx = idx + 1;
        }
        assert(all.take(m as int) =~= all);
        self.rows = scratch;
        Ok(true)
    }
}

/// The lease table as the engine sees it: point query, point
/// insert/update, the startup scan that seeds the cache, and the atomic
/// multi-statement execute the batching worker uses.
pub struct Database {
    pub connection: Connection,
}

impl Database {
    /// The current table contents.
    pub open spec fn table(&self) -> Seq<LeaseView> {
        self.connection.table()
    }

    /// The primary-key invariant of the table.
    pub open spec fn wf(&self) -> bool {
        self.connection.wf()
    }

    /// Whether the simulated storage fault is armed.
    pub open spec fn spec_fault(&self) -> bool {
        self.connection.spec_fault()
    }

    /// Open the store: a fresh, empty lease table.
    pub fn open() -> (r: LldResult<Database>)
        ensures
            r matches Ok(db) && db.table().len() == 0 && db.wf() && !db.spec_fault(),
    {
        match Connection::open() {
            Ok(connection) => Ok(Database { connection }),
            Err(e) => Err(e),
        }
    }

    /// Reset the table to empty, as at first startup.
    pub fn init(&mut self) -> (r: LldResult<()>)
        requires
            old(self).wf(),
        ensures
            final(self).wf(),
            final(self).spec_fault() == old(self).spec_fault(),
            old(self).spec_fault() ==> r is Err && final(self).table() == old(self).table(),
            !old(self).spec_fault() ==> r is Ok && final(self).table().len() == 0,
    {
        self.connection.clear()
    }

    /// Arm or clear the simulated storage fault. The table is untouched.
    pub fn set_fault(&mut self, fault: bool)
        ensures
            final(self).table() == old(self).table(),
            final(self).spec_fault() == fault,
    {
        self.connection.set_fault(fault);
    }

    /// The startup scan: copy every row out, to seed the lease cache.
    pub fn build_cache(&self) -> (r: LldResult<CacheMap>)
        ensures
            r matches Ok(m) && table_view(m@) == self.table(),
    {
        let mut m: Vec<LeaseRecord> = Vec::new();
        let n = self.connection.rows.len();
        let mut i: usize = 0;
        while i < n
            invariant
                n == self.connection.rows@.len(),
                i <= n,
                m@.len() == i,
                forall|j: int| 0 <= j < i ==> m@[j]@ == self.connection.rows@[j]@,
            decreases n - i,
        {
            m.push(self.connection.rows[i].duplicate());
            i = i + 1;
        }
        assert(table_view(m@) =~= self.table());
        Ok(m)
    }

    /// The point query: the holder and expiry currently stored for
    /// `application_id`, if any.
    pub fn query_leasing(&self, application_id: &str) -> (r: LldResult<Option<(String, u64)>>)
        requires
            self.wf(),
        ensures
            r matches Ok(o) && lease_opt_view(o) == spec_lookup(self.table(), application_id@),
    {
        Ok(table_get(&self.connection.rows, application_id))
    }

    /// Persist a first grant: create the row for `application_id`. Fails
    /// on an armed fault or if the row already exists, leaving the table
    /// untouched.
    pub fn insert_leasing(&mut self, application_id: &str, instance_id: &str, validity: u64) -> (r:
        LldResult<bool>)
        requires
            old(self).wf(),
        ensures
            final(self).wf(),
            final(self).spec_fault() == old(self).spec_fault(),
            (old(self).spec_fault() || has_key(old(self).table(), application_id@)) ==> r is Err
                && final(self).table() == old(self).table(),
            !(old(self).spec_fault() || has_key(old(self).table(), application_id@)) ==> (
            r matches Ok(b) && b) && final(self).table() == old(self).table().push(
                LeaseView { application_id: application_id@, instance_id: instance_id@, validity },
            ),
    {
        let task = DatabaseTask::Insert {
            application_id: application_id.to_owned(),
            instance_id: instance_id.to_owned(),
            validity,
        };
        match self.connection.execute(&task) {
            Ok(()) => Ok(true),
            Err(e) => Err(e),
        }
    }

    /// Persist a renewal or takeover: overwrite holder and expiry of the
    /// row for `application_id`. Fails on an armed fault, leaving the
    /// table untouched; succeeds as a no-op when the row is absent.
    pub fn update_leasing(&mut self, application_id: &str, instance_id: &str, validity: u64) -> (r:
        LldResult<bool>)
        requires
            old(self).wf(),
        ensures
            final(self).wf(),
            final(self).spec_fault() == old(self).spec_fault(),
            old(self).spec_fault() ==> r is Err && final(self).table() == old(self).table(),
            !old(self).spec_fault() ==> (r matches Ok(b) && b) && final(self).table() == (if has_key(
                old(self).table(),
                application_id@,
            ) {
                old(self).table().update(
                    key_index(old(self).table(), application_id@),
                    LeaseView {
                        application_id: application_id@,
                        instance_id: instance_id@,
                        validity,
                    },
                )
            } else {
                old(self).table()
            }),
    {
        let task = DatabaseTask::Update {
            application_id: application_id.to_owned(),
            instance_id: instance_id.to_owned(),
            validity,
        };
        match self.connection.execute(&task) {
            Ok(()) => Ok(true),
            Err(e) => Err(e),
        }
    }

    /// Commit a drained batch as one transaction: all statements apply in
    /// order, or none does and the commit reports failure.
    pub fn execute_tasks(&mut self, tasks: &Vec<DatabaseTask>) -> (r: LldResult<bool>)
        requires
            old(self).wf(),
        ensures
            final(self).wf(),
            final(self).spec_fault() == old(self).spec_fault(),
            r matches Ok(b) && (b == (!old(self).spec_fault() && spec_batch_applicable(
                old(self).table(),
                tasks_view(tasks@),
            ))),
            (r matches Ok(b) && b) ==> final(self).table() == spec_apply_tasks(
                old(self).table(),
                tasks_view(tasks@),
            ),
            !(r matches Ok(b) && b) ==> final(self).table() == old(self).table(),
    {
        self.connection.execute_batch(tasks)
    }
}

} // verus!
