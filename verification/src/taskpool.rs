//! The named concurrent task pool: a registry of in-flight background
//! tasks, keyed by a reusable human-chosen name and disambiguated by a
//! never-reused numeric id.
//!
//! Two execution strategies coexist. A *blocking* task occupies a dedicated
//! worker thread and is cancelled cooperatively, through a shared flag that
//! its body is expected to poll. A *scheduled* task runs as a unit on the
//! async executor and is cancelled preemptively, by aborting it at its next
//! suspension point.
//!
//! The registry itself is modelled as a map from name to task: see
//! [`PoolModel`]. Every operation's contract is stated against that model.

use vstd::prelude::*;
use vstd::seq_lib::*;

use crate::error::{HackshellError, JoinFailure};
use crate::host;
use crate::host::{CancelFlag, JoinOutcome};

verus! {

/// One registry entry, mathematically: the spawn instance's never-reused
/// id, its start time, which execution strategy it runs under, and whether
/// its take-once completion cell has already been consumed.
pub ghost struct TaskModel {
    pub id: u64,
    pub started: i64,
    pub blocking: bool,
    pub consumed: bool,
}

/// One thing that happened to the registry, recorded (as ghost history)
/// in the order the pool performed it. The order of these events is part
/// of every operation's contract: in particular, evicting a name requests
/// the old task's cancellation strictly before the new task is registered.
pub enum PoolEvent {
    /// A task was registered under this fresh id.
    Spawned(u64),
    /// The task with this id was asked to stop (a blocking task's flag was
    /// cleared, a scheduled task was aborted).
    CancelRequested(u64),
    /// The task with this id left the registry.
    Removed(u64),
    /// The completion cell of the task with this id was consumed.
    Consumed(u64),
}

/// The pool, mathematically: the registered tasks keyed by name, the id
/// the next spawn will be given, and everything that has happened so far,
/// in order.
pub ghost struct PoolModel {
    pub tasks: Map<Seq<char>, TaskModel>,
    pub next_id: u64,
    pub events: Seq<PoolEvent>,
}

/// What one spawn call does to the pool: a fresh id is minted; the name now
/// holds a fresh, unconsumed task carrying that id and the requested
/// execution strategy (any previous occupant of the name is gone); every
/// other name is untouched. The start time is whatever the clock read.
pub open spec fn spawn_effect(pre: PoolModel, post: PoolModel, n: Seq<char>, blocking: bool) -> bool {
    &&& post.next_id == pre.next_id + 1
    &&& post.tasks.dom() == pre.tasks.dom().insert(n)
    &&& post.tasks[n].id == pre.next_id
    &&& post.tasks[n].blocking == blocking
    &&& post.tasks[n].consumed == false
    &&& forall|m: Seq<char>|
        m != n && pre.tasks.contains_key(m) ==> post.tasks[m] == #[trigger] pre.tasks[m]
    &&& post.events == pre.events + (if pre.tasks.contains_key(n) {
        seq![
            PoolEvent::CancelRequested(pre.tasks[n].id),
            PoolEvent::Removed(pre.tasks[n].id),
        ]
    } else {
        Seq::<PoolEvent>::empty()
    }) + seq![PoolEvent::Spawned(pre.next_id)]
}

/// How a join that reached an unconsumed completion cell settles, given
/// what the executor reported. The output comes back at most once: on
/// success the entry stays registered but consumed; a failed body
/// (panicked or aborted) is consumed and unregistered; when no executor is
/// reachable nothing changes, and the join can be retried.
pub open spec fn join_settles<T>(
    pre: PoolModel,
    post: PoolModel,
    n: Seq<char>,
    r: Result<Option<T>, HackshellError>,
) -> bool {
    match r {
        Ok(_) => post.tasks == pre.tasks.insert(
            n,
            TaskModel { consumed: true, ..pre.tasks[n] },
        ) && post.events == pre.events + seq![PoolEvent::Consumed(pre.tasks[n].id)],
        Err(e) => match e {
            HackshellError::JoinFailure(JoinFailure::SchedulerUnavailable) => post.tasks
                == pre.tasks && post.events == pre.events,
            HackshellError::JoinFailure(JoinFailure::TaskPanicked(_)) => post.tasks
                == pre.tasks.remove(n) && post.events == pre.events + seq![
                PoolEvent::Consumed(pre.tasks[n].id),
                PoolEvent::Removed(pre.tasks[n].id),
            ],
            HackshellError::JoinFailure(JoinFailure::Cancelled) => post.tasks == pre.tasks.remove(
                n,
            ) && post.events == pre.events + seq![
                PoolEvent::Consumed(pre.tasks[n].id),
                PoolEvent::Removed(pre.tasks[n].id),
            ],
            _ => false,
        },
    }
}

/// What a join hands back for each possible report of the executor: a
/// body that ran to completion has its output passed through exactly; a
/// panicked body becomes `TaskPanicked` carrying the captured payload
/// unchanged; an aborted one becomes `Cancelled`. `join` and `join_async`
/// route every executor report through this function, so their result is
/// never anything but the report's image.
pub fn settle_outcome<T>(o: JoinOutcome<T>) -> (r: Result<Option<T>, HackshellError>)
    ensures
        match o {
            JoinOutcome::Done(v) => r == Ok::<Option<T>, HackshellError>(v),
            JoinOutcome::Panicked(p) => (r matches Err(HackshellError::JoinFailure(
                JoinFailure::TaskPanicked(q),
            )) && q == p),
            JoinOutcome::Cancelled => r matches Err(HackshellError::JoinFailure(
                JoinFailure::Cancelled,
            )),
        },
{
    match o {
        JoinOutcome::Done(v) => Ok(v),
        JoinOutcome::Panicked(p) => Err(HackshellError::JoinFailure(JoinFailure::TaskPanicked(p))),
        JoinOutcome::Cancelled => Err(HackshellError::JoinFailure(JoinFailure::Cancelled)),
    }
}

/// Identity of one spawn instance: the reusable name, the time the task
/// was started (milliseconds since the Unix epoch), and the never-reused
/// id that tells this instance apart from others spawned under the same
/// name.
pub struct TaskMetadata {
    pub name: String,
    pub started: i64,
    pub id: u64,
}

impl Clone for TaskMetadata {
    fn clone(&self) -> (r: Self)
        ensures
            r.name@ == self.name@,
            r.started == self.started,
            r.id == self.id,
    {
        TaskMetadata { name: self.name.clone(), started: self.started, id: self.id }
    }
}

/// One live task: its metadata, the cancellation mechanism of its variant
/// (a cooperative flag for blocking tasks, nothing extra for scheduled
/// ones, whose probe can abort), the take-once completion cell, and a probe
/// that outlives the cell, able to abort the task and to report whether it
/// has finished.
#[verifier::reject_recursive_types(T)]
struct TaskEntry<T> {
    meta: TaskMetadata,
    flag: Option<CancelFlag>,
    cell: Option<tokio::task::JoinHandle<Option<T>>>,
    probe: tokio::task::AbortHandle,
}

impl<T> TaskEntry<T> {
    spec fn model(&self) -> TaskModel {
        TaskModel {
            id: self.meta.id,
            started: self.meta.started,
            blocking: self.flag is Some,
            consumed: self.cell is None,
        }
    }
}

spec fn has_name<T>(s: Seq<TaskEntry<T>>, n: Seq<char>) -> bool {
    exists|i: int| 0 <= i < s.len() && s[i].meta.name@ == n
}

spec fn name_index<T>(s: Seq<TaskEntry<T>>, n: Seq<char>) -> int {
    choose|i: int| 0 <= i < s.len() && s[i].meta.name@ == n
}

/// The registry a sequence of entries stands for.
spec fn tasks_of<T>(s: Seq<TaskEntry<T>>) -> Map<Seq<char>, TaskModel> {
    Map::new(|n: Seq<char>| has_name(s, n), |n: Seq<char>| s[name_index(s, n)].model())
}

/// No two entries share a name.
spec fn distinct_names<T>(s: Seq<TaskEntry<T>>) -> bool {
    forall|i: int, j: int| #![trigger s[i].meta.name@, s[j].meta.name@]
        0 <= i < j < s.len() ==> s[i].meta.name@ != s[j].meta.name@
}

/// Entries carry pairwise distinct names, and ids strictly increasing with
/// the position (hence pairwise distinct), all below the next fresh id.
spec fn wf_entries<T>(s: Seq<TaskEntry<T>>, next_id: u64) -> bool {
    &&& distinct_names(s)
    &&& forall|i: int, j: int| #![trigger s[i].meta.id, s[j].meta.id]
        0 <= i < j < s.len() ==> s[i].meta.id < s[j].meta.id
    &&& forall|i: int| 0 <= i < s.len() ==> #[trigger] s[i].meta.id < next_id
}

/// With distinct names, the entry the registry map holds at a name is the
/// entry at any index bearing that name.
proof fn lemma_tasks_of_at<T>(s: Seq<TaskEntry<T>>, i: int)
    requires
        distinct_names(s),
        0 <= i < s.len(),
    ensures
        tasks_of(s).contains_key(s[i].meta.name@),
        tasks_of(s)[s[i].meta.name@] == s[i].model(),
{
    let n = s[i].meta.name@;
    assert(has_name(s, n));
    let j = name_index(s, n);
    assert(0 <= j < s.len() && s[j].meta.name@ == n);
    if i != j {
        if i < j {
            assert(s[i].meta.name@ != s[j].meta.name@);
        } else {
            assert(s[j].meta.name@ != s[i].meta.name@);
        }
    }
}

/// Inserting an entry under a fresh name inserts its model into the map.
proof fn lemma_tasks_of_insert<T>(s: Seq<TaskEntry<T>>, k: int, e: TaskEntry<T>)
    requires
        distinct_names(s),
        0 <= k <= s.len(),
        !has_name(s, e.meta.name@),
    ensures
        distinct_names(s.insert(k, e)),
        tasks_of(s.insert(k, e)) =~= tasks_of(s).insert(e.meta.name@, e.model()),
{
    let s2 = s.insert(k, e);
    assert(s2[k] == e);
    assert forall|i: int, j: int| #![trigger s2[i].meta.name@, s2[j].meta.name@]
        0 <= i < j < s2.len() implies s2[i].meta.name@ != s2[j].meta.name@ by {
        let io = if i < k { i } else { i - 1 };
        let jo = if j < k { j } else { j - 1 };
        if i == k {
            assert(s2[j] == s[jo]);
            assert(!(s[jo].meta.name@ == e.meta.name@));
        } else if j == k {
            assert(s2[i] == s[io]);
            assert(!(s[io].meta.name@ == e.meta.name@));
        } else {
            assert(s2[i] == s[io]);
            assert(s2[j] == s[jo]);
        }
    }
    assert forall|n: Seq<char>| #[trigger] has_name(s2, n) implies (n == e.meta.name@ || has_name(
        s,
        n,
    )) by {
        let i = choose|i: int| 0 <= i < s2.len() && s2[i].meta.name@ == n;
        if i != k {
            let io = if i < k { i } else { i - 1 };
            assert(s[io] == s2[i]);
        }
    }
    assert forall|n: Seq<char>| #[trigger] has_name(s, n) implies has_name(s2, n) by {
        let i = choose|i: int| 0 <= i < s.len() && s[i].meta.name@ == n;
        let i2 = if i < k { i } else { i + 1 };
        assert(s2[i2] == s[i]);
    }
    assert(has_name(s2, e.meta.name@));
    assert forall|n: Seq<char>| #[trigger] has_name(s2, n) && n != e.meta.name@ implies tasks_of(
        s2,
    )[n] == tasks_of(s)[n] by {
        let i2 = name_index(s2, n);
        let i = name_index(s, n);
        assert(0 <= i2 < s2.len() && s2[i2].meta.name@ == n);
        assert(has_name(s, n));
        assert(0 <= i < s.len() && s[i].meta.name@ == n);
        let i2o = if i2 < k { i2 } else { i2 - 1 };
        assert(i2 != k);
        assert(s2[i2] == s[i2o]);
        if i != i2o {
            if i < i2o {
                assert(s[i].meta.name@ != s[i2o].meta.name@);
            } else {
                assert(s[i2o].meta.name@ != s[i].meta.name@);
            }
        }
    }
    assert(tasks_of(s2)[e.meta.name@] == e.model()) by {
        lemma_tasks_of_at(s2, k);
    }
}

/// Removing the entry at an index removes its name from the map.
proof fn lemma_tasks_of_remove<T>(s: Seq<TaskEntry<T>>, k: int)
    requires
        distinct_names(s),
        0 <= k < s.len(),
    ensures
        distinct_names(s.remove(k)),
        tasks_of(s.remove(k)) =~= tasks_of(s).remove(s[k].meta.name@),
{
    let s2 = s.remove(k);
    let n0 = s[k].meta.name@;
    assert forall|i: int, j: int| #![trigger s2[i].meta.name@, s2[j].meta.name@]
        0 <= i < j < s2.len() implies s2[i].meta.name@ != s2[j].meta.name@ by {
        let io = if i < k { i } else { i + 1 };
        let jo = if j < k { j } else { j + 1 };
        assert(s2[i] == s[io]);
        assert(s2[j] == s[jo]);
    }
    assert forall|n: Seq<char>| #[trigger] has_name(s2, n) implies has_name(s, n) && n != n0 by {
        let i = choose|i: int| 0 <= i < s2.len() && s2[i].meta.name@ == n;
        let io = if i < k { i } else { i + 1 };
        assert(s[io] == s2[i]);
        if io != k {
            if io < k {
                assert(s[io].meta.name@ != s[k].meta.name@);
            } else {
                assert(s[k].meta.name@ != s[io].meta.name@);
            }
        }
    }
    assert forall|n: Seq<char>| #[trigger] has_name(s, n) && n != n0 implies has_name(s2, n) by {
        let i = choose|i: int| 0 <= i < s.len() && s[i].meta.name@ == n;
        assert(i != k);
        let i2 = if i < k { i } else { i - 1 };
        assert(s2[i2] == s[i]);
    }
    assert forall|n: Seq<char>| #[trigger] has_name(s2, n) implies tasks_of(s2)[n] == tasks_of(
        s,
    )[n] by {
        let i2 = name_index(s2, n);
        assert(0 <= i2 < s2.len() && s2[i2].meta.name@ == n);
        let io = if i2 < k { i2 } else { i2 + 1 };
        assert(s2[i2] == s[io]);
        lemma_tasks_of_at(s, io);
        lemma_tasks_of_at(s2, i2);
    }
}

/// Removing an entry keeps the remaining entries well formed.
proof fn lemma_wf_remove<T>(s: Seq<TaskEntry<T>>, next_id: u64, k: int)
    requires
        wf_entries(s, next_id),
        0 <= k < s.len(),
    ensures
        wf_entries(s.remove(k), next_id),
{
    let s2 = s.remove(k);
    lemma_tasks_of_remove(s, k);
    assert forall|a: int, b: int| #![trigger s2[a].meta.id, s2[b].meta.id]
        0 <= a < b < s2.len() implies s2[a].meta.id < s2[b].meta.id by {
        let ao = if a < k { a } else { a + 1 };
        let bo = if b < k { b } else { b + 1 };
        assert(s2[a] == s[ao]);
        assert(s2[b] == s[bo]);
    }
    assert forall|a: int| 0 <= a < s2.len() implies #[trigger] s2[a].meta.id < next_id by {
        let ao = if a < k { a } else { a + 1 };
        assert(s2[a] == s[ao]);
    }
}

/// Inserting an entry whose id fits strictly between its neighbours', under
/// a fresh name, keeps the entries well formed.
proof fn lemma_wf_insert<T>(s: Seq<TaskEntry<T>>, next_id: u64, k: int, e: TaskEntry<T>)
    requires
        wf_entries(s, next_id),
        0 <= k <= s.len(),
        e.meta.id < next_id,
        forall|i: int| 0 <= i < k ==> #[trigger] s[i].meta.id < e.meta.id,
        forall|i: int| k <= i < s.len() ==> e.meta.id < #[trigger] s[i].meta.id,
        !has_name(s, e.meta.name@),
    ensures
        wf_entries(s.insert(k, e), next_id),
{
    let s2 = s.insert(k, e);
    lemma_tasks_of_insert(s, k, e);
    assert(s2[k] == e);
    assert forall|a: int, b: int| #![trigger s2[a].meta.id, s2[b].meta.id]
        0 <= a < b < s2.len() implies s2[a].meta.id < s2[b].meta.id by {
        let ao = if a < k { a } else { a - 1 };
        let bo = if b < k { b } else { b - 1 };
        if a == k {
            assert(s2[b] == s[bo]);
        } else if b == k {
            assert(s2[a] == s[ao]);
        } else {
            assert(s2[a] == s[ao]);
            assert(s2[b] == s[bo]);
        }
    }
    assert forall|a: int| 0 <= a < s2.len() implies #[trigger] s2[a].meta.id < next_id by {
        if a != k {
            let ao = if a < k { a } else { a - 1 };
            assert(s2[a] == s[ao]);
        }
    }
}

/// The registry map has exactly one key per entry.
proof fn lemma_tasks_of_len<T>(s: Seq<TaskEntry<T>>)
    requires
        distinct_names(s),
    ensures
        tasks_of(s).dom().finite(),
        tasks_of(s).dom().len() == s.len(),
{
    let names = Seq::new(s.len(), |i: int| s[i].meta.name@);
    assert forall|n: Seq<char>| #[trigger] tasks_of(s).dom().contains(n) implies names.to_set()
        .contains(n) by {
        let i = name_index(s, n);
        assert(0 <= i < s.len() && s[i].meta.name@ == n);
        assert(names[i] == n);
    }
    assert forall|n: Seq<char>| #[trigger] names.to_set().contains(n) implies tasks_of(s)
        .dom()
        .contains(n) by {
        let i = choose|i: int| 0 <= i < names.len() && names[i] == n;
        assert(s[i].meta.name@ == n);
    }
    assert(tasks_of(s).dom() =~= names.to_set());
    assert(names.no_duplicates());
    names.unique_seq_to_set();
}

/// The authoritative directory of in-flight named tasks.
///
/// Names are reusable keys; ids are minted at spawn time and never reused.
/// Spawning under an occupied name first evicts (cancels and unregisters)
/// the occupant, so at most one task is ever registered per name.
#[verifier::reject_recursive_types(T)]
pub struct TaskPool<T> {
    entries: Vec<TaskEntry<T>>,
    next_id: u64,
    events: Ghost<Seq<PoolEvent>>,
}

impl<T> View for TaskPool<T> {
    type V = PoolModel;

    closed spec fn view(&self) -> PoolModel {
        PoolModel {
            tasks: tasks_of(self.entries@),
            next_id: self.next_id,
            events: self.events@,
        }
    }
}

impl<T> TaskPool<T> {
    #[verifier::type_invariant]
    spec fn inv(&self) -> bool {
        wf_entries(self.entries@, self.next_id)
    }

    /// A pool with no tasks; ids start at zero.
    pub fn new() -> (p: Self)
        ensures
            p@.tasks == Map::<Seq<char>, TaskModel>::empty(),
            p@.next_id == 0,
            p@.events == Seq::<PoolEvent>::empty(),
    {
        let p = TaskPool { entries: Vec::new(), next_id: 0, events: Ghost(Seq::empty()) };
        proof {
            assert(p@.tasks =~= Map::<Seq<char>, TaskModel>::empty());
        }
        p
    }

    /// The index of the entry registered under `name`, if any.
    fn find(&self, name: &str) -> (r: Option<usize>)
        ensures
            match r {
                Some(i) => 0 <= i < self.entries@.len() && self.entries@[i as int].meta.name@
                    == name@,
                None => !has_name(self.entries@, name@),
            },
    {
        let key: String = name.to_owned();
        let n = self.entries.len();
        for i in 0..n
            invariant
                n == self.entries@.len(),
                key@ == name@,
                forall|j: int| 0 <= j < i ==> self.entries@[j].meta.name@ != name@,
        {
            if self.entries[i].meta.name == key {
                return Some(i);
            }
        }
        None
    }

    /// Signal cancellation on the task an entry stands for: request a
    /// cooperative stop of a blocking body, abort a scheduled one.
    fn kill_entry(e: &TaskEntry<T>) {
        match &e.flag {
            Some(f) => f.request_stop(),
            None => host::probe_abort(&e.probe),
        }
    }

    /// Signal cancellation on the task registered under `name`, if present,
    /// and unregister it; fail if the name is absent. The call returns as
    /// soon as cancellation is requested: a blocking body may keep running
    /// until it next polls its flag.
    pub fn remove(&mut self, name: &str) -> (r: Result<(), HackshellError>)
        ensures
            final(self)@.next_id == old(self)@.next_id,
            old(self)@.tasks.contains_key(name@) ==> r is Ok && final(self)@.tasks == old(
                self,
            )@.tasks.remove(name@) && final(self)@.events == old(self)@.events + seq![
                PoolEvent::CancelRequested(old(self)@.tasks[name@].id),
                PoolEvent::Removed(old(self)@.tasks[name@].id),
            ],
            !old(self)@.tasks.contains_key(name@) ==> (r matches Err(HackshellError::TaskNotFound))
                && *final(self) == *old(self),
    {
        proof {
            use_type_invariant(&*self);
        }
        match self.find(name) {
            Some(i) => {
                proof {
                    lemma_tasks_of_at(self.entries@, i as int);
                    lemma_wf_remove(self.entries@, self.next_id, i as int);
                    lemma_tasks_of_remove(self.entries@, i as int);
                }
                let mut entries: Vec<TaskEntry<T>> = Vec::new();
                std::mem::swap(&mut entries, &mut self.entries);
                let e = entries.remove(i);
                Self::kill_entry(&e);
                std::mem::swap(&mut entries, &mut self.entries);
                self.events = Ghost(
                    self.events@ + seq![
                        PoolEvent::CancelRequested(e.meta.id),
                        PoolEvent::Removed(e.meta.id),
                    ],
                );
                Ok(())
            },
            None => Err(HackshellError::TaskNotFound),
        }
    }

    /// Mint a fresh id and register a new entry under the (currently free)
    /// name, built around the given completion cell and cancellation
    /// mechanism.
    fn install(&mut self, name: &str, flag: Option<CancelFlag>, cell: tokio::task::JoinHandle<
        Option<T>,
    >)
        requires
            old(self)@.next_id < u64::MAX,
            !old(self)@.tasks.contains_key(name@),
        ensures
            final(self)@.next_id == old(self)@.next_id + 1,
            final(self)@.tasks.dom() == old(self)@.tasks.dom().insert(name@),
            final(self)@.tasks[name@].id == old(self)@.next_id,
            final(self)@.tasks[name@].blocking == (flag is Some),
            final(self)@.tasks[name@].consumed == false,
            forall|n: Seq<char>|
                n != name@ && old(self)@.tasks.contains_key(n) ==> final(self)@.tasks[n] == old(
                    self,
                )@.tasks[n],
            final(self)@.events == old(self)@.events + seq![
                PoolEvent::Spawned(old(self)@.next_id),
            ],
    {
        proof {
            use_type_invariant(&*self);
        }
        let id = self.next_id;
        self.next_id = id + 1;
        let probe = host::abort_handle_of(&cell);
        let started = host::now_millis();
        let entry = TaskEntry {
            meta: TaskMetadata { name: name.to_owned(), started, id },
            flag,
            cell: Some(cell),
            probe,
        };
        proof {
            lemma_wf_insert(self.entries@, self.next_id, self.entries@.len() as int, entry);
            lemma_tasks_of_insert(self.entries@, self.entries@.len() as int, entry);
        }
        let mut entries: Vec<TaskEntry<T>> = Vec::new();
        std::mem::swap(&mut entries, &mut self.entries);
        entries.push(entry);
        std::mem::swap(&mut entries, &mut self.entries);
        self.events = Ghost(self.events@ + seq![PoolEvent::Spawned(id)]);
        proof {
            assert(entries@ == Seq::<TaskEntry<T>>::empty());
            assert(self.entries@ == old(self).entries@.insert(
                old(self).entries@.len() as int,
                entry,
            )) by {
                assert(self.entries@ =~= old(self).entries@.insert(
                    old(self).entries@.len() as int,
                    entry,
                ));
            }
            assert(final(self)@.tasks.dom() =~= old(self)@.tasks.dom().insert(name@));
        }
    }

    /// Launch `f` on a dedicated worker thread under `name`, evicting and
    /// cancelling any task currently registered under that name, strictly
    /// before the new body can start. The body receives a fresh cooperative
    /// cancellation flag, which it is expected to poll; there is no
    /// guarantee the body has begun executing by the time this call
    /// returns. Fails only when the calling thread has no reachable
    /// executor to run the task on, or when the id space is exhausted.
    pub fn spawn<F>(&mut self, name: &str, f: F) -> (r: Result<(), HackshellError>) where
        T: Send + 'static,
        F: FnOnce(CancelFlag) -> Option<T> + Send + 'static,

        ensures
            match r {
                Ok(_) => old(self)@.next_id < u64::MAX && spawn_effect(
                    old(self)@,
                    final(self)@,
                    name@,
                    true,
                ),
                Err(e) => {
                    &&& if old(self)@.next_id == u64::MAX {
                        e matches HackshellError::Message(m) && m@ == "task id space exhausted"@
                    } else {
                        e matches HackshellError::JoinFailure(JoinFailure::SchedulerUnavailable)
                    }
                    &&& *final(self) == *old(self)
                },
            },
    {
        if self.next_id == u64::MAX {
            return Err(HackshellError::Message(String::from_str("task id space exhausted")));
        }
        let h = match host::current_handle() {
            Some(h) => h,
            None => {
                return Err(HackshellError::JoinFailure(JoinFailure::SchedulerUnavailable));
            },
        };
        let _ = self.remove(name);
        let flag = CancelFlag::new();
        let cell = host::start_blocking(&h, f, flag.dup());
        self.install(name, Some(flag), cell);
        proof {
            assert(final(self)@.tasks.dom() =~= old(self)@.tasks.dom().insert(name@));
            assert(final(self)@.events =~= old(self)@.events + (if old(
                self,
            )@.tasks.contains_key(name@) {
                seq![
                    PoolEvent::CancelRequested(old(self)@.tasks[name@].id),
                    PoolEvent::Removed(old(self)@.tasks[name@].id),
                ]
            } else {
                Seq::<PoolEvent>::empty()
            }) + seq![PoolEvent::Spawned(old(self)@.next_id)]);
        }
        Ok(())
    }

    /// Submit `fut` to the async executor under `name`, evicting and
    /// cancelling any task currently registered under that name, strictly
    /// before the new unit is submitted. No cooperative flag is handed to
    /// the body: cancellation of a scheduled task is preemptive, through
    /// abort. Fails only when the calling thread has no reachable executor,
    /// or when the id space is exhausted.
    pub fn spawn_async<F>(&mut self, name: &str, fut: F) -> (r: Result<(), HackshellError>) where
        T: Send + 'static,
        F: core::future::Future<Output = Option<T>> + Send + 'static,

        ensures
            match r {
                Ok(_) => old(self)@.next_id < u64::MAX && spawn_effect(
                    old(self)@,
                    final(self)@,
                    name@,
                    false,
                ),
                Err(e) => {
                    &&& if old(self)@.next_id == u64::MAX {
                        e matches HackshellError::Message(m) && m@ == "task id space exhausted"@
                    } else {
                        e matches HackshellError::JoinFailure(JoinFailure::SchedulerUnavailable)
                    }
                    &&& *final(self) == *old(self)
                },
            },
    {
        if self.next_id == u64::MAX {
            return Err(HackshellError::Message(String::from_str("task id space exhausted")));
        }
        let h = match host::current_handle() {
            Some(h) => h,
            None => {
                return Err(HackshellError::JoinFailure(JoinFailure::SchedulerUnavailable));
            },
        };
        let _ = self.remove(name);
        let cell = host::start_scheduled(&h, fut);
        self.install(name, None, cell);
        proof {
            assert(final(self)@.tasks.dom() =~= old(self)@.tasks.dom().insert(name@));
            assert(final(self)@.events =~= old(self)@.events + (if old(
                self,
            )@.tasks.contains_key(name@) {
                seq![
                    PoolEvent::CancelRequested(old(self)@.tasks[name@].id),
                    PoolEvent::Removed(old(self)@.tasks[name@].id),
                ]
            } else {
                Seq::<PoolEvent>::empty()
            }) + seq![PoolEvent::Spawned(old(self)@.next_id)]);
        }
        Ok(())
    }

    /// Block the calling thread until the task registered under `name`
    /// yields its result, and consume that result: the completion cell is a
    /// take-once slot, so a second join observes `AlreadyJoining`. A task
    /// that failed (panicked or was aborted) is unregistered by this call;
    /// one that completed normally stays registered, consumed, until the
    /// next snapshot sweeps it out. Call this from outside an async
    /// execution context: the executor refuses a blocking wait inside one.
    pub fn join(&mut self, name: &str) -> (r: Result<Option<T>, HackshellError>)
        ensures
            final(self)@.next_id == old(self)@.next_id,
            !old(self)@.tasks.contains_key(name@) ==> (r matches Err(HackshellError::TaskNotFound))
                && *final(self) == *old(self),
            old(self)@.tasks.contains_key(name@) && old(self)@.tasks[name@].consumed ==> (r matches
                Err(HackshellError::JoinFailure(JoinFailure::AlreadyJoining)))
                && final(self)@.tasks == old(self)@.tasks && final(self)@.events == old(
                self,
            )@.events,
            old(self)@.tasks.contains_key(name@) && !old(self)@.tasks[name@].consumed
                ==> join_settles(old(self)@, final(self)@, name@, r),
    {
        proof {
            use_type_invariant(&*self);
        }
        let i = match self.find(name) {
            Some(i) => i,
            None => {
                return Err(HackshellError::TaskNotFound);
            },
        };
        proof {
            lemma_tasks_of_at(self.entries@, i as int);
            lemma_wf_remove(self.entries@, self.next_id, i as int);
            lemma_tasks_of_remove(self.entries@, i as int);
        }
        let ghost s0 = self.entries@;
        let mut entries: Vec<TaskEntry<T>> = Vec::new();
        std::mem::swap(&mut entries, &mut self.entries);
        let entry = entries.remove(i);
        let TaskEntry { meta, flag, cell, probe } = entry;
        let id = meta.id;
        let jh = match cell {
            None => {
                let e2 = TaskEntry { meta, flag, cell: None, probe };
                proof {
                    Self::lemma_put_back(s0, self.next_id, i as int, e2);
                }
                entries.insert(i, e2);
                std::mem::swap(&mut entries, &mut self.entries);
                proof {
                    assert(final(self)@.tasks =~= old(self)@.tasks);
                }
                return Err(HackshellError::JoinFailure(JoinFailure::AlreadyJoining));
            },
            Some(jh) => jh,
        };
        let h = match host::current_handle() {
            Some(h) => h,
            None => {
                let e2 = TaskEntry { meta, flag, cell: Some(jh), probe };
                proof {
                    Self::lemma_put_back(s0, self.next_id, i as int, e2);
                }
                entries.insert(i, e2);
                std::mem::swap(&mut entries, &mut self.entries);
                proof {
                    assert(final(self)@.tasks =~= old(self)@.tasks);
                }
                return Err(HackshellError::JoinFailure(JoinFailure::SchedulerUnavailable));
            },
        };
        let out = match host::block_join(&h, jh) {
            Err(back) => {
                let e2 = TaskEntry { meta, flag, cell: Some(back), probe };
                proof {
                    Self::lemma_put_back(s0, self.next_id, i as int, e2);
                }
                entries.insert(i, e2);
                std::mem::swap(&mut entries, &mut self.entries);
                proof {
                    assert(final(self)@.tasks =~= old(self)@.tasks);
                }
                return Err(HackshellError::JoinFailure(JoinFailure::SchedulerUnavailable));
            },
            Ok(out) => out,
        };
        match settle_outcome(out) {
            Ok(v) => {
                let e2 = TaskEntry { meta, flag, cell: None, probe };
                proof {
                    Self::lemma_put_back(s0, self.next_id, i as int, e2);
                }
                entries.insert(i, e2);
                std::mem::swap(&mut entries, &mut self.entries);
                self.events = Ghost(self.events@ + seq![PoolEvent::Consumed(id)]);
                proof {
                    assert(self@.tasks =~= old(self)@.tasks.insert(
                        name@,
                        TaskModel { consumed: true, ..old(self)@.tasks[name@] },
                    ));
                }
                Ok(v)
            },
            Err(e) => {
                std::mem::swap(&mut entries, &mut self.entries);
                self.events = Ghost(
                    self.events@ + seq![PoolEvent::Consumed(id), PoolEvent::Removed(id)],
                );
                Err(e)
            },
        }
    }

    /// The cooperative counterpart of [`Self::join`], for scheduled tasks
    /// only: a blocking task's completion cell cannot safely be offered on
    /// this path, so asking for it fails with `CannotJoinAsync` and changes
    /// nothing. For a scheduled task this behaves exactly as `join` does,
    /// bridging into the executor from outside an async execution context.
    pub fn join_async(&mut self, name: &str) -> (r: Result<Option<T>, HackshellError>)
        ensures
            final(self)@.next_id == old(self)@.next_id,
            !old(self)@.tasks.contains_key(name@) ==> (r matches Err(HackshellError::TaskNotFound))
                && *final(self) == *old(self),
            old(self)@.tasks.contains_key(name@) && old(self)@.tasks[name@].blocking ==> (r matches
                Err(HackshellError::JoinFailure(JoinFailure::CannotJoinAsync)))
                && *final(self) == *old(self),
            old(self)@.tasks.contains_key(name@) && !old(self)@.tasks[name@].blocking && old(
                self,
            )@.tasks[name@].consumed ==> (r matches Err(
                HackshellError::JoinFailure(JoinFailure::AlreadyJoining),
            )) && final(self)@.tasks == old(self)@.tasks && final(self)@.events == old(
                self,
            )@.events,
            old(self)@.tasks.contains_key(name@) && !old(self)@.tasks[name@].blocking && !old(
                self,
            )@.tasks[name@].consumed ==> join_settles(old(self)@, final(self)@, name@, r),
    {
        proof {
            use_type_invariant(&*self);
        }
        let i = match self.find(name) {
            Some(i) => i,
            None => {
                return Err(HackshellError::TaskNotFound);
            },
        };
        proof {
            lemma_tasks_of_at(self.entries@, i as int);
        }
        if self.entries[i].flag.is_some() {
            return Err(HackshellError::JoinFailure(JoinFailure::CannotJoinAsync));
        }
        proof {
            lemma_wf_remove(self.entries@, self.next_id, i as int);
            lemma_tasks_of_remove(self.entries@, i as int);
        }
        let ghost s0 = self.entries@;
        let mut entries: Vec<TaskEntry<T>> = Vec::new();
        std::mem::swap(&mut entries, &mut self.entries);
        let entry = entries.remove(i);
        let TaskEntry { meta, flag, cell, probe } = entry;
        let id = meta.id;
        let jh = match cell {
            None => {
                let e2 = TaskEntry { meta, flag, cell: None, probe };
                proof {
                    Self::lemma_put_back(s0, self.next_id, i as int, e2);
                }
                entries.insert(i, e2);
                std::mem::swap(&mut entries, &mut self.entries);
                proof {
                    assert(final(self)@.tasks =~= old(self)@.tasks);
                }
                return Err(HackshellError::JoinFailure(JoinFailure::AlreadyJoining));
            },
            Some(jh) => jh,
        };
        let h = match host::current_handle() {
            Some(h) => h,
            None => {
                let e2 = TaskEntry { meta, flag, cell: Some(jh), probe };
                proof {
                    Self::lemma_put_back(s0, self.next_id, i as int, e2);
                }
                entries.insert(i, e2);
                std::mem::swap(&mut entries, &mut self.entries);
                proof {
                    assert(final(self)@.tasks =~= old(self)@.tasks);
                }
                return Err(HackshellError::JoinFailure(JoinFailure::SchedulerUnavailable));
            },
        };
        let out = match host::block_join(&h, jh) {
            Err(back) => {
                let e2 = TaskEntry { meta, flag, cell: Some(back), probe };
                proof {
                    Self::lemma_put_back(s0, self.next_id, i as int, e2);
                }
                entries.insert(i, e2);
                std::mem::swap(&mut entries, &mut self.entries);
                proof {
                    assert(final(self)@.tasks =~= old(self)@.tasks);
                }
                return Err(HackshellError::JoinFailure(JoinFailure::SchedulerUnavailable));
            },
            Ok(out) => out,
        };
        match settle_outcome(out) {
            Ok(v) => {
                let e2 = TaskEntry { meta, flag, cell: None, probe };
                proof {
                    Self::lemma_put_back(s0, self.next_id, i as int, e2);
                }
                entries.insert(i, e2);
                std::mem::swap(&mut entries, &mut self.entries);
                self.events = Ghost(self.events@ + seq![PoolEvent::Consumed(id)]);
                proof {
                    assert(self@.tasks =~= old(self)@.tasks.insert(
                        name@,
                        TaskModel { consumed: true, ..old(self)@.tasks[name@] },
                    ));
                }
                Ok(v)
            },
            Err(e) => {
                std::mem::swap(&mut entries, &mut self.entries);
                self.events = Ghost(
                    self.events@ + seq![PoolEvent::Consumed(id), PoolEvent::Removed(id)],
                );
                Err(e)
            },
        }
    }

    /// Metadata of every registered task, in registration order. Before
    /// the snapshot is taken, tasks that are done are unregistered — those
    /// whose completion cell was already consumed by a join, and those
    /// whose execution the probe reports finished: a task's own completion
    /// removes its entry at the next observation of the registry, matched
    /// by entry identity, so a name respawned in the meantime is never
    /// torn down by a stale cleanup.
    pub fn get_all(&mut self) -> (r: Vec<TaskMetadata>)
        ensures
            final(self)@.next_id == old(self)@.next_id,
            // Only done tasks are swept: what remains is a submap, and no
            // consumed entry survives the sweep.
            forall|n: Seq<char>| #[trigger]
                final(self)@.tasks.contains_key(n) ==> old(self)@.tasks.contains_key(n)
                    && final(self)@.tasks[n] == old(self)@.tasks[n],
            forall|n: Seq<char>| #[trigger]
                final(self)@.tasks.contains_key(n) ==> !final(self)@.tasks[n].consumed,
            // The snapshot is exact for the post-sweep registry.
            r@.len() == final(self)@.tasks.dom().len(),
            forall|i: int|
                0 <= i < r@.len() ==> #[trigger] final(self)@.tasks.contains_key(r@[i].name@)
                    && final(self)@.tasks[r@[i].name@].id == r@[i].id
                    && final(self)@.tasks[r@[i].name@].started == r@[i].started,
            forall|n: Seq<char>| #[trigger]
                final(self)@.tasks.contains_key(n) ==> exists|i: int|
                    0 <= i < r@.len() && r@[i].name@ == n,
            // The sweep appends only removal events to the history.
            exists|swept: Seq<PoolEvent>|
                final(self)@.events == old(self)@.events + swept && (forall|i: int|
                    0 <= i < swept.len() ==> #[trigger] swept[i] is Removed),
    {
        proof {
            use_type_invariant(&*self);
        }
        let mut entries: Vec<TaskEntry<T>> = Vec::new();
        std::mem::swap(&mut entries, &mut self.entries);
        let mut r: Vec<TaskMetadata> = Vec::new();
        let mut i: usize = 0;
        let ghost mut swept: Seq<PoolEvent> = Seq::empty();
        while i < entries.len()
            invariant
                i <= entries.len(),
                wf_entries(entries@, self.next_id),
                forall|n: Seq<char>| #[trigger]
                    tasks_of(entries@).contains_key(n) ==> old(self)@.tasks.contains_key(n)
                        && tasks_of(entries@)[n] == old(self)@.tasks[n],
                r@.len() == i,
                forall|j: int|
                    0 <= j < i ==> r@[j].name@ == #[trigger] entries@[j].meta.name@ && r@[j].id
                        == entries@[j].meta.id && r@[j].started == entries@[j].meta.started,
                forall|j: int| 0 <= j < i ==> #[trigger] entries@[j].cell is Some,
                self.entries@ == Seq::<TaskEntry<T>>::empty(),
                self.next_id == old(self)@.next_id,
                self.events@ == old(self)@.events + swept,
                forall|j: int| 0 <= j < swept.len() ==> #[trigger] swept[j] is Removed,
            decreases entries@.len() - i,
        {
            if entries[i].cell.is_none() || host::probe_finished(&entries[i].probe) {
                let ghost s_pre = entries@;
                proof {
                    lemma_wf_remove(entries@, self.next_id, i as int);
                    lemma_tasks_of_remove(entries@, i as int);
                }
                let e = entries.remove(i);
                self.events = Ghost(self.events@ + seq![PoolEvent::Removed(e.meta.id)]);
                proof {
                    swept = swept + seq![PoolEvent::Removed(e.meta.id)];
                    assert(self.events@ =~= old(self)@.events + swept);
                    assert forall|j: int| 0 <= j < i implies entries@[j] == s_pre[j] by {}
                }
            } else {
                r.push(entries[i].meta.clone());
                i += 1;
            }
        }
        std::mem::swap(&mut entries, &mut self.entries);
        proof {
            lemma_tasks_of_len(self.entries@);
            assert forall|k: int| 0 <= k < r@.len() implies
                #[trigger] final(self)@.tasks.contains_key(r@[k].name@)
                && final(self)@.tasks[r@[k].name@].id == r@[k].id
                && final(self)@.tasks[r@[k].name@].started == r@[k].started by {
                lemma_tasks_of_at(self.entries@, k);
            }
            assert forall|n: Seq<char>| #[trigger] final(self)@.tasks.contains_key(n) implies exists|
                k: int,
            | 0 <= k < r@.len() && r@[k].name@ == n by {
                let k = name_index(self.entries@, n);
                assert(0 <= k < r@.len() && r@[k].name@ == n);
            }
            assert forall|n: Seq<char>| #[trigger] final(self)@.tasks.contains_key(n) implies
                !final(self)@.tasks[n].consumed by {
                let k = name_index(self.entries@, n);
                assert(0 <= k < self.entries@.len() && self.entries@[k].meta.name@ == n);
                lemma_tasks_of_at(self.entries@, k);
                assert(self.entries@[k].cell is Some);
            }
        }
        r
    }

    /// The registry's standing invariant, stated on the model: the key set
    /// is finite, no id is duplicated across entries, and every registered
    /// id is below the next fresh one — so a respawned name always gets an
    /// id that never identified any live entry.
    pub fn lemma_registry_invariant(&self)
        ensures
            self@.tasks.dom().finite(),
            forall|n1: Seq<char>, n2: Seq<char>|
                self@.tasks.contains_key(n1) && self@.tasks.contains_key(n2) && n1 != n2
                    ==> #[trigger] self@.tasks[n1].id != #[trigger] self@.tasks[n2].id,
            forall|n: Seq<char>| #[trigger]
                self@.tasks.contains_key(n) ==> self@.tasks[n].id < self@.next_id,
    {
        proof {
            use_type_invariant(&*self);
            Self::registry_invariant_proof(*self);
        }
    }

    /// The body of [`Self::lemma_registry_invariant`], once the type
    /// invariant has been brought into scope.
    proof fn registry_invariant_proof(self)
        requires
            self.inv(),
        ensures
            self@.tasks.dom().finite(),
            forall|n1: Seq<char>, n2: Seq<char>|
                self@.tasks.contains_key(n1) && self@.tasks.contains_key(n2) && n1 != n2
                    ==> #[trigger] self@.tasks[n1].id != #[trigger] self@.tasks[n2].id,
            forall|n: Seq<char>| #[trigger]
                self@.tasks.contains_key(n) ==> self@.tasks[n].id < self@.next_id,
    {
        let s = self.entries@;
        lemma_tasks_of_len(s);
        assert forall|n1: Seq<char>, n2: Seq<char>|
            self@.tasks.contains_key(n1) && self@.tasks.contains_key(n2) && n1 != n2 implies
            #[trigger] self@.tasks[n1].id != #[trigger] self@.tasks[n2].id by {
            let i1 = name_index(s, n1);
            let i2 = name_index(s, n2);
            assert(0 <= i1 < s.len() && s[i1].meta.name@ == n1);
            assert(0 <= i2 < s.len() && s[i2].meta.name@ == n2);
            lemma_tasks_of_at(s, i1);
            lemma_tasks_of_at(s, i2);
            if i1 < i2 {
                assert(s[i1].meta.id < s[i2].meta.id);
            } else {
                assert(s[i2].meta.id < s[i1].meta.id);
            }
        }
        assert forall|n: Seq<char>| #[trigger]
            self@.tasks.contains_key(n) implies self@.tasks[n].id < self@.next_id by {
            let i = name_index(s, n);
            assert(0 <= i < s.len() && s[i].meta.name@ == n);
            lemma_tasks_of_at(s, i);
        }
    }

    /// What the removal and reinsertion of one entry (possibly with its
    /// completion cell consumed) does to the registry map.
    proof fn lemma_put_back(s0: Seq<TaskEntry<T>>, next_id: u64, i: int, e2: TaskEntry<T>)
        requires
            wf_entries(s0, next_id),
            0 <= i < s0.len(),
            e2.meta == s0[i].meta,
            e2.flag is Some <==> s0[i].flag is Some,
        ensures
            wf_entries(s0.remove(i).insert(i, e2), next_id),
            tasks_of(s0.remove(i).insert(i, e2)) =~= tasks_of(s0).insert(
                s0[i].meta.name@,
                e2.model(),
            ),
    {
        let s1 = s0.remove(i);
        let n = s0[i].meta.name@;
        lemma_wf_remove(s0, next_id, i);
        lemma_tasks_of_remove(s0, i);
        assert(!tasks_of(s1).contains_key(n));
        assert(!has_name(s1, n));
        assert forall|a: int| 0 <= a < i implies #[trigger] s1[a].meta.id < e2.meta.id by {
            assert(s1[a] == s0[a]);
        }
        assert forall|a: int| i <= a < s1.len() implies e2.meta.id < #[trigger] s1[a].meta.id by {
            assert(s1[a] == s0[a + 1]);
        }
        lemma_wf_insert(s1, next_id, i, e2);
        lemma_tasks_of_insert(s1, i, e2);
        assert(tasks_of(s1.insert(i, e2)) =~= tasks_of(s0).insert(n, e2.model()));
    }
}

/// Spawning twice under one name leaves exactly one entry registered under
/// it afterward: the second spawn's, carrying a strictly newer id than the
/// instance it replaced. No other name gains or loses an entry.
pub proof fn lemma_respawn_single_entry(
    m0: PoolModel,
    m1: PoolModel,
    m2: PoolModel,
    n: Seq<char>,
    b1: bool,
    b2: bool,
)
    requires
        spawn_effect(m0, m1, n, b1),
        spawn_effect(m1, m2, n, b2),
    ensures
        m2.tasks.dom() == m0.tasks.dom().insert(n),
        m2.tasks.contains_key(n),
        m2.tasks[n].id == m1.tasks[n].id + 1,
        // The first instance's cancellation was requested strictly before
        // the second instance was registered.
        exists|i: int, j: int|
            0 <= i < j < m2.events.len() && m2.events[i] == PoolEvent::CancelRequested(
                m1.tasks[n].id,
            ) && m2.events[j] == PoolEvent::Spawned(m2.tasks[n].id),
{
    assert(m2.tasks.dom() =~= m0.tasks.dom().insert(n));
    assert(m2.tasks.dom().contains(n));
    assert(m1.tasks.dom().contains(n));
    let i = m1.events.len() as int;
    let j = i + 2;
    assert(m2.events[i] == PoolEvent::CancelRequested(m1.tasks[n].id));
    assert(m2.events[j] == PoolEvent::Spawned(m2.tasks[n].id));
}

/// The registry's size tracks the operations exactly: a spawn adds one
/// entry when the name was free and replaces the occupant otherwise.
/// Together with `remove`'s contract (`tasks.remove`) and `get_all`
/// returning one metadata item per registered task, the snapshot's length
/// always equals tasks spawned minus tasks removed, as observed at that
/// point.
pub proof fn lemma_spawn_census(pre: PoolModel, post: PoolModel, n: Seq<char>, blocking: bool)
    requires
        pre.tasks.dom().finite(),
        spawn_effect(pre, post, n, blocking),
    ensures
        post.tasks.dom().finite(),
        pre.tasks.contains_key(n) ==> post.tasks.dom().len() == pre.tasks.dom().len(),
        !pre.tasks.contains_key(n) ==> post.tasks.dom().len() == pre.tasks.dom().len() + 1,
{
    if pre.tasks.contains_key(n) {
        assert(pre.tasks.dom().insert(n) =~= pre.tasks.dom());
    }
}

/// Removing a registered name shrinks the registry by exactly one entry.
pub proof fn lemma_remove_census(pre: PoolModel, post: PoolModel, n: Seq<char>)
    requires
        pre.tasks.dom().finite(),
        pre.tasks.contains_key(n),
        post.tasks == pre.tasks.remove(n),
    ensures
        post.tasks.dom().finite(),
        post.tasks.dom().len() == pre.tasks.dom().len() - 1,
{
}

/// A completion result is consumed at most once. A join that yielded the
/// output leaves the entry registered but consumed, under its original id;
/// on a consumed entry, the contracts of both `join` and `join_async`
/// allow only the `AlreadyJoining` failure, with the registry unchanged.
pub proof fn lemma_join_consumes(pre: PoolModel, post: PoolModel, n: Seq<char>)
    requires
        pre.tasks.contains_key(n),
        !pre.tasks[n].consumed,
        post.tasks == pre.tasks.insert(n, TaskModel { consumed: true, ..pre.tasks[n] }),
    ensures
        post.tasks.contains_key(n),
        post.tasks[n].consumed,
        post.tasks[n].id == pre.tasks[n].id,
{
}

impl<T> Default for TaskPool<T> {
    /// A pool with no tasks; ids start at zero.
    fn default() -> (p: Self)
        ensures
            p@.tasks == Map::<Seq<char>, TaskModel>::empty(),
            p@.next_id == 0,
            p@.events == Seq::<PoolEvent>::empty(),
    {
        TaskPool::new()
    }
}

} // verus!
